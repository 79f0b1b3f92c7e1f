use rummy_500::game::{Card, GameError, Player, Rank, Stockpile, Suit};
use rummy_500::player::{copy_cards, find_by_code, find_by_value};

fn codes(cards: &[Card]) -> Vec<String> {
    cards.iter().map(|c| c.to_string()).collect()
}

fn jh() -> Card {
    Card::new(Suit::Hearts, Rank::Jack)
}

fn js() -> Card {
    Card::new(Suit::Spades, Rank::Jack)
}

fn d5() -> Card {
    Card::new(Suit::Diamonds, Rank::Number(5))
}

fn h9() -> Card {
    Card::new(Suit::Hearts, Rank::Number(9))
}

#[test]
fn new_player_is_empty() {
    let player = Player::new();
    assert!(player.cards.is_empty());
    assert!(player.melds.is_empty());
    assert_eq!(player.value, 0);
}

#[test]
fn draw_takes_the_top_card() {
    let mut deck = Stockpile::new();
    let mut player = Player::new();
    assert_eq!(player.draw(&mut deck), Ok(()));
    assert_eq!(codes(&player.cards), ["KS"]);
    assert_eq!(deck.cards.len(), 51);
    assert_eq!(deck.cards[50].to_string(), "QS");
    assert_eq!(player.draw(&mut deck), Ok(()));
    assert_eq!(codes(&player.cards), ["KS", "QS"]);
    assert!(player.melds.is_empty());
    assert_eq!(player.value, 0);
}

#[test]
fn draw_from_an_empty_stockpile_is_refused() {
    let mut deck = Stockpile { cards: vec![] };
    let mut player = Player::new();
    player.cards.push(jh());
    assert_eq!(player.draw(&mut deck), Err(GameError::StockpileExhausted));
    assert_eq!(codes(&player.cards), ["JH"]);
    assert!(deck.cards.is_empty());
}

#[test]
fn deal_moves_cards_from_the_top_one_at_a_time() {
    let mut deck = Stockpile::new();
    let mut player = Player::new();
    player.cards.push(d5());
    assert_eq!(deck.deal(&mut player, 3), Ok(()));
    assert_eq!(codes(&player.cards), ["5D", "KS", "QS", "JS"]);
    assert_eq!(deck.cards.len(), 49);
    assert_eq!(deck.cards[48].to_string(), "AS");
    assert_eq!(deck.cards[0].to_string(), "2C");
}

#[test]
fn deal_of_nothing_changes_nothing() {
    let mut deck = Stockpile::new();
    let mut player = Player::new();
    assert_eq!(deck.deal(&mut player, 0), Ok(()));
    assert_eq!(deck.cards.len(), 52);
    assert!(player.cards.is_empty());
}

#[test]
fn deal_of_the_whole_deck() {
    let mut deck = Stockpile::new();
    let mut player = Player::new();
    assert_eq!(deck.deal(&mut player, 52), Ok(()));
    assert!(deck.cards.is_empty());
    assert_eq!(player.cards.len(), 52);
    assert_eq!(player.cards[51].to_string(), "2C");
}

#[test]
fn deal_of_too_many_is_refused_and_moves_none() {
    let mut deck = Stockpile::new();
    let mut player = Player::new();
    assert_eq!(deck.deal(&mut player, 53), Err(GameError::StockpileExhausted));
    assert_eq!(deck.cards.len(), 52);
    assert!(player.cards.is_empty());
    let mut small = Stockpile { cards: vec![jh(), js()] };
    assert_eq!(small.deal(&mut player, 3), Err(GameError::StockpileExhausted));
    assert_eq!(codes(&small.cards), ["JH", "JS"]);
    assert!(player.cards.is_empty());
}

#[test]
fn shuffle_keeps_the_cards() {
    let mut deck = Stockpile::new();
    deck.shuffle();
    assert_eq!(deck.cards.len(), 52);
    let mut before = codes(&Stockpile::new().cards);
    let mut after = codes(&deck.cards);
    before.sort();
    after.sort();
    assert_eq!(before, after);
}

#[test]
fn shuffle_changes_the_order() {
    let fresh = codes(&Stockpile::new().cards);
    let mut deck = Stockpile::new();
    deck.shuffle();
    assert_ne!(codes(&deck.cards), fresh);
}

#[test]
fn find_by_value_gives_the_first_of_equal_points() {
    let hand = vec![d5(), jh(), js(), h9()];
    assert_eq!(find_by_value(&hand, &js()), Some(1));
    assert_eq!(find_by_value(&hand, &Card::new(Suit::Clubs, Rank::King)), Some(1));
    assert_eq!(find_by_value(&hand, &Card::new(Suit::Clubs, Rank::Number(10))), Some(1));
    assert_eq!(find_by_value(&hand, &Card::new(Suit::Clubs, Rank::Number(9))), Some(3));
    assert_eq!(find_by_value(&hand, &Card::new(Suit::Clubs, Rank::Ace)), None);
    assert_eq!(find_by_value(&vec![], &jh()), None);
}

#[test]
fn find_by_code_is_exact() {
    let hand = vec![d5(), jh(), js(), h9(), js()];
    assert_eq!(find_by_code(&hand, &vec!['J', 'S']), Some(2));
    assert_eq!(find_by_code(&hand, &vec!['J', 'H']), Some(1));
    assert_eq!(find_by_code(&hand, &vec!['5', 'D']), Some(0));
    assert_eq!(find_by_code(&hand, &vec!['J', 'C']), None);
    assert_eq!(find_by_code(&hand, &vec!['j', 's']), None);
    assert_eq!(find_by_code(&hand, &vec![]), None);
    assert_eq!(find_by_code(&vec![], &vec!['J', 'S']), None);
}

#[test]
fn copy_cards_copies() {
    let hand = vec![d5(), jh(), js()];
    assert_eq!(codes(&copy_cards(&hand)), ["5D", "JH", "JS"]);
    assert!(copy_cards(&vec![]).is_empty());
}

#[test]
fn play_moves_the_first_card_of_equal_points_to_the_melds() {
    let mut player = Player::new();
    player.cards = vec![d5(), jh(), js(), h9()];
    player.melds = vec![Card::new(Suit::Clubs, Rank::Ace)];
    let king = Card::new(Suit::Clubs, Rank::King);
    assert_eq!(player.play(vec![king, Card::new(Suit::Spades, Rank::Number(9))]), Ok(()));
    assert_eq!(codes(&player.cards), ["5D", "JS"]);
    assert_eq!(codes(&player.melds), ["AC", "JH", "9H"]);
    assert_eq!(player.value, 0);
}

#[test]
fn play_takes_a_card_once() {
    let mut player = Player::new();
    player.cards = vec![jh(), d5(), js()];
    assert_eq!(player.play(vec![js(), js()]), Ok(()));
    assert_eq!(codes(&player.cards), ["5D"]);
    assert_eq!(codes(&player.melds), ["JH", "JS"]);
}

#[test]
fn play_of_a_missing_card_moves_nothing() {
    let mut player = Player::new();
    player.cards = vec![jh(), js(), d5()];
    let result = player.play(vec![jh(), h9()]);
    assert!(matches!(result, Err(GameError::CardNotInHand(card)) if card.to_string() == "9H"));
    assert_eq!(codes(&player.cards), ["JH", "JS", "5D"]);
    assert!(player.melds.is_empty());
}

#[test]
fn play_of_more_equal_cards_than_the_hand_holds_moves_nothing() {
    let mut player = Player::new();
    player.cards = vec![jh(), d5()];
    let result = player.play(vec![js(), jh()]);
    assert!(matches!(result, Err(GameError::CardNotInHand(card)) if card.to_string() == "JH"));
    assert_eq!(codes(&player.cards), ["JH", "5D"]);
    assert!(player.melds.is_empty());
}

#[test]
fn play_of_no_cards_changes_nothing() {
    let mut player = Player::new();
    player.cards = vec![jh()];
    assert_eq!(player.play(vec![]), Ok(()));
    assert_eq!(codes(&player.cards), ["JH"]);
    assert!(player.melds.is_empty());
}

#[test]
fn discard_takes_the_card_into_the_hand() {
    let mut player = Player::new();
    player.cards = vec![jh()];
    player.discard(d5());
    assert_eq!(codes(&player.cards), ["JH", "5D"]);
    assert!(player.melds.is_empty());
    assert_eq!(player.value, 0);
}
