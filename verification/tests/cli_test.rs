use rummy_500::cli::{
    render_game_state, render_melds, session_after, parse_command, update_game_state, Command,
    Outcome, Session,
};
use rummy_500::game::{Card, Discard, Game, GameError, Player, Rank, Stockpile, Suit};

fn codes(cards: &[Card]) -> Vec<String> {
    cards.iter().map(|c| c.to_string()).collect()
}

fn sample() -> Game {
    let mut first = Player::new();
    first.cards = vec![
        Card::new(Suit::Hearts, Rank::Jack),
        Card::new(Suit::Spades, Rank::Jack),
        Card::new(Suit::Diamonds, Rank::Number(5)),
    ];
    first.melds = vec![Card::new(Suit::Clubs, Rank::Ace)];
    let mut second = Player::new();
    second.cards = vec![Card::new(Suit::Clubs, Rank::Number(2)), Card::new(Suit::Clubs, Rank::Number(10))];
    Game {
        deck: Stockpile { cards: vec![Card::new(Suit::Clubs, Rank::Number(3)), Card::new(Suit::Hearts, Rank::Queen)] },
        discard: Discard { cards: vec![Card::new(Suit::Diamonds, Rank::King)] },
        plrs: vec![first, second],
        cur_plr: 0,
    }
}

#[test]
fn commands_by_name_and_short_form() {
    assert_eq!(parse_command("draw"), Command::Draw);
    assert_eq!(parse_command("d"), Command::Draw);
    assert_eq!(parse_command("melds"), Command::Melds);
    assert_eq!(parse_command("ms"), Command::Melds);
    assert_eq!(parse_command("meld"), Command::Meld);
    assert_eq!(parse_command("m"), Command::Meld);
    assert_eq!(parse_command("layoff"), Command::Layoff);
    assert_eq!(parse_command("l"), Command::Layoff);
    assert_eq!(parse_command("discard"), Command::Discard);
    assert_eq!(parse_command("disc"), Command::Discard);
    assert_eq!(parse_command("help"), Command::Help);
    assert_eq!(parse_command("h"), Command::Help);
    assert_eq!(parse_command("quit"), Command::Quit);
    assert_eq!(parse_command("q"), Command::Quit);
}

#[test]
fn commands_in_any_case() {
    assert_eq!(parse_command("DRAW"), Command::Draw);
    assert_eq!(parse_command("Draw"), Command::Draw);
    assert_eq!(parse_command("D"), Command::Draw);
    assert_eq!(parse_command("MeLdS"), Command::Melds);
    assert_eq!(parse_command("DISC"), Command::Discard);
    assert_eq!(parse_command("Q"), Command::Quit);
    assert_eq!(parse_command("HELP"), Command::Help);
}

#[test]
fn unknown_commands() {
    assert_eq!(parse_command(""), Command::Unknown);
    assert_eq!(parse_command("dr"), Command::Unknown);
    assert_eq!(parse_command("draw "), Command::Unknown);
    assert_eq!(parse_command(" draw"), Command::Unknown);
    assert_eq!(parse_command("shuffle"), Command::Unknown);
    assert_eq!(parse_command("discard 5D"), Command::Unknown);
}

#[test]
fn named_takes_lower_case_only() {
    assert_eq!(Command::named("draw"), Command::Draw);
    assert_eq!(Command::named("ms"), Command::Melds);
    assert_eq!(Command::named("Draw"), Command::Unknown);
    assert_eq!(Command::named("Q"), Command::Unknown);
}

#[test]
fn which_commands_need_cards() {
    assert!(Command::Meld.needs_cards());
    assert!(Command::Discard.needs_cards());
    assert!(!Command::Draw.needs_cards());
    assert!(!Command::Melds.needs_cards());
    assert!(!Command::Layoff.needs_cards());
    assert!(!Command::Help.needs_cards());
    assert!(!Command::Quit.needs_cards());
    assert!(!Command::Unknown.needs_cards());
}

#[test]
fn draw_command_draws_for_the_current_player() {
    let mut game = sample();
    assert_eq!(update_game_state(&mut game, Command::Draw, ""), Outcome::Done);
    assert_eq!(codes(&game.plrs[0].cards), ["JH", "JS", "5D", "QH"]);
    assert_eq!(codes(&game.deck.cards), ["3C"]);
    assert_eq!(game.cur_plr, 0);
    assert_eq!(codes(&game.plrs[1].cards), ["2C", "1C"]);
    assert_eq!(session_after(&game, &Outcome::Done), Session::Continues);
    assert_eq!(update_game_state(&mut game, Command::Draw, ""), Outcome::Done);
    assert_eq!(session_after(&game, &Outcome::Done), Session::RoundOver);
    assert_eq!(
        update_game_state(&mut game, Command::Draw, ""),
        Outcome::Failed(GameError::StockpileExhausted)
    );
    assert_eq!(codes(&game.plrs[0].cards), ["JH", "JS", "5D", "QH", "3C"]);
}

#[test]
fn meld_command_takes_cards_out_of_the_hand() {
    let mut game = sample();
    assert_eq!(update_game_state(&mut game, Command::Meld, "jh, js"), Outcome::Done);
    assert_eq!(codes(&game.plrs[0].cards), ["5D"]);
    assert_eq!(game.cur_plr, 0);
    assert_eq!(
        update_game_state(&mut game, Command::Meld, "5d, 9h"),
        Outcome::Failed(GameError::CardNotFound(String::from("9H")))
    );
    assert_eq!(codes(&game.plrs[0].cards), ["5D"]);
}

#[test]
fn discard_command_ends_the_turn() {
    let mut game = sample();
    assert_eq!(update_game_state(&mut game, Command::Discard, "5d"), Outcome::Done);
    assert_eq!(codes(&game.plrs[0].cards), ["JH", "JS"]);
    assert_eq!(codes(&game.discard.cards), ["KD", "5D"]);
    assert_eq!(game.cur_plr, 1);
    assert_eq!(
        update_game_state(&mut game, Command::Discard, "5d"),
        Outcome::Failed(GameError::CardNotFound(String::from("5D")))
    );
    assert_eq!(game.cur_plr, 1);
    assert_eq!(update_game_state(&mut game, Command::Discard, "1c"), Outcome::Done);
    assert_eq!(game.cur_plr, 0);
    assert_eq!(codes(&game.plrs[1].cards), ["2C"]);
}

#[test]
fn other_commands_leave_the_game_alone() {
    for (command, outcome) in [
        (Command::Melds, Outcome::ShowMelds),
        (Command::Help, Outcome::ShowHelp),
        (Command::Quit, Outcome::Quit),
        (Command::Layoff, Outcome::Done),
        (Command::Unknown, Outcome::NotImplemented),
    ] {
        let mut game = sample();
        assert_eq!(update_game_state(&mut game, command, "jh"), outcome);
        assert_eq!(render_game_state(&game), render_game_state(&sample()));
        assert_eq!(render_melds(&game), render_melds(&sample()));
    }
}

#[test]
fn session_ends_on_quit_and_when_the_round_is_over() {
    let mut game = sample();
    assert_eq!(session_after(&game, &Outcome::Quit), Session::Ended);
    assert_eq!(session_after(&game, &Outcome::Done), Session::Continues);
    assert_eq!(session_after(&game, &Outcome::NotImplemented), Session::Continues);
    assert_eq!(session_after(&game, &Outcome::Failed(GameError::StockpileExhausted)), Session::Continues);
    game.plrs[1].cards.clear();
    assert_eq!(session_after(&game, &Outcome::ShowHelp), Session::RoundOver);
    assert_eq!(session_after(&game, &Outcome::Quit), Session::Ended);
}

#[test]
fn game_state_text() {
    let game = sample();
    let expected = "\n******************************\nPlayer 1's Turn:\n\nPlayer 1: JH | JS | 5D | \nPlayer 2: 2\n\nDeck: 2 Cards\nDiscard: KD | \n\n******************************\n";
    assert_eq!(render_game_state(&game), expected);
}

#[test]
fn game_state_text_for_the_second_player() {
    let mut game = sample();
    game.next_player();
    let expected = "\n******************************\nPlayer 2's Turn:\n\nPlayer 1: 3\nPlayer 2: 2C | 1C | \n\nDeck: 2 Cards\nDiscard: KD | \n\n******************************\n";
    assert_eq!(render_game_state(&game), expected);
}

#[test]
fn melds_text() {
    let game = sample();
    assert_eq!(render_melds(&game), "Player 1 Melds: AC | \nPlayer 2 Melds: \n");
}
