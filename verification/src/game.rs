//! The game: the stockpile, the discard pile, the players and whose turn it
//! is, with the moves that a turn is made of.

pub use crate::card::{Card, CardVec, Rank, Suit};
pub use crate::error::GameError;
pub use crate::player::Player;
use crate::player::{copy_cards, find_by_code, position_by_code, without_codes};
use crate::stockpile::standard_deck;
pub use crate::stockpile::{Discard, Stockpile};
use crate::text::{chars_of, normalize, normalized, pieces, split, string_of};
use vstd::prelude::*;

verus! {

/// The number of cards that each player holds when a game begins.
pub const STARTING_CARDS: usize = 13;

/// The codes that a typed list of cards asks for: the pieces between the
/// commas, each trimmed and in upper case.
pub open spec fn requested_codes(input: Seq<char>) -> Seq<Seq<char>> {
    Seq::new(pieces(input, ',').len(), |i: int| normalized(pieces(input, ',')[i]))
}

/// The hand that the player at `seat` gets when `hand_size` cards each are
/// dealt from the top of `deck`, player after player, one card at a time.
pub open spec fn hand_dealt(deck: Seq<Card>, hand_size: nat, seat: nat) -> Seq<Card> {
    deck.subrange(deck.len() - (seat + 1) * hand_size, deck.len() - seat * hand_size).reverse()
}

/// The seat whose turn it is after `turns` turns have passed, among
/// `num_players` players, when it was the turn of `seat` before.
pub open spec fn seat_after(seat: nat, num_players: nat, turns: nat) -> nat
    recommends
        num_players > 0,
    decreases turns,
{
    if turns == 0 {
        seat
    } else {
        (seat_after(seat, num_players, (turns - 1) as nat) + 1) % num_players
    }
}

/// The turn goes round: after `turns` turns it has moved on by that many
/// seats, counted round the table, and after as many turns as there are
/// players it is back where it was.
pub proof fn lemma_turns_go_round(seat: nat, num_players: nat, turns: nat)
    requires
        seat < num_players,
    ensures
        seat_after(seat, num_players, turns) == (seat + turns) % num_players,
        seat_after(seat, num_players, num_players) == seat,
{
    lemma_seat_after(seat, num_players, turns);
    lemma_seat_after(seat, num_players, num_players);
    assert((seat + num_players) % num_players == seat) by (nonlinear_arith)
        requires
            seat < num_players,
    ;
}

proof fn lemma_seat_after(seat: nat, num_players: nat, turns: nat)
    requires
        seat < num_players,
    ensures
        seat_after(seat, num_players, turns) == (seat + turns) % num_players,
    decreases turns,
{
    if turns == 0 {
        assert(seat % num_players == seat) by (nonlinear_arith)
            requires
                seat < num_players,
        ;
    } else {
        let before = (turns - 1) as nat;
        lemma_seat_after(seat, num_players, before);
        assert(((seat + before) % num_players + 1) % num_players == (seat + before + 1)
            % num_players) by (nonlinear_arith)
            requires
                num_players > 0,
        ;
    }
}

/// Right after a deal that gave each player at least one card and left
/// cards in the stockpile, the round is not over.
pub proof fn lemma_round_not_over_after_deal(
    game: Game,
    deck: Seq<Card>,
    num_players: nat,
    hand_size: nat,
)
    requires
        game.is_deal_of(deck, num_players, hand_size),
        hand_size > 0,
        num_players * hand_size < deck.len(),
    ensures
        !game.round_over(),
{
    assert forall|i: int| 0 <= i < game.plrs@.len() implies (#[trigger] game.plrs@[i]).cards@.len()
        != 0 by {
        assert(0 <= deck.len() - (i + 1) * hand_size && (deck.len() - i * hand_size) - (deck.len()
            - (i + 1) * hand_size) == hand_size && deck.len() - i * hand_size <= deck.len()) by (
        nonlinear_arith)
            requires
                0 <= i < num_players,
                num_players * hand_size < deck.len(),
        ;
    }
}

/// The state of a game.
pub struct Game {
    pub deck: Stockpile,
    pub discard: Discard,
    pub plrs: Vec<Player>,
    pub cur_plr: usize,
}

impl Game {
    /// The game has a player whose turn it is.
    pub open spec fn wf(&self) -> bool {
        self.cur_plr < self.plrs@.len()
    }

    /// The hand of the player whose turn it is.
    pub open spec fn hand(&self) -> Seq<Card>
        recommends
            self.wf(),
    {
        self.plrs@[self.cur_plr as int].cards@
    }

    /// The round is over once the stockpile or some player's hand is empty.
    pub open spec fn round_over(&self) -> bool {
        ||| self.deck.cards@.len() == 0
        ||| exists|i: int| 0 <= i < self.plrs@.len() && (#[trigger] self.plrs@[i]).cards@.len() == 0
    }

    /// The same players are in the game as in `before` and it is the same
    /// player's turn; among them nothing differs but, at most, the hand of
    /// that player.
    pub open spec fn same_players_but_hand(&self, before: Game) -> bool {
        &&& self.cur_plr == before.cur_plr
        &&& self.plrs@.len() == before.plrs@.len()
        &&& forall|i: int|
            0 <= i < self.plrs@.len() && i != self.cur_plr ==> self.plrs@[i] == before.plrs@[i]
        &&& self.plrs@[self.cur_plr as int].melds == before.plrs@[self.cur_plr as int].melds
        &&& self.plrs@[self.cur_plr as int].value == before.plrs@[self.cur_plr as int].value
    }

    /// The game is what dealing `hand_size` cards to each of `num_players`
    /// new players from the top of `deck` leaves: the first player to move,
    /// nothing discarded or melded, the rest of the deck as the stockpile.
    pub open spec fn is_deal_of(&self, deck: Seq<Card>, num_players: nat, hand_size: nat) -> bool {
        &&& self.deck.cards@ == deck.take(deck.len() - num_players * hand_size)
        &&& self.discard.cards@ == Seq::<Card>::empty()
        &&& self.cur_plr == 0
        &&& self.plrs@.len() == num_players
        &&& forall|i: int|
            0 <= i < num_players ==> {
                &&& (#[trigger] self.plrs@[i]).cards@ == hand_dealt(deck, hand_size, i as nat)
                &&& self.plrs@[i].melds@ == Seq::<Card>::empty()
                &&& self.plrs@[i].value == 0
            }
    }

    /// Begins a game with the given stockpile as it is: deals `cards_per_player`
    /// cards to each of `num_players` new players. A game without players is
    /// refused, and so is one for which the stockpile is too small.
    pub fn with_deck(deck: Stockpile, num_players: usize, cards_per_player: usize) -> (result:
        Result<Game, GameError>)
        ensures
            num_players == 0 ==> result == Err::<Game, GameError>(GameError::InvalidPlayerCount),
            num_players > 0 && num_players * cards_per_player > deck.cards@.len() ==> result
                == Err::<Game, GameError>(GameError::StockpileExhausted),
            num_players > 0 && num_players * cards_per_player <= deck.cards@.len() ==> {
                &&& result is Ok
                &&& result->Ok_0.wf()
                &&& result->Ok_0.is_deal_of(
                    deck.cards@,
                    num_players as nat,
                    cards_per_player as nat,
                )
            },
    {
        if num_players == 0 {
            return Err(GameError::InvalidPlayerCount);
        }
        let size = deck.cards.len();
        assert(num_players * cards_per_player <= size <==> (cards_per_player == 0 || num_players
            <= size / cards_per_player)) by (nonlinear_arith)
            requires
                num_players > 0,
        ;
        if cards_per_player != 0 && num_players > size / cards_per_player {
            return Err(GameError::StockpileExhausted);
        }
        let ghost start = deck.cards@;
        let ghost hand_size = cards_per_player as nat;
        let mut deck = deck;
        let mut players: Vec<Player> = Vec::new();
        let mut seat: usize = 0;
        assert(start.take(start.len() - 0 * hand_size) == start);
        while seat < num_players
            invariant
                seat <= num_players,
                hand_size == cards_per_player,
                num_players * hand_size <= start.len(),
                deck.cards@ == start.take(start.len() - seat * hand_size),
                players@.len() == seat,
                forall|i: int|
                    0 <= i < seat ==> {
                        &&& (#[trigger] players@[i]).cards@ == hand_dealt(start, hand_size, i as nat)
                        &&& players@[i].melds@ == Seq::<Card>::empty()
                        &&& players@[i].value == 0
                    },
            decreases num_players - seat,
        {
            let ghost below: int = start.len() - (seat + 1) * hand_size;
            let ghost above: int = start.len() - seat * hand_size;
            assert(0 <= below && above - below == hand_size && above <= start.len()) by (
            nonlinear_arith)
                requires
                    seat < num_players,
                    num_players * hand_size <= start.len(),
                    below == start.len() - (seat + 1) * hand_size,
                    above == start.len() - seat * hand_size,
            ;
            let mut player = Player::new();
            let dealt = deck.deal(&mut player, cards_per_player);
            assert(dealt is Ok);
            assert(deck.cards@ == start.take(below));
            assert(player.cards@ == hand_dealt(start, hand_size, seat as nat)) by {
                assert(start.take(above).skip(below) == start.subrange(below, above));
                assert(Seq::<Card>::empty() + start.subrange(below, above).reverse()
                    == start.subrange(below, above).reverse());
            }
            players.push(player);
            seat += 1;
        }
        Ok(Game { deck, discard: Discard::new(), plrs: players, cur_plr: 0 })
    }

    /// Begins a game: shuffles a new deck and deals `cards_per_player` cards
    /// to each of `num_players` new players. A game without players is
    /// refused, and so is one that needs more than the 52 cards of a deck.
    pub fn new(num_players: usize, cards_per_player: usize) -> (result: Result<Game, GameError>)
        ensures
            num_players == 0 ==> result == Err::<Game, GameError>(GameError::InvalidPlayerCount),
            num_players > 0 && num_players * cards_per_player > 52 ==> result == Err::<
                Game,
                GameError,
            >(GameError::StockpileExhausted),
            num_players > 0 && num_players * cards_per_player <= 52 ==> {
                &&& result is Ok
                &&& result->Ok_0.wf()
                &&& result->Ok_0.deck.cards@.len() == 52 - num_players * cards_per_player
                &&& forall|i: int|
                    0 <= i < num_players ==> (#[trigger] result->Ok_0.plrs@[i]).cards@.len()
                        == cards_per_player
                &&& exists|shuffled: Seq<Card>|
                    {
                        &&& shuffled.to_multiset() == standard_deck().to_multiset()
                        &&& #[trigger] result->Ok_0.is_deal_of(
                            shuffled,
                            num_players as nat,
                            cards_per_player as nat,
                        )
                    }
            },
    {
        let mut deck = Stockpile::new();
        deck.shuffle();
        let ghost shuffled = deck.cards@;
        let result = Game::with_deck(deck, num_players, cards_per_player);
        proof {
            if num_players > 0 && num_players * cards_per_player <= 52 {
                let game = result->Ok_0;
                assert(game.is_deal_of(shuffled, num_players as nat, cards_per_player as nat));
                assert forall|i: int| 0 <= i < num_players implies (#[trigger] game.plrs@[i]).cards@.len()
                    == cards_per_player by {
                    assert(0 <= 52 - (i + 1) * cards_per_player && (52 - i * cards_per_player) - (52
                        - (i + 1) * cards_per_player) == cards_per_player && 52 - i
                        * cards_per_player <= 52) by (nonlinear_arith)
                        requires
                            0 <= i < num_players,
                            num_players * cards_per_player <= 52,
                    ;
                }
            }
        }
        result
    }

    /// Passes the turn to the next player; after the last, to the first.
    pub fn next_player(&mut self)
        requires
            old(self).wf(),
        ensures
            final(self).cur_plr == (old(self).cur_plr + 1) % (old(self).plrs@.len() as int),
            final(self).cur_plr == seat_after(old(self).cur_plr as nat, old(self).plrs@.len(), 1),
            final(self).wf(),
            final(self).plrs == old(self).plrs,
            final(self).deck == old(self).deck,
            final(self).discard == old(self).discard,
    {
        let num_players = self.plrs.len();
        self.cur_plr += 1;
        self.cur_plr %= num_players;
        proof {
            reveal_with_fuel(seat_after, 2);
        }
    }

    /// Takes the cards named in `card_inputs`, a list of card codes with
    /// commas between them, out of the hand of the player whose turn it is.
    /// Each code is trimmed and put in upper case, and takes the first card
    /// in the hand with exactly that code. Where one of them finds no card,
    /// the hand stays as it was and the error holds that code.
    pub fn play_cards(&mut self, card_inputs: &str) -> (result: Result<(), GameError>)
        requires
            old(self).wf(),
        ensures
            final(self).wf(),
            match without_codes(old(self).hand(), requested_codes(card_inputs@)) {
                Ok(hand) => {
                    &&& result is Ok
                    &&& final(self).hand() == hand
                    &&& final(self).same_players_but_hand(*old(self))
                    &&& final(self).deck == old(self).deck
                    &&& final(self).discard == old(self).discard
                },
                Err(code) => {
                    &&& result matches Err(GameError::CardNotFound(text)) && text@ == code
                    &&& *final(self) == *old(self)
                },
            },
    {
        let chars = chars_of(card_inputs);
        let parts = split(&chars, ',');
        let mut hand = copy_cards(&self.plrs[self.cur_plr].cards);
        let ghost codes = requested_codes(card_inputs@);
        let mut k: usize = 0;
        assert(codes.skip(0) == codes);
        while k < parts.len()
            invariant
                k <= parts.len(),
                old(self).wf(),
                codes == requested_codes(card_inputs@),
                parts@.len() == codes.len(),
                forall|i: int| 0 <= i < codes.len() ==> codes[i] == normalized(#[trigger] parts@[i]@),
                without_codes(old(self).hand(), codes) == without_codes(hand@, codes.skip(k as int)),
                *self == *old(self),
            decreases parts.len() - k,
        {
            assert(codes.skip(k as int).drop_first() == codes.skip(k + 1));
            assert(codes.skip(k as int)[0] == codes[k as int]);
            let code = normalize(&parts[k]);
            match find_by_code(&hand, &code) {
                Some(i) => {
                    proof {
                        crate::player::lemma_position_by_code(hand@, code@);
                    }
                    hand.remove(i);
                },
                None => {
                    return Err(GameError::CardNotFound(string_of(&code)));
                },
            }
            k += 1;
        }
        self.plrs[self.cur_plr].cards = hand;
        Ok(())
    }

    /// Moves the card named in `card_input` from the hand of the player
    /// whose turn it is to the discard pile. The code is trimmed and put in
    /// upper case, and takes the first card in the hand with exactly that
    /// code. Where there is none, nothing changes and the error holds the
    /// code. The turn does not pass by this.
    pub fn discard_card(&mut self, card_input: &str) -> (result: Result<(), GameError>)
        requires
            old(self).wf(),
        ensures
            final(self).wf(),
            match position_by_code(old(self).hand(), normalized(card_input@)) {
                Some(i) => {
                    &&& result is Ok
                    &&& final(self).hand() == old(self).hand().remove(i)
                    &&& final(self).discard.cards@ == old(self).discard.cards@.push(
                        old(self).hand()[i],
                    )
                    &&& final(self).same_players_but_hand(*old(self))
                    &&& final(self).deck == old(self).deck
                },
                None => {
                    &&& result matches Err(GameError::CardNotFound(text)) && text@ == normalized(
                        card_input@,
                    )
                    &&& *final(self) == *old(self)
                },
            },
    {
        let chars = chars_of(card_input);
        let code = normalize(&chars);
        match find_by_code(&self.plrs[self.cur_plr].cards, &code) {
            Some(i) => {
                proof {
                    crate::player::lemma_position_by_code(self.hand(), code@);
                }
                let card = self.plrs[self.cur_plr].cards.remove(i);
                self.discard.cards.push(card);
                Ok(())
            },
            None => Err(GameError::CardNotFound(string_of(&code))),
        }
    }

    /// Whether the round is over: the stockpile is empty, or some player's
    /// hand is.
    pub fn is_round_over(&self) -> (over: bool)
        ensures
            over == self.round_over(),
    {
        if self.deck.cards.is_empty() {
            return true;
        }
        let mut i: usize = 0;
        while i < self.plrs.len()
            invariant
                i <= self.plrs@.len(),
                forall|k: int| 0 <= k < i ==> (#[trigger] self.plrs@[k]).cards@.len() != 0,
            decreases self.plrs.len() - i,
        {
            if self.plrs[i].cards.is_empty() {
                return true;
            }
            i += 1;
        }
        false
    }
}

} // verus!
