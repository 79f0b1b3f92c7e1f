//! A player: the hand, the melds laid down, and the score.

use crate::card::Card;
use crate::error::GameError;
use crate::stockpile::Stockpile;
use vstd::prelude::*;
use vstd::std_specs::cmp::PartialEqSpec;

verus! {

/// The place of the first card in the hand that is worth the same points as
/// `card`, if there is one.
pub open spec fn position_by_value(hand: Seq<Card>, card: Card) -> Option<int>
    decreases hand.len(),
{
    if hand.len() == 0 {
        None
    } else if hand[0].same_rank_value(card) {
        Some(0)
    } else {
        match position_by_value(hand.drop_first(), card) {
            Some(i) => Some(i + 1),
            None => None,
        }
    }
}

/// The place that `position_by_value` gives holds a card of the same points,
/// and no card before it does; where it gives none, no card of the hand does.
pub proof fn lemma_position_by_value(hand: Seq<Card>, card: Card)
    ensures
        match position_by_value(hand, card) {
            Some(i) => {
                &&& 0 <= i < hand.len()
                &&& hand[i].same_rank_value(card)
                &&& forall|k: int| 0 <= k < i ==> !(#[trigger] hand[k]).same_rank_value(card)
            },
            None => forall|k: int| 0 <= k < hand.len() ==> !(#[trigger] hand[k]).same_rank_value(
                card,
            ),
        },
    decreases hand.len(),
{
    if hand.len() > 0 && !hand[0].same_rank_value(card) {
        let rest = hand.drop_first();
        lemma_position_by_value(rest, card);
        match position_by_value(rest, card) {
            Some(i) => {
                assert forall|k: int| 0 <= k < i + 1 implies !(#[trigger] hand[k]).same_rank_value(
                    card,
                ) by {
                    if k > 0 {
                        assert(hand[k] == rest[k - 1]);
                    }
                }
            },
            None => {
                assert forall|k: int| 0 <= k < hand.len() implies !(
                #[trigger] hand[k]).same_rank_value(card) by {
                    if k > 0 {
                        assert(hand[k] == rest[k - 1]);
                    }
                }
            },
        }
    }
}

/// The place of the first card in the hand whose code is exactly `code`, if
/// there is one.
pub open spec fn position_by_code(hand: Seq<Card>, code: Seq<char>) -> Option<int>
    decreases hand.len(),
{
    if hand.len() == 0 {
        None
    } else if hand[0].code() == code {
        Some(0)
    } else {
        match position_by_code(hand.drop_first(), code) {
            Some(i) => Some(i + 1),
            None => None,
        }
    }
}

/// The place that `position_by_code` gives holds a card with that code, and
/// no card before it does; where it gives none, no card of the hand does.
pub proof fn lemma_position_by_code(hand: Seq<Card>, code: Seq<char>)
    ensures
        match position_by_code(hand, code) {
            Some(i) => {
                &&& 0 <= i < hand.len()
                &&& hand[i].code() == code
                &&& forall|k: int| 0 <= k < i ==> (#[trigger] hand[k]).code() != code
            },
            None => forall|k: int| 0 <= k < hand.len() ==> (#[trigger] hand[k]).code() != code,
        },
    decreases hand.len(),
{
    if hand.len() > 0 && hand[0].code() != code {
        let rest = hand.drop_first();
        lemma_position_by_code(rest, code);
        match position_by_code(rest, code) {
            Some(i) => {
                assert forall|k: int| 0 <= k < i + 1 implies (#[trigger] hand[k]).code() != code by {
                    if k > 0 {
                        assert(hand[k] == rest[k - 1]);
                    }
                }
            },
            None => {
                assert forall|k: int| 0 <= k < hand.len() implies (#[trigger] hand[k]).code()
                    != code by {
                    if k > 0 {
                        assert(hand[k] == rest[k - 1]);
                    }
                }
            },
        }
    }
}

/// Where only one card of the hand has a code, that code finds no card any
/// more once the card has left the hand.
pub proof fn lemma_only_card_with_code_is_gone(hand: Seq<Card>, code: Seq<char>, i: int)
    requires
        position_by_code(hand, code) == Some(i),
        forall|k: int| 0 <= k < hand.len() && k != i ==> (#[trigger] hand[k]).code() != code,
    ensures
        position_by_code(hand.remove(i), code) is None,
{
    lemma_position_by_code(hand, code);
    let rest = hand.remove(i);
    lemma_position_by_code(rest, code);
    if let Some(j) = position_by_code(rest, code) {
        if j < i {
            assert(rest[j] == hand[j]);
        } else {
            assert(rest[j] == hand[j + 1]);
        }
    }
}

/// The hand after the cards with the given codes were taken out of it in
/// turn, each the first card with its code in what was left. Where one of
/// the codes finds no card, that code is the error.
pub open spec fn without_codes(hand: Seq<Card>, codes: Seq<Seq<char>>) -> Result<
    Seq<Card>,
    Seq<char>,
>
    decreases codes.len(),
{
    if codes.len() == 0 {
        Ok(hand)
    } else {
        match position_by_code(hand, codes[0]) {
            Some(i) => without_codes(hand.remove(i), codes.drop_first()),
            None => Err(codes[0]),
        }
    }
}

/// The hand and the melds after the given cards were played in turn: each
/// takes the first card of the hand that is worth the same points and puts it
/// at the end of the melds. Where one of them finds no such card, that card
/// is the error.
pub open spec fn played(hand: Seq<Card>, melds: Seq<Card>, cards: Seq<Card>) -> Result<
    (Seq<Card>, Seq<Card>),
    Card,
>
    decreases cards.len(),
{
    if cards.len() == 0 {
        Ok((hand, melds))
    } else {
        match position_by_value(hand, cards[0]) {
            Some(i) => played(hand.remove(i), melds.push(hand[i]), cards.drop_first()),
            None => Err(cards[0]),
        }
    }
}

/// Finds the first card of the hand that is worth the same points as `card`.
pub fn find_by_value(hand: &Vec<Card>, card: &Card) -> (place: Option<usize>)
    ensures
        match place {
            Some(i) => position_by_value(hand@, *card) == Some(i as int),
            None => position_by_value(hand@, *card) is None,
        },
{
    let mut i: usize = 0;
    assert(hand@.skip(0) == hand@);
    while i < hand.len()
        invariant
            i <= hand.len(),
            position_by_value(hand@, *card) == match position_by_value(hand@.skip(i as int), *card) {
                Some(k) => Some(k + i),
                None => None,
            },
        decreases hand.len() - i,
    {
        assert(hand@.skip(i as int).drop_first() == hand@.skip(i + 1));
        if hand[i] == *card {
            return Some(i);
        }
        i += 1;
    }
    None
}

/// Finds the first card of the hand whose code is exactly `code`.
pub fn find_by_code(hand: &Vec<Card>, code: &Vec<char>) -> (place: Option<usize>)
    ensures
        match place {
            Some(i) => position_by_code(hand@, code@) == Some(i as int),
            None => position_by_code(hand@, code@) is None,
        },
{
    let mut i: usize = 0;
    assert(hand@.skip(0) == hand@);
    while i < hand.len()
        invariant
            i <= hand.len(),
            position_by_code(hand@, code@) == match position_by_code(hand@.skip(i as int), code@) {
                Some(k) => Some(k + i),
                None => None,
            },
        decreases hand.len() - i,
    {
        assert(hand@.skip(i as int).drop_first() == hand@.skip(i + 1));
        if hand[i].has_code(code) {
            return Some(i);
        }
        i += 1;
    }
    None
}

/// One who plays: the cards in hand, the cards melded, and the score.
#[derive(Clone)]
pub struct Player {
    pub cards: Vec<Card>,
    pub melds: Vec<Card>,
    pub value: u32,
}

impl Player {
    /// A player with no cards and no points.
    pub fn new() -> (player: Player)
        ensures
            player.cards@ == Seq::<Card>::empty(),
            player.melds@ == Seq::<Card>::empty(),
            player.value == 0,
    {
        Player { cards: Vec::new(), melds: Vec::new(), value: 0 }
    }

    /// Takes the top card of the stockpile into the hand, or refuses where
    /// the stockpile is empty.
    pub fn draw(&mut self, stockpile: &mut Stockpile) -> (result: Result<(), GameError>)
        ensures
            old(stockpile).cards@.len() > 0 ==> {
                &&& result is Ok
                &&& final(stockpile).cards@ == old(stockpile).cards@.drop_last()
                &&& final(self).cards@ == old(self).cards@.push(old(stockpile).cards@.last())
                &&& final(self).melds == old(self).melds
                &&& final(self).value == old(self).value
            },
            old(stockpile).cards@.len() == 0 ==> {
                &&& result == Err::<(), GameError>(GameError::StockpileExhausted)
                &&& *final(stockpile) == *old(stockpile)
                &&& *final(self) == *old(self)
            },
    {
        if stockpile.cards.is_empty() {
            return Err(GameError::StockpileExhausted);
        }
        let top = stockpile.cards.pop();
        self.cards.push(top.unwrap());
        Ok(())
    }

    /// Melds the given cards, in turn: each moves the first card of the hand
    /// that is worth the same points to the end of the melds. Where one of
    /// them finds no such card, nothing is moved at all.
    pub fn play(&mut self, cards: Vec<Card>) -> (result: Result<(), GameError>)
        ensures
            match played(old(self).cards@, old(self).melds@, cards@) {
                Ok((hand, melds)) => {
                    &&& result is Ok
                    &&& final(self).cards@ == hand
                    &&& final(self).melds@ == melds
                    &&& final(self).value == old(self).value
                },
                Err(card) => {
                    &&& result == Err::<(), GameError>(GameError::CardNotInHand(card))
                    &&& *final(self) == *old(self)
                },
            },
    {
        let mut hand = copy_cards(&self.cards);
        let mut melds = copy_cards(&self.melds);
        let mut k: usize = 0;
        assert(cards@.skip(0) == cards@);
        while k < cards.len()
            invariant
                k <= cards.len(),
                played(old(self).cards@, old(self).melds@, cards@) == played(
                    hand@,
                    melds@,
                    cards@.skip(k as int),
                ),
                *self == *old(self),
            decreases cards.len() - k,
        {
            assert(cards@.skip(k as int).drop_first() == cards@.skip(k + 1));
            assert(cards@.skip(k as int)[0] == cards@[k as int]);
            match find_by_value(&hand, &cards[k]) {
                Some(i) => {
                    proof {
                        lemma_position_by_value(hand@, cards@[k as int]);
                    }
                    let card = hand.remove(i);
                    melds.push(card);
                },
                None => {
                    return Err(GameError::CardNotInHand(cards[k]));
                },
            }
            k += 1;
        }
        self.cards = hand;
        self.melds = melds;
        Ok(())
    }

    /// Takes a card into the hand, as when the player picks up a discard.
    pub fn discard(&mut self, card: Card)
        ensures
            final(self).cards@ == old(self).cards@.push(card),
            final(self).melds == old(self).melds,
            final(self).value == old(self).value,
    {
        self.cards.push(card);
    }
}

/// A copy of a list of cards.
pub fn copy_cards(cards: &Vec<Card>) -> (copy: Vec<Card>)
    ensures
        copy@ == cards@,
{
    let mut copy: Vec<Card> = Vec::new();
    let mut i: usize = 0;
    while i < cards.len()
        invariant
            i <= cards.len(),
            copy@ == cards@.take(i as int),
        decreases cards.len() - i,
    {
        copy.push(cards[i]);
        i += 1;
    }
    assert(cards@.take(cards@.len() as int) == cards@);
    copy
}

} // verus!
