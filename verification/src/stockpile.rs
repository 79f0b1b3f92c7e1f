//! The stockpile, from which cards are drawn, and the discard pile.

use crate::card::{Card, Rank, Suit};
use crate::error::GameError;
use crate::player::Player;
use rand::seq::SliceRandom;
use rand::thread_rng;
use vstd::prelude::*;

verus! {

/// The number of cards in a standard deck.
pub const DECK_SIZE: usize = 52;

/// The suit of the `i`-th block of thirteen cards in a new deck.
pub open spec fn standard_suit(i: int) -> Suit {
    if i == 0 {
        Suit::Clubs
    } else if i == 1 {
        Suit::Diamonds
    } else if i == 2 {
        Suit::Hearts
    } else {
        Suit::Spades
    }
}

/// The rank of the `j`-th card of a suit in a new deck: the pip cards from
/// 2 to 10, then ace, jack, queen and king.
pub open spec fn standard_rank(j: int) -> Rank {
    if 0 <= j < 9 {
        Rank::Number((j + 2) as u8)
    } else if j == 9 {
        Rank::Ace
    } else if j == 10 {
        Rank::Jack
    } else if j == 11 {
        Rank::Queen
    } else {
        Rank::King
    }
}

/// The `k`-th card of a new deck.
pub open spec fn standard_card(k: int) -> Card {
    Card { suit: standard_suit(k / 13), rank: standard_rank(k % 13) }
}

/// A new deck: 52 cards, suit by suit.
pub open spec fn standard_deck() -> Seq<Card> {
    Seq::new(52, |k: int| standard_card(k))
}

/// A standard deck holds 52 cards, each pair of suit and rank once, and
/// every rank in it is one of a standard deck.
pub proof fn lemma_standard_deck_is_a_full_deck()
    ensures
        standard_deck().len() == 52,
        standard_deck().no_duplicates(),
        forall|k: int| 0 <= k < 52 ==> (#[trigger] standard_deck()[k]).rank.is_standard(),
        forall|suit: Suit, rank: Rank|
            rank.is_standard() ==> #[trigger] standard_deck().contains(Card { suit, rank }),
{
    assert forall|i: int, j: int| 0 <= i < 52 && 0 <= j < 52 && i != j implies standard_deck()[i]
        != standard_deck()[j] by {
        if standard_card(i) == standard_card(j) {
            assert(i / 13 == j / 13);
            assert(i % 13 == j % 13);
        }
    }
    assert forall|suit: Suit, rank: Rank| rank.is_standard() implies #[trigger] standard_deck().contains(
        Card { suit, rank },
    ) by {
        let i: int = match suit {
            Suit::Clubs => 0,
            Suit::Diamonds => 1,
            Suit::Hearts => 2,
            Suit::Spades => 3,
        };
        let j: int = match rank {
            Rank::Number(n) => n - 2,
            Rank::Ace => 9,
            Rank::Jack => 10,
            Rank::Queen => 11,
            Rank::King => 12,
        };
        let k = 13 * i + j;
        assert(k / 13 == i && k % 13 == j);
        assert(standard_deck()[k] == Card { suit, rank });
    }
}

/// The pile of cards that are drawn. Its last card is its top.
#[derive(Clone)]
pub struct Stockpile {
    pub cards: Vec<Card>,
}

/// The pile of cards that were discarded, in the order in which they came.
pub struct Discard {
    pub cards: Vec<Card>,
}

/// `shuffle` of rand's `SliceRandom`, with the generator that `thread_rng`
/// gives. It exchanges pairs of cards and does nothing else, so that the same
/// cards are there afterwards, each as often as before.
#[verifier::external_body]
fn shuffle_cards(cards: &mut Vec<Card>)
    ensures
        final(cards)@.to_multiset() == old(cards)@.to_multiset(),
{
    cards.shuffle(&mut thread_rng());
}

fn suit_at(i: usize) -> (suit: Suit)
    requires
        i < 4,
    ensures
        suit == standard_suit(i as int),
{
    if i == 0 {
        Suit::Clubs
    } else if i == 1 {
        Suit::Diamonds
    } else if i == 2 {
        Suit::Hearts
    } else {
        Suit::Spades
    }
}

fn rank_at(j: usize) -> (rank: Rank)
    requires
        j < 13,
    ensures
        rank == standard_rank(j as int),
{
    if j < 9 {
        Rank::Number((j + 2) as u8)
    } else if j == 9 {
        Rank::Ace
    } else if j == 10 {
        Rank::Jack
    } else if j == 11 {
        Rank::Queen
    } else {
        Rank::King
    }
}

impl Stockpile {
    /// A new deck in its fixed order, not shuffled.
    pub fn new() -> (deck: Stockpile)
        ensures
            deck.cards@ == standard_deck(),
            deck.cards@.len() == 52,
            deck.cards@.no_duplicates(),
    {
        let mut cards: Vec<Card> = Vec::new();
        let mut i: usize = 0;
        while i < 4
            invariant
                i <= 4,
                cards@ == standard_deck().take(13 * i),
            decreases 4 - i,
        {
            let suit = suit_at(i);
            let mut j: usize = 0;
            while j < 13
                invariant
                    i < 4,
                    j <= 13,
                    suit == standard_suit(i as int),
                    cards@ == standard_deck().take(13 * i + j),
                decreases 13 - j,
            {
                let ghost k: int = 13 * i + j;
                assert(k / 13 == i && k % 13 == j);
                cards.push(Card::new(suit, rank_at(j)));
                assert(cards@ == standard_deck().take(k + 1));
                j += 1;
            }
            i += 1;
        }
        proof {
            assert(standard_deck().take(52) == standard_deck());
            lemma_standard_deck_is_a_full_deck();
        }
        Stockpile { cards }
    }

    /// Puts the cards in a random order.
    pub fn shuffle(&mut self)
        ensures
            final(self).cards@.to_multiset() == old(self).cards@.to_multiset(),
            final(self).cards@.len() == old(self).cards@.len(),
    {
        proof {
            old(self).cards@.to_multiset_ensures();
        }
        shuffle_cards(&mut self.cards);
        proof {
            self.cards@.to_multiset_ensures();
        }
    }

    /// Moves the top `num_cards` cards to the player's hand, one at a time
    /// from the top, or refuses and moves none where the pile holds fewer.
    pub fn deal(&mut self, player: &mut Player, num_cards: usize) -> (result: Result<(), GameError>)
        ensures
            num_cards <= old(self).cards@.len() ==> {
                let rest = old(self).cards@.len() - num_cards;
                &&& result is Ok
                &&& final(self).cards@.len() == old(self).cards@.len() - num_cards
                &&& final(player).cards@.len() == old(player).cards@.len() + num_cards
                &&& final(self).cards@ == old(self).cards@.take(rest)
                &&& final(player).cards@ == old(player).cards@ + old(self).cards@.skip(
                    rest,
                ).reverse()
                &&& final(player).melds == old(player).melds
                &&& final(player).value == old(player).value
            },
            num_cards > old(self).cards@.len() ==> {
                &&& result == Err::<(), GameError>(GameError::StockpileExhausted)
                &&& *final(self) == *old(self)
                &&& *final(player) == *old(player)
            },
    {
        if num_cards > self.cards.len() {
            return Err(GameError::StockpileExhausted);
        }
        let ghost rest: int = self.cards@.len() - num_cards;
        let mut dealt: usize = 0;
        assert(old(self).cards@.skip(old(self).cards@.len() as int).reverse() == Seq::<
            Card,
        >::empty());
        while dealt < num_cards
            invariant
                dealt <= num_cards <= old(self).cards@.len(),
                rest == old(self).cards@.len() - num_cards,
                self.cards@ == old(self).cards@.take(old(self).cards@.len() - dealt),
                player.cards@ == old(player).cards@ + old(self).cards@.skip(
                    old(self).cards@.len() - dealt,
                ).reverse(),
                player.melds == old(player).melds,
                player.value == old(player).value,
            decreases num_cards - dealt,
        {
            let ghost top: int = old(self).cards@.len() - dealt;
            let drawn = player.draw(self);
            assert(drawn is Ok);
            assert(self.cards@ == old(self).cards@.take(top - 1));
            assert(old(self).cards@.skip(top - 1).reverse() == old(self).cards@.skip(
                top,
            ).reverse().push(old(self).cards@[top - 1]));
            dealt += 1;
        }
        Ok(())
    }
}

impl Discard {
    /// An empty discard pile.
    pub fn new() -> (pile: Discard)
        ensures
            pile.cards@ == Seq::<Card>::empty(),
    {
        Discard { cards: Vec::new() }
    }
}

} // verus!
