//! The ways in which an operation of the game can fail.

use crate::card::Card;
use vstd::prelude::*;

verus! {

/// Why an operation was refused. A refused operation changes nothing.
#[derive(Debug, Clone, PartialEq)]
pub enum GameError {
    /// No card in the acting player's hand has the given code. The code is
    /// held as it was looked up: trimmed and in upper case.
    CardNotFound(String),
    /// No card in the hand is worth the same points as the given card.
    CardNotInHand(Card),
    /// The stockpile holds fewer cards than were asked of it.
    StockpileExhausted,
    /// A game needs at least one player.
    InvalidPlayerCount,
}

impl GameError {
    /// The sentence that tells a player what went wrong.
    pub open spec fn message(self) -> Seq<char> {
        match self {
            GameError::CardNotFound(text) => "Card not found in hand: "@ + text@,
            GameError::CardNotInHand(card) => "Card not found in hand: "@ + card.code(),
            GameError::StockpileExhausted => "The stockpile has no cards left"@,
            GameError::InvalidPlayerCount => "A game needs at least one player"@,
        }
    }

    /// The error's message as a string.
    pub fn to_string(&self) -> (s: String)
        ensures
            s@ == self.message(),
    {
        match self {
            GameError::CardNotFound(text) => {
                String::from_str("Card not found in hand: ").concat(text.as_str())
            },
            GameError::CardNotInHand(card) => {
                let code = card.to_string();
                String::from_str("Card not found in hand: ").concat(code.as_str())
            },
            GameError::StockpileExhausted => String::from_str("The stockpile has no cards left"),
            GameError::InvalidPlayerCount => String::from_str("A game needs at least one player"),
        }
    }
}

} // verus!
