//! A rummy-style card game engine: the deck, the players' hands, the discard
//! pile and the turn order, with the rules that move cards between them.

pub mod card;
pub mod cli;
pub mod error;
pub mod game;
pub mod player;
pub mod stockpile;
pub mod text;
