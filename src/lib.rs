pub mod concurrent;
pub mod converters;
pub mod dominoes;
pub mod game;
pub mod text;

pub use game::{Domino, Game, GameError, Move, Update};
