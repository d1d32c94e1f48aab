//! Rules engine for a unicorn card game: card behaviour, board state, and
//! a builder that expands every legal continuation of a position into a
//! graph of game states joined by the actions that produced them.

pub mod cards;
pub mod game;
pub mod graph;
pub mod laws;
pub mod rules;
pub mod shuffle;
pub mod state;

pub use cards::{
    BabyUnicorn, BasicUnicorn, Card, CardKind, CardType, Cards, Neigh, QueryCards, SuperNeigh,
    UnicornPhoenix, UnicornPoison,
};
pub use game::{ActionEdge, Game};
pub use state::{
    Action, ActionType, Board, GameState, History, LogicError, LogicResult, PhaseType, Player,
    ReactAction, ReactMetadata, ReactResult,
};
