//! The logic of a generator of checkmate puzzles for Wild Cat Shogi.
//!
//! An engine plays both sides of a game: Black, the attacker, its best move
//! and White, the defender, the worst of its best few. The position before the
//! mate is the puzzle. Nothing here talks to the engine or knows the rules of
//! the game: the machines of this library are told what happened and say what
//! is to be done next.

pub mod extract;
pub mod game;
pub mod moves;
pub mod protocol;
pub mod search;
pub mod select;
pub mod setup;
pub mod sfen;
pub mod text;
