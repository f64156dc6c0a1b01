use vstd::prelude::*;

pub mod apply;
pub mod attacks;
pub mod bits;
pub mod board;
pub mod fen_parser;
pub mod move_generator;
pub mod notation;
pub mod rules;
pub mod square;

verus! {

/// The recoverable failures of this crate: a square index or coordinate
/// outside the board, a constructed position that breaks the structural
/// invariants, and an attempt to apply a move that is not legal.
#[derive(Debug, PartialEq, Eq, Clone, Copy, Structural)]
pub enum ChessError {
    InvalidSquare,
    InvalidPositionState,
    IllegalMove,
}

} // verus!
