//! Core of a chess playing engine: bitboard move generation, make/unmake with
//! incremental Zobrist hashing, tapered piece-square evaluation, a
//! transposition table, and an iterative-deepening principal-variation search.

pub mod attacks;
pub mod basic_search;
pub mod bitboard;
pub mod board;
pub mod castling;
pub mod eval;
pub mod fen;
pub mod game;
pub mod movegen;
pub mod moves;
pub mod params;
pub mod piece;
pub mod zobrist;
pub mod rules;
pub mod search;
pub mod square;
pub mod time_control;
pub mod tt;

use vstd::prelude::*;

verus! {

/// How the program was asked to run: the UCI loop, or a perft count of
/// the legal move tree from a position, whole or split by root move.
pub enum RunMode {
    Uci,
    Perft(u8, game::Game),
    PerftDiv(u8, game::Game),
}

impl Default for RunMode {
    fn default() -> (r: RunMode)
        ensures
            r is Uci,
    {
        RunMode::Uci
    }
}

} // verus!
