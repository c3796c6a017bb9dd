//! Rules-and-state core of a bitboard chess engine: geometry tables,
//! castling rights, move encoding, a board whose moves can be applied and
//! undone, legal move generation, and perft counting.
//!
//! The board keeps its piece list and per-type bitboards in agreement, keeps
//! its hash equal to the hash of the position, and records enough history to
//! undo every move exactly.
pub mod bitboard;
pub mod geometry;
pub mod piece;
pub mod castling_flags;
pub mod chess_move;
pub mod zobrist;
pub mod board;
pub mod attacks;
pub mod move_gen;
pub mod perft;
