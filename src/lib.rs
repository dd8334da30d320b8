//! Bitboard move generation for chess: leaper move formulas and magic-bitboard
//! attack tables for sliding pieces.
pub mod bits;
pub mod board;
pub mod boards;
pub mod fen;
pub mod geometry;
pub mod king;
pub mod knight;
pub mod magic;
pub mod masks;
pub mod pawn;
pub mod piece;
pub mod rays;
pub mod visualization;
