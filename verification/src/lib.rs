//! The rules of chess as a verified library: squares and pieces, the
//! moves that each kind of piece may make, and a board that plays a
//! game move by move, with check, mate, castling, en passant,
//! promotion and the taking back of turns. Every function comes with
//! a contract over a mathematical view of the board, and the laws that
//! relate the functions are proved in `laws`.
pub mod ai;
pub mod bit_magic;
pub mod board;
pub mod input;
pub mod laws;
pub mod piece;
pub mod result;
pub mod rules;
