//! The rules of chess: pieces, board, move generation and legality.
//!
//! A [`game::GameState`] holds a position. It lists the pseudo-legal and
//! the legal moves of the side to move, tells check, checkmate and
//! stalemate, and makes a move. What each of these computes is stated over
//! [`rules::Position`], the position as mathematics, and proved.
//!
//! - [`pieces`], [`squares`], [`moves`], [`castling`]: the values of the game
//!   and their text forms.
//! - [`board`]: the grid with its index of occupied squares.
//! - [`rules`]: which moves are pseudo-legal and legal, and what a move does.
//! - [`geometry`]: the moves of the pieces as lines on the board.
//! - [`soundness`]: what legal play keeps true of a position.
//! - [`game`], [`movegen`], [`legality`]: the state of a game and its
//!   operations.
//! - [`ai`]: a player that moves at random.

pub mod text;
pub mod pieces;
pub mod squares;
pub mod moves;
pub mod castling;
pub mod board;
pub mod rules;
pub mod geometry;
pub mod soundness;
pub mod game;
pub mod movegen;
pub mod legality;
pub mod ai;
