//! An N by N tic-tac-toe engine: the board, the moves that are accepted on it,
//! and the classification of a position as won, drawn or still open.

pub mod game;
pub mod session;
