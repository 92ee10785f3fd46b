//! The decision-making core of a Chinese chess (Xiangqi) game: a move codec
//! for coordinate notation, a game session that validates and plays moves
//! and detects the end of the game, a move sorter for the search, and the
//! calls into the chessai engine that generate legal moves and search.

pub mod codec;
pub mod engine;
pub mod game;
pub mod material;
pub mod sort;
