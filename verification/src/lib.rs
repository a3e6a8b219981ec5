//! A chess rules engine: board representation, fully-legal move generation,
//! move application with promotion and en passant, check detection, and game
//! status classification, with machine-checked contracts.
//!
//! Castling, draw detection by repetition, the fifty-move rule and
//! insufficient-material draws are deliberately not implemented.

pub mod position;
pub mod piece;
pub mod game_state;
pub mod game_mode;
pub mod chess_move;
pub mod fen;
pub mod rules;
pub mod board;
pub mod laws;
mod text;

pub use board::Board;
pub use chess_move::ChessMove;
pub use game_mode::{Difficulty, GameMode, PlayerColor};
pub use game_state::GameState;
pub use piece::{Piece, PieceColor, PieceType};
pub use position::Position;
