use vstd::prelude::*;

use crate::piece::PieceColor;

verus! {

/// How the surrounding application runs the game: two people at one board,
/// or one person against an engine.
#[derive(Debug, Clone, Copy, PartialEq, Eq, Structural)]
pub enum GameMode {
    TwoPlayer,
    VsStockfish,
}

/// Engine strength chosen for the computer opponent.
#[derive(Debug, Clone, Copy, PartialEq, Eq, Structural)]
pub enum Difficulty {
    Easy,
    Medium,
    Hard,
}

/// The side the human player takes.
#[derive(Debug, Clone, Copy, PartialEq, Eq, Structural)]
pub enum PlayerColor {
    White,
    Black,
}

impl PlayerColor {
    pub fn to_piece_color(self) -> (r: PieceColor)
        ensures
            r == (match self {
                PlayerColor::White => PieceColor::White,
                PlayerColor::Black => PieceColor::Black,
            }),
    {
        match self {
            PlayerColor::White => PieceColor::White,
            PlayerColor::Black => PieceColor::Black,
        }
    }
}

} // verus!
