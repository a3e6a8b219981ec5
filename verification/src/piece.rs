use vstd::prelude::*;

verus! {

#[derive(Debug, Clone, Copy, PartialEq, Eq, Structural)]
pub enum PieceColor {
    White,
    Black,
}

/// The other side.
pub open spec fn opposite_of(c: PieceColor) -> PieceColor {
    match c {
        PieceColor::White => PieceColor::Black,
        PieceColor::Black => PieceColor::White,
    }
}

impl PieceColor {
    pub fn opposite(&self) -> (r: PieceColor)
        ensures
            r == opposite_of(*self),
    {
        match self {
            PieceColor::White => PieceColor::Black,
            PieceColor::Black => PieceColor::White,
        }
    }
}

#[derive(Debug, Clone, Copy, PartialEq, Eq, Structural)]
pub enum PieceType {
    Pawn,
    Knight,
    Bishop,
    Rook,
    Queen,
    King,
}

/// A piece on the board: its kind, its side, and whether it has been moved
/// at least once.
#[derive(Debug, Clone, Copy, PartialEq, Eq, Structural)]
pub struct Piece {
    pub piece_type: PieceType,
    pub color: PieceColor,
    pub has_moved: bool,
}

/// The single-character code of a piece: uppercase for White, lowercase for
/// Black, as used in board-layout export.
pub open spec fn piece_char(p: Piece) -> char {
    match p.color {
        PieceColor::White => match p.piece_type {
            PieceType::Pawn => 'P',
            PieceType::Knight => 'N',
            PieceType::Bishop => 'B',
            PieceType::Rook => 'R',
            PieceType::Queen => 'Q',
            PieceType::King => 'K',
        },
        PieceColor::Black => match p.piece_type {
            PieceType::Pawn => 'p',
            PieceType::Knight => 'n',
            PieceType::Bishop => 'b',
            PieceType::Rook => 'r',
            PieceType::Queen => 'q',
            PieceType::King => 'k',
        },
    }
}

impl Piece {
    pub fn new(piece_type: PieceType, color: PieceColor) -> (p: Piece)
        ensures
            p == (Piece { piece_type, color, has_moved: false }),
    {
        Piece { piece_type, color, has_moved: false }
    }

    /// The piece-placement character used in position export.
    pub fn fen_char(&self) -> (c: char)
        ensures
            c == piece_char(*self),
    {
        match (self.piece_type, self.color) {
            (PieceType::King, PieceColor::White) => 'K',
            (PieceType::Queen, PieceColor::White) => 'Q',
            (PieceType::Rook, PieceColor::White) => 'R',
            (PieceType::Bishop, PieceColor::White) => 'B',
            (PieceType::Knight, PieceColor::White) => 'N',
            (PieceType::Pawn, PieceColor::White) => 'P',
            (PieceType::King, PieceColor::Black) => 'k',
            (PieceType::Queen, PieceColor::Black) => 'q',
            (PieceType::Rook, PieceColor::Black) => 'r',
            (PieceType::Bishop, PieceColor::Black) => 'b',
            (PieceType::Knight, PieceColor::Black) => 'n',
            (PieceType::Pawn, PieceColor::Black) => 'p',
        }
    }

    /// The same single-character notation, for display.
    pub fn to_char(&self) -> (c: char)
        ensures
            c == piece_char(*self),
    {
        self.fen_char()
    }
}

} // verus!
