use vstd::prelude::*;

use crate::text::push_char;

verus! {

/// An 8x8 board address. Row `rank` 0 is the row farthest from White (the row
/// printed as rank "8"); `file` 0 is the a-file, counted left to right from
/// White's side.
#[derive(Debug, Clone, Copy, PartialEq, Eq, Structural)]
pub struct Position {
    pub rank: usize,
    pub file: usize,
}

/// The coordinate one step of `(dr, df)` away, or `None` when that step
/// leaves the board.
pub open spec fn offset_of(p: Position, dr: int, df: int) -> Option<Position> {
    if 0 <= p.rank + dr < 8 && 0 <= p.file + df < 8 {
        Some(Position { rank: (p.rank + dr) as usize, file: (p.file + df) as usize })
    } else {
        None
    }
}

/// The two-character algebraic notation of a square: file letter 'a'..'h',
/// then rank digit '1'..'8' (row 0 is rank '8').
pub open spec fn alg_of(p: Position) -> Seq<char> {
    seq![((97 + p.file) as u8) as char, ((56 - p.rank) as u8) as char]
}

/// What decoding a piece of algebraic notation yields: a square for a file
/// letter 'a'..'h' followed by a rank digit '1'..'8', and nothing otherwise.
pub open spec fn parse_alg(s: Seq<char>) -> Option<Position> {
    if s.len() != 2 {
        None
    } else {
        let fv = s[0] as u32;
        let rv = s[1] as u32;
        if 97 <= fv <= 104 && 49 <= rv <= 56 {
            Some(Position { rank: (56 - rv) as usize, file: (fv - 97) as usize })
        } else {
            None
        }
    }
}

impl Position {
    /// Both axes are on the board.
    pub open spec fn valid(self) -> bool {
        self.rank < 8 && self.file < 8
    }

    pub fn new(rank: usize, file: usize) -> (p: Position)
        requires
            rank < 8,
            file < 8,
        ensures
            p == (Position { rank, file }),
    {
        Position { rank, file }
    }

    pub fn is_valid(&self) -> (r: bool)
        ensures
            r == self.valid(),
    {
        self.rank < 8 && self.file < 8
    }

    /// The square `(rank_offset, file_offset)` away, or `None` when it would
    /// be off the board.
    pub fn offset(&self, rank_offset: isize, file_offset: isize) -> (r: Option<Position>)
        requires
            self.valid(),
            -8 <= rank_offset <= 8,
            -8 <= file_offset <= 8,
        ensures
            r == offset_of(*self, rank_offset as int, file_offset as int),
    {
        let new_rank = self.rank as isize + rank_offset;
        let new_file = self.file as isize + file_offset;
        if new_rank >= 0 && new_rank < 8 && new_file >= 0 && new_file < 8 {
            Some(Position { rank: new_rank as usize, file: new_file as usize })
        } else {
            None
        }
    }

    /// Decodes algebraic notation such as "e4"; a malformed string yields
    /// `None`.
    pub fn from_algebraic(notation: &str) -> (r: Option<Position>)
        ensures
            r == parse_alg(notation@),
            r matches Some(p) ==> p.valid(),
    {
        if notation.unicode_len() != 2 {
            return None;
        }
        let fv = notation.get_char(0) as u32;
        let rv = notation.get_char(1) as u32;
        if 97 <= fv && fv <= 104 && 49 <= rv && rv <= 56 {
            Some(Position { rank: (56 - rv) as usize, file: (fv - 97) as usize })
        } else {
            None
        }
    }

    /// Encodes this square in algebraic notation, such as "e4".
    pub fn to_algebraic(&self) -> (r: String)
        requires
            self.valid(),
        ensures
            r@ == alg_of(*self),
    {
        let mut s = String::new();
        push_char(&mut s, ((97 + self.file as u8)) as char);
        push_char(&mut s, ((56 - self.rank as u8)) as char);
        proof {
            assert(s@ =~= alg_of(*self));
        }
        s
    }
}

} // verus!
