use vstd::prelude::*;
use vstd::string::StringExecFns;

use crate::piece::PieceType;
use crate::position::{alg_of, parse_alg, Position};
use crate::text::push_char;

verus! {

/// A move intent: source square, destination square, and the kind a pawn
/// becomes when the move reaches the farthest rank.
#[derive(Debug, Clone, Copy, PartialEq, Eq)]
pub struct ChessMove {
    pub from: Position,
    pub to: Position,
    pub promotion: Option<PieceType>,
}

/// The promotion kind a trailing engine-notation letter stands for;
/// uppercase is accepted and read as lowercase.
pub open spec fn promo_of_char(c: char) -> Option<PieceType> {
    if c == 'q' || c == 'Q' {
        Some(PieceType::Queen)
    } else if c == 'r' || c == 'R' {
        Some(PieceType::Rook)
    } else if c == 'b' || c == 'B' {
        Some(PieceType::Bishop)
    } else if c == 'n' || c == 'N' {
        Some(PieceType::Knight)
    } else {
        None
    }
}

/// The letter that encodes a promotion kind.
pub open spec fn promo_char(k: PieceType) -> char {
    match k {
        PieceType::Queen => 'q',
        PieceType::Rook => 'r',
        PieceType::Bishop => 'b',
        PieceType::Knight => 'n',
        PieceType::Pawn => 'p',
        PieceType::King => 'k',
    }
}

/// A promotion field that engine notation can carry: none, or one of the
/// four kinds a pawn may become.
pub open spec fn promo_encodable(p: Option<PieceType>) -> bool {
    match p {
        None => true,
        Some(k) => k != PieceType::Pawn && k != PieceType::King,
    }
}

/// The 4- or 5-character engine notation of a move: source square,
/// destination square, and the promotion letter if there is one.
pub open spec fn uci_of(mv: ChessMove) -> Seq<char> {
    alg_of(mv.from) + alg_of(mv.to) + match mv.promotion {
        None => Seq::<char>::empty(),
        Some(k) => seq![promo_char(k)],
    }
}

/// What decoding an engine-notation string yields: a move for exactly 4 or 5
/// characters holding two well-formed squares and, when present, a promotion
/// letter q/r/b/n in either case; anything else yields nothing.
pub open spec fn parse_uci(s: Seq<char>) -> Option<ChessMove> {
    if s.len() < 4 || s.len() > 5 {
        None
    } else {
        match (parse_alg(s.subrange(0, 2)), parse_alg(s.subrange(2, 4))) {
            (Some(from), Some(to)) => if s.len() == 5 {
                match promo_of_char(s[4]) {
                    Some(k) => Some(ChessMove { from, to, promotion: Some(k) }),
                    None => None,
                }
            } else {
                Some(ChessMove { from, to, promotion: None })
            },
            _ => None,
        }
    }
}

impl ChessMove {
    pub fn new(from: Position, to: Position) -> (m: ChessMove)
        ensures
            m == (ChessMove { from, to, promotion: None }),
    {
        ChessMove { from, to, promotion: None }
    }

    pub fn with_promotion(from: Position, to: Position, promotion: PieceType) -> (m: ChessMove)
        ensures
            m == (ChessMove { from, to, promotion: Some(promotion) }),
    {
        ChessMove { from, to, promotion: Some(promotion) }
    }

    /// Decodes engine notation such as "e2e4" or "e7e8q"; a malformed string
    /// yields `None`.
    pub fn from_uci(uci: &str) -> (r: Option<ChessMove>)
        ensures
            r == parse_uci(uci@),
    {
        let n = uci.unicode_len();
        if n < 4 || n > 5 {
            return None;
        }
        let from = match Position::from_algebraic(uci.substring_char(0, 2)) {
            Some(p) => p,
            None => {
                return None;
            },
        };
        let to = match Position::from_algebraic(uci.substring_char(2, 4)) {
            Some(p) => p,
            None => {
                return None;
            },
        };
        if n == 5 {
            let c = uci.get_char(4);
            if c == 'q' || c == 'Q' {
                Some(ChessMove { from, to, promotion: Some(PieceType::Queen) })
            } else if c == 'r' || c == 'R' {
                Some(ChessMove { from, to, promotion: Some(PieceType::Rook) })
            } else if c == 'b' || c == 'B' {
                Some(ChessMove { from, to, promotion: Some(PieceType::Bishop) })
            } else if c == 'n' || c == 'N' {
                Some(ChessMove { from, to, promotion: Some(PieceType::Knight) })
            } else {
                None
            }
        } else {
            Some(ChessMove { from, to, promotion: None })
        }
    }

    /// Encodes this move in engine notation.
    pub fn to_uci(&self) -> (r: String)
        requires
            self.from.valid(),
            self.to.valid(),
            promo_encodable(self.promotion),
        ensures
            r@ == uci_of(*self),
    {
        let mut s = self.from.to_algebraic();
        let t = self.to.to_algebraic();
        s.append(t.as_str());
        match self.promotion {
            Some(PieceType::Queen) => push_char(&mut s, 'q'),
            Some(PieceType::Rook) => push_char(&mut s, 'r'),
            Some(PieceType::Bishop) => push_char(&mut s, 'b'),
            Some(PieceType::Knight) => push_char(&mut s, 'n'),
            _ => {},
        }
        proof {
            assert(s@ =~= uci_of(*self));
        }
        s
    }
}

} // verus!
