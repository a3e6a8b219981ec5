use vstd::prelude::*;

use crate::board::Board;
use crate::piece::{piece_char, PieceColor};
use crate::position::{alg_of, Position};
use crate::rules::BoardModel;
use crate::text::push_char;

verus! {

/// The character of a digit `1`..`8`.
pub open spec fn digit_char(n: int) -> char {
    ((48 + n) as u8) as char
}

/// One exported row from file `f` on, with `pending` empty squares already
/// seen and not yet written: pieces by their single-character code, runs of
/// empty squares by their length.
pub open spec fn fen_row_from(b: BoardModel, r: int, f: int, pending: int) -> Seq<char>
    decreases 8 - f,
{
    if 0 <= f < 8 {
        match b.at(r, f) {
            None => fen_row_from(b, r, f + 1, pending + 1),
            Some(p) => (if pending > 0 {
                seq![digit_char(pending)]
            } else {
                Seq::<char>::empty()
            }) + seq![piece_char(p)] + fen_row_from(b, r, f + 1, 0),
        }
    } else {
        if pending > 0 {
            seq![digit_char(pending)]
        } else {
            Seq::<char>::empty()
        }
    }
}

/// The exported rows from row `r` down, top row (rank "8") first, separated
/// by '/'.
pub open spec fn fen_rows_from(b: BoardModel, r: int) -> Seq<char>
    decreases 8 - r,
{
    if 0 <= r < 8 {
        fen_row_from(b, r, 0, 0) + (if r < 7 {
            seq!['/']
        } else {
            Seq::<char>::empty()
        }) + fen_rows_from(b, r + 1)
    } else {
        Seq::<char>::empty()
    }
}

/// The side-to-move character.
pub open spec fn fen_turn_char(c: PieceColor) -> char {
    match c {
        PieceColor::White => 'w',
        PieceColor::Black => 'b',
    }
}

/// The en-passant field: the recorded target square in algebraic notation,
/// or "-" when there is none.
pub open spec fn fen_ep_field(b: BoardModel) -> Seq<char> {
    match b.en_passant {
        Some(t) => if t.valid() {
            alg_of(t)
        } else {
            seq!['-']
        },
        None => seq!['-'],
    }
}

/// The full position export: piece placement, side to move, the castling
/// field (always "-": castling rights are not tracked), the en-passant
/// target, and fixed placeholder halfmove and fullmove fields "0 1" (move
/// clocks are not tracked). Every field is present so an engine accepts the
/// line.
pub open spec fn fen_of(b: BoardModel) -> Seq<char> {
    fen_rows_from(b, 0) + seq![' ', fen_turn_char(b.turn), ' ', '-', ' '] + fen_ep_field(b)
        + seq![' ', '0', ' ', '1']
}

impl Board {
    /// Exports the position as the standard board-layout text encoding:
    /// rows from rank "8" down to rank "1" separated by '/', pieces by
    /// single-character codes, runs of empty squares as digits, then side to
    /// move, a "-" castling field, the en-passant target and placeholder
    /// move clocks "0 1".
    pub fn to_fen(&self) -> (r: String)
        requires
            self.wf(),
        ensures
            r@ == fen_of(self@),
    {
        let ghost b = self@;
        let mut s = String::new();
        let mut rank: usize = 0;
        while rank < 8
            invariant
                self.wf(),
                self@ == b,
                rank <= 8,
                fen_rows_from(b, 0) == s@ + fen_rows_from(b, rank as int),
            decreases 8 - rank,
        {
            let ghost row_start = s@;
            let mut empty_count: usize = 0;
            let mut file: usize = 0;
            while file < 8
                invariant
                    self.wf(),
                    self@ == b,
                    rank < 8,
                    file <= 8,
                    empty_count <= file,
                    row_start + fen_row_from(b, rank as int, 0, 0) == s@ + fen_row_from(
                        b,
                        rank as int,
                        file as int,
                        empty_count as int,
                    ),
                decreases 8 - file,
            {
                let pos = Position::new(rank, file);
                match self.get_piece(pos) {
                    None => {
                        empty_count = empty_count + 1;
                    },
                    Some(p) => {
                        let ghost s_before = s@;
                        if empty_count > 0 {
                            push_char(&mut s, (48 + empty_count as u8) as char);
                        }
                        push_char(&mut s, p.fen_char());
                        proof {
                            assert(s@ =~= s_before + (if empty_count > 0 {
                                seq![digit_char(empty_count as int)]
                            } else {
                                Seq::<char>::empty()
                            }) + seq![piece_char(p)]);
                            assert(row_start + fen_row_from(b, rank as int, 0, 0) =~= s@
                                + fen_row_from(b, rank as int, file + 1 as int, 0));
                        }
                        empty_count = 0;
                    },
                }
                file = file + 1;
            }
            if empty_count > 0 {
                push_char(&mut s, (48 + empty_count as u8) as char);
            }
            proof {
                assert(s@ =~= row_start + fen_row_from(b, rank as int, 0, 0));
            }
            if rank < 7 {
                push_char(&mut s, '/');
            }
            proof {
                assert(fen_rows_from(b, rank as int) == fen_row_from(b, rank as int, 0, 0) + (
                if rank < 7 {
                    seq!['/']
                } else {
                    Seq::<char>::empty()
                }) + fen_rows_from(b, rank + 1 as int));
                assert(fen_rows_from(b, 0) =~= s@ + fen_rows_from(b, rank + 1 as int));
            }
            rank = rank + 1;
        }
        proof {
            assert(fen_rows_from(b, 8) =~= Seq::<char>::empty());
            assert(s@ =~= fen_rows_from(b, 0));
        }

        push_char(&mut s, ' ');
        match self.turn {
            PieceColor::White => push_char(&mut s, 'w'),
            PieceColor::Black => push_char(&mut s, 'b'),
        }
        push_char(&mut s, ' ');
        push_char(&mut s, '-');
        push_char(&mut s, ' ');

        let mut wrote_target = false;
        if let Some(target) = self.en_passant_target {
            if target.is_valid() {
                let ghost s_before = s@;
                push_char(&mut s, (97 + target.file as u8) as char);
                push_char(&mut s, (56 - target.rank as u8) as char);
                proof {
                    assert(s@ =~= s_before + alg_of(target));
                }
                wrote_target = true;
            }
        }
        if !wrote_target {
            push_char(&mut s, '-');
        }

        push_char(&mut s, ' ');
        push_char(&mut s, '0');
        push_char(&mut s, ' ');
        push_char(&mut s, '1');

        proof {
            assert(s@ =~= fen_of(b));
        }
        s
    }
}

} // verus!
