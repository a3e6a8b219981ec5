use vstd::prelude::*;

use crate::chess_move::ChessMove;
use crate::game_state::GameState;
use crate::piece::{opposite_of, Piece, PieceColor, PieceType};
use crate::position::{offset_of, Position};

verus! {

/// The mathematical value of a board: the 64 squares in row-major order
/// (index `rank * 8 + file`), the side to move, the number of half-moves
/// played, the captured pieces in capture order, and the single-ply
/// en-passant target.
#[verifier::ext_equal]
pub ghost struct BoardModel {
    pub squares: Seq<Option<Piece>>,
    pub turn: PieceColor,
    pub move_count: int,
    pub captured: Seq<Piece>,
    pub en_passant: Option<Position>,
}

impl BoardModel {
    /// A board value holds exactly 64 squares.
    pub open spec fn wf(self) -> bool {
        self.squares.len() == 64
    }

    /// The occupant of square `(r, f)`; off-board addresses hold nothing.
    pub open spec fn at(self, r: int, f: int) -> Option<Piece> {
        if 0 <= r < 8 && 0 <= f < 8 {
            self.squares[r * 8 + f]
        } else {
            None
        }
    }

    /// The occupant of a square given as a coordinate.
    pub open spec fn at_pos(self, p: Position) -> Option<Piece> {
        self.at(p.rank as int, p.file as int)
    }

    /// The square is empty or holds a piece of the other side, so a piece of
    /// `c` may land on it.
    pub open spec fn empty_or_enemy(self, p: Position, c: PieceColor) -> bool {
        match self.at_pos(p) {
            None => true,
            Some(q) => q.color != c,
        }
    }
}

/// The squares written by placing `v` at `p`: a no-op when `p` is off the
/// board.
pub open spec fn place(s: Seq<Option<Piece>>, p: Position, v: Option<Piece>) -> Seq<
    Option<Piece>,
> {
    if p.rank < 8 && p.file < 8 {
        s.update(p.rank * 8 + p.file, v)
    } else {
        s
    }
}

/// The rank direction a pawn of `c` advances in: White towards row 0.
pub open spec fn pawn_dir(c: PieceColor) -> int {
    match c {
        PieceColor::White => -1,
        PieceColor::Black => 1,
    }
}

/// The row a pawn of `c` starts on.
pub open spec fn pawn_start_rank(c: PieceColor) -> int {
    match c {
        PieceColor::White => 6,
        PieceColor::Black => 1,
    }
}

/// The farthest row for a pawn of `c`, where it promotes.
pub open spec fn promo_rank(c: PieceColor) -> int {
    match c {
        PieceColor::White => 0,
        PieceColor::Black => 7,
    }
}

/// The promotion field a pawn move must carry: one of the four promotion
/// kinds when the destination is the farthest rank, and nothing otherwise.
pub open spec fn promo_ok(c: PieceColor, mv: ChessMove) -> bool {
    if mv.to.rank as int == promo_rank(c) {
        mv.promotion == Some(PieceType::Queen) || mv.promotion == Some(PieceType::Rook)
            || mv.promotion == Some(PieceType::Bishop) || mv.promotion == Some(PieceType::Knight)
    } else {
        mv.promotion is None
    }
}

/// A pawn move of side `c` from `from`: a one-step advance onto an empty
/// square, a two-step advance from the start row over two empty squares, a
/// diagonal capture of an enemy piece, or a diagonal step onto the recorded
/// en-passant target; advances and captures onto the farthest rank carry a
/// promotion kind.
pub open spec fn pawn_move(b: BoardModel, from: Position, c: PieceColor, mv: ChessMove) -> bool {
    let dir = pawn_dir(c);
    let fr = from.rank as int;
    let ff = from.file as int;
    let tr = mv.to.rank as int;
    let tf = mv.to.file as int;
    &&& mv.from == from
    &&& mv.to.valid()
    &&& {
        ||| (tr == fr + dir && tf == ff && b.at(tr, tf) is None && promo_ok(c, mv))
        ||| (fr == pawn_start_rank(c) && tr == fr + 2 * dir && tf == ff && b.at(fr + dir, ff) is None
            && b.at(tr, tf) is None && mv.promotion is None)
        ||| ((tf == ff - 1 || tf == ff + 1) && tr == fr + dir && (match b.at(tr, tf) {
            Some(q) => q.color != c,
            None => false,
        }) && promo_ok(c, mv))
        ||| ((tf == ff - 1 || tf == ff + 1) && tr == fr + dir && b.en_passant == Some(mv.to)
            && mv.promotion is None)
    }
}

/// The offset of a knight's jump.
pub open spec fn knight_jump(dr: int, df: int) -> bool {
    ||| (dr == -2 && (df == -1 || df == 1))
    ||| (dr == 2 && (df == -1 || df == 1))
    ||| (dr == -1 && (df == -2 || df == 2))
    ||| (dr == 1 && (df == -2 || df == 2))
}

/// The offset of a king's single step.
pub open spec fn king_step(dr: int, df: int) -> bool {
    -1 <= dr <= 1 && -1 <= df <= 1 && !(dr == 0 && df == 0)
}

/// A knight move of side `c` from `from`: an L-shaped jump onto a square
/// that is empty or holds an enemy piece.
pub open spec fn knight_move(b: BoardModel, from: Position, c: PieceColor, mv: ChessMove) -> bool {
    &&& mv.from == from
    &&& mv.to.valid()
    &&& mv.promotion is None
    &&& knight_jump(mv.to.rank - from.rank, mv.to.file - from.file)
    &&& b.empty_or_enemy(mv.to, c)
}

/// A king move of side `c` from `from`: one step in any direction onto a
/// square that is empty or holds an enemy piece. Castling is not a move of
/// this engine.
pub open spec fn king_move(b: BoardModel, from: Position, c: PieceColor, mv: ChessMove) -> bool {
    &&& mv.from == from
    &&& mv.to.valid()
    &&& mv.promotion is None
    &&& king_step(mv.to.rank - from.rank, mv.to.file - from.file)
    &&& b.empty_or_enemy(mv.to, c)
}

/// The square `k` steps of `(dr, df)` away from `p`, walking one step at a
/// time; `None` once the walk has left the board.
pub open spec fn nth_on_ray(p: Position, dr: int, df: int, k: nat) -> Option<Position>
    decreases k,
{
    if k == 0 {
        Some(p)
    } else {
        match nth_on_ray(p, dr, df, (k - 1) as nat) {
            None => None,
            Some(q) => offset_of(q, dr, df),
        }
    }
}

/// Every square strictly between `p` and the `k`-th square of the ray is on
/// the board and empty.
pub open spec fn ray_clear_to(b: BoardModel, p: Position, dr: int, df: int, k: nat) -> bool {
    forall|j: nat|
        1 <= j < k ==> (match #[trigger] nth_on_ray(p, dr, df, j) {
            Some(q) => b.at_pos(q) is None,
            None => false,
        })
}

/// A ray that is still on the board at step `k` was on the board at every
/// earlier step.
pub proof fn lemma_nth_on_ray_some(p: Position, dr: int, df: int, j: nat, k: nat)
    requires
        j <= k,
        nth_on_ray(p, dr, df, k) is Some,
    ensures
        nth_on_ray(p, dr, df, j) is Some,
    decreases k,
{
    if j < k {
        assert(nth_on_ray(p, dr, df, (k - 1) as nat) is Some);
        lemma_nth_on_ray_some(p, dr, df, j, (k - 1) as nat);
    }
}

/// A sliding piece standing on `p` reaches `t` along direction `(dr, df)`:
/// `t` is on the ray and every square before it is empty.
pub open spec fn slide_reaches(b: BoardModel, p: Position, dr: int, df: int, t: Position) -> bool {
    exists|k: nat|
        1 <= k && #[trigger] nth_on_ray(p, dr, df, k) == Some(t) && ray_clear_to(b, p, dr, df, k)
}

/// A diagonal direction.
pub open spec fn diag_dir(dr: int, df: int) -> bool {
    (dr == -1 || dr == 1) && (df == -1 || df == 1)
}

/// A horizontal or vertical direction.
pub open spec fn straight_dir(dr: int, df: int) -> bool {
    (dr == 0 && (df == -1 || df == 1)) || (df == 0 && (dr == -1 || dr == 1))
}

/// A bishop move of side `c` from `from`: a clear diagonal ray onto a square
/// that is empty or holds an enemy piece.
pub open spec fn bishop_move(b: BoardModel, from: Position, c: PieceColor, mv: ChessMove) -> bool {
    &&& mv.from == from
    &&& mv.to.valid()
    &&& mv.promotion is None
    &&& b.empty_or_enemy(mv.to, c)
    &&& exists|dr: int, df: int|
        diag_dir(dr, df) && #[trigger] slide_reaches(b, from, dr, df, mv.to)
}

/// A rook move of side `c` from `from`: a clear horizontal or vertical ray
/// onto a square that is empty or holds an enemy piece.
pub open spec fn rook_move(b: BoardModel, from: Position, c: PieceColor, mv: ChessMove) -> bool {
    &&& mv.from == from
    &&& mv.to.valid()
    &&& mv.promotion is None
    &&& b.empty_or_enemy(mv.to, c)
    &&& exists|dr: int, df: int|
        straight_dir(dr, df) && #[trigger] slide_reaches(b, from, dr, df, mv.to)
}

/// A pseudo-legal move of piece `p` standing on `from`: it obeys the piece's
/// movement geometry and capture rules, but may still leave the mover's own
/// king attacked.
pub open spec fn pseudo_move_by(b: BoardModel, from: Position, p: Piece, mv: ChessMove) -> bool {
    match p.piece_type {
        PieceType::Pawn => pawn_move(b, from, p.color, mv),
        PieceType::Knight => knight_move(b, from, p.color, mv),
        PieceType::Bishop => bishop_move(b, from, p.color, mv),
        PieceType::Rook => rook_move(b, from, p.color, mv),
        PieceType::Queen => bishop_move(b, from, p.color, mv) || rook_move(b, from, p.color, mv),
        PieceType::King => king_move(b, from, p.color, mv),
    }
}

/// The first square holding a king of `c`, scanning row-major from linear
/// index `i`.
pub open spec fn king_from(b: BoardModel, c: PieceColor, i: int) -> Option<Position>
    decreases 64 - i,
{
    if 0 <= i < 64 {
        match b.squares[i] {
            Some(p) => if p.piece_type == PieceType::King && p.color == c {
                Some(Position { rank: (i / 8) as usize, file: (i % 8) as usize })
            } else {
                king_from(b, c, i + 1)
            },
            None => king_from(b, c, i + 1),
        }
    } else {
        None
    }
}

/// The square of the first king of `c` in row-major scan order.
pub open spec fn king_pos(b: BoardModel, c: PieceColor) -> Option<Position> {
    king_from(b, c, 0)
}

/// The piece standing on `from` has a pseudo-legal move onto `target`.
pub open spec fn attacks(b: BoardModel, from: Position, target: Position) -> bool {
    match b.at_pos(from) {
        Some(p) => exists|mv: ChessMove| #[trigger] pseudo_move_by(b, from, p, mv) && mv.to == target,
        None => false,
    }
}

/// Some piece of side `c` has a pseudo-legal move onto `target`.
pub open spec fn square_attacked_by(b: BoardModel, target: Position, c: PieceColor) -> bool {
    exists|from: Position|
        (match b.at_pos(from) {
            Some(p) => p.color == c,
            None => false,
        }) && #[trigger] attacks(b, from, target)
}

/// The square `p` holds a piece of the side opposed to `c` that has a
/// pseudo-legal move onto `target`.
pub open spec fn enemy_attacks_from(
    b: BoardModel,
    p: Position,
    c: PieceColor,
    target: Position,
) -> bool {
    match b.at_pos(p) {
        Some(q) => q.color != c && attacks(b, p, target),
        None => false,
    }
}

/// A square is attacked by the side opposed to `c` exactly when some square
/// holds a piece of another color with a pseudo-legal move onto it.
pub proof fn lemma_attacked_iff(b: BoardModel, target: Position, c: PieceColor)
    ensures
        square_attacked_by(b, target, opposite_of(c)) <==> exists|p: Position|
            #[trigger] enemy_attacks_from(b, p, c, target),
{
    if square_attacked_by(b, target, opposite_of(c)) {
        let from = choose|from: Position|
            (match b.at_pos(from) {
                Some(p) => p.color == opposite_of(c),
                None => false,
            }) && #[trigger] attacks(b, from, target);
        assert(enemy_attacks_from(b, from, c, target));
    }
    if exists|p: Position| #[trigger] enemy_attacks_from(b, p, c, target) {
        let from = choose|p: Position| #[trigger] enemy_attacks_from(b, p, c, target);
        let q = b.at_pos(from).unwrap();
        assert(q.color == opposite_of(c));
        assert(square_attacked_by(b, target, opposite_of(c)));
    }
}

/// The side `c` is in check: its king's square is attacked by the other
/// side. A board without a king of `c` is not in check.
pub open spec fn in_check(b: BoardModel, c: PieceColor) -> bool {
    match king_pos(b, c) {
        Some(k) => square_attacked_by(b, k, opposite_of(c)),
        None => false,
    }
}

/// The board after applying `mv`: the destination occupant, if any, is
/// recorded captured; a pawn stepping onto the en-passant target removes and
/// records the pawn one rank behind the destination; the en-passant target
/// is cleared and re-established only for a pawn double advance; the moved
/// piece lands on the destination carrying the promotion kind if one was
/// given; the turn flips and the half-move count grows by one. A move whose
/// source square holds no piece changes nothing.
pub open spec fn model_after_move(b: BoardModel, mv: ChessMove) -> BoardModel {
    match b.at_pos(mv.from) {
        None => b,
        Some(piece0) => {
            let captured1 = match b.at_pos(mv.to) {
                Some(q) => b.captured.push(q),
                None => b.captured,
            };
            let kind = match mv.promotion {
                Some(k) => k,
                None => piece0.piece_type,
            };
            let is_ep = kind == PieceType::Pawn && b.en_passant == Some(mv.to);
            let ep_sq = if mv.to.valid() {
                offset_of(mv.to, -pawn_dir(piece0.color), 0)
            } else {
                None
            };
            let ep_capture = is_ep && (match ep_sq {
                Some(q) => b.at_pos(q) is Some,
                None => false,
            });
            let captured2 = if ep_capture {
                captured1.push(b.at_pos(ep_sq.unwrap()).unwrap())
            } else {
                captured1
            };
            let squares1 = if ep_capture {
                place(b.squares, ep_sq.unwrap(), None)
            } else {
                b.squares
            };
            let new_ep = if kind == PieceType::Pawn && (mv.from.rank - mv.to.rank == 2
                || mv.to.rank - mv.from.rank == 2) {
                offset_of(mv.from, pawn_dir(piece0.color), 0)
            } else {
                None
            };
            let moved = Piece { piece_type: kind, color: piece0.color, has_moved: true };
            let squares2 = place(place(squares1, mv.from, None), mv.to, Some(moved));
            BoardModel {
                squares: squares2,
                turn: opposite_of(b.turn),
                move_count: b.move_count + 1,
                captured: captured2,
                en_passant: new_ep,
            }
        },
    }
}

/// A fully legal move of the side to move from `pos`: the square holds a
/// piece of that side, the move obeys its geometry, and applying it leaves
/// the mover's own king not attacked.
pub open spec fn legal_move_at(b: BoardModel, pos: Position, mv: ChessMove) -> bool {
    match b.at_pos(pos) {
        Some(p) => p.color == b.turn && pseudo_move_by(b, pos, p, mv) && !in_check(
            model_after_move(b, mv),
            p.color,
        ),
        None => false,
    }
}

/// The side to move has at least one legal move somewhere.
pub open spec fn has_any_legal_move(b: BoardModel) -> bool {
    exists|pos: Position, mv: ChessMove| #[trigger] legal_move_at(b, pos, mv)
}

/// The status of the game for the side to move, from whether it is in check
/// and whether it has any legal move.
pub open spec fn game_state_of(b: BoardModel) -> GameState {
    let ic = in_check(b, b.turn);
    let movable = has_any_legal_move(b);
    if !movable {
        if ic {
            GameState::Checkmate
        } else {
            GameState::Stalemate
        }
    } else if ic {
        GameState::Check
    } else {
        GameState::InProgress
    }
}

/// The piece the standard starting position puts on linear square `i`.
pub open spec fn start_piece(i: int) -> Option<Piece> {
    let r = i / 8;
    let f = i % 8;
    if r == 1 {
        Some(Piece { piece_type: PieceType::Pawn, color: PieceColor::Black, has_moved: false })
    } else if r == 6 {
        Some(Piece { piece_type: PieceType::Pawn, color: PieceColor::White, has_moved: false })
    } else if r == 0 {
        Some(Piece { piece_type: back_rank_kind(f), color: PieceColor::Black, has_moved: false })
    } else if r == 7 {
        Some(Piece { piece_type: back_rank_kind(f), color: PieceColor::White, has_moved: false })
    } else {
        None
    }
}

/// The kind standing on file `f` of a back rank at game start.
pub open spec fn back_rank_kind(f: int) -> PieceType {
    if f == 0 || f == 7 {
        PieceType::Rook
    } else if f == 1 || f == 6 {
        PieceType::Knight
    } else if f == 2 || f == 5 {
        PieceType::Bishop
    } else if f == 3 {
        PieceType::Queen
    } else {
        PieceType::King
    }
}

/// The squares after writing the standard starting pieces: every start
/// square gets its piece, every other square keeps what it held.
pub open spec fn standard_overlay(s: Seq<Option<Piece>>) -> Seq<Option<Piece>> {
    Seq::new(64, |i: int| if start_piece(i) is Some {
        start_piece(i)
    } else {
        s[i]
    })
}

/// The model of a freshly constructed board: the standard position, White
/// to move, nothing played and nothing captured.
pub open spec fn initial_model() -> BoardModel {
    BoardModel {
        squares: Seq::new(64, |i: int| start_piece(i)),
        turn: PieceColor::White,
        move_count: 0,
        captured: Seq::empty(),
        en_passant: None,
    }
}

} // verus!
