use vstd::prelude::*;

use crate::chess_move::ChessMove;
use crate::game_state::GameState;
use crate::piece::{Piece, PieceColor, PieceType};
use crate::position::Position;
use crate::rules::{
    attacks, bishop_move, diag_dir, enemy_attacks_from, game_state_of, has_any_legal_move,
    in_check, initial_model, king_from, king_move, king_pos, knight_move, legal_move_at,
    lemma_attacked_iff, lemma_nth_on_ray_some, model_after_move, nth_on_ray, pawn_move, place,
    pseudo_move_by, rook_move, slide_reaches, standard_overlay, straight_dir, BoardModel,
};

verus! {

broadcast use vstd::seq_lib::lemma_seq_contains_after_push;

/// The position container: 64 optional piece slots in row-major order, the
/// side to move, the half-move count, the captured pieces in capture order,
/// and the single-ply en-passant target.
pub struct Board {
    pub squares: Vec<Option<Piece>>,
    pub turn: PieceColor,
    pub move_count: usize,
    pub captured_pieces: Vec<Piece>,
    pub en_passant_target: Option<Position>,
}

impl View for Board {
    type V = BoardModel;

    open spec fn view(&self) -> BoardModel {
        BoardModel {
            squares: self.squares@,
            turn: self.turn,
            move_count: self.move_count as int,
            captured: self.captured_pieces@,
            en_passant: self.en_passant_target,
        }
    }
}

impl Board {
    /// The board holds exactly 64 squares.
    pub open spec fn wf(self) -> bool {
        self@.wf()
    }

    /// A fresh board holding the standard starting position, White to move.
    pub fn new() -> (b: Board)
        ensures
            b@ == initial_model(),
    {
        let mut board = Board {
            en_passant_target: None,
            squares: vec![None; 64],
            turn: PieceColor::White,
            move_count: 0,
            captured_pieces: Vec::new(),
        };
        board.setup_standard_position();
        proof {
            assert(board@.squares =~= initial_model().squares);
            assert(board@ =~= initial_model());
        }
        board
    }

    /// Writes the standard starting pieces onto the board; squares outside
    /// the four starting rows keep what they held.
    #[verifier::loop_isolation(false)]
    pub fn setup_standard_position(&mut self)
        requires
            old(self).wf(),
        ensures
            final(self)@ == (BoardModel {
                squares: standard_overlay(old(self)@.squares),
                ..old(self)@
            }),
    {
        let mut file: usize = 0;
        while file < 8
            invariant
                file <= 8,
                self.squares@.len() == 64,
                self.turn == old(self).turn,
                self.move_count == old(self).move_count,
                self.captured_pieces == old(self).captured_pieces,
                self.en_passant_target == old(self).en_passant_target,
                forall|j: int|
                    0 <= j < 64 ==> self.squares@[j] == (if (j / 8 == 1 || j / 8 == 6) && j % 8
                        < file {
                        crate::rules::start_piece(j)
                    } else {
                        old(self).squares@[j]
                    }),
            decreases 8 - file,
        {
            self.squares[8 + file] = Some(Piece::new(PieceType::Pawn, PieceColor::Black));
            self.squares[48 + file] = Some(Piece::new(PieceType::Pawn, PieceColor::White));
            file = file + 1;
        }

        self.squares[0] = Some(Piece::new(PieceType::Rook, PieceColor::Black));
        self.squares[7] = Some(Piece::new(PieceType::Rook, PieceColor::Black));
        self.squares[56] = Some(Piece::new(PieceType::Rook, PieceColor::White));
        self.squares[63] = Some(Piece::new(PieceType::Rook, PieceColor::White));

        self.squares[1] = Some(Piece::new(PieceType::Knight, PieceColor::Black));
        self.squares[6] = Some(Piece::new(PieceType::Knight, PieceColor::Black));
        self.squares[57] = Some(Piece::new(PieceType::Knight, PieceColor::White));
        self.squares[62] = Some(Piece::new(PieceType::Knight, PieceColor::White));

        self.squares[2] = Some(Piece::new(PieceType::Bishop, PieceColor::Black));
        self.squares[5] = Some(Piece::new(PieceType::Bishop, PieceColor::Black));
        self.squares[58] = Some(Piece::new(PieceType::Bishop, PieceColor::White));
        self.squares[61] = Some(Piece::new(PieceType::Bishop, PieceColor::White));

        self.squares[3] = Some(Piece::new(PieceType::Queen, PieceColor::Black));
        self.squares[59] = Some(Piece::new(PieceType::Queen, PieceColor::White));

        self.squares[4] = Some(Piece::new(PieceType::King, PieceColor::Black));
        self.squares[60] = Some(Piece::new(PieceType::King, PieceColor::White));

        proof {
            assert(self@.squares =~= standard_overlay(old(self)@.squares));
            assert(self@ =~= (BoardModel {
                squares: standard_overlay(old(self)@.squares),
                ..old(self)@
            }));
        }
    }

    /// The piece standing on `position`, or `None` for an empty or off-board
    /// square.
    pub fn get_piece(&self, position: Position) -> (r: Option<Piece>)
        requires
            self.wf(),
        ensures
            r == self@.at_pos(position),
    {
        if position.is_valid() {
            self.squares[position.rank * 8 + position.file]
        } else {
            None
        }
    }

    /// Writes `piece` onto `position`; off-board addresses are left alone.
    pub fn set_piece(&mut self, position: Position, piece: Option<Piece>)
        requires
            old(self).wf(),
        ensures
            final(self)@ == (BoardModel {
                squares: place(old(self)@.squares, position, piece),
                ..old(self)@
            }),
    {
        if position.is_valid() {
            self.squares[position.rank * 8 + position.file] = piece;
        }
    }

    /// Applies a move: records a capture, performs an en-passant removal,
    /// re-derives the en-passant target, promotes, relocates the piece,
    /// flips the turn and counts the half-move. A move from an empty square
    /// changes nothing. Callers are expected to pass only moves previously
    /// returned by the legal-move query.
    pub fn make_move(&mut self, chess_move: ChessMove)
        requires
            old(self).wf(),
            old(self).move_count < usize::MAX,
        ensures
            final(self)@ == model_after_move(old(self)@, chess_move),
    {
        let from = chess_move.from;
        let to = chess_move.to;

        if let Some(piece_on_from) = self.get_piece(from) {
            let mut piece = piece_on_from;

            if let Some(captured_piece) = self.get_piece(to) {
                self.captured_pieces.push(captured_piece);
            }

            if let Some(promotion_type) = chess_move.promotion {
                piece.piece_type = promotion_type;
            }

            let ep_match = match self.en_passant_target {
                Some(t) => t == to,
                None => false,
            };
            if piece.piece_type == PieceType::Pawn && ep_match && to.is_valid() {
                let direction: isize = if piece.color == PieceColor::White {
                    1
                } else {
                    -1
                };
                if let Some(captured_pos) = to.offset(direction, 0) {
                    if let Some(captured_piece) = self.get_piece(captured_pos) {
                        self.captured_pieces.push(captured_piece);
                        self.set_piece(captured_pos, None);
                    }
                }
            }

            self.en_passant_target = None;
            let double_advance = (to.rank > from.rank && to.rank - from.rank == 2) || (from.rank
                > to.rank && from.rank - to.rank == 2);
            if piece.piece_type == PieceType::Pawn && double_advance {
                let direction: isize = if piece.color == PieceColor::White {
                    -1
                } else {
                    1
                };
                self.en_passant_target = from.offset(direction, 0);
            }

            piece.has_moved = true;
            self.set_piece(from, None);
            self.set_piece(to, Some(piece));

            self.turn = self.turn.opposite();
            self.move_count = self.move_count + 1;

            proof {
                assert(self@ =~= model_after_move(old(self)@, chess_move));
            }
        }
    }

    /// Pushes the move from `from` onto `to` when `to` is empty or holds an
    /// enemy piece of side `color`.
    fn push_if_capturable(
        &self,
        from: Position,
        to: Position,
        color: PieceColor,
        moves: &mut Vec<ChessMove>,
    )
        requires
            self.wf(),
        ensures
            final(moves)@ == if self@.empty_or_enemy(to, color) {
                old(moves)@.push(ChessMove { from, to, promotion: None })
            } else {
                old(moves)@
            },
    {
        match self.get_piece(to) {
            None => {
                moves.push(ChessMove::new(from, to));
            },
            Some(target) => {
                if target.color != color {
                    moves.push(ChessMove::new(from, to));
                }
            },
        }
    }

    /// Appends every pseudo-legal knight move from `position`.
    #[verifier::rlimit(60)]
    fn get_knight_moves(&self, position: Position, piece: Piece, moves: &mut Vec<ChessMove>)
        requires
            self.wf(),
            position.valid(),
        ensures
            forall|mv: ChessMove|
                final(moves)@.contains(mv) <==> old(moves)@.contains(mv) || knight_move(
                    self@,
                    position,
                    piece.color,
                    mv,
                ),
    {
        if let Some(t) = position.offset(-2, -1) {
            self.push_if_capturable(position, t, piece.color, moves);
        }
        if let Some(t) = position.offset(-2, 1) {
            self.push_if_capturable(position, t, piece.color, moves);
        }
        if let Some(t) = position.offset(-1, -2) {
            self.push_if_capturable(position, t, piece.color, moves);
        }
        if let Some(t) = position.offset(-1, 2) {
            self.push_if_capturable(position, t, piece.color, moves);
        }
        if let Some(t) = position.offset(1, -2) {
            self.push_if_capturable(position, t, piece.color, moves);
        }
        if let Some(t) = position.offset(1, 2) {
            self.push_if_capturable(position, t, piece.color, moves);
        }
        if let Some(t) = position.offset(2, -1) {
            self.push_if_capturable(position, t, piece.color, moves);
        }
        if let Some(t) = position.offset(2, 1) {
            self.push_if_capturable(position, t, piece.color, moves);
        }
        proof {
            assert forall|mv: ChessMove|
                moves@.contains(mv) <==> old(moves)@.contains(mv) || knight_move(
                    self@,
                    position,
                    piece.color,
                    mv,
                ) by {
                if knight_move(self@, position, piece.color, mv) {
                    let d_r = mv.to.rank - position.rank;
                    let d_f = mv.to.file - position.file;
                    if d_r == -2 && d_f == -1 {
                        assert(crate::position::offset_of(position, -2, -1) == Some(mv.to));
                    } else if d_r == -2 && d_f == 1 {
                        assert(crate::position::offset_of(position, -2, 1) == Some(mv.to));
                    } else if d_r == -1 && d_f == -2 {
                        assert(crate::position::offset_of(position, -1, -2) == Some(mv.to));
                    } else if d_r == -1 && d_f == 2 {
                        assert(crate::position::offset_of(position, -1, 2) == Some(mv.to));
                    } else if d_r == 1 && d_f == -2 {
                        assert(crate::position::offset_of(position, 1, -2) == Some(mv.to));
                    } else if d_r == 1 && d_f == 2 {
                        assert(crate::position::offset_of(position, 1, 2) == Some(mv.to));
                    } else if d_r == 2 && d_f == -1 {
                        assert(crate::position::offset_of(position, 2, -1) == Some(mv.to));
                    } else {
                        assert(crate::position::offset_of(position, 2, 1) == Some(mv.to));
                    }
                    assert(moves@.contains(mv));
                }
            }
        }
    }

    /// Appends every pseudo-legal king move from `position`; castling is
    /// not a move of this engine.
    #[verifier::rlimit(60)]
    fn get_king_moves(&self, position: Position, piece: Piece, moves: &mut Vec<ChessMove>)
        requires
            self.wf(),
            position.valid(),
        ensures
            forall|mv: ChessMove|
                final(moves)@.contains(mv) <==> old(moves)@.contains(mv) || king_move(
                    self@,
                    position,
                    piece.color,
                    mv,
                ),
    {
        if let Some(t) = position.offset(-1, -1) {
            self.push_if_capturable(position, t, piece.color, moves);
        }
        if let Some(t) = position.offset(-1, 0) {
            self.push_if_capturable(position, t, piece.color, moves);
        }
        if let Some(t) = position.offset(-1, 1) {
            self.push_if_capturable(position, t, piece.color, moves);
        }
        if let Some(t) = position.offset(0, -1) {
            self.push_if_capturable(position, t, piece.color, moves);
        }
        if let Some(t) = position.offset(0, 1) {
            self.push_if_capturable(position, t, piece.color, moves);
        }
        if let Some(t) = position.offset(1, -1) {
            self.push_if_capturable(position, t, piece.color, moves);
        }
        if let Some(t) = position.offset(1, 0) {
            self.push_if_capturable(position, t, piece.color, moves);
        }
        if let Some(t) = position.offset(1, 1) {
            self.push_if_capturable(position, t, piece.color, moves);
        }
        proof {
            assert forall|mv: ChessMove|
                moves@.contains(mv) <==> old(moves)@.contains(mv) || king_move(
                    self@,
                    position,
                    piece.color,
                    mv,
                ) by {
                if king_move(self@, position, piece.color, mv) {
                    let d_r = mv.to.rank - position.rank;
                    let d_f = mv.to.file - position.file;
                    if d_r == -1 && d_f == -1 {
                        assert(crate::position::offset_of(position, -1, -1) == Some(mv.to));
                    } else if d_r == -1 && d_f == 0 {
                        assert(crate::position::offset_of(position, -1, 0) == Some(mv.to));
                    } else if d_r == -1 && d_f == 1 {
                        assert(crate::position::offset_of(position, -1, 1) == Some(mv.to));
                    } else if d_r == 0 && d_f == -1 {
                        assert(crate::position::offset_of(position, 0, -1) == Some(mv.to));
                    } else if d_r == 0 && d_f == 1 {
                        assert(crate::position::offset_of(position, 0, 1) == Some(mv.to));
                    } else if d_r == 1 && d_f == -1 {
                        assert(crate::position::offset_of(position, 1, -1) == Some(mv.to));
                    } else if d_r == 1 && d_f == 0 {
                        assert(crate::position::offset_of(position, 1, 0) == Some(mv.to));
                    } else {
                        assert(crate::position::offset_of(position, 1, 1) == Some(mv.to));
                    }
                    assert(moves@.contains(mv));
                }
            }
        }
    }

    /// Appends every pseudo-legal pawn move from `position`: the one- and
    /// two-step advances, the diagonal captures, the en-passant capture, and
    /// the four promotion variants in place of any move onto the farthest
    /// rank.
    #[verifier::rlimit(100)]
    fn get_pawn_moves(&self, position: Position, piece: Piece, moves: &mut Vec<ChessMove>)
        requires
            self.wf(),
            position.valid(),
        ensures
            forall|mv: ChessMove|
                final(moves)@.contains(mv) <==> old(moves)@.contains(mv) || pawn_move(
                    self@,
                    position,
                    piece.color,
                    mv,
                ),
    {
        let direction: isize = if piece.color == PieceColor::White {
            -1
        } else {
            1
        };
        let starting_rank: usize = if piece.color == PieceColor::White {
            6
        } else {
            1
        };
        let promotion_rank: usize = if piece.color == PieceColor::White {
            0
        } else {
            7
        };

        if let Some(forward) = position.offset(direction, 0) {
            if self.get_piece(forward).is_none() {
                if forward.rank == promotion_rank {
                    moves.push(ChessMove::with_promotion(position, forward, PieceType::Queen));
                    moves.push(ChessMove::with_promotion(position, forward, PieceType::Rook));
                    moves.push(ChessMove::with_promotion(position, forward, PieceType::Bishop));
                    moves.push(ChessMove::with_promotion(position, forward, PieceType::Knight));
                } else {
                    moves.push(ChessMove::new(position, forward));
                    if position.rank == starting_rank {
                        let double_step: isize = if piece.color == PieceColor::White {
                            -2
                        } else {
                            2
                        };
                        if let Some(double_forward) = position.offset(double_step, 0) {
                            if self.get_piece(double_forward).is_none() {
                                moves.push(ChessMove::new(position, double_forward));
                            }
                        }
                    }
                }
            }
        }

        if let Some(capture_pos) = position.offset(direction, -1) {
            if let Some(target) = self.get_piece(capture_pos) {
                if target.color != piece.color {
                    if capture_pos.rank == promotion_rank {
                        moves.push(
                            ChessMove::with_promotion(position, capture_pos, PieceType::Queen),
                        );
                        moves.push(
                            ChessMove::with_promotion(position, capture_pos, PieceType::Rook),
                        );
                        moves.push(
                            ChessMove::with_promotion(position, capture_pos, PieceType::Bishop),
                        );
                        moves.push(
                            ChessMove::with_promotion(position, capture_pos, PieceType::Knight),
                        );
                    } else {
                        moves.push(ChessMove::new(position, capture_pos));
                    }
                }
            }
            let ep_here = match self.en_passant_target {
                Some(t) => t == capture_pos,
                None => false,
            };
            if ep_here {
                moves.push(ChessMove::new(position, capture_pos));
            }
        }

        if let Some(capture_pos) = position.offset(direction, 1) {
            if let Some(target) = self.get_piece(capture_pos) {
                if target.color != piece.color {
                    if capture_pos.rank == promotion_rank {
                        moves.push(
                            ChessMove::with_promotion(position, capture_pos, PieceType::Queen),
                        );
                        moves.push(
                            ChessMove::with_promotion(position, capture_pos, PieceType::Rook),
                        );
                        moves.push(
                            ChessMove::with_promotion(position, capture_pos, PieceType::Bishop),
                        );
                        moves.push(
                            ChessMove::with_promotion(position, capture_pos, PieceType::Knight),
                        );
                    } else {
                        moves.push(ChessMove::new(position, capture_pos));
                    }
                }
            }
            let ep_here = match self.en_passant_target {
                Some(t) => t == capture_pos,
                None => false,
            };
            if ep_here {
                moves.push(ChessMove::new(position, capture_pos));
            }
        }

        proof {
            let c = piece.color;
            let dir = crate::rules::pawn_dir(c);
            let fr = position.rank as int;
            let ff = position.file as int;
            assert forall|mv: ChessMove|
                moves@.contains(mv) <==> old(moves)@.contains(mv) || pawn_move(
                    self@,
                    position,
                    c,
                    mv,
                ) by {
                if pawn_move(self@, position, c, mv) && !old(moves)@.contains(mv) {
                    let tr = mv.to.rank as int;
                    let tf = mv.to.file as int;
                    if tf == ff && tr == fr + dir && self@.at(tr, tf) is None {
                        assert(crate::position::offset_of(position, dir, 0) == Some(mv.to));
                        assert(moves@.contains(mv));
                    } else if tf == ff && tr == fr + 2 * dir {
                        assert(fr == crate::rules::pawn_start_rank(c));
                        assert(crate::position::offset_of(position, dir, 0) is Some);
                        assert(crate::position::offset_of(position, 2 * dir, 0) == Some(mv.to));
                        assert(moves@.contains(mv));
                    } else if tf == ff - 1 {
                        assert(crate::position::offset_of(position, dir, -1) == Some(mv.to));
                        assert(moves@.contains(mv));
                    } else {
                        assert(tf == ff + 1);
                        assert(crate::position::offset_of(position, dir, 1) == Some(mv.to));
                        assert(moves@.contains(mv));
                    }
                }
            }
        }
    }

    /// Appends the moves of one sliding ray from `position` along
    /// `(dr, df)`: every empty square up to and including the first enemy
    /// piece, stopping before a friendly piece or the board's edge.
    fn ray_moves(
        &self,
        position: Position,
        piece: Piece,
        dr: isize,
        df: isize,
        moves: &mut Vec<ChessMove>,
    )
        requires
            self.wf(),
            position.valid(),
            -1 <= dr <= 1,
            -1 <= df <= 1,
            !(dr == 0 && df == 0),
        ensures
            forall|mv: ChessMove|
                final(moves)@.contains(mv) <==> old(moves)@.contains(mv) || (mv.from == position
                    && mv.promotion is None && slide_reaches(
                    self@,
                    position,
                    dr as int,
                    df as int,
                    mv.to,
                ) && self@.empty_or_enemy(mv.to, piece.color)),
    {
        let ghost moves0 = moves@;
        let ghost bm = self@;
        let mut current_pos = position;
        let ghost mut steps: nat = 0;
        proof {
            assert(nth_on_ray(position, dr as int, df as int, 0) == Some(position));
        }
        loop
            invariant_except_break
                self.wf(),
                self@ == bm,
                position.valid(),
                -1 <= dr <= 1,
                -1 <= df <= 1,
                !(dr == 0 && df == 0),
                current_pos.valid(),
                nth_on_ray(position, dr as int, df as int, steps) == Some(current_pos),
                forall|j: nat|
                    1 <= j <= steps ==> (match #[trigger] nth_on_ray(
                        position,
                        dr as int,
                        df as int,
                        j,
                    ) {
                        Some(q) => bm.at_pos(q) is None,
                        None => false,
                    }),
                forall|mv: ChessMove| #![trigger moves@.contains(mv)]
                    moves@.contains(mv) <==> moves0.contains(mv) || (mv.from == position
                        && mv.promotion is None && (exists|j: nat|
                        1 <= j <= steps && #[trigger] nth_on_ray(
                            position,
                            dr as int,
                            df as int,
                            j,
                        ) == Some(mv.to))),
            ensures
                forall|mv: ChessMove|
                    moves@.contains(mv) <==> moves0.contains(mv) || (mv.from == position
                        && mv.promotion is None && slide_reaches(bm, position, dr as int, df as int, mv.to)
                        && bm.empty_or_enemy(mv.to, piece.color)),
            decreases (if dr != 0 {
                if dr > 0 {
                    7 - current_pos.rank as int
                } else {
                    current_pos.rank as int
                }
            } else {
                if df > 0 {
                    7 - current_pos.file as int
                } else {
                    current_pos.file as int
                }
            }),
        {
            let ghost prev_moves = moves@;
            let next = match current_pos.offset(dr, df) {
                Some(p) => p,
                None => {
                    proof {
                        let d_r = dr as int;
                        let d_f = df as int;
                        assert(nth_on_ray(position, d_r, d_f, steps + 1) is None);
                        assert forall|mv: ChessMove|
                            moves@.contains(mv) <==> moves0.contains(mv) || (mv.from == position
                                && mv.promotion is None && slide_reaches(bm, position, d_r, d_f, mv.to)
                                && bm.empty_or_enemy(mv.to, piece.color)) by {
                            if moves@.contains(mv) && !moves0.contains(mv) {
                                let j = choose|j: nat|
                                    1 <= j <= steps && #[trigger] nth_on_ray(position, d_r, d_f, j)
                                        == Some(mv.to);
                                assert(crate::rules::ray_clear_to(bm, position, d_r, d_f, j));
                                assert(slide_reaches(bm, position, d_r, d_f, mv.to));
                            }
                            if mv.from == position && mv.promotion is None && slide_reaches(
                                bm,
                                position,
                                d_r,
                                d_f,
                                mv.to,
                            ) && bm.empty_or_enemy(mv.to, piece.color) {
                                let k = choose|k: nat|
                                    1 <= k && #[trigger] nth_on_ray(position, d_r, d_f, k) == Some(
                                        mv.to,
                                    ) && crate::rules::ray_clear_to(bm, position, d_r, d_f, k);
                                if k > steps {
                                    lemma_nth_on_ray_some(position, d_r, d_f, steps + 1, k);
                                    assert(false);
                                }
                                assert(1 <= k <= steps && nth_on_ray(position, d_r, d_f, k)
                                    == Some(mv.to));
                                assert(moves@.contains(mv));
                            }
                        }
                    }
                    break ;
                },
            };
            proof {
                assert(nth_on_ray(position, dr as int, df as int, steps + 1) == Some(next));
            }
            match self.get_piece(next) {
                None => {
                    moves.push(ChessMove::new(position, next));
                    current_pos = next;
                    proof {
                        let d_r = dr as int;
                        let d_f = df as int;
                        assert forall|j: nat|
                            1 <= j <= steps + 1 implies (match #[trigger] nth_on_ray(
                                position,
                                d_r,
                                d_f,
                                j,
                            ) {
                                Some(q) => bm.at_pos(q) is None,
                                None => false,
                            }) by {
                            if j == steps + 1 {
                                assert(nth_on_ray(position, d_r, d_f, j) == Some(next));
                            }
                        }
                        assert forall|mv: ChessMove|
                            moves@.contains(mv) <==> moves0.contains(mv) || (mv.from == position
                                && mv.promotion is None && (exists|j: nat|
                                1 <= j <= steps + 1 && #[trigger] nth_on_ray(position, d_r, d_f, j)
                                    == Some(mv.to))) by {
                            if moves@.contains(mv) && !moves0.contains(mv) {
                                if prev_moves.contains(mv) {
                                    let j = choose|j: nat|
                                        1 <= j <= steps && #[trigger] nth_on_ray(
                                            position,
                                            d_r,
                                            d_f,
                                            j,
                                        ) == Some(mv.to);
                                    assert(1 <= j <= steps + 1 && nth_on_ray(position, d_r, d_f, j)
                                        == Some(mv.to));
                                } else {
                                    assert(mv == (ChessMove {
                                        from: position,
                                        to: next,
                                        promotion: None,
                                    }));
                                    assert(nth_on_ray(position, d_r, d_f, steps + 1) == Some(mv.to));
                                }
                            }
                            if mv.from == position && mv.promotion is None && (exists|j: nat|
                                1 <= j <= steps + 1 && #[trigger] nth_on_ray(position, d_r, d_f, j)
                                    == Some(mv.to)) {
                                let j = choose|j: nat|
                                    1 <= j <= steps + 1 && #[trigger] nth_on_ray(position, d_r, d_f, j)
                                        == Some(mv.to);
                                if j == steps + 1 {
                                    assert(mv.to == next);
                                    assert(moves@.contains(mv));
                                } else {
                                    assert(1 <= j <= steps && nth_on_ray(position, d_r, d_f, j)
                                        == Some(mv.to));
                                    assert(prev_moves.contains(mv));
                                }
                            }
                        }
                        steps = steps + 1;
                    }
                },
                Some(target) => {
                    if target.color != piece.color {
                        moves.push(ChessMove::new(position, next));
                    }
                    proof {
                        let d_r = dr as int;
                        let d_f = df as int;
                        assert forall|mv: ChessMove|
                            moves@.contains(mv) <==> moves0.contains(mv) || (mv.from == position
                                && mv.promotion is None && slide_reaches(bm, position, d_r, d_f, mv.to)
                                && bm.empty_or_enemy(mv.to, piece.color)) by {
                            if moves@.contains(mv) && !moves0.contains(mv) {
                                if prev_moves.contains(mv) {
                                    let j = choose|j: nat|
                                        1 <= j <= steps && #[trigger] nth_on_ray(
                                            position,
                                            d_r,
                                            d_f,
                                            j,
                                        ) == Some(mv.to);
                                    assert(crate::rules::ray_clear_to(bm, position, d_r, d_f, j));
                                    assert(slide_reaches(bm, position, d_r, d_f, mv.to));
                                    assert(bm.at_pos(mv.to) is None);
                                } else {
                                    assert(mv == (ChessMove {
                                        from: position,
                                        to: next,
                                        promotion: None,
                                    }));
                                    assert(crate::rules::ray_clear_to(
                                        bm,
                                        position,
                                        d_r,
                                        d_f,
                                        steps + 1,
                                    ));
                                    assert(slide_reaches(bm, position, d_r, d_f, mv.to));
                                }
                            }
                            if mv.from == position && mv.promotion is None && slide_reaches(
                                bm,
                                position,
                                d_r,
                                d_f,
                                mv.to,
                            ) && bm.empty_or_enemy(mv.to, piece.color) {
                                let k = choose|k: nat|
                                    1 <= k && #[trigger] nth_on_ray(position, d_r, d_f, k) == Some(
                                        mv.to,
                                    ) && crate::rules::ray_clear_to(bm, position, d_r, d_f, k);
                                if k <= steps {
                                    assert(prev_moves.contains(mv));
                                    assert(moves@.contains(mv));
                                } else if k == steps + 1 {
                                    assert(mv.to == next);
                                    assert(target.color != piece.color);
                                    assert(moves@.contains(mv));
                                } else {
                                    assert(nth_on_ray(position, d_r, d_f, steps + 1) == Some(next));
                                    assert(bm.at_pos(next) is Some);
                                    assert(!crate::rules::ray_clear_to(bm, position, d_r, d_f, k));
                                    assert(false);
                                }
                            }
                        }
                    }
                    break ;
                },
            }
        }
    }

    /// Appends every pseudo-legal bishop move from `position`: ray casts
    /// along the four diagonals.
    fn get_bishop_moves(&self, position: Position, piece: Piece, moves: &mut Vec<ChessMove>)
        requires
            self.wf(),
            position.valid(),
        ensures
            forall|mv: ChessMove|
                final(moves)@.contains(mv) <==> old(moves)@.contains(mv) || bishop_move(
                    self@,
                    position,
                    piece.color,
                    mv,
                ),
    {
        self.ray_moves(position, piece, -1, -1, moves);
        self.ray_moves(position, piece, -1, 1, moves);
        self.ray_moves(position, piece, 1, -1, moves);
        self.ray_moves(position, piece, 1, 1, moves);
        proof {
            assert forall|mv: ChessMove|
                final(moves)@.contains(mv) <==> old(moves)@.contains(mv) || bishop_move(
                    self@,
                    position,
                    piece.color,
                    mv,
                ) by {
                if bishop_move(self@, position, piece.color, mv) {
                    let (dr, df) = choose|dr: int, df: int|
                        diag_dir(dr, df) && #[trigger] slide_reaches(
                            self@,
                            position,
                            dr,
                            df,
                            mv.to,
                        );
                }
            }
        }
    }

    /// Appends every pseudo-legal rook move from `position`: ray casts
    /// along the four straight directions.
    fn get_rook_moves(&self, position: Position, piece: Piece, moves: &mut Vec<ChessMove>)
        requires
            self.wf(),
            position.valid(),
        ensures
            forall|mv: ChessMove|
                final(moves)@.contains(mv) <==> old(moves)@.contains(mv) || rook_move(
                    self@,
                    position,
                    piece.color,
                    mv,
                ),
    {
        self.ray_moves(position, piece, -1, 0, moves);
        self.ray_moves(position, piece, 1, 0, moves);
        self.ray_moves(position, piece, 0, -1, moves);
        self.ray_moves(position, piece, 0, 1, moves);
        proof {
            assert forall|mv: ChessMove|
                final(moves)@.contains(mv) <==> old(moves)@.contains(mv) || rook_move(
                    self@,
                    position,
                    piece.color,
                    mv,
                ) by {
                if rook_move(self@, position, piece.color, mv) {
                    let (dr, df) = choose|dr: int, df: int|
                        straight_dir(dr, df) && #[trigger] slide_reaches(
                            self@,
                            position,
                            dr,
                            df,
                            mv.to,
                        );
                }
            }
        }
    }

    /// The side to move.
    pub fn current_turn(&self) -> (r: PieceColor)
        ensures
            r == self@.turn,
    {
        self.turn
    }
}

impl Board {
    /// The square of the first king of `color` in row-major scan order, or
    /// `None` when no king of that side is on the board.
    pub fn get_king_position(&self, color: PieceColor) -> (r: Option<Position>)
        requires
            self.wf(),
        ensures
            r == king_pos(self@, color),
    {
        let mut rank: usize = 0;
        while rank < 8
            invariant
                self.wf(),
                rank <= 8,
                king_pos(self@, color) == king_from(self@, color, 8 * rank as int),
            decreases 8 - rank,
        {
            let mut file: usize = 0;
            while file < 8
                invariant
                    self.wf(),
                    rank < 8,
                    file <= 8,
                    king_pos(self@, color) == king_from(self@, color, 8 * rank + file as int),
                decreases 8 - file,
            {
                let pos = Position::new(rank, file);
                if let Some(piece) = self.get_piece(pos) {
                    if piece.piece_type == PieceType::King && piece.color == color {
                        proof {
                            assert(king_from(self@, color, 8 * rank + file as int) == Some(pos));
                        }
                        return Some(pos);
                    }
                }
                proof {
                    assert(king_from(self@, color, 8 * rank + file as int) == king_from(
                        self@,
                        color,
                        8 * rank + file + 1 as int,
                    ));
                }
                file = file + 1;
            }
            rank = rank + 1;
        }
        proof {
            assert(king_from(self@, color, 64) is None);
        }
        None
    }

    /// Whether the side `color` is in check: its king's square can be
    /// reached by a pseudo-legal move of some enemy piece. Pseudo-legal, not
    /// legal, generation is used for the attacker, so check detection never
    /// recurses into legality filtering.
    pub fn is_in_check(&self, color: PieceColor) -> (r: bool)
        requires
            self.wf(),
        ensures
            r == in_check(self@, color),
    {
        let king_position = match self.get_king_position(color) {
            Some(k) => k,
            None => {
                return false;
            },
        };
        let mut rank: usize = 0;
        while rank < 8
            invariant
                self.wf(),
                rank <= 8,
                king_pos(self@, color) == Some(king_position),
                forall|p: Position|
                    p.rank < rank ==> !(#[trigger] enemy_attacks_from(
                        self@,
                        p,
                        color,
                        king_position,
                    )),
            decreases 8 - rank,
        {
            let mut file: usize = 0;
            while file < 8
                invariant
                    self.wf(),
                    rank < 8,
                    file <= 8,
                    king_pos(self@, color) == Some(king_position),
                    forall|p: Position|
                        p.rank < rank || (p.rank == rank && p.file < file) ==> !(
                        #[trigger] enemy_attacks_from(self@, p, color, king_position)),
                decreases 8 - file,
            {
                let pos = Position::new(rank, file);
                if let Some(piece) = self.get_piece(pos) {
                    if piece.color != color {
                        let mut opponent_moves: Vec<ChessMove> = Vec::new();
                        match piece.piece_type {
                            PieceType::Pawn => self.get_pawn_moves(pos, piece, &mut opponent_moves),
                            PieceType::Knight => self.get_knight_moves(
                                pos,
                                piece,
                                &mut opponent_moves,
                            ),
                            PieceType::Bishop => self.get_bishop_moves(
                                pos,
                                piece,
                                &mut opponent_moves,
                            ),
                            PieceType::Rook => self.get_rook_moves(pos, piece, &mut opponent_moves),
                            PieceType::Queen => {
                                self.get_bishop_moves(pos, piece, &mut opponent_moves);
                                self.get_rook_moves(pos, piece, &mut opponent_moves);
                            },
                            PieceType::King => self.get_king_moves(pos, piece, &mut opponent_moves),
                        }
                        let mut i: usize = 0;
                        while i < opponent_moves.len()
                            invariant
                                self.wf(),
                                i <= opponent_moves@.len(),
                                self@.at_pos(pos) == Some(piece),
                                piece.color != color,
                                king_pos(self@, color) == Some(king_position),
                                forall|mv: ChessMove| #![trigger opponent_moves@.contains(mv)]
                                    opponent_moves@.contains(mv) <==> pseudo_move_by(
                                        self@,
                                        pos,
                                        piece,
                                        mv,
                                    ),
                                forall|j: int|
                                    0 <= j < i ==> (#[trigger] opponent_moves@[j]).to
                                        != king_position,
                            decreases opponent_moves@.len() - i,
                        {
                            let m = opponent_moves[i];
                            if m.to == king_position {
                                proof {
                                    assert(opponent_moves@.contains(m));
                                    assert(pseudo_move_by(self@, pos, piece, m));
                                    assert(attacks(self@, pos, king_position));
                                    assert(enemy_attacks_from(self@, pos, color, king_position));
                                    lemma_attacked_iff(self@, king_position, color);
                                    assert(in_check(self@, color));
                                }
                                return true;
                            }
                            i = i + 1;
                        }
                        proof {
                            if attacks(self@, pos, king_position) {
                                let mv = choose|mv: ChessMove|
                                    #[trigger] pseudo_move_by(self@, pos, piece, mv) && mv.to
                                        == king_position;
                                assert(opponent_moves@.contains(mv));
                                let j = choose|j: int|
                                    0 <= j < opponent_moves@.len() && opponent_moves@[j] == mv;
                                assert(false);
                            }
                        }
                    }
                }
                proof {
                    assert forall|p: Position|
                        p.rank < rank || (p.rank == rank && p.file < file + 1) implies !(
                    #[trigger] enemy_attacks_from(self@, p, color, king_position)) by {
                        if p.rank == rank && p.file == file {
                            if self@.at_pos(p) is Some {
                                assert(p.valid() ==> p == pos);
                            }
                        }
                    }
                }
                file = file + 1;
            }
            rank = rank + 1;
        }
        proof {
            lemma_attacked_iff(self@, king_position, color);
            if in_check(self@, color) {
                let p = choose|p: Position|
                    #[trigger] enemy_attacks_from(self@, p, color, king_position);
                assert(self@.at_pos(p) is Some);
                assert(p.valid());
                assert(false);
            }
        }
        false
    }

    /// Whether applying `chess_move` to a copy of this board leaves `color`
    /// in check: the brute-force legality test.
    fn would_be_in_check_after_move(&self, chess_move: ChessMove, color: PieceColor) -> (r: bool)
        requires
            self.wf(),
            self.move_count < usize::MAX,
        ensures
            r == in_check(model_after_move(self@, chess_move), color),
    {
        let mut temp_board = self.clone();
        temp_board.make_move(chess_move);
        proof {
            assert(temp_board.wf());
        }
        temp_board.is_in_check(color)
    }

    /// Every fully legal move for the piece standing on `position`: empty
    /// squares and pieces of the side not to move yield no moves, and every
    /// pseudo-legal candidate that would leave the mover's own king attacked
    /// is discarded.
    pub fn get_valid_moves(&self, position: Position) -> (r: Vec<ChessMove>)
        requires
            self.wf(),
            self.move_count < usize::MAX,
        ensures
            forall|mv: ChessMove| #![trigger r@.contains(mv)]
                r@.contains(mv) <==> legal_move_at(self@, position, mv),
    {
        let mut moves: Vec<ChessMove> = Vec::new();
        let piece = match self.get_piece(position) {
            Some(p) => p,
            None => {
                return moves;
            },
        };
        if piece.color != self.turn {
            return moves;
        }
        proof {
            assert(position.valid());
        }
        match piece.piece_type {
            PieceType::Pawn => self.get_pawn_moves(position, piece, &mut moves),
            PieceType::Knight => self.get_knight_moves(position, piece, &mut moves),
            PieceType::Bishop => self.get_bishop_moves(position, piece, &mut moves),
            PieceType::Rook => self.get_rook_moves(position, piece, &mut moves),
            PieceType::Queen => {
                self.get_bishop_moves(position, piece, &mut moves);
                self.get_rook_moves(position, piece, &mut moves);
            },
            PieceType::King => self.get_king_moves(position, piece, &mut moves),
        }
        let mut legal: Vec<ChessMove> = Vec::new();
        let mut i: usize = 0;
        while i < moves.len()
            invariant
                self.wf(),
                self.move_count < usize::MAX,
                i <= moves@.len(),
                self@.at_pos(position) == Some(piece),
                piece.color == self@.turn,
                forall|mv: ChessMove| #![trigger moves@.contains(mv)]
                    moves@.contains(mv) <==> pseudo_move_by(self@, position, piece, mv),
                forall|mv: ChessMove| #![trigger legal@.contains(mv)]
                    legal@.contains(mv) <==> ((exists|j: int| 0 <= j < i && moves@[j] == mv)
                        && !in_check(model_after_move(self@, mv), piece.color)),
            decreases moves@.len() - i,
        {
            let ghost prev_legal = legal@;
            let m = moves[i];
            if !self.would_be_in_check_after_move(m, piece.color) {
                legal.push(m);
            }
            proof {
                assert forall|mv: ChessMove| #![trigger legal@.contains(mv)]
                    legal@.contains(mv) <==> ((exists|j: int| 0 <= j < i + 1 && moves@[j] == mv)
                        && !in_check(model_after_move(self@, mv), piece.color)) by {
                    if legal@.contains(mv) && !prev_legal.contains(mv) {
                        assert(mv == m);
                        assert(moves@[i as int] == mv);
                    }
                    if ((exists|j: int| 0 <= j < i + 1 && moves@[j] == mv) && !in_check(
                        model_after_move(self@, mv),
                        piece.color,
                    )) {
                        let j = choose|j: int| 0 <= j < i + 1 && moves@[j] == mv;
                        if j == i {
                            assert(mv == m);
                            assert(legal@.contains(mv));
                        } else {
                            assert(prev_legal.contains(mv));
                        }
                    }
                }
            }
            i = i + 1;
        }
        proof {
            assert forall|mv: ChessMove| #![trigger legal@.contains(mv)]
                legal@.contains(mv) <==> legal_move_at(self@, position, mv) by {
                if legal@.contains(mv) {
                    let j = choose|j: int| 0 <= j < moves@.len() && moves@[j] == mv;
                    assert(moves@.contains(mv));
                }
                if legal_move_at(self@, position, mv) {
                    assert(pseudo_move_by(self@, position, piece, mv));
                    assert(moves@.contains(mv));
                    let j = choose|j: int| 0 <= j < moves@.len() && moves@[j] == mv;
                    assert(legal@.contains(mv));
                }
            }
        }
        legal
    }

    /// The status of the game for the side to move, recomputed from the
    /// board: whether that side is in check, and whether any of its pieces
    /// has a legal move.
    pub fn check_game_state(&self) -> (r: GameState)
        requires
            self.wf(),
            self.move_count < usize::MAX,
        ensures
            r == game_state_of(self@),
    {
        let current_color = self.turn;
        let in_check_now = self.is_in_check(current_color);

        let mut has_valid_moves = false;
        let mut rank: usize = 0;
        while rank < 8
            invariant
                self.wf(),
                self.move_count < usize::MAX,
                current_color == self@.turn,
                rank <= 8,
                has_valid_moves ==> has_any_legal_move(self@),
                !has_valid_moves ==> forall|pos: Position, mv: ChessMove|
                    pos.rank < rank ==> !(#[trigger] legal_move_at(self@, pos, mv)),
            decreases 8 - rank,
        {
            let mut file: usize = 0;
            while file < 8
                invariant
                    self.wf(),
                    self.move_count < usize::MAX,
                    current_color == self@.turn,
                    rank < 8,
                    file <= 8,
                    has_valid_moves ==> has_any_legal_move(self@),
                    !has_valid_moves ==> forall|pos: Position, mv: ChessMove|
                        pos.rank < rank || (pos.rank == rank && pos.file < file) ==> !(
                        #[trigger] legal_move_at(self@, pos, mv)),
                decreases 8 - file,
            {
                let pos = Position::new(rank, file);
                if let Some(piece) = self.get_piece(pos) {
                    if piece.color == current_color {
                        let valid_moves = self.get_valid_moves(pos);
                        if valid_moves.len() > 0 {
                            proof {
                                assert(valid_moves@.contains(valid_moves@[0]));
                                assert(legal_move_at(self@, pos, valid_moves@[0]));
                            }
                            has_valid_moves = true;
                        } else {
                            proof {
                                assert forall|mv: ChessMove| !(#[trigger] legal_move_at(
                                    self@,
                                    pos,
                                    mv,
                                )) by {
                                    if legal_move_at(self@, pos, mv) {
                                        assert(valid_moves@.contains(mv));
                                    }
                                }
                            }
                        }
                    }
                }
                proof {
                    if !has_valid_moves {
                        assert forall|p: Position, mv: ChessMove|
                            p.rank < rank || (p.rank == rank && p.file < file + 1) implies !(
                        #[trigger] legal_move_at(self@, p, mv)) by {
                            if p.rank == rank && p.file == file {
                                if self@.at_pos(p) is Some {
                                    assert(p.valid() ==> p == pos);
                                }
                            }
                        }
                    }
                }
                file = file + 1;
            }
            rank = rank + 1;
        }

        proof {
            if !has_valid_moves && has_any_legal_move(self@) {
                let (pos, mv) = choose|pos: Position, mv: ChessMove|
                    #[trigger] legal_move_at(self@, pos, mv);
                assert(self@.at_pos(pos) is Some);
                assert(pos.valid());
                assert(false);
            }
        }

        if !has_valid_moves {
            if in_check_now {
                GameState::Checkmate
            } else {
                GameState::Stalemate
            }
        } else if in_check_now {
            GameState::Check
        } else {
            GameState::InProgress
        }
    }
}

impl Clone for Board {
    /// An independent deep copy with the same model.
    fn clone(&self) -> (r: Board)
        ensures
            r@ == self@,
    {
        let mut squares: Vec<Option<Piece>> = Vec::new();
        let mut i: usize = 0;
        while i < self.squares.len()
            invariant
                i <= self.squares@.len(),
                squares@ == self.squares@.subrange(0, i as int),
            decreases self.squares@.len() - i,
        {
            squares.push(self.squares[i]);
            proof {
                assert(squares@ =~= self.squares@.subrange(0, i + 1 as int));
            }
            i = i + 1;
        }
        let mut captured: Vec<Piece> = Vec::new();
        let mut k: usize = 0;
        while k < self.captured_pieces.len()
            invariant
                k <= self.captured_pieces@.len(),
                captured@ == self.captured_pieces@.subrange(0, k as int),
            decreases self.captured_pieces@.len() - k,
        {
            captured.push(self.captured_pieces[k]);
            proof {
                assert(captured@ =~= self.captured_pieces@.subrange(0, k + 1 as int));
            }
            k = k + 1;
        }
        let r = Board {
            squares,
            turn: self.turn,
            move_count: self.move_count,
            captured_pieces: captured,
            en_passant_target: self.en_passant_target,
        };
        proof {
            assert(self.squares@.subrange(0, self.squares@.len() as int) =~= self.squares@);
            assert(self.captured_pieces@.subrange(0, self.captured_pieces@.len() as int)
                =~= self.captured_pieces@);
            assert(r@ =~= self@);
        }
        r
    }
}

} // verus!
