use vstd::prelude::*;

use crate::chess_move::{parse_uci, promo_encodable, uci_of, ChessMove};
use crate::game_state::GameState;
use crate::piece::{opposite_of, Piece, PieceColor, PieceType};
use crate::position::{alg_of, parse_alg, Position};
use crate::rules::{
    attacks, enemy_attacks_from, game_state_of, has_any_legal_move, in_check, king_from,
    legal_move_at, lemma_attacked_iff, model_after_move, pawn_move, promo_rank, pseudo_move_by,
    ray_clear_to, slide_reaches, BoardModel,
};

verus! {

/// Law: the legality invariant. Every move the legal-move query accepts for
/// a square leaves the moving side's own king not attacked after the move
/// is applied.
pub proof fn lemma_legal_move_safe(b: BoardModel, pos: Position, mv: ChessMove)
    requires
        legal_move_at(b, pos, mv),
    ensures
        !in_check(model_after_move(b, mv), b.turn),
{
}

/// Law: the classification table. The game status is Checkmate exactly when
/// the side to move is in check and the union of the legal moves of all its
/// pieces is empty; Stalemate exactly when it is not in check and that union
/// is empty; Check exactly when it is in check and the union is non-empty;
/// and InProgress exactly when it is not in check and the union is
/// non-empty.
pub proof fn lemma_classification(b: BoardModel)
    ensures
        (game_state_of(b) == GameState::Checkmate) <==> (in_check(b, b.turn)
            && !has_any_legal_move(b)),
        (game_state_of(b) == GameState::Stalemate) <==> (!in_check(b, b.turn)
            && !has_any_legal_move(b)),
        (game_state_of(b) == GameState::Check) <==> (in_check(b, b.turn) && has_any_legal_move(
            b,
        )),
        (game_state_of(b) == GameState::InProgress) <==> (!in_check(b, b.turn)
            && has_any_legal_move(b)),
{
}

/// Law: promotion is never silent and comes in all four kinds. A pawn move
/// onto the farthest rank always carries a promotion kind — it is never a
/// plain move — and replacing its promotion kind by any of queen, rook,
/// bishop or knight gives an equally pseudo-legal pawn move. A board whose
/// recorded en-passant target lies on the farthest rank is excluded: there a
/// diagonal step onto the target is a pawn move without a promotion.
pub proof fn lemma_promotion_variants(
    b: BoardModel,
    from: Position,
    c: PieceColor,
    mv: ChessMove,
    k: PieceType,
)
    requires
        pawn_move(b, from, c, mv),
        mv.to.rank as int == promo_rank(c),
        match b.en_passant {
            Some(t) => t.rank as int != promo_rank(c),
            None => true,
        },
        k == PieceType::Queen || k == PieceType::Rook || k == PieceType::Bishop || k
            == PieceType::Knight,
    ensures
        mv.promotion is Some,
        pawn_move(b, from, c, ChessMove { promotion: Some(k), ..mv }),
{
}

/// Law: algebraic notation round-trips; decoding the encoding of a square
/// gives back that square.
pub proof fn lemma_alg_round_trip(p: Position)
    requires
        p.valid(),
    ensures
        parse_alg(alg_of(p)) == Some(p),
{
    let s = alg_of(p);
    assert(s.len() == 2);
    assert(s[0] == ((97 + p.file) as u8) as char);
    assert(s[1] == ((56 - p.rank) as u8) as char);
    assert(s[0] as u32 == 97 + p.file);
    assert(s[1] as u32 == 56 - p.rank);
}

/// Law: engine notation round-trips; decoding the encoding of a move, with
/// or without a promotion, gives back an equal move.
pub proof fn lemma_uci_round_trip(mv: ChessMove)
    requires
        mv.from.valid(),
        mv.to.valid(),
        promo_encodable(mv.promotion),
    ensures
        parse_uci(uci_of(mv)) == Some(mv),
{
    let s = uci_of(mv);
    assert(s.subrange(0, 2) =~= alg_of(mv.from));
    assert(s.subrange(2, 4) =~= alg_of(mv.to));
    lemma_alg_round_trip(mv.from);
    lemma_alg_round_trip(mv.to);
}



/// Law: applying a move from an occupied square flips the side to move
/// exactly once and counts exactly one half-move; a move from an empty
/// square changes nothing at all.
pub proof fn lemma_move_application_effects(b: BoardModel, mv: ChessMove)
    ensures
        b.at_pos(mv.from) is Some ==> model_after_move(b, mv).turn == opposite_of(b.turn)
            && model_after_move(b, mv).move_count == b.move_count + 1,
        b.at_pos(mv.from) is None ==> model_after_move(b, mv) == b,
{
}

/// Two boards that agree everywhere except that the piece on square `s` —
/// on both boards a piece of color `c` and on neither a king — may differ
/// in kind. They also agree on the en-passant target.
pub open spec fn retyped_only_at(
    b1: BoardModel,
    b2: BoardModel,
    s: Position,
    c: PieceColor,
) -> bool {
    &&& b1.wf()
    &&& b2.wf()
    &&& s.valid()
    &&& b1.en_passant == b2.en_passant
    &&& forall|i: int|
        0 <= i < 64 && i != s.rank * 8 + s.file ==> b1.squares[i] == b2.squares[i]
    &&& match (b1.at_pos(s), b2.at_pos(s)) {
        (Some(p), Some(q)) => p.color == c && q.color == c && p.piece_type != PieceType::King
            && q.piece_type != PieceType::King,
        _ => false,
    }
}

/// On two boards related by `retyped_only_at`, every square agrees on
/// occupancy, and occupied squares agree on color; squares other than `s`
/// agree entirely.
proof fn lemma_retype_occupancy(b1: BoardModel, b2: BoardModel, s: Position, c: PieceColor)
    requires
        retyped_only_at(b1, b2, s, c),
    ensures
        forall|q: Position| #![trigger b1.at_pos(q)] #![trigger b2.at_pos(q)]
            b1.at_pos(q) is Some <==> b2.at_pos(q) is Some,
        forall|q: Position| #![trigger b1.at_pos(q)] #![trigger b2.at_pos(q)]
            match (b1.at_pos(q), b2.at_pos(q)) {
                (Some(p1), Some(p2)) => p1.color == p2.color,
                _ => true,
            },
        forall|q: Position| #![trigger b1.at_pos(q)] #![trigger b2.at_pos(q)]
            q != s ==> b1.at_pos(q) == b2.at_pos(q),
        forall|r: int, f: int| #![trigger b1.at(r, f)] #![trigger b2.at(r, f)]
            b1.at(r, f) is Some <==> b2.at(r, f) is Some,
        forall|r: int, f: int| #![trigger b1.at(r, f)] #![trigger b2.at(r, f)]
            match (b1.at(r, f), b2.at(r, f)) {
                (Some(p1), Some(p2)) => p1.color == p2.color,
                _ => true,
            },
{
    assert forall|r: int, f: int| #![trigger b1.at(r, f)] #![trigger b2.at(r, f)]
        (b1.at(r, f) is Some <==> b2.at(r, f) is Some) && (match (
            b1.at(r, f),
            b2.at(r, f),
        ) {
            (Some(p1), Some(p2)) => p1.color == p2.color,
            _ => true,
        }) by {
        if 0 <= r < 8 && 0 <= f < 8 {
            if r * 8 + f == s.rank * 8 + s.file {
                assert(r == s.rank && f == s.file);
            }
        }
    }
    assert forall|q: Position| #![trigger b1.at_pos(q)] #![trigger b2.at_pos(q)]
        (b1.at_pos(q) is Some <==> b2.at_pos(q) is Some) && (match (
            b1.at_pos(q),
            b2.at_pos(q),
        ) {
            (Some(p1), Some(p2)) => p1.color == p2.color,
            _ => true,
        }) && (q != s ==> b1.at_pos(q) == b2.at_pos(q)) by {
        if q.valid() && q.rank * 8 + q.file == s.rank * 8 + s.file {
            assert(q == s);
        }
    }
}

/// The king scan cannot tell two boards apart that differ only in the kind
/// of one non-king piece.
proof fn lemma_retype_king_from(
    b1: BoardModel,
    b2: BoardModel,
    s: Position,
    c: PieceColor,
    kc: PieceColor,
    i: int,
)
    requires
        retyped_only_at(b1, b2, s, c),
    ensures
        king_from(b1, kc, i) == king_from(b2, kc, i),
    decreases 64 - i,
{
    if 0 <= i < 64 {
        if i == s.rank * 8 + s.file {
            assert(b1.squares[i] == b1.at_pos(s));
            assert(b2.squares[i] == b2.at_pos(s));
        }
        lemma_retype_king_from(b1, b2, s, c, kc, i + 1);
    }
}

/// A sliding ray cannot tell two boards apart that agree on occupancy.
proof fn lemma_retype_slide(
    b1: BoardModel,
    b2: BoardModel,
    s: Position,
    c: PieceColor,
    from: Position,
    dr: int,
    df: int,
    t: Position,
)
    requires
        retyped_only_at(b1, b2, s, c),
    ensures
        slide_reaches(b1, from, dr, df, t) == slide_reaches(b2, from, dr, df, t),
{
    lemma_retype_occupancy(b1, b2, s, c);
    if slide_reaches(b1, from, dr, df, t) {
        let k = choose|k: nat|
            1 <= k && #[trigger] crate::rules::nth_on_ray(from, dr, df, k) == Some(t)
                && ray_clear_to(b1, from, dr, df, k);
        assert(ray_clear_to(b2, from, dr, df, k));
        assert(slide_reaches(b2, from, dr, df, t));
    }
    if slide_reaches(b2, from, dr, df, t) {
        let k = choose|k: nat|
            1 <= k && #[trigger] crate::rules::nth_on_ray(from, dr, df, k) == Some(t)
                && ray_clear_to(b2, from, dr, df, k);
        assert(ray_clear_to(b1, from, dr, df, k));
        assert(slide_reaches(b1, from, dr, df, t));
    }
}

/// A piece's movement geometry cannot tell two boards apart that differ
/// only in the kind of one non-king piece: it reads only occupancy, colors
/// and the en-passant target.
proof fn lemma_retype_pseudo(
    b1: BoardModel,
    b2: BoardModel,
    s: Position,
    c: PieceColor,
    from: Position,
    p: Piece,
    mv: ChessMove,
)
    requires
        retyped_only_at(b1, b2, s, c),
    ensures
        pseudo_move_by(b1, from, p, mv) == pseudo_move_by(b2, from, p, mv),
{
    lemma_retype_occupancy(b1, b2, s, c);
    assert forall|dr: int, df: int|
        #![trigger slide_reaches(b1, from, dr, df, mv.to)]
        #![trigger slide_reaches(b2, from, dr, df, mv.to)]
        slide_reaches(b1, from, dr, df, mv.to) == slide_reaches(b2, from, dr, df, mv.to) by {
        lemma_retype_slide(b1, b2, s, c, from, dr, df, mv.to);
    }
}

/// Law behind promotion-kind symmetry: check detection cannot tell two
/// boards apart that differ only in the kind of one non-king piece of the
/// checked side.
pub proof fn lemma_retype_in_check(b1: BoardModel, b2: BoardModel, s: Position, c: PieceColor)
    requires
        retyped_only_at(b1, b2, s, c),
    ensures
        in_check(b1, c) == in_check(b2, c),
{
    lemma_retype_king_from(b1, b2, s, c, c, 0);
    lemma_retype_occupancy(b1, b2, s, c);
    match crate::rules::king_pos(b1, c) {
        None => {},
        Some(k) => {
            assert forall|from: Position|
                #![trigger enemy_attacks_from(b1, from, c, k)]
                #![trigger enemy_attacks_from(b2, from, c, k)]
                enemy_attacks_from(b1, from, c, k) == enemy_attacks_from(b2, from, c, k) by {
                if b1.at_pos(from) is Some && b1.at_pos(from).unwrap().color != c {
                    assert(from != s);
                    assert(b1.at_pos(from) == b2.at_pos(from));
                    let p = b1.at_pos(from).unwrap();
                    assert forall|mv: ChessMove|
                        #![trigger pseudo_move_by(b1, from, p, mv)]
                        #![trigger pseudo_move_by(b2, from, p, mv)]
                        pseudo_move_by(b1, from, p, mv) == pseudo_move_by(b2, from, p, mv) by {
                        lemma_retype_pseudo(b1, b2, s, c, from, p, mv);
                    }
                    if attacks(b1, from, k) {
                        let mv = choose|mv: ChessMove|
                            #[trigger] pseudo_move_by(b1, from, p, mv) && mv.to == k;
                        assert(attacks(b2, from, k));
                    }
                    if attacks(b2, from, k) {
                        let mv = choose|mv: ChessMove|
                            #[trigger] pseudo_move_by(b2, from, p, mv) && mv.to == k;
                        assert(attacks(b1, from, k));
                    }
                }
            }
            lemma_attacked_iff(b1, k, c);
            lemma_attacked_iff(b2, k, c);
            if in_check(b1, c) {
                let from = choose|from: Position| #[trigger] enemy_attacks_from(b1, from, c, k);
                assert(enemy_attacks_from(b2, from, c, k));
            }
            if in_check(b2, c) {
                let from = choose|from: Position| #[trigger] enemy_attacks_from(b2, from, c, k);
                assert(enemy_attacks_from(b1, from, c, k));
            }
        },
    }
}

/// Law: the four promotion kinds stand or fall together under the legality
/// filter. When the legal-move query accepts a pawn move onto the farthest
/// rank, the same move with any of the four promotion kinds is equally
/// legal — so exactly the four tagged variants are offered, and never a
/// plain move. Boards whose recorded en-passant target lies on the farthest
/// rank are excluded, as in `lemma_promotion_variants`.
pub proof fn lemma_promotion_legal_variants(
    b: BoardModel,
    pos: Position,
    mv: ChessMove,
    k: PieceType,
)
    requires
        b.wf(),
        legal_move_at(b, pos, mv),
        b.at_pos(pos) matches Some(p) && p.piece_type == PieceType::Pawn,
        mv.to.rank as int == promo_rank(b.at_pos(pos).unwrap().color),
        match b.en_passant {
            Some(t) => t.rank as int != promo_rank(b.at_pos(pos).unwrap().color),
            None => true,
        },
        k == PieceType::Queen || k == PieceType::Rook || k == PieceType::Bishop || k
            == PieceType::Knight,
    ensures
        mv.promotion is Some,
        legal_move_at(b, pos, ChessMove { promotion: Some(k), ..mv }),
{
    let p = b.at_pos(pos).unwrap();
    lemma_promotion_variants(b, pos, p.color, mv, k);
    let mv2 = ChessMove { promotion: Some(k), ..mv };
    let a1 = model_after_move(b, mv);
    let a2 = model_after_move(b, mv2);
    assert(a1.squares.len() == 64);
    assert(a2.squares.len() == 64);
    assert(retyped_only_at(a1, a2, mv.to, p.color));
    lemma_retype_in_check(a1, a2, mv.to, p.color);
}

} // verus!
