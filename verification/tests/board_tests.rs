use chess_core::{Board, ChessMove, GameState, Piece, PieceColor, PieceType, Position};

fn mv(from: (usize, usize), to: (usize, usize)) -> ChessMove {
    ChessMove::new(Position::new(from.0, from.1), Position::new(to.0, to.1))
}

#[test]
fn fresh_board_white_to_move() {
    let board = Board::new();
    assert_eq!(board.current_turn(), PieceColor::White);
    assert_eq!(board.move_count, 0);
}

#[test]
fn fresh_board_is_in_progress() {
    let board = Board::new();
    assert_eq!(board.check_game_state(), GameState::InProgress);
    assert!(!board.is_in_check(PieceColor::White));
    assert!(!board.is_in_check(PieceColor::Black));
}

#[test]
fn fresh_board_piece_placement() {
    let board = Board::new();
    assert_eq!(
        board.get_piece(Position::new(6, 4)),
        Some(Piece::new(PieceType::Pawn, PieceColor::White))
    );
    assert_eq!(
        board.get_piece(Position::new(0, 4)),
        Some(Piece::new(PieceType::King, PieceColor::Black))
    );
    assert_eq!(
        board.get_piece(Position::new(7, 3)),
        Some(Piece::new(PieceType::Queen, PieceColor::White))
    );
    assert_eq!(board.get_piece(Position::new(4, 4)), None);
}

#[test]
fn king_positions_on_fresh_board() {
    let board = Board::new();
    assert_eq!(board.get_king_position(PieceColor::White), Some(Position::new(7, 4)));
    assert_eq!(board.get_king_position(PieceColor::Black), Some(Position::new(0, 4)));
}

#[test]
fn e_pawn_has_exactly_two_moves() {
    let board = Board::new();
    let moves = board.get_valid_moves(Position::new(6, 4));
    assert_eq!(moves.len(), 2);
    assert!(moves.iter().any(|m| m.to == Position::new(5, 4)));
    assert!(moves.iter().any(|m| m.to == Position::new(4, 4)));
    assert!(moves.iter().all(|m| m.promotion.is_none()));
}

#[test]
fn knight_has_exactly_two_moves() {
    let board = Board::new();
    let moves = board.get_valid_moves(Position::new(7, 1));
    assert_eq!(moves.len(), 2);
    assert!(moves.iter().any(|m| m.to == Position::new(5, 0)));
    assert!(moves.iter().any(|m| m.to == Position::new(5, 2)));
}

#[test]
fn blocked_pieces_have_no_moves() {
    let board = Board::new();
    assert_eq!(board.get_valid_moves(Position::new(7, 0)).len(), 0);
    assert_eq!(board.get_valid_moves(Position::new(7, 2)).len(), 0);
    assert_eq!(board.get_valid_moves(Position::new(7, 3)).len(), 0);
    assert_eq!(board.get_valid_moves(Position::new(7, 4)).len(), 0);
}

#[test]
fn opponent_piece_yields_no_moves_on_white_turn() {
    let board = Board::new();
    assert_eq!(board.get_valid_moves(Position::new(1, 4)).len(), 0);
}

#[test]
fn turn_alternates_and_ply_counts() {
    let mut board = Board::new();
    assert_eq!(board.current_turn(), PieceColor::White);
    board.make_move(mv((6, 4), (4, 4)));
    assert_eq!(board.current_turn(), PieceColor::Black);
    board.make_move(mv((1, 4), (3, 4)));
    assert_eq!(board.current_turn(), PieceColor::White);
    assert_eq!(board.move_count, 2);
}

#[test]
fn capture_is_recorded() {
    let mut board = Board::new();
    board.make_move(mv((6, 4), (4, 4)));
    board.make_move(mv((1, 3), (3, 3)));
    // e4 pawn takes d5
    board.make_move(mv((4, 4), (3, 3)));
    assert_eq!(board.captured_pieces.len(), 1);
    assert_eq!(board.captured_pieces[0].piece_type, PieceType::Pawn);
    assert_eq!(board.captured_pieces[0].color, PieceColor::Black);
    let on_d5 = board.get_piece(Position::new(3, 3)).unwrap();
    assert_eq!(on_d5.color, PieceColor::White);
    assert_eq!(on_d5.piece_type, PieceType::Pawn);
}

#[test]
fn en_passant_capture_removes_the_passed_pawn() {
    let mut board = Board::new();
    board.make_move(mv((6, 4), (4, 4))); // e2e4
    board.make_move(mv((1, 0), (2, 0))); // a7a6
    board.make_move(mv((4, 4), (3, 4))); // e4e5
    board.make_move(mv((1, 3), (3, 3))); // d7d5, passing over d6
    assert_eq!(board.en_passant_target, Some(Position::new(2, 3)));

    let moves = board.get_valid_moves(Position::new(3, 4));
    let ep = moves.iter().find(|m| m.to == Position::new(2, 3));
    assert!(ep.is_some(), "the diagonal capture onto the passed-over square must be offered");

    board.make_move(*ep.unwrap());
    // the black pawn is removed from its landing square, not the passed-over one
    assert_eq!(board.get_piece(Position::new(3, 3)), None);
    let on_d6 = board.get_piece(Position::new(2, 3)).unwrap();
    assert_eq!(on_d6.color, PieceColor::White);
    assert_eq!(on_d6.piece_type, PieceType::Pawn);
    assert!(board.captured_pieces.iter().any(|p| p.color == PieceColor::Black
        && p.piece_type == PieceType::Pawn));
}

#[test]
fn en_passant_window_closes_after_one_move() {
    let mut board = Board::new();
    board.make_move(mv((6, 4), (4, 4))); // e2e4
    board.make_move(mv((1, 3), (3, 3))); // d7d5
    assert_eq!(board.en_passant_target, Some(Position::new(2, 3)));
    board.make_move(mv((6, 0), (5, 0))); // a2a3: any move clears it
    assert_eq!(board.en_passant_target, None);
}

#[test]
fn promotion_yields_exactly_four_tagged_moves() {
    let mut board = Board::new();
    // a white pawn one step from the farthest rank, with the way cleared
    board.set_piece(Position::new(1, 1), Some(Piece::new(PieceType::Pawn, PieceColor::White)));
    board.set_piece(Position::new(0, 0), None);
    board.set_piece(Position::new(0, 1), None);
    board.set_piece(Position::new(0, 2), None);

    let moves = board.get_valid_moves(Position::new(1, 1));
    assert_eq!(moves.len(), 4);
    for m in &moves {
        assert_eq!(m.to, Position::new(0, 1));
        assert!(m.promotion.is_some(), "no plain move may reach the farthest rank");
    }
    for kind in [PieceType::Queen, PieceType::Rook, PieceType::Bishop, PieceType::Knight] {
        assert!(moves.iter().any(|m| m.promotion == Some(kind)));
    }
}

#[test]
fn promotion_capture_also_yields_four_tagged_moves() {
    let mut board = Board::new();
    // white pawn on b7; only the capture of the a8 rook reaches the last rank
    board.set_piece(Position::new(1, 1), Some(Piece::new(PieceType::Pawn, PieceColor::White)));

    let moves = board.get_valid_moves(Position::new(1, 1));
    // captures of the a8 rook and the c8 bishop, four variants each
    assert_eq!(moves.len(), 8);
    assert!(moves.iter().all(|m| m.promotion.is_some()));
    assert_eq!(moves.iter().filter(|m| m.to == Position::new(0, 0)).count(), 4);
    assert_eq!(moves.iter().filter(|m| m.to == Position::new(0, 2)).count(), 4);
}

#[test]
fn applying_promotion_replaces_the_pawn() {
    let mut board = Board::new();
    board.set_piece(Position::new(1, 1), Some(Piece::new(PieceType::Pawn, PieceColor::White)));
    board.set_piece(Position::new(0, 1), None);
    let moves = board.get_valid_moves(Position::new(1, 1));
    let queen_move = moves
        .iter()
        .find(|m| m.to == Position::new(0, 1) && m.promotion == Some(PieceType::Queen))
        .unwrap();
    board.make_move(*queen_move);
    let promoted = board.get_piece(Position::new(0, 1)).unwrap();
    assert_eq!(promoted.piece_type, PieceType::Queen);
    assert_eq!(promoted.color, PieceColor::White);
    assert_eq!(board.get_piece(Position::new(1, 1)), None);
}

#[test]
fn fools_mate_is_checkmate() {
    let mut board = Board::new();
    board.make_move(mv((6, 5), (5, 5))); // f2f3
    board.make_move(mv((1, 4), (3, 4))); // e7e5
    board.make_move(mv((6, 6), (4, 6))); // g2g4
    board.make_move(mv((0, 3), (4, 7))); // Qd8h4, mate
    assert!(board.is_in_check(PieceColor::White));
    assert_eq!(board.check_game_state(), GameState::Checkmate);
}

#[test]
fn check_is_reported_when_a_reply_exists() {
    let mut board = Board::new();
    board.make_move(mv((6, 4), (4, 4))); // e2e4
    board.make_move(mv((1, 3), (3, 3))); // d7d5
    board.make_move(mv((7, 5), (3, 1))); // Bf1b5+, check on the black king
    assert!(board.is_in_check(PieceColor::Black));
    assert_eq!(board.check_game_state(), GameState::Check);
}

#[test]
fn legal_moves_never_leave_own_king_attacked() {
    // pinned piece: after e4/e5, Bb5 pins the d7 pawn against the black king
    let mut board = Board::new();
    board.make_move(mv((6, 4), (4, 4))); // e2e4
    board.make_move(mv((1, 4), (3, 4))); // e7e5
    board.make_move(mv((7, 5), (3, 1))); // Bf1b5
    // the d7 pawn may not move: it shields the king from the bishop
    assert_eq!(board.get_valid_moves(Position::new(1, 3)).len(), 0);
    // and every move that is offered keeps the king safe
    for rank in 0..8 {
        for file in 0..8 {
            let pos = Position::new(rank, file);
            for m in board.get_valid_moves(pos) {
                let mut probe = board.clone();
                probe.make_move(m);
                assert!(!probe.is_in_check(PieceColor::Black));
            }
        }
    }
}

#[test]
fn stalemate_is_reported() {
    let mut board = Board::new();
    // clear the board, then leave: white king a8, black queen b6, black king c6
    for rank in 0..8 {
        for file in 0..8 {
            board.set_piece(Position::new(rank, file), None);
        }
    }
    board.set_piece(Position::new(0, 0), Some(Piece::new(PieceType::King, PieceColor::White)));
    board.set_piece(Position::new(2, 1), Some(Piece::new(PieceType::Queen, PieceColor::Black)));
    board.set_piece(Position::new(2, 2), Some(Piece::new(PieceType::King, PieceColor::Black)));
    assert!(!board.is_in_check(PieceColor::White));
    assert_eq!(board.check_game_state(), GameState::Stalemate);
}

#[test]
fn make_move_from_empty_square_changes_nothing() {
    let mut board = Board::new();
    board.make_move(mv((4, 4), (3, 4)));
    assert_eq!(board.current_turn(), PieceColor::White);
    assert_eq!(board.move_count, 0);
    assert_eq!(board.captured_pieces.len(), 0);
}

#[test]
fn clone_is_independent() {
    let board = Board::new();
    let mut copy = board.clone();
    copy.make_move(mv((6, 4), (4, 4)));
    assert_eq!(board.get_piece(Position::new(6, 4)).map(|p| p.piece_type), Some(PieceType::Pawn));
    assert_eq!(copy.get_piece(Position::new(6, 4)), None);
    assert_eq!(board.current_turn(), PieceColor::White);
    assert_eq!(copy.current_turn(), PieceColor::Black);
}
