use chess_core::{Board, ChessMove, Piece, PieceColor, PieceType, PlayerColor, Position};

#[test]
fn algebraic_decoding() {
    assert_eq!(Position::from_algebraic("e4"), Some(Position::new(4, 4)));
    assert_eq!(Position::from_algebraic("a1"), Some(Position::new(7, 0)));
    assert_eq!(Position::from_algebraic("h8"), Some(Position::new(0, 7)));
}

#[test]
fn algebraic_encoding() {
    assert_eq!(Position::new(4, 4).to_algebraic(), "e4");
    assert_eq!(Position::new(7, 0).to_algebraic(), "a1");
    assert_eq!(Position::new(0, 7).to_algebraic(), "h8");
}

#[test]
fn algebraic_round_trip() {
    for rank in 0..8 {
        for file in 0..8 {
            let p = Position::new(rank, file);
            assert_eq!(Position::from_algebraic(&p.to_algebraic()), Some(p));
        }
    }
}

#[test]
fn malformed_algebraic_yields_none() {
    assert_eq!(Position::from_algebraic(""), None);
    assert_eq!(Position::from_algebraic("e"), None);
    assert_eq!(Position::from_algebraic("e44"), None);
    assert_eq!(Position::from_algebraic("i4"), None);
    assert_eq!(Position::from_algebraic("e9"), None);
    assert_eq!(Position::from_algebraic("e0"), None);
    assert_eq!(Position::from_algebraic("4e"), None);
}

#[test]
fn uci_decoding() {
    let m = ChessMove::from_uci("e2e4").unwrap();
    assert_eq!(m.from, Position::new(6, 4));
    assert_eq!(m.to, Position::new(4, 4));
    assert_eq!(m.promotion, None);

    let p = ChessMove::from_uci("e7e8q").unwrap();
    assert_eq!(p.from, Position::new(1, 4));
    assert_eq!(p.to, Position::new(0, 4));
    assert_eq!(p.promotion, Some(PieceType::Queen));

    assert_eq!(ChessMove::from_uci("a7a8r").unwrap().promotion, Some(PieceType::Rook));
    assert_eq!(ChessMove::from_uci("a7a8b").unwrap().promotion, Some(PieceType::Bishop));
    assert_eq!(ChessMove::from_uci("a7a8n").unwrap().promotion, Some(PieceType::Knight));
    // uppercase promotion letters are read as lowercase
    assert_eq!(ChessMove::from_uci("a7a8Q").unwrap().promotion, Some(PieceType::Queen));
}

#[test]
fn malformed_uci_yields_none() {
    assert_eq!(ChessMove::from_uci(""), None);
    assert_eq!(ChessMove::from_uci("e2e"), None);
    assert_eq!(ChessMove::from_uci("e2e4qq"), None);
    assert_eq!(ChessMove::from_uci("e9e4"), None);
    assert_eq!(ChessMove::from_uci("e2i4"), None);
    assert_eq!(ChessMove::from_uci("e2e4x"), None);
}

#[test]
fn uci_round_trip_without_promotion() {
    let m = ChessMove::new(Position::new(6, 4), Position::new(4, 4));
    let text = m.to_uci();
    assert_eq!(text, "e2e4");
    assert_eq!(ChessMove::from_uci(&text), Some(m));
}

#[test]
fn uci_round_trip_with_promotion() {
    for kind in [PieceType::Queen, PieceType::Rook, PieceType::Bishop, PieceType::Knight] {
        let m = ChessMove::with_promotion(Position::new(1, 4), Position::new(0, 4), kind);
        assert_eq!(ChessMove::from_uci(&m.to_uci()), Some(m));
    }
}

#[test]
fn offset_stays_on_the_board() {
    let p = Position::new(4, 4);
    assert_eq!(p.offset(-1, 0), Some(Position::new(3, 4)));
    assert_eq!(p.offset(2, 2), Some(Position::new(6, 6)));
    assert_eq!(Position::new(0, 0).offset(-1, 0), None);
    assert_eq!(Position::new(7, 7).offset(0, 1), None);
    assert!(Position::new(3, 3).is_valid());
}

#[test]
fn piece_characters() {
    assert_eq!(Piece::new(PieceType::King, PieceColor::White).fen_char(), 'K');
    assert_eq!(Piece::new(PieceType::Knight, PieceColor::Black).fen_char(), 'n');
    assert_eq!(Piece::new(PieceType::Pawn, PieceColor::White).to_char(), 'P');
    assert_eq!(Piece::new(PieceType::Queen, PieceColor::Black).to_char(), 'q');
}

#[test]
fn color_opposites() {
    assert_eq!(PieceColor::White.opposite(), PieceColor::Black);
    assert_eq!(PieceColor::Black.opposite(), PieceColor::White);
    assert_eq!(PlayerColor::White.to_piece_color(), PieceColor::White);
    assert_eq!(PlayerColor::Black.to_piece_color(), PieceColor::Black);
}

#[test]
fn initial_position_export() {
    let board = Board::new();
    assert_eq!(board.to_fen(), "rnbqkbnr/pppppppp/8/8/8/8/PPPPPPPP/RNBQKBNR w - - 0 1");
}

#[test]
fn export_after_double_advance_names_the_passed_square() {
    let mut board = Board::new();
    board.make_move(ChessMove::new(Position::new(6, 4), Position::new(4, 4)));
    assert_eq!(board.to_fen(), "rnbqkbnr/pppppppp/8/8/4P3/8/PPPP1PPP/RNBQKBNR b - e3 0 1");
}
