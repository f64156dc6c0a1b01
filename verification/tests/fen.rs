use chess_core::board::{Castling, CastlingRights, Position};
use chess_core::fen_parser::FenParser;
use chess_core::square::Square;
use chess_core::ChessError;

#[test]
fn test_parse_fen_any_castling() {
    let fen = "rnbqkbnr/pppppppp/8/8/8/8/PPPPPPPP/RNBQKBNR w KQkq - 0 1";
    let fen_parser = FenParser::new();
    let position = fen_parser.parse_fen(fen).unwrap();
    assert_eq!(
        position.state.castling_rights,
        CastlingRights(Castling::ANY_CASTLING)
    );
}

#[test]
fn test_parse_fen_only_white_can_castle() {
    let fen_parser = FenParser::new();
    // White can castle king-side, but not queen-side. Black can't castle.
    let fen = "rnbqkbnr/pppppppp/8/8/8/8/PPPPPPPP/RNBQKBNR w K - 0 1";
    let position = fen_parser.parse_fen(fen).unwrap();
    assert_eq!(
        position.state.castling_rights,
        CastlingRights(Castling::WHITE_OO & !Castling::WHITE_OOO & !Castling::BLACK_CASTLING)
    );

    // White can castle queen-side, but not king-side. Black can't castle.
    let fen = "rnbqkbnr/pppppppp/8/8/8/8/PPPPPPPP/RNBQKBNR w Q - 0 1";
    let position = fen_parser.parse_fen(fen).unwrap();
    assert_eq!(
        position.state.castling_rights,
        CastlingRights(Castling::WHITE_OOO & !Castling::WHITE_OO & !Castling::BLACK_CASTLING)
    );

    // White can castle both sides. Black can't castle.
    let fen = "rnbqkbnr/pppppppp/8/8/8/8/PPPPPPPP/RNBQKBNR w KQ - 0 1";
    let position = fen_parser.parse_fen(fen).unwrap();
    assert_eq!(
        position.state.castling_rights,
        CastlingRights(Castling::WHITE_CASTLING & !Castling::BLACK_CASTLING)
    );
}

#[test]
fn test_parse_fen_only_black_can_castle() {
    let fen_parser = FenParser::new();
    // Black can castle king-side, but not queen-side. White can't castle.
    let fen = "rnbqkbnr/pppppppp/8/8/8/8/PPPPPPPP/RNBQKBNR b k - 0 1";
    let position = fen_parser.parse_fen(fen).unwrap();
    assert_eq!(
        position.state.castling_rights,
        CastlingRights(Castling::BLACK_OO & !Castling::BLACK_OOO & !Castling::WHITE_CASTLING)
    );

    // Black can castle queen-side, but not king-side. White can't castle.
    let fen = "rnbqkbnr/pppppppp/8/8/8/8/PPPPPPPP/RNBQKBNR b q - 0 1";
    let position = fen_parser.parse_fen(fen).unwrap();
    assert_eq!(
        position.state.castling_rights,
        CastlingRights(Castling::BLACK_OOO & !Castling::BLACK_OO & !Castling::WHITE_CASTLING)
    );

    // Black can castle both sides. White can't castle.
    let fen = "rnbqkbnr/pppppppp/8/8/8/8/PPPPPPPP/RNBQKBNR b kq - 0 1";
    let position = fen_parser.parse_fen(fen).unwrap();
    assert_eq!(
        position.state.castling_rights,
        CastlingRights(Castling::BLACK_CASTLING & !Castling::WHITE_CASTLING)
    );
}

#[test]
fn test_parse_fen_no_castling() {
    let fen_parser = FenParser::new();
    // Neither side can castle.
    let fen = "rnbqkbnr/pppppppp/8/8/8/8/PPPPPPPP/RNBQKBNR w - - 0 1";
    let position = fen_parser.parse_fen(fen).unwrap();
    assert_eq!(
        position.state.castling_rights,
        CastlingRights(Castling::NO_CASTLING)
    );
}

#[test]
fn test_parse_fen_en_passant() {
    // An en-passant target must sit on the rank a pawn of the side that
    // just moved skipped; `a1` and `h8` are on no such rank, so the
    // described state is impossible and construction refuses it.
    let fen_parser = FenParser::new();
    let fen = "rnbqkbnr/pppp1ppp/8/4P3/8/8/PPPP1PPP/RNBQKBNR b KQkq a1 0 1";
    let position = fen_parser.parse_fen(fen);
    assert_eq!(position, Err(ChessError::InvalidPositionState));

    let fen = "rnbqkbnr/pppp1ppp/8/4P3/8/8/PPPP1PPP/RNBQKBNR b KQkq h8 0 1";
    let position = fen_parser.parse_fen(fen);
    assert_eq!(position, Err(ChessError::InvalidPositionState));
}

#[test]
fn test_parse_fen_en_passant_plausible() {
    // The position right after 1. e4: the target e3 is on the right rank,
    // with the white pawn behind it.
    let fen_parser = FenParser::new();
    let fen = "rnbqkbnr/pppppppp/8/8/4P3/8/PPPP1PPP/RNBQKBNR b KQkq e3 0 1";
    let position = fen_parser.parse_fen(fen).unwrap();
    assert_eq!(position.state.en_passant_square, Some(Square::E3));
}

#[test]
fn test_convert_index() {
    assert_eq!(Square::A1 as usize, FenParser::convert_index(0));
    assert_eq!(Square::A8 as usize, 0);
    assert_eq!(Square::B1 as usize, FenParser::convert_index(1));
    assert_eq!(Square::B8 as usize, 1);
    assert_eq!(Square::H8 as usize, FenParser::convert_index(63));
    assert_eq!(Square::H1 as usize, 63);
    assert_eq!(Square::E1 as usize, FenParser::convert_index(4));
    assert_eq!(Square::E1 as usize, 60);
}

#[test]
fn test_parse_position_pieces_from_fen() {
    let fen_parser = FenParser::new();
    let fen = "rnbqkbnr/pppppppp/8/8/8/8/PPPPPPPP/RNBQKBNR w KQkq - 0 1";
    let position = fen_parser.parse_fen(fen).unwrap();
    assert_eq!(Position::default().bb_pieces, position.bb_pieces);
}

#[test]
fn test_parse_position_state_from_fen() {
    let fen_parser = FenParser::new();
    let fen = "rnbqkbnr/pppppppp/8/8/8/8/PPPPPPPP/RNBQKBNR w KQkq - 0 1";
    let position = fen_parser.parse_fen(fen).unwrap();
    assert_eq!(Position::default().state, position.state);
}

#[test]
fn test_parse_fen_rejects_garbage() {
    let fen_parser = FenParser::new();
    assert_eq!(
        fen_parser.parse_fen("not a position"),
        Err(ChessError::InvalidPositionState)
    );
    assert_eq!(
        fen_parser.parse_fen(""),
        Err(ChessError::InvalidPositionState)
    );
    // A rank with too many men never reaches the parser's indexing.
    assert_eq!(
        fen_parser.parse_fen("ppppppppp/8/8/8/8/8/8/8 w - - 0 1"),
        Err(ChessError::InvalidPositionState)
    );
}

#[test]
fn test_load_position_from_fen() {
    let fen = "rnbqkbnr/pppppppp/8/8/8/8/PPPPPPPP/RNBQKBNR w KQkq - 0 1";
    let position = Position::load_position_from_fen(fen).unwrap();
    assert_eq!(position, Position::default());
    assert!(Position::load_position_from_fen("x").is_err());
}

#[test]
fn test_parse_fen_clocks_and_side() {
    let fen_parser = FenParser::new();
    let fen = "4k3/8/8/8/8/8/4P3/4K3 b - - 5 39";
    let position = fen_parser.parse_fen(fen).unwrap();
    assert_eq!(position.state.half_move_counter, 5);
    assert_eq!(position.state.full_move_counter, 39);
    assert_eq!(position.state.side_to_move, 1);
    assert!(position.bb_pieces[0][0].is_bit_set(Square::E2));
    assert!(position.bb_pieces[0][5].is_bit_set(Square::E1));
    assert!(position.bb_pieces[1][5].is_bit_set(Square::E8));
}
