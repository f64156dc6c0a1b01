use chess_core::apply::MoveApplier;
use chess_core::attacks::AttackTables;
use chess_core::board::{BitBoard, Pieces, Position, Sides};
use chess_core::move_generator::{Move, MoveGenerator, MoveKind};
use chess_core::square::Square;
use chess_core::ChessError;

#[test]
fn test_starting_position_twenty_moves() {
    let position = Position::default();
    let moves = MoveGenerator::generate_legal_moves(&position);
    assert_eq!(moves.len(), 20);
    let pawn_moves = moves.iter().filter(|m| m.piece == Pieces::PAWN).count();
    let knight_moves = moves.iter().filter(|m| m.piece == Pieces::KNIGHT).count();
    assert_eq!(pawn_moves, 16);
    assert_eq!(knight_moves, 4);
}

#[test]
fn test_generation_is_deterministic() {
    let position = Position::default();
    let first = MoveGenerator::generate_legal_moves(&position);
    let second = MoveGenerator::generate_legal_moves(&position);
    assert_eq!(first, second);
}

#[test]
fn test_check_detection() {
    // Black king on E8, white rook on E1, otherwise an empty E-file.
    let position = Position::load_position_from_fen("4k3/8/8/8/8/8/8/4R3 b - - 0 1").unwrap();
    assert!(AttackTables::king_in_check(&position, Sides::BLACK));
    let moves = MoveGenerator::generate_legal_moves(&position);
    // Every generated move escapes the check.
    for m in moves.iter() {
        let after = MoveApplier::apply(&position, *m).unwrap();
        assert!(!AttackTables::king_in_check(&after, Sides::BLACK));
    }
    // The king must leave the E-file: D7, D8, F7, F8.
    assert_eq!(moves.len(), 4);
    for m in moves.iter() {
        assert_eq!(m.piece, Pieces::KING);
        assert_ne!(m.to.to_usize() % 8, 4);
    }
}

#[test]
fn test_en_passant_window() {
    // White pawn on E2, black pawn on D4. After the double push E2-E4 the
    // target is E3, and the only en-passant capture is D4 to E3.
    let mut position =
        Position::load_position_from_fen("4k3/8/8/8/3p4/8/4P3/4K3 w - - 0 1").unwrap();
    let push = Move {
        piece: Pieces::PAWN,
        from: Square::E2,
        to: Square::E4,
        promotion: None,
        capture: None,
        kind: MoveKind::DoublePush,
    };
    assert!(position.make_move(push).is_ok());
    assert_eq!(position.state.en_passant_square, Some(Square::E3));
    let moves = MoveGenerator::generate_legal_moves(&position);
    let ep_moves: Vec<&Move> = moves
        .iter()
        .filter(|m| m.kind == MoveKind::EnPassant)
        .collect();
    assert_eq!(ep_moves.len(), 1);
    assert_eq!(ep_moves[0].from, Square::D4);
    assert_eq!(ep_moves[0].to, Square::E3);
    assert_eq!(ep_moves[0].capture, Some(Pieces::PAWN));
    // An en-passant capture into any other square is rejected.
    let bogus = Move {
        piece: Pieces::PAWN,
        from: Square::D4,
        to: Square::C3,
        promotion: None,
        capture: Some(Pieces::PAWN),
        kind: MoveKind::EnPassant,
    };
    let mut copy = position.clone();
    assert_eq!(copy.make_move(bogus), Err(ChessError::IllegalMove));
    assert_eq!(copy, position);
}

#[test]
fn test_promotion_quadruple() {
    // A white pawn on A7 with an empty A8 promotes four ways, never plainly.
    let position = Position::load_position_from_fen("4k3/P7/8/8/8/8/8/4K3 w - - 0 1").unwrap();
    let moves = MoveGenerator::generate_legal_moves(&position);
    let pawn_moves: Vec<&Move> = moves.iter().filter(|m| m.piece == Pieces::PAWN).collect();
    assert_eq!(pawn_moves.len(), 4);
    let mut promotions: Vec<usize> = pawn_moves.iter().map(|m| m.promotion.unwrap()).collect();
    promotions.sort();
    assert_eq!(
        promotions,
        vec![Pieces::KNIGHT, Pieces::BISHOP, Pieces::ROOK, Pieces::QUEEN]
    );
    for m in pawn_moves.iter() {
        assert_eq!(m.to, Square::A8);
        assert_eq!(m.kind, MoveKind::Normal);
    }
}

#[test]
fn test_castling_gates() {
    let castle = Move {
        piece: Pieces::KING,
        from: Square::E1,
        to: Square::G1,
        promotion: None,
        capture: None,
        kind: MoveKind::Castle,
    };
    // Clear path, right held, no attack: the castle is generated.
    let open = Position::load_position_from_fen("4k3/8/8/8/8/8/8/4K2R w K - 0 1").unwrap();
    let moves = MoveGenerator::generate_legal_moves(&open);
    assert!(moves.iter().any(|m| m.kind == MoveKind::Castle && m.to == Square::G1));
    // An intervening piece blocks it.
    let blocked = Position::load_position_from_fen("4k3/8/8/8/8/8/8/4KB1R w K - 0 1").unwrap();
    let mut copy = blocked.clone();
    assert_eq!(copy.make_move(castle), Err(ChessError::IllegalMove));
    assert!(MoveGenerator::generate_legal_moves(&blocked)
        .iter()
        .all(|m| m.kind != MoveKind::Castle));
    // A rook eyeing a crossed square forbids it.
    let crossed = Position::load_position_from_fen("4k3/8/8/8/8/5r2/8/4K2R w K - 0 1").unwrap();
    assert!(MoveGenerator::generate_legal_moves(&crossed)
        .iter()
        .all(|m| m.kind != MoveKind::Castle));
    // Without the right flag the same empty board refuses it.
    let no_right = Position::load_position_from_fen("4k3/8/8/8/8/8/8/4K2R w - - 0 1").unwrap();
    assert!(MoveGenerator::generate_legal_moves(&no_right)
        .iter()
        .all(|m| m.kind != MoveKind::Castle));
}

#[test]
fn test_castle_moves_the_rook() {
    let mut position = Position::load_position_from_fen("4k3/8/8/8/8/8/8/4K2R w K - 0 1").unwrap();
    let castle = Move {
        piece: Pieces::KING,
        from: Square::E1,
        to: Square::G1,
        promotion: None,
        capture: None,
        kind: MoveKind::Castle,
    };
    assert!(position.make_move(castle).is_ok());
    assert!(position.bb_pieces[Sides::WHITE][Pieces::KING].is_bit_set(Square::G1));
    assert!(position.bb_pieces[Sides::WHITE][Pieces::ROOK].is_bit_set(Square::F1));
    assert!(!position.bb_pieces[Sides::WHITE][Pieces::ROOK].is_bit_set(Square::H1));
    // Castling forfeits both rights of the mover.
    assert_eq!(position.state.castling_rights.0 & 0b0011, 0);
}

#[test]
fn test_make_unmake_round_trip() {
    let position = Position::default();
    let moves = MoveGenerator::generate_legal_moves(&position);
    for m in moves.iter() {
        let after = MoveApplier::apply(&position, *m).unwrap();
        let restored = MoveApplier::unmake(&after, *m, position.state);
        assert_eq!(restored, position);
    }
}

#[test]
fn test_round_trip_special_moves() {
    // A capture, an en-passant capture and a castle all unmake exactly.
    let capture_pos =
        Position::load_position_from_fen("4k3/8/8/3p4/4P3/8/8/4K3 w - - 0 1").unwrap();
    let ep_pos =
        Position::load_position_from_fen("4k3/8/8/8/3pP3/8/8/4K3 b - e3 0 1").unwrap();
    let castle_pos =
        Position::load_position_from_fen("4k3/8/8/8/8/8/8/R3K3 w Q - 0 1").unwrap();
    for position in [capture_pos, ep_pos, castle_pos] {
        let moves = MoveGenerator::generate_legal_moves(&position);
        assert!(!moves.is_empty());
        for m in moves.iter() {
            let after = MoveApplier::apply(&position, *m).unwrap();
            let restored = MoveApplier::unmake(&after, *m, position.state);
            assert_eq!(restored, position);
        }
    }
}

#[test]
fn test_make_move_rejects_illegal() {
    let mut position = Position::default();
    let lunge = Move::new(Pieces::PAWN, Square::E2, Square::E5);
    assert_eq!(position.make_move(lunge), Err(ChessError::IllegalMove));
    assert_eq!(position, Position::default());
    let wrong_side = Move::new(Pieces::PAWN, Square::E7, Square::E6);
    assert_eq!(position.make_move(wrong_side), Err(ChessError::IllegalMove));
}

#[test]
fn test_halfmove_and_fullmove_clocks() {
    let mut position = Position::default();
    let n1 = Move::new(Pieces::KNIGHT, Square::G1, Square::F3);
    assert!(position.make_move(n1).is_ok());
    assert_eq!(position.state.half_move_counter, 1);
    assert_eq!(position.state.full_move_counter, 1);
    let n2 = Move::new(Pieces::KNIGHT, Square::G8, Square::F6);
    assert!(position.make_move(n2).is_ok());
    assert_eq!(position.state.half_move_counter, 2);
    assert_eq!(position.state.full_move_counter, 2);
    // A pawn move resets the halfmove clock.
    let p1 = Move::new(Pieces::PAWN, Square::E2, Square::E3);
    assert!(position.make_move(p1).is_ok());
    assert_eq!(position.state.half_move_counter, 0);
}

#[test]
fn test_attack_sets() {
    // A knight in a corner reaches two squares regardless of occupancy.
    let knight = AttackTables::attack_set(Pieces::KNIGHT, Sides::WHITE, Square::A8, BitBoard(0));
    assert_eq!(knight.count(), 2);
    assert!(knight.is_bit_set(Square::B6));
    assert!(knight.is_bit_set(Square::C7));
    // A rook on an empty board sweeps its rank and file.
    let rook = AttackTables::attack_set(Pieces::ROOK, Sides::WHITE, Square::D4, BitBoard(0));
    assert_eq!(rook.count(), 14);
    // A blocker stops the ray just past itself.
    let mut occ = BitBoard(0);
    occ.set_bit(Square::D6);
    let rook_blocked = AttackTables::attack_set(Pieces::ROOK, Sides::WHITE, Square::D4, occ);
    assert!(rook_blocked.is_bit_set(Square::D6));
    assert!(!rook_blocked.is_bit_set(Square::D7));
    // Pawn attacks are sideways only: pushes are not attacks.
    let pawn = AttackTables::attack_set(Pieces::PAWN, Sides::WHITE, Square::E2, BitBoard(0));
    assert_eq!(pawn.count(), 2);
    assert!(pawn.is_bit_set(Square::D3));
    assert!(pawn.is_bit_set(Square::F3));
    assert!(!pawn.is_bit_set(Square::E3));
}

#[test]
fn test_available_move_boards() {
    let position = Position::default();
    let white = MoveGenerator::generate_available_moves(&position);
    // From the start, White can reach exactly the third and fourth ranks.
    assert_eq!(white.0, 0x0000_0000_FFFF_0000);
    let black = MoveGenerator::generate_available_moves_for_side(&position, Sides::BLACK);
    assert_eq!(black.0, 0x0000_FFFF_0000_0000);
}

#[test]
fn test_move_new_is_plain() {
    let m = Move::new(Pieces::QUEEN, Square::D1, Square::H5);
    assert_eq!(m.piece, Pieces::QUEEN);
    assert_eq!(m.from, Square::D1);
    assert_eq!(m.to, Square::H5);
    assert_eq!(m.promotion, None);
    assert_eq!(m.capture, None);
    assert_eq!(m.kind, MoveKind::Normal);
}
