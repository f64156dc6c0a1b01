use chess_core::board::{BitBoard, Pieces, Position, Sides};
use chess_core::square::Square;

#[test]
fn test_bitboard_set_bit() {
    let mut board = BitBoard::empty();
    board.set_bit(Square::A8);
    board.set_bit(Square::A7);
    board.set_bit(Square::H1);
    assert_eq!(
        board.0,
        0b10000000_10000000_00000000_00000000_00000000_00000000_00000000_00000001
    );
}

#[test]
fn test_bitboard_clear_bit() {
    let mut board = BitBoard::full();
    board.clear_bit(Square::A8);
    board.clear_bit(Square::A7);
    board.clear_bit(Square::H1);
    assert_eq!(
        board.0,
        0b01111111_01111111_11111111_11111111_11111111_11111111_11111111_11111110
    );
}

#[test]
fn test_find_empty() {
    let position = Position::default();
    let empty = position.find_empty();
    assert_eq!(
        empty.0,
        0b00000000_00000000_11111111_11111111_11111111_11111111_00000000_00000000
    );
}

#[test]
fn test_find_occupied() {
    let mut position = Position::default();
    position.bb_pieces[Sides::WHITE][Pieces::PAWN].clear_bit(Square::A8);
    let occupied = position.find_occupied();
    assert_eq!(
        occupied.0,
        0b11111111_11111111_00000000_00000000_00000000_00000000_11111111_11111111
    );
}

#[test]
fn test_find_occupied_by_black() {
    let position = Position::default();
    let occupied = position.find_occupied_by(Sides::BLACK);
    assert_eq!(
        occupied.0,
        0b11111111_11111111_00000000_00000000_00000000_00000000_00000000_00000000
    );
}

#[test]
fn test_find_occupied_by_white() {
    let position = Position::default();
    let occupied = position.find_occupied_by(Sides::WHITE);
    assert_eq!(
        occupied.0,
        0b00000000_00000000_00000000_00000000_00000000_00000000_11111111_11111111
    );
}

#[test]
fn test_position_set_bit() {
    let mut position = Position::default();
    position.bb_pieces[Sides::WHITE][Pieces::PAWN].set_bit(Square::A8);
    position.bb_pieces[Sides::WHITE][Pieces::PAWN].set_bit(Square::C7);
    assert_eq!(
        position.bb_pieces[Sides::WHITE][Pieces::PAWN].0,
        0b10000000_00100000_00000000_00000000_00000000_00000000_11111111_00000000
    );
}

#[test]
fn test_position_clear_bit() {
    let mut position = Position::default();
    position.bb_pieces[Sides::BLACK][Pieces::PAWN].clear_bit(Square::A7);
    position.bb_pieces[Sides::BLACK][Pieces::PAWN].clear_bit(Square::C7);
    assert_eq!(
        position.bb_pieces[Sides::BLACK][Pieces::PAWN].0,
        0b00000000_01011111_00000000_00000000_00000000_00000000_00000000_00000000
    );
}

#[test]
fn test_position_make_move() {
    let mut position = Position::default();
    let mv = chess_core::move_generator::Move::new(Pieces::KNIGHT, Square::G1, Square::F3);
    assert!(position.make_move(mv).is_ok());
    assert!(position.bb_pieces[Sides::WHITE][Pieces::KNIGHT].is_bit_set(Square::F3));
    assert!(!position.bb_pieces[Sides::WHITE][Pieces::KNIGHT].is_bit_set(Square::G1));
    assert_eq!(position.state.side_to_move, Sides::BLACK);
}

#[test]
fn test_bitboard_toggle_and_algebra() {
    let mut board = BitBoard::empty();
    board.toggle_bit(Square::E4);
    assert!(board.is_bit_set(Square::E4));
    board.toggle_bit(Square::E4);
    assert_eq!(board.0, 0);
    let a = BitBoard(0b1100);
    let b = BitBoard(0b1010);
    assert_eq!(a.union(b).0, 0b1110);
    assert_eq!(a.intersect(b).0, 0b1000);
    assert_eq!(a.complement().0, !0b1100u64);
}

#[test]
fn test_bitboard_count_and_pop_lowest() {
    let position = Position::default();
    assert_eq!(position.bb_pieces[Sides::WHITE][Pieces::PAWN].count(), 8);
    assert_eq!(BitBoard::empty().count(), 0);
    assert_eq!(BitBoard::empty().pop_lowest(), None);
    let mut board = BitBoard::empty();
    board.set_bit(Square::E4);
    board.set_bit(Square::A8);
    let (lowest, rest) = board.pop_lowest().unwrap();
    assert_eq!(lowest, Square::A8);
    assert!(rest.is_bit_set(Square::E4));
    assert!(!rest.is_bit_set(Square::A8));
    assert_eq!(rest.count(), 1);
}

#[test]
fn test_square_from_usize_bounds() {
    assert_eq!(Square::from_usize(0), Some(Square::A8));
    assert_eq!(Square::from_usize(63), Some(Square::H1));
    assert_eq!(Square::from_usize(64), None);
    assert_eq!(Square::from_usize(usize::MAX), None);
    assert_eq!(Square::E4.to_usize(), 36);
}

#[test]
fn test_position_new_rejects_overlap() {
    let mut position = Position::default();
    // Put a white knight on a square a white pawn already holds.
    position.bb_pieces[Sides::WHITE][Pieces::KNIGHT].set_bit(Square::E2);
    let result = Position::new(position.state, position.bb_pieces);
    assert_eq!(result, Err(chess_core::ChessError::InvalidPositionState));
    let fine = Position::new(Position::default().state, Position::default().bb_pieces);
    assert!(fine.is_ok());
}
