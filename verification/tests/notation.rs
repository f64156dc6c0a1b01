use chess_core::notation::{square_from_algebraic, square_to_algebraic};
use chess_core::square::Square;
use chess_core::ChessError;

#[test]
fn test_algebraic_to_square() {
    assert_eq!(square_from_algebraic("a8"), Ok(Square::A8));
    assert_eq!(square_from_algebraic("h1"), Ok(Square::H1));
    assert_eq!(square_from_algebraic("e4"), Ok(Square::E4));
    assert_eq!(square_from_algebraic("d5"), Ok(Square::D5));
}

#[test]
fn test_algebraic_rejects_malformed() {
    assert_eq!(square_from_algebraic(""), Err(ChessError::InvalidSquare));
    assert_eq!(square_from_algebraic("e"), Err(ChessError::InvalidSquare));
    assert_eq!(square_from_algebraic("e44"), Err(ChessError::InvalidSquare));
    assert_eq!(square_from_algebraic("i4"), Err(ChessError::InvalidSquare));
    assert_eq!(square_from_algebraic("e9"), Err(ChessError::InvalidSquare));
    assert_eq!(square_from_algebraic("E4"), Err(ChessError::InvalidSquare));
    assert_eq!(square_from_algebraic("~4"), Err(ChessError::InvalidSquare));
}

#[test]
fn test_square_to_algebraic() {
    assert_eq!(square_to_algebraic(Square::A8), "a8");
    assert_eq!(square_to_algebraic(Square::H1), "h1");
    assert_eq!(square_to_algebraic(Square::E4), "e4");
}

#[test]
fn test_notation_round_trip() {
    for i in 0..64usize {
        let sq = Square::from_usize(i).unwrap();
        let text = square_to_algebraic(sq);
        assert_eq!(square_from_algebraic(&text), Ok(sq));
    }
}
