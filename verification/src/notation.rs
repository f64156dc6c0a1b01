use vstd::prelude::*;

use crate::rules::{col, row};
use crate::square::{sq_idx, Square};
use crate::ChessError;

verus! {

/// Whether `s` is a well-formed algebraic coordinate: a file letter `a`
/// through `h` followed by a rank digit `1` through `8`.
pub open spec fn algebraic_ok(s: Seq<char>) -> bool {
    s.len() == 2 && 97 <= s[0] as int <= 104 && 49 <= s[1] as int <= 56
}

/// The square an algebraic coordinate names: files map to columns and
/// rank digits count up from the board's bottom row.
pub open spec fn algebraic_idx(s: Seq<char>) -> int {
    (8 - (s[1] as int - 48)) * 8 + (s[0] as int - 97)
}

/// Converts an algebraic coordinate string such as `e4` to its Square;
/// malformed input is refused with `InvalidSquare`.
pub fn square_from_algebraic(s: &str) -> (r: Result<Square, ChessError>)
    ensures
        match r {
            Ok(sq) => algebraic_ok(s@) && sq_idx(sq) == algebraic_idx(s@),
            Err(e) => e == ChessError::InvalidSquare && !algebraic_ok(s@),
        },
{
    if s.unicode_len() != 2 {
        return Err(ChessError::InvalidSquare);
    }
    let c0 = s.get_char(0) as u32;
    let c1 = s.get_char(1) as u32;
    if c0 < 97 || c0 > 104 || c1 < 49 || c1 > 56 {
        return Err(ChessError::InvalidSquare);
    }
    let idx: usize = ((8 - (c1 as usize - 48)) * 8 + (c0 as usize - 97));
    match Square::from_usize(idx) {
        Some(sq) => Ok(sq),
        None => {
            proof {
                assert(false);
            }
            Err(ChessError::InvalidSquare)
        },
    }
}

/// The algebraic coordinate of `sq`: its file letter and rank digit.
pub fn square_to_algebraic(sq: Square) -> (r: String)
    ensures
        r@.len() == 2,
        r@[0] as int == 97 + col(sq_idx(sq)),
        r@[1] as int == 56 - row(sq_idx(sq)),
        algebraic_ok(r@),
        algebraic_idx(r@) == sq_idx(sq),
{
    let out: String = match sq {
            Square::A8 => {
                proof {
                    reveal_strlit("a8");
                }
                String::from_str("a8")
            },
            Square::B8 => {
                proof {
                    reveal_strlit("b8");
                }
                String::from_str("b8")
            },
            Square::C8 => {
                proof {
                    reveal_strlit("c8");
                }
                String::from_str("c8")
            },
            Square::D8 => {
                proof {
                    reveal_strlit("d8");
                }
                String::from_str("d8")
            },
            Square::E8 => {
                proof {
                    reveal_strlit("e8");
                }
                String::from_str("e8")
            },
            Square::F8 => {
                proof {
                    reveal_strlit("f8");
                }
                String::from_str("f8")
            },
            Square::G8 => {
                proof {
                    reveal_strlit("g8");
                }
                String::from_str("g8")
            },
            Square::H8 => {
                proof {
                    reveal_strlit("h8");
                }
                String::from_str("h8")
            },
            Square::A7 => {
                proof {
                    reveal_strlit("a7");
                }
                String::from_str("a7")
            },
            Square::B7 => {
                proof {
                    reveal_strlit("b7");
                }
                String::from_str("b7")
            },
            Square::C7 => {
                proof {
                    reveal_strlit("c7");
                }
                String::from_str("c7")
            },
            Square::D7 => {
                proof {
                    reveal_strlit("d7");
                }
                String::from_str("d7")
            },
            Square::E7 => {
                proof {
                    reveal_strlit("e7");
                }
                String::from_str("e7")
            },
            Square::F7 => {
                proof {
                    reveal_strlit("f7");
                }
                String::from_str("f7")
            },
            Square::G7 => {
                proof {
                    reveal_strlit("g7");
                }
                String::from_str("g7")
            },
            Square::H7 => {
                proof {
                    reveal_strlit("h7");
                }
                String::from_str("h7")
            },
            Square::A6 => {
                proof {
                    reveal_strlit("a6");
                }
                String::from_str("a6")
            },
            Square::B6 => {
                proof {
                    reveal_strlit("b6");
                }
                String::from_str("b6")
            },
            Square::C6 => {
                proof {
                    reveal_strlit("c6");
                }
                String::from_str("c6")
            },
            Square::D6 => {
                proof {
                    reveal_strlit("d6");
                }
                String::from_str("d6")
            },
            Square::E6 => {
                proof {
                    reveal_strlit("e6");
                }
                String::from_str("e6")
            },
            Square::F6 => {
                proof {
                    reveal_strlit("f6");
                }
                String::from_str("f6")
            },
            Square::G6 => {
                proof {
                    reveal_strlit("g6");
                }
                String::from_str("g6")
            },
            Square::H6 => {
                proof {
                    reveal_strlit("h6");
                }
                String::from_str("h6")
            },
            Square::A5 => {
                proof {
                    reveal_strlit("a5");
                }
                String::from_str("a5")
            },
            Square::B5 => {
                proof {
                    reveal_strlit("b5");
                }
                String::from_str("b5")
            },
            Square::C5 => {
                proof {
                    reveal_strlit("c5");
                }
                String::from_str("c5")
            },
            Square::D5 => {
                proof {
                    reveal_strlit("d5");
                }
                String::from_str("d5")
            },
            Square::E5 => {
                proof {
                    reveal_strlit("e5");
                }
                String::from_str("e5")
            },
            Square::F5 => {
                proof {
                    reveal_strlit("f5");
                }
                String::from_str("f5")
            },
            Square::G5 => {
                proof {
                    reveal_strlit("g5");
                }
                String::from_str("g5")
            },
            Square::H5 => {
                proof {
                    reveal_strlit("h5");
                }
                String::from_str("h5")
            },
            Square::A4 => {
                proof {
                    reveal_strlit("a4");
                }
                String::from_str("a4")
            },
            Square::B4 => {
                proof {
                    reveal_strlit("b4");
                }
                String::from_str("b4")
            },
            Square::C4 => {
                proof {
                    reveal_strlit("c4");
                }
                String::from_str("c4")
            },
            Square::D4 => {
                proof {
                    reveal_strlit("d4");
                }
                String::from_str("d4")
            },
            Square::E4 => {
                proof {
                    reveal_strlit("e4");
                }
                String::from_str("e4")
            },
            Square::F4 => {
                proof {
                    reveal_strlit("f4");
                }
                String::from_str("f4")
            },
            Square::G4 => {
                proof {
                    reveal_strlit("g4");
                }
                String::from_str("g4")
            },
            Square::H4 => {
                proof {
                    reveal_strlit("h4");
                }
                String::from_str("h4")
            },
            Square::A3 => {
                proof {
                    reveal_strlit("a3");
                }
                String::from_str("a3")
            },
            Square::B3 => {
                proof {
                    reveal_strlit("b3");
                }
                String::from_str("b3")
            },
            Square::C3 => {
                proof {
                    reveal_strlit("c3");
                }
                String::from_str("c3")
            },
            Square::D3 => {
                proof {
                    reveal_strlit("d3");
                }
                String::from_str("d3")
            },
            Square::E3 => {
                proof {
                    reveal_strlit("e3");
                }
                String::from_str("e3")
            },
            Square::F3 => {
                proof {
                    reveal_strlit("f3");
                }
                String::from_str("f3")
            },
            Square::G3 => {
                proof {
                    reveal_strlit("g3");
                }
                String::from_str("g3")
            },
            Square::H3 => {
                proof {
                    reveal_strlit("h3");
                }
                String::from_str("h3")
            },
            Square::A2 => {
                proof {
                    reveal_strlit("a2");
                }
                String::from_str("a2")
            },
            Square::B2 => {
                proof {
                    reveal_strlit("b2");
                }
                String::from_str("b2")
            },
            Square::C2 => {
                proof {
                    reveal_strlit("c2");
                }
                String::from_str("c2")
            },
            Square::D2 => {
                proof {
                    reveal_strlit("d2");
                }
                String::from_str("d2")
            },
            Square::E2 => {
                proof {
                    reveal_strlit("e2");
                }
                String::from_str("e2")
            },
            Square::F2 => {
                proof {
                    reveal_strlit("f2");
                }
                String::from_str("f2")
            },
            Square::G2 => {
                proof {
                    reveal_strlit("g2");
                }
                String::from_str("g2")
            },
            Square::H2 => {
                proof {
                    reveal_strlit("h2");
                }
                String::from_str("h2")
            },
            Square::A1 => {
                proof {
                    reveal_strlit("a1");
                }
                String::from_str("a1")
            },
            Square::B1 => {
                proof {
                    reveal_strlit("b1");
                }
                String::from_str("b1")
            },
            Square::C1 => {
                proof {
                    reveal_strlit("c1");
                }
                String::from_str("c1")
            },
            Square::D1 => {
                proof {
                    reveal_strlit("d1");
                }
                String::from_str("d1")
            },
            Square::E1 => {
                proof {
                    reveal_strlit("e1");
                }
                String::from_str("e1")
            },
            Square::F1 => {
                proof {
                    reveal_strlit("f1");
                }
                String::from_str("f1")
            },
            Square::G1 => {
                proof {
                    reveal_strlit("g1");
                }
                String::from_str("g1")
            },
            Square::H1 => {
                proof {
                    reveal_strlit("h1");
                }
                String::from_str("h1")
            },
    };
    out
}

} // verus!
