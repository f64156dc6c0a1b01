use vstd::prelude::*;

verus! {

/// One of the 64 board cells, in reading order from the top left:
/// `A8` is index 0, `H8` is 7, `A1` is 56 and `H1` is 63.
#[derive(Debug, PartialEq, Eq, Clone, Copy, Hash, Structural)]
pub enum Square {
    A8, B8, C8, D8, E8, F8, G8, H8,
    A7, B7, C7, D7, E7, F7, G7, H7,
    A6, B6, C6, D6, E6, F6, G6, H6,
    A5, B5, C5, D5, E5, F5, G5, H5,
    A4, B4, C4, D4, E4, F4, G4, H4,
    A3, B3, C3, D3, E3, F3, G3, H3,
    A2, B2, C2, D2, E2, F2, G2, H2,
    A1, B1, C1, D1, E1, F1, G1, H1,
}

/// The index of a square in the fixed board ordering (`A8` = 0 .. `H1` = 63).
pub open spec fn sq_idx(s: Square) -> int {
    match s {
        Square::A8 => 0,
        Square::B8 => 1,
        Square::C8 => 2,
        Square::D8 => 3,
        Square::E8 => 4,
        Square::F8 => 5,
        Square::G8 => 6,
        Square::H8 => 7,
        Square::A7 => 8,
        Square::B7 => 9,
        Square::C7 => 10,
        Square::D7 => 11,
        Square::E7 => 12,
        Square::F7 => 13,
        Square::G7 => 14,
        Square::H7 => 15,
        Square::A6 => 16,
        Square::B6 => 17,
        Square::C6 => 18,
        Square::D6 => 19,
        Square::E6 => 20,
        Square::F6 => 21,
        Square::G6 => 22,
        Square::H6 => 23,
        Square::A5 => 24,
        Square::B5 => 25,
        Square::C5 => 26,
        Square::D5 => 27,
        Square::E5 => 28,
        Square::F5 => 29,
        Square::G5 => 30,
        Square::H5 => 31,
        Square::A4 => 32,
        Square::B4 => 33,
        Square::C4 => 34,
        Square::D4 => 35,
        Square::E4 => 36,
        Square::F4 => 37,
        Square::G4 => 38,
        Square::H4 => 39,
        Square::A3 => 40,
        Square::B3 => 41,
        Square::C3 => 42,
        Square::D3 => 43,
        Square::E3 => 44,
        Square::F3 => 45,
        Square::G3 => 46,
        Square::H3 => 47,
        Square::A2 => 48,
        Square::B2 => 49,
        Square::C2 => 50,
        Square::D2 => 51,
        Square::E2 => 52,
        Square::F2 => 53,
        Square::G2 => 54,
        Square::H2 => 55,
        Square::A1 => 56,
        Square::B1 => 57,
        Square::C1 => 58,
        Square::D1 => 59,
        Square::E1 => 60,
        Square::F1 => 61,
        Square::G1 => 62,
        Square::H1 => 63,
    }
}

impl Square {
    /// Converts a Square to its index in `[0, 64)`.
    pub fn to_usize(self) -> (r: usize)
        ensures
            r == sq_idx(self),
            r < 64,
    {
        match self {
            Square::A8 => 0,
            Square::B8 => 1,
            Square::C8 => 2,
            Square::D8 => 3,
            Square::E8 => 4,
            Square::F8 => 5,
            Square::G8 => 6,
            Square::H8 => 7,
            Square::A7 => 8,
            Square::B7 => 9,
            Square::C7 => 10,
            Square::D7 => 11,
            Square::E7 => 12,
            Square::F7 => 13,
            Square::G7 => 14,
            Square::H7 => 15,
            Square::A6 => 16,
            Square::B6 => 17,
            Square::C6 => 18,
            Square::D6 => 19,
            Square::E6 => 20,
            Square::F6 => 21,
            Square::G6 => 22,
            Square::H6 => 23,
            Square::A5 => 24,
            Square::B5 => 25,
            Square::C5 => 26,
            Square::D5 => 27,
            Square::E5 => 28,
            Square::F5 => 29,
            Square::G5 => 30,
            Square::H5 => 31,
            Square::A4 => 32,
            Square::B4 => 33,
            Square::C4 => 34,
            Square::D4 => 35,
            Square::E4 => 36,
            Square::F4 => 37,
            Square::G4 => 38,
            Square::H4 => 39,
            Square::A3 => 40,
            Square::B3 => 41,
            Square::C3 => 42,
            Square::D3 => 43,
            Square::E3 => 44,
            Square::F3 => 45,
            Square::G3 => 46,
            Square::H3 => 47,
            Square::A2 => 48,
            Square::B2 => 49,
            Square::C2 => 50,
            Square::D2 => 51,
            Square::E2 => 52,
            Square::F2 => 53,
            Square::G2 => 54,
            Square::H2 => 55,
            Square::A1 => 56,
            Square::B1 => 57,
            Square::C1 => 58,
            Square::D1 => 59,
            Square::E1 => 60,
            Square::F1 => 61,
            Square::G1 => 62,
            Square::H1 => 63,
        }
    }

    /// Converts an index in `[0, 64)` to a Square; any other value is rejected.
    pub fn from_usize(val: usize) -> (r: Option<Self>)
        ensures
            match r {
                Some(s) => val < 64 && sq_idx(s) == val,
                None => val >= 64,
            },
    {
        match val {
            0 => Some(Square::A8),
            1 => Some(Square::B8),
            2 => Some(Square::C8),
            3 => Some(Square::D8),
            4 => Some(Square::E8),
            5 => Some(Square::F8),
            6 => Some(Square::G8),
            7 => Some(Square::H8),
            8 => Some(Square::A7),
            9 => Some(Square::B7),
            10 => Some(Square::C7),
            11 => Some(Square::D7),
            12 => Some(Square::E7),
            13 => Some(Square::F7),
            14 => Some(Square::G7),
            15 => Some(Square::H7),
            16 => Some(Square::A6),
            17 => Some(Square::B6),
            18 => Some(Square::C6),
            19 => Some(Square::D6),
            20 => Some(Square::E6),
            21 => Some(Square::F6),
            22 => Some(Square::G6),
            23 => Some(Square::H6),
            24 => Some(Square::A5),
            25 => Some(Square::B5),
            26 => Some(Square::C5),
            27 => Some(Square::D5),
            28 => Some(Square::E5),
            29 => Some(Square::F5),
            30 => Some(Square::G5),
            31 => Some(Square::H5),
            32 => Some(Square::A4),
            33 => Some(Square::B4),
            34 => Some(Square::C4),
            35 => Some(Square::D4),
            36 => Some(Square::E4),
            37 => Some(Square::F4),
            38 => Some(Square::G4),
            39 => Some(Square::H4),
            40 => Some(Square::A3),
            41 => Some(Square::B3),
            42 => Some(Square::C3),
            43 => Some(Square::D3),
            44 => Some(Square::E3),
            45 => Some(Square::F3),
            46 => Some(Square::G3),
            47 => Some(Square::H3),
            48 => Some(Square::A2),
            49 => Some(Square::B2),
            50 => Some(Square::C2),
            51 => Some(Square::D2),
            52 => Some(Square::E2),
            53 => Some(Square::F2),
            54 => Some(Square::G2),
            55 => Some(Square::H2),
            56 => Some(Square::A1),
            57 => Some(Square::B1),
            58 => Some(Square::C1),
            59 => Some(Square::D1),
            60 => Some(Square::E1),
            61 => Some(Square::F1),
            62 => Some(Square::G1),
            63 => Some(Square::H1),
            _ => None,
        }
    }
}

/// Two distinct squares have distinct indices.
pub proof fn lemma_sq_idx_injective(s1: Square, s2: Square)
    ensures
        sq_idx(s1) == sq_idx(s2) ==> s1 == s2,
{
}

/// The square whose index is `i`; the inverse of `sq_idx` on `[0, 64)`.
pub open spec fn idx_sq(i: int) -> Square {
    choose|s: Square| sq_idx(s) == i
}

/// On `[0, 64)`, `idx_sq` inverts `sq_idx` and vice versa.
pub proof fn lemma_idx_sq(s: Square)
    ensures
        idx_sq(sq_idx(s)) == s,
{
    assert(sq_idx(idx_sq(sq_idx(s))) == sq_idx(s)) by {
        assert(exists|x: Square| sq_idx(x) == sq_idx(s));
    }
    lemma_sq_idx_injective(idx_sq(sq_idx(s)), s);
}

} // verus!
