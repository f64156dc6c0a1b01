use vstd::prelude::*;

use crate::bits::{bb_has, sq_mask};
use crate::square::{sq_idx, Square};
use crate::ChessError;

verus! {

broadcast use vstd::array::group_array_axioms;

/// A 64-bit set of board squares, one bit per square: square `i`
/// (`A8` = 0 .. `H1` = 63) sits at bit `63 - i`.
#[derive(PartialEq, Eq, PartialOrd, Clone, Copy, Debug, Hash, Structural)]
pub struct BitBoard(pub u64);

impl BitBoard {
    /// Set the bit of `square` to 1.
    pub fn set_bit(&mut self, square: Square)
        ensures
            final(self).0 == old(self).0 | sq_mask(sq_idx(square)),
    {
        let sh: u64 = (63 - square.to_usize()) as u64;
        self.0 = self.0 | (1u64 << sh);
    }

    /// Set the bit of `square` to 0.
    pub fn clear_bit(&mut self, square: Square)
        ensures
            final(self).0 == old(self).0 & !sq_mask(sq_idx(square)),
    {
        let sh: u64 = (63 - square.to_usize()) as u64;
        self.0 = self.0 & !(1u64 << sh);
    }

    /// Flip the bit of `square`.
    pub fn toggle_bit(&mut self, square: Square)
        ensures
            final(self).0 == old(self).0 ^ sq_mask(sq_idx(square)),
    {
        let sh: u64 = (63 - square.to_usize()) as u64;
        self.0 = self.0 ^ (1u64 << sh);
    }

    /// Whether the bit of `square` is 1.
    pub fn is_bit_set(&self, square: Square) -> (r: bool)
        ensures
            r == bb_has(self.0, sq_idx(square)),
    {
        let sh: u64 = (63 - square.to_usize()) as u64;
        (self.0 & (1u64 << sh)) != 0
    }

    /// Whether the bit of the square with index `idx` is 1.
    pub fn test_idx(&self, idx: usize) -> (r: bool)
        requires
            idx < 64,
        ensures
            r == bb_has(self.0, idx as int),
    {
        let sh: u64 = (63 - idx) as u64;
        (self.0 & (1u64 << sh)) != 0
    }

    /// The set with no square.
    pub fn empty() -> (r: BitBoard)
        ensures
            r.0 == 0,
    {
        BitBoard(0)
    }

    /// The set with every square.
    pub fn full() -> (r: BitBoard)
        ensures
            r.0 == u64::MAX,
    {
        BitBoard(u64::MAX)
    }

    /// Set algebra: all squares of either operand.
    pub fn union(self, other: BitBoard) -> (r: BitBoard)
        ensures
            r.0 == self.0 | other.0,
    {
        BitBoard(self.0 | other.0)
    }

    /// Set algebra: the squares both operands hold.
    pub fn intersect(self, other: BitBoard) -> (r: BitBoard)
        ensures
            r.0 == self.0 & other.0,
    {
        BitBoard(self.0 & other.0)
    }

    /// Set algebra: the squares this set lacks.
    pub fn complement(self) -> (r: BitBoard)
        ensures
            r.0 == !self.0,
    {
        BitBoard(!self.0)
    }

    /// The number of squares the set holds.
    pub fn count(self) -> (r: usize)
        ensures
            r == pop_count(self.0, 64),
    {
        let mut acc: usize = 0;
        let mut i: usize = 0;
        while i < 64
            invariant
                i <= 64,
                acc == pop_count(self.0, i as int),
                acc <= i,
            decreases 64 - i,
        {
            if self.test_idx(i) {
                acc = acc + 1;
            }
            i = i + 1;
        }
        acc
    }

    /// The lowest-indexed occupied square together with the set less that
    /// square, or `None` when the set is empty.
    pub fn pop_lowest(self) -> (r: Option<(Square, BitBoard)>)
        ensures
            match r {
                Some((s, rest)) => {
                    &&& bb_has(self.0, sq_idx(s))
                    &&& forall|j: int| 0 <= j < sq_idx(s) ==> !bb_has(self.0, j)
                    &&& rest.0 == self.0 & !sq_mask(sq_idx(s))
                },
                None => self.0 == 0,
            },
    {
        if self.0 == 0 {
            return None;
        }
        let lz: u32 = self.0.leading_zeros();
        proof {
            vstd::std_specs::bits::axiom_u64_leading_zeros(self.0);
        }
        let idx: usize = lz as usize;
        let sq = match Square::from_usize(idx) {
            Some(sq) => sq,
            None => { return None; },
        };
        proof {
            let b = self.0;
            let z = vstd::std_specs::bits::u64_leading_zeros(b) as u64;
            assert((b >> ((63 - z) as u64)) & 1u64 != 0u64 ==> b & (1u64 << ((63 - z) as u64))
                != 0) by (bit_vector)
                requires
                    z < 64,
            ;
            assert forall|j: int| 0 <= j < z implies !bb_has(b, j) by {
                let ju = (63 - j) as u64;
                assert((b >> ju) & 1u64 == 0u64 ==> b & (1u64 << ju) == 0) by (bit_vector)
                    requires
                        ju < 64,
                ;
            }
        }
        let rest = self.intersect(BitBoard(!(1u64 << ((63 - idx) as u64))));
        Some((sq, rest))
    }
}

/// The two sides, as indices into the first axis of `Position::bb_pieces`.
pub struct Sides;

impl Sides {
    pub const WHITE: usize = 0;

    pub const BLACK: usize = 1;
}

/// The six piece kinds, as indices into the second axis of
/// `Position::bb_pieces`.
pub struct Pieces;

impl Pieces {
    pub const PAWN: usize = 0;

    pub const KNIGHT: usize = 1;

    pub const BISHOP: usize = 2;

    pub const ROOK: usize = 3;

    pub const QUEEN: usize = 4;

    pub const KING: usize = 5;
}

/// Bit flags for the four castling rights.
pub struct Castling;

impl Castling {
    pub const NO_CASTLING: u8 = 0;

    pub const WHITE_OO: u8 = 0b0001;

    pub const WHITE_OOO: u8 = 0b0010;

    pub const BLACK_OO: u8 = 0b0100;

    pub const BLACK_OOO: u8 = 0b1000;

    pub const KING_SIDE: u8 = 0b0101;

    pub const QUEEN_SIDE: u8 = 0b1010;

    pub const WHITE_CASTLING: u8 = 0b0011;

    pub const BLACK_CASTLING: u8 = 0b1100;

    pub const ANY_CASTLING: u8 = 0b1111;
}

/// The four castling-right flags, packed into the low four bits.
#[derive(Debug, Clone, Copy, Hash, Eq, PartialEq, Structural)]
pub struct CastlingRights(pub u8);

impl Default for CastlingRights {
    /// All four rights.
    fn default() -> (r: Self)
        ensures
            r.0 == Castling::ANY_CASTLING,
    {
        Self(Castling::ANY_CASTLING)
    }
}

/// The auxiliary game state beside the piece placement.
#[derive(Debug, Clone, Copy, Hash, Eq, PartialEq)]
pub struct State {
    pub castling_rights: CastlingRights,
    pub en_passant_square: Option<Square>,
    pub half_move_counter: u64,
    pub full_move_counter: u64,
    pub side_to_move: usize,
}

impl Default for State {
    /// The state of a fresh game: White to move, all castling rights, no
    /// en-passant target, clocks at their initial values.
    fn default() -> (r: Self)
        ensures
            r.castling_rights.0 == Castling::ANY_CASTLING,
            r.en_passant_square is None,
            r.half_move_counter == 0,
            r.full_move_counter == 1,
            r.side_to_move == Sides::WHITE,
    {
        Self {
            castling_rights: CastlingRights(Castling::ANY_CASTLING),
            en_passant_square: None,
            half_move_counter: 0,
            full_move_counter: 1,
            side_to_move: Sides::WHITE,
        }
    }
}

/// The number of squares among the first `n` that `b` holds.
pub open spec fn pop_count(b: u64, n: int) -> int
    decreases n,
{
    if n <= 0 {
        0
    } else {
        pop_count(b, n - 1) + if bb_has(b, n - 1) {
            1int
        } else {
            0int
        }
    }
}

/// The complete game state: one bitboard per side and piece kind, plus the
/// auxiliary `State`.
#[derive(PartialEq, Eq, Debug, Clone, Hash)]
pub struct Position {
    // State of the game
    pub state: State,
    // Bitboards for both pieces on either side
    // First bitboards correspond to WHITE, second to BLACK
    pub bb_pieces: [[BitBoard; 6]; 2],
}

impl Position {
    /// The bitboard of side `s` and piece kind `k`.
    pub open spec fn board(self, s: int, k: int) -> u64 {
        self.bb_pieces@[s]@[k].0
    }

    /// The side to move, as an integer.
    pub open spec fn stm(self) -> int {
        self.state.side_to_move as int
    }

    /// The castling-rights bits.
    pub open spec fn cr(self) -> u8 {
        self.state.castling_rights.0
    }

    /// The en-passant target square, as an index.
    pub open spec fn ep_idx(self) -> Option<int> {
        match self.state.en_passant_square {
            Some(sq) => Some(sq_idx(sq)),
            None => None,
        }
    }

    /// All squares occupied by side `s`: the union of its six piece boards.
    pub open spec fn occ_side(self, s: int) -> u64 {
        self.board(s, 0) | self.board(s, 1) | self.board(s, 2) | self.board(s, 3) | self.board(
            s,
            4,
        ) | self.board(s, 5)
    }

    /// All occupied squares: the union of both sides' occupancy.
    pub open spec fn occ(self) -> u64 {
        self.occ_side(0) | self.occ_side(1)
    }

    /// The piece kind of side `s` on square `t`, if any.
    pub open spec fn piece_at(self, s: int, t: int) -> Option<int> {
        if bb_has(self.board(s, 0), t) {
            Some(0int)
        } else if bb_has(self.board(s, 1), t) {
            Some(1int)
        } else if bb_has(self.board(s, 2), t) {
            Some(2int)
        } else if bb_has(self.board(s, 3), t) {
            Some(3int)
        } else if bb_has(self.board(s, 4), t) {
            Some(4int)
        } else if bb_has(self.board(s, 5), t) {
            Some(5int)
        } else {
            None
        }
    }

    /// The twelve piece boards, numbered `side * 6 + kind`, are pairwise
    /// disjoint: no square holds two pieces.
    pub open spec fn boards_disjoint(self) -> bool {
        forall|n1: int, n2: int|
            0 <= n1 < 12 && 0 <= n2 < 12 && n1 != n2 ==> #[trigger] (self.board(
                n1 / 6,
                n1 % 6,
            ) & self.board(n2 / 6, n2 % 6)) == 0
    }

    /// The en-passant target, when set, sits on the rank a pawn of the side
    /// that just moved skipped: it is empty, and that pawn stands right
    /// behind it.
    pub open spec fn ep_ok(self) -> bool {
        match self.ep_idx() {
            None => true,
            Some(t) => {
                if self.stm() == 0 {
                    &&& t / 8 == 2
                    &&& bb_has(self.board(1, 0), t + 8)
                    &&& !bb_has(self.occ(), t)
                } else {
                    &&& t / 8 == 5
                    &&& bb_has(self.board(0, 0), t - 8)
                    &&& !bb_has(self.occ(), t)
                }
            },
        }
    }

    /// Each castling right still set requires its king and rook on their
    /// home squares.
    pub open spec fn castle_ok(self) -> bool {
        &&& self.cr() & Castling::WHITE_OO != 0 ==> bb_has(self.board(0, 5), 60) && bb_has(
            self.board(0, 3),
            63,
        )
        &&& self.cr() & Castling::WHITE_OOO != 0 ==> bb_has(self.board(0, 5), 60) && bb_has(
            self.board(0, 3),
            56,
        )
        &&& self.cr() & Castling::BLACK_OO != 0 ==> bb_has(self.board(1, 5), 4) && bb_has(
            self.board(1, 3),
            7,
        )
        &&& self.cr() & Castling::BLACK_OOO != 0 ==> bb_has(self.board(1, 5), 4) && bb_has(
            self.board(1, 3),
            0,
        )
    }

    /// The structural invariant of a Position: a valid side to move, only
    /// the four defined castling bits, pairwise-disjoint piece boards, a
    /// plausible en-passant target and consistent castling rights.
    pub open spec fn wf(self) -> bool {
        &&& self.state.side_to_move == 0 || self.state.side_to_move == 1
        &&& self.cr() <= 15
        &&& self.boards_disjoint()
        &&& self.ep_ok()
        &&& self.castle_ok()
    }

    /// All squares occupied by `side`.
    pub fn find_occupied_by(&self, side: usize) -> (r: BitBoard)
        requires
            side < 2,
        ensures
            r.0 == self.occ_side(side as int),
    {
        let mut pieces = BitBoard(0);
        pieces.0 = self.bb_pieces[side][0].0 | self.bb_pieces[side][1].0
            | self.bb_pieces[side][2].0 | self.bb_pieces[side][3].0 | self.bb_pieces[side][4].0
            | self.bb_pieces[side][5].0;
        pieces
    }

    /// All unoccupied squares.
    pub fn find_empty(&self) -> (r: BitBoard)
        ensures
            r.0 == !self.occ(),
    {
        BitBoard(
            !(Self::find_occupied_by(self, Sides::WHITE).0 | Self::find_occupied_by(
                self,
                Sides::BLACK,
            ).0),
        )
    }

    /// All occupied squares.
    pub fn find_occupied(&self) -> (r: BitBoard)
        ensures
            r.0 == self.occ(),
    {
        BitBoard(
            Self::find_occupied_by(self, Sides::WHITE).0 | Self::find_occupied_by(
                self,
                Sides::BLACK,
            ).0,
        )
    }

    /// Whether this position satisfies the structural invariant `wf`.
    pub fn is_well_formed(&self) -> (r: bool)
        ensures
            r == self.wf(),
    {
        if !(self.state.side_to_move == 0 || self.state.side_to_move == 1) {
            return false;
        }
        if self.state.castling_rights.0 > 15 {
            return false;
        }
        if !self.check_disjoint() {
            return false;
        }
        if !self.check_ep() {
            return false;
        }
        if !self.check_castle() {
            return false;
        }
        true
    }

    /// Whether the twelve piece boards are pairwise disjoint.
    fn check_disjoint(&self) -> (r: bool)
        ensures
            r == self.boards_disjoint(),
    {
        let mut n1: usize = 0;
        while n1 < 12
            invariant
                n1 <= 12,
                forall|a: int, b: int|
                    0 <= a < n1 && 0 <= b < 12 && a != b ==> #[trigger] (self.board(
                        a / 6,
                        a % 6,
                    ) & self.board(b / 6, b % 6)) == 0,
            decreases 12 - n1,
        {
            let mut n2: usize = 0;
            while n2 < 12
                invariant
                    n1 < 12,
                    n2 <= 12,
                    forall|a: int, b: int|
                        0 <= a < n1 && 0 <= b < 12 && a != b ==> #[trigger] (self.board(
                            a / 6,
                            a % 6,
                        ) & self.board(b / 6, b % 6)) == 0,
                    forall|b: int|
                        0 <= b < n2 && n1 != b ==> #[trigger] (self.board(
                            n1 as int / 6,
                            n1 as int % 6,
                        ) & self.board(b / 6, b % 6)) == 0,
                decreases 12 - n2,
            {
                if n1 != n2 {
                    let x = self.bb_pieces[n1 / 6][n1 % 6].0;
                    let y = self.bb_pieces[n2 / 6][n2 % 6].0;
                    if x & y != 0 {
                        proof {
                            let a = n1 as int;
                            let b = n2 as int;
                            assert((self.board(a / 6, a % 6) & self.board(b / 6, b % 6)) != 0);
                        }
                        return false;
                    }
                }
                n2 = n2 + 1;
            }
            n1 = n1 + 1;
        }
        true
    }

    /// Whether the en-passant target is plausible for the side to move.
    fn check_ep(&self) -> (r: bool)
        requires
            self.state.side_to_move == 0 || self.state.side_to_move == 1,
        ensures
            r == self.ep_ok(),
    {
        match self.state.en_passant_square {
            None => true,
            Some(sq) => {
                let t = sq.to_usize();
                if self.state.side_to_move == 0 {
                    t / 8 == 2 && self.bb_pieces[1][0].test_idx(t + 8) && !self.find_occupied()
                        .test_idx(t)
                } else {
                    t / 8 == 5 && t >= 8 && self.bb_pieces[0][0].test_idx(t - 8)
                        && !self.find_occupied().test_idx(t)
                }
            },
        }
    }

    /// Whether each castling right set has its king and rook at home.
    fn check_castle(&self) -> (r: bool)
        ensures
            r == self.castle_ok(),
    {
        let wk = &self.bb_pieces[0][5];
        let wr = &self.bb_pieces[0][3];
        let bk = &self.bb_pieces[1][5];
        let br = &self.bb_pieces[1][3];
        let cr = self.state.castling_rights.0;
        if cr & Castling::WHITE_OO != 0 && !(wk.test_idx(60) && wr.test_idx(63)) {
            return false;
        }
        if cr & Castling::WHITE_OOO != 0 && !(wk.test_idx(60) && wr.test_idx(56)) {
            return false;
        }
        if cr & Castling::BLACK_OO != 0 && !(bk.test_idx(4) && br.test_idx(7)) {
            return false;
        }
        if cr & Castling::BLACK_OOO != 0 && !(bk.test_idx(4) && br.test_idx(0)) {
            return false;
        }
        true
    }

    /// Builds a Position from its parts, rejecting any combination that
    /// breaks the structural invariant.
    pub fn new(state: State, bb_pieces: [[BitBoard; 6]; 2]) -> (r: Result<Position, ChessError>)
        ensures
            match r {
                Ok(p) => p == (Position { state, bb_pieces }) && p.wf(),
                Err(e) => e == ChessError::InvalidPositionState && !(Position {
                    state,
                    bb_pieces,
                }).wf(),
            },
    {
        let p = Position { state, bb_pieces };
        if p.is_well_formed() {
            Ok(p)
        } else {
            Err(ChessError::InvalidPositionState)
        }
    }
}

impl Default for Position {
    /// The standard initial arrangement: all thirty-two men on their home
    /// squares, White to move, full castling rights, fresh clocks. The
    /// result satisfies the structural invariant.
    fn default() -> (r: Self)
        ensures
            r.board(0, 0) == 0xff00u64,
            r.board(0, 1) == 0x42u64,
            r.board(0, 2) == 0x24u64,
            r.board(0, 3) == 0x81u64,
            r.board(0, 4) == 0x10u64,
            r.board(0, 5) == 0x8u64,
            r.board(1, 0) == 0xff000000000000u64,
            r.board(1, 1) == 0x4200000000000000u64,
            r.board(1, 2) == 0x2400000000000000u64,
            r.board(1, 3) == 0x8100000000000000u64,
            r.board(1, 4) == 0x1000000000000000u64,
            r.board(1, 5) == 0x800000000000000u64,
            r.state.castling_rights.0 == Castling::ANY_CASTLING,
            r.state.en_passant_square is None,
            r.state.half_move_counter == 0,
            r.state.full_move_counter == 1,
            r.state.side_to_move == Sides::WHITE,
            r.wf(),
    {
        let white_pawns: u64 =
            0b00000000_00000000_00000000_00000000_00000000_00000000_11111111_00000000;
        let white_knights: u64 =
            0b00000000_00000000_00000000_00000000_00000000_00000000_00000000_01000010;
        let white_bishops: u64 =
            0b00000000_00000000_00000000_00000000_00000000_00000000_00000000_00100100;
        let white_rooks: u64 =
            0b00000000_00000000_00000000_00000000_00000000_00000000_00000000_10000001;
        let white_queens: u64 =
            0b00000000_00000000_00000000_00000000_00000000_00000000_00000000_00010000;
        let white_king: u64 =
            0b00000000_00000000_00000000_00000000_00000000_00000000_00000000_00001000;

        let black_pawns: u64 =
            0b00000000_11111111_00000000_00000000_00000000_00000000_00000000_00000000;
        let black_knights: u64 =
            0b01000010_00000000_00000000_00000000_00000000_00000000_00000000_00000000;
        let black_bishops: u64 =
            0b00100100_00000000_00000000_00000000_00000000_00000000_00000000_00000000;
        let black_rooks: u64 =
            0b10000001_00000000_00000000_00000000_00000000_00000000_00000000_00000000;
        let black_queens: u64 =
            0b00010000_00000000_00000000_00000000_00000000_00000000_00000000_00000000;
        let black_king: u64 =
            0b00001000_00000000_00000000_00000000_00000000_00000000_00000000_00000000;

        let r = Self {
            state: State::default(),
            bb_pieces: [
                [
                    BitBoard(white_pawns),
                    BitBoard(white_knights),
                    BitBoard(white_bishops),
                    BitBoard(white_rooks),
                    BitBoard(white_queens),
                    BitBoard(white_king),
                ],
                [
                    BitBoard(black_pawns),
                    BitBoard(black_knights),
                    BitBoard(black_bishops),
                    BitBoard(black_rooks),
                    BitBoard(black_queens),
                    BitBoard(black_king),
                ],
            ],
        };
        proof {
            lemma_start_boards_wf();
            assert(r.boards_disjoint()) by {
                assert forall|n1: int, n2: int|
                    0 <= n1 < 12 && 0 <= n2 < 12 && n1 != n2 implies #[trigger] (r.board(
                    n1 / 6,
                    n1 % 6,
                ) & r.board(n2 / 6, n2 % 6)) == 0 by {
                    let b1 = r.board(n1 / 6, n1 % 6);
                    let b2 = r.board(n2 / 6, n2 % 6);
                    if n1 == 0 {
                        assert(b1 == 0xff00u64);
                    } else
                    if n1 == 1 {
                        assert(b1 == 0x42u64);
                    } else
                    if n1 == 2 {
                        assert(b1 == 0x24u64);
                    } else
                    if n1 == 3 {
                        assert(b1 == 0x81u64);
                    } else
                    if n1 == 4 {
                        assert(b1 == 0x10u64);
                    } else
                    if n1 == 5 {
                        assert(b1 == 0x8u64);
                    } else
                    if n1 == 6 {
                        assert(b1 == 0xff000000000000u64);
                    } else
                    if n1 == 7 {
                        assert(b1 == 0x4200000000000000u64);
                    } else
                    if n1 == 8 {
                        assert(b1 == 0x2400000000000000u64);
                    } else
                    if n1 == 9 {
                        assert(b1 == 0x8100000000000000u64);
                    } else
                    if n1 == 10 {
                        assert(b1 == 0x1000000000000000u64);
                    } else
                    if n1 == 11 {
                        assert(b1 == 0x800000000000000u64);
                    } else {
                        assert(false);
                    }
                    if n2 == 0 {
                        assert(b2 == 0xff00u64);
                    } else
                    if n2 == 1 {
                        assert(b2 == 0x42u64);
                    } else
                    if n2 == 2 {
                        assert(b2 == 0x24u64);
                    } else
                    if n2 == 3 {
                        assert(b2 == 0x81u64);
                    } else
                    if n2 == 4 {
                        assert(b2 == 0x10u64);
                    } else
                    if n2 == 5 {
                        assert(b2 == 0x8u64);
                    } else
                    if n2 == 6 {
                        assert(b2 == 0xff000000000000u64);
                    } else
                    if n2 == 7 {
                        assert(b2 == 0x4200000000000000u64);
                    } else
                    if n2 == 8 {
                        assert(b2 == 0x2400000000000000u64);
                    } else
                    if n2 == 9 {
                        assert(b2 == 0x8100000000000000u64);
                    } else
                    if n2 == 10 {
                        assert(b2 == 0x1000000000000000u64);
                    } else
                    if n2 == 11 {
                        assert(b2 == 0x800000000000000u64);
                    } else {
                        assert(false);
                    }
                }
            }
        }
        r
    }
}

/// The thirty-two home-square boards are pairwise disjoint, and each
/// castling party stands on its home square.
proof fn lemma_start_boards_wf()
    ensures
        (0xff00u64 & 0x42u64 == 0)
        && (0xff00u64 & 0x24u64 == 0)
        && (0xff00u64 & 0x81u64 == 0)
        && (0xff00u64 & 0x10u64 == 0)
        && (0xff00u64 & 0x8u64 == 0)
        && (0xff00u64 & 0xff000000000000u64 == 0)
        && (0xff00u64 & 0x4200000000000000u64 == 0)
        && (0xff00u64 & 0x2400000000000000u64 == 0)
        && (0xff00u64 & 0x8100000000000000u64 == 0)
        && (0xff00u64 & 0x1000000000000000u64 == 0)
        && (0xff00u64 & 0x800000000000000u64 == 0)
        && (0x42u64 & 0xff00u64 == 0)
        && (0x42u64 & 0x24u64 == 0)
        && (0x42u64 & 0x81u64 == 0)
        && (0x42u64 & 0x10u64 == 0)
        && (0x42u64 & 0x8u64 == 0)
        && (0x42u64 & 0xff000000000000u64 == 0)
        && (0x42u64 & 0x4200000000000000u64 == 0)
        && (0x42u64 & 0x2400000000000000u64 == 0)
        && (0x42u64 & 0x8100000000000000u64 == 0)
        && (0x42u64 & 0x1000000000000000u64 == 0)
        && (0x42u64 & 0x800000000000000u64 == 0)
        && (0x24u64 & 0xff00u64 == 0)
        && (0x24u64 & 0x42u64 == 0)
        && (0x24u64 & 0x81u64 == 0)
        && (0x24u64 & 0x10u64 == 0)
        && (0x24u64 & 0x8u64 == 0)
        && (0x24u64 & 0xff000000000000u64 == 0)
        && (0x24u64 & 0x4200000000000000u64 == 0)
        && (0x24u64 & 0x2400000000000000u64 == 0)
        && (0x24u64 & 0x8100000000000000u64 == 0)
        && (0x24u64 & 0x1000000000000000u64 == 0)
        && (0x24u64 & 0x800000000000000u64 == 0)
        && (0x81u64 & 0xff00u64 == 0)
        && (0x81u64 & 0x42u64 == 0)
        && (0x81u64 & 0x24u64 == 0)
        && (0x81u64 & 0x10u64 == 0)
        && (0x81u64 & 0x8u64 == 0)
        && (0x81u64 & 0xff000000000000u64 == 0)
        && (0x81u64 & 0x4200000000000000u64 == 0)
        && (0x81u64 & 0x2400000000000000u64 == 0)
        && (0x81u64 & 0x8100000000000000u64 == 0)
        && (0x81u64 & 0x1000000000000000u64 == 0)
        && (0x81u64 & 0x800000000000000u64 == 0)
        && (0x10u64 & 0xff00u64 == 0)
        && (0x10u64 & 0x42u64 == 0)
        && (0x10u64 & 0x24u64 == 0)
        && (0x10u64 & 0x81u64 == 0)
        && (0x10u64 & 0x8u64 == 0)
        && (0x10u64 & 0xff000000000000u64 == 0)
        && (0x10u64 & 0x4200000000000000u64 == 0)
        && (0x10u64 & 0x2400000000000000u64 == 0)
        && (0x10u64 & 0x8100000000000000u64 == 0)
        && (0x10u64 & 0x1000000000000000u64 == 0)
        && (0x10u64 & 0x800000000000000u64 == 0)
        && (0x8u64 & 0xff00u64 == 0)
        && (0x8u64 & 0x42u64 == 0)
        && (0x8u64 & 0x24u64 == 0)
        && (0x8u64 & 0x81u64 == 0)
        && (0x8u64 & 0x10u64 == 0)
        && (0x8u64 & 0xff000000000000u64 == 0)
        && (0x8u64 & 0x4200000000000000u64 == 0)
        && (0x8u64 & 0x2400000000000000u64 == 0)
        && (0x8u64 & 0x8100000000000000u64 == 0)
        && (0x8u64 & 0x1000000000000000u64 == 0)
        && (0x8u64 & 0x800000000000000u64 == 0)
        && (0xff000000000000u64 & 0xff00u64 == 0)
        && (0xff000000000000u64 & 0x42u64 == 0)
        && (0xff000000000000u64 & 0x24u64 == 0)
        && (0xff000000000000u64 & 0x81u64 == 0)
        && (0xff000000000000u64 & 0x10u64 == 0)
        && (0xff000000000000u64 & 0x8u64 == 0)
        && (0xff000000000000u64 & 0x4200000000000000u64 == 0)
        && (0xff000000000000u64 & 0x2400000000000000u64 == 0)
        && (0xff000000000000u64 & 0x8100000000000000u64 == 0)
        && (0xff000000000000u64 & 0x1000000000000000u64 == 0)
        && (0xff000000000000u64 & 0x800000000000000u64 == 0)
        && (0x4200000000000000u64 & 0xff00u64 == 0)
        && (0x4200000000000000u64 & 0x42u64 == 0)
        && (0x4200000000000000u64 & 0x24u64 == 0)
        && (0x4200000000000000u64 & 0x81u64 == 0)
        && (0x4200000000000000u64 & 0x10u64 == 0)
        && (0x4200000000000000u64 & 0x8u64 == 0)
        && (0x4200000000000000u64 & 0xff000000000000u64 == 0)
        && (0x4200000000000000u64 & 0x2400000000000000u64 == 0)
        && (0x4200000000000000u64 & 0x8100000000000000u64 == 0)
        && (0x4200000000000000u64 & 0x1000000000000000u64 == 0)
        && (0x4200000000000000u64 & 0x800000000000000u64 == 0)
        && (0x2400000000000000u64 & 0xff00u64 == 0)
        && (0x2400000000000000u64 & 0x42u64 == 0)
        && (0x2400000000000000u64 & 0x24u64 == 0)
        && (0x2400000000000000u64 & 0x81u64 == 0)
        && (0x2400000000000000u64 & 0x10u64 == 0)
        && (0x2400000000000000u64 & 0x8u64 == 0)
        && (0x2400000000000000u64 & 0xff000000000000u64 == 0)
        && (0x2400000000000000u64 & 0x4200000000000000u64 == 0)
        && (0x2400000000000000u64 & 0x8100000000000000u64 == 0)
        && (0x2400000000000000u64 & 0x1000000000000000u64 == 0)
        && (0x2400000000000000u64 & 0x800000000000000u64 == 0)
        && (0x8100000000000000u64 & 0xff00u64 == 0)
        && (0x8100000000000000u64 & 0x42u64 == 0)
        && (0x8100000000000000u64 & 0x24u64 == 0)
        && (0x8100000000000000u64 & 0x81u64 == 0)
        && (0x8100000000000000u64 & 0x10u64 == 0)
        && (0x8100000000000000u64 & 0x8u64 == 0)
        && (0x8100000000000000u64 & 0xff000000000000u64 == 0)
        && (0x8100000000000000u64 & 0x4200000000000000u64 == 0)
        && (0x8100000000000000u64 & 0x2400000000000000u64 == 0)
        && (0x8100000000000000u64 & 0x1000000000000000u64 == 0)
        && (0x8100000000000000u64 & 0x800000000000000u64 == 0)
        && (0x1000000000000000u64 & 0xff00u64 == 0)
        && (0x1000000000000000u64 & 0x42u64 == 0)
        && (0x1000000000000000u64 & 0x24u64 == 0)
        && (0x1000000000000000u64 & 0x81u64 == 0)
        && (0x1000000000000000u64 & 0x10u64 == 0)
        && (0x1000000000000000u64 & 0x8u64 == 0)
        && (0x1000000000000000u64 & 0xff000000000000u64 == 0)
        && (0x1000000000000000u64 & 0x4200000000000000u64 == 0)
        && (0x1000000000000000u64 & 0x2400000000000000u64 == 0)
        && (0x1000000000000000u64 & 0x8100000000000000u64 == 0)
        && (0x1000000000000000u64 & 0x800000000000000u64 == 0)
        && (0x800000000000000u64 & 0xff00u64 == 0)
        && (0x800000000000000u64 & 0x42u64 == 0)
        && (0x800000000000000u64 & 0x24u64 == 0)
        && (0x800000000000000u64 & 0x81u64 == 0)
        && (0x800000000000000u64 & 0x10u64 == 0)
        && (0x800000000000000u64 & 0x8u64 == 0)
        && (0x800000000000000u64 & 0xff000000000000u64 == 0)
        && (0x800000000000000u64 & 0x4200000000000000u64 == 0)
        && (0x800000000000000u64 & 0x2400000000000000u64 == 0)
        && (0x800000000000000u64 & 0x8100000000000000u64 == 0)
        && (0x800000000000000u64 & 0x1000000000000000u64 == 0)
        && (0x8u64 & (1u64 << 3u64) != 0)
        && (0x81u64 & (1u64 << 0u64) != 0)
        && (0x81u64 & (1u64 << 7u64) != 0)
        && (0x800000000000000u64 & (1u64 << 59u64) != 0)
        && (0x8100000000000000u64 & (1u64 << 56u64) != 0)
        && (0x8100000000000000u64 & (1u64 << 63u64) != 0),
{
    assert((0xff00u64 & 0x42u64 == 0)
        && (0xff00u64 & 0x24u64 == 0)
        && (0xff00u64 & 0x81u64 == 0)
        && (0xff00u64 & 0x10u64 == 0)
        && (0xff00u64 & 0x8u64 == 0)
        && (0xff00u64 & 0xff000000000000u64 == 0)
        && (0xff00u64 & 0x4200000000000000u64 == 0)
        && (0xff00u64 & 0x2400000000000000u64 == 0)
        && (0xff00u64 & 0x8100000000000000u64 == 0)
        && (0xff00u64 & 0x1000000000000000u64 == 0)
        && (0xff00u64 & 0x800000000000000u64 == 0)
        && (0x42u64 & 0xff00u64 == 0)
        && (0x42u64 & 0x24u64 == 0)
        && (0x42u64 & 0x81u64 == 0)
        && (0x42u64 & 0x10u64 == 0)
        && (0x42u64 & 0x8u64 == 0)
        && (0x42u64 & 0xff000000000000u64 == 0)
        && (0x42u64 & 0x4200000000000000u64 == 0)
        && (0x42u64 & 0x2400000000000000u64 == 0)
        && (0x42u64 & 0x8100000000000000u64 == 0)
        && (0x42u64 & 0x1000000000000000u64 == 0)
        && (0x42u64 & 0x800000000000000u64 == 0)
        && (0x24u64 & 0xff00u64 == 0)
        && (0x24u64 & 0x42u64 == 0)
        && (0x24u64 & 0x81u64 == 0)
        && (0x24u64 & 0x10u64 == 0)
        && (0x24u64 & 0x8u64 == 0)
        && (0x24u64 & 0xff000000000000u64 == 0)
        && (0x24u64 & 0x4200000000000000u64 == 0)
        && (0x24u64 & 0x2400000000000000u64 == 0)
        && (0x24u64 & 0x8100000000000000u64 == 0)
        && (0x24u64 & 0x1000000000000000u64 == 0)
        && (0x24u64 & 0x800000000000000u64 == 0)
        && (0x81u64 & 0xff00u64 == 0)
        && (0x81u64 & 0x42u64 == 0)
        && (0x81u64 & 0x24u64 == 0)
        && (0x81u64 & 0x10u64 == 0)
        && (0x81u64 & 0x8u64 == 0)
        && (0x81u64 & 0xff000000000000u64 == 0)
        && (0x81u64 & 0x4200000000000000u64 == 0)
        && (0x81u64 & 0x2400000000000000u64 == 0)
        && (0x81u64 & 0x8100000000000000u64 == 0)
        && (0x81u64 & 0x1000000000000000u64 == 0)
        && (0x81u64 & 0x800000000000000u64 == 0)
        && (0x10u64 & 0xff00u64 == 0)
        && (0x10u64 & 0x42u64 == 0)
        && (0x10u64 & 0x24u64 == 0)
        && (0x10u64 & 0x81u64 == 0)
        && (0x10u64 & 0x8u64 == 0)
        && (0x10u64 & 0xff000000000000u64 == 0)
        && (0x10u64 & 0x4200000000000000u64 == 0)
        && (0x10u64 & 0x2400000000000000u64 == 0)
        && (0x10u64 & 0x8100000000000000u64 == 0)
        && (0x10u64 & 0x1000000000000000u64 == 0)
        && (0x10u64 & 0x800000000000000u64 == 0)
        && (0x8u64 & 0xff00u64 == 0)
        && (0x8u64 & 0x42u64 == 0)
        && (0x8u64 & 0x24u64 == 0)
        && (0x8u64 & 0x81u64 == 0)
        && (0x8u64 & 0x10u64 == 0)
        && (0x8u64 & 0xff000000000000u64 == 0)
        && (0x8u64 & 0x4200000000000000u64 == 0)
        && (0x8u64 & 0x2400000000000000u64 == 0)
        && (0x8u64 & 0x8100000000000000u64 == 0)
        && (0x8u64 & 0x1000000000000000u64 == 0)
        && (0x8u64 & 0x800000000000000u64 == 0)
        && (0xff000000000000u64 & 0xff00u64 == 0)
        && (0xff000000000000u64 & 0x42u64 == 0)
        && (0xff000000000000u64 & 0x24u64 == 0)
        && (0xff000000000000u64 & 0x81u64 == 0)
        && (0xff000000000000u64 & 0x10u64 == 0)
        && (0xff000000000000u64 & 0x8u64 == 0)
        && (0xff000000000000u64 & 0x4200000000000000u64 == 0)
        && (0xff000000000000u64 & 0x2400000000000000u64 == 0)
        && (0xff000000000000u64 & 0x8100000000000000u64 == 0)
        && (0xff000000000000u64 & 0x1000000000000000u64 == 0)
        && (0xff000000000000u64 & 0x800000000000000u64 == 0)
        && (0x4200000000000000u64 & 0xff00u64 == 0)
        && (0x4200000000000000u64 & 0x42u64 == 0)
        && (0x4200000000000000u64 & 0x24u64 == 0)
        && (0x4200000000000000u64 & 0x81u64 == 0)
        && (0x4200000000000000u64 & 0x10u64 == 0)
        && (0x4200000000000000u64 & 0x8u64 == 0)
        && (0x4200000000000000u64 & 0xff000000000000u64 == 0)
        && (0x4200000000000000u64 & 0x2400000000000000u64 == 0)
        && (0x4200000000000000u64 & 0x8100000000000000u64 == 0)
        && (0x4200000000000000u64 & 0x1000000000000000u64 == 0)
        && (0x4200000000000000u64 & 0x800000000000000u64 == 0)
        && (0x2400000000000000u64 & 0xff00u64 == 0)
        && (0x2400000000000000u64 & 0x42u64 == 0)
        && (0x2400000000000000u64 & 0x24u64 == 0)
        && (0x2400000000000000u64 & 0x81u64 == 0)
        && (0x2400000000000000u64 & 0x10u64 == 0)
        && (0x2400000000000000u64 & 0x8u64 == 0)
        && (0x2400000000000000u64 & 0xff000000000000u64 == 0)
        && (0x2400000000000000u64 & 0x4200000000000000u64 == 0)
        && (0x2400000000000000u64 & 0x8100000000000000u64 == 0)
        && (0x2400000000000000u64 & 0x1000000000000000u64 == 0)
        && (0x2400000000000000u64 & 0x800000000000000u64 == 0)
        && (0x8100000000000000u64 & 0xff00u64 == 0)
        && (0x8100000000000000u64 & 0x42u64 == 0)
        && (0x8100000000000000u64 & 0x24u64 == 0)
        && (0x8100000000000000u64 & 0x81u64 == 0)
        && (0x8100000000000000u64 & 0x10u64 == 0)
        && (0x8100000000000000u64 & 0x8u64 == 0)
        && (0x8100000000000000u64 & 0xff000000000000u64 == 0)
        && (0x8100000000000000u64 & 0x4200000000000000u64 == 0)
        && (0x8100000000000000u64 & 0x2400000000000000u64 == 0)
        && (0x8100000000000000u64 & 0x1000000000000000u64 == 0)
        && (0x8100000000000000u64 & 0x800000000000000u64 == 0)
        && (0x1000000000000000u64 & 0xff00u64 == 0)
        && (0x1000000000000000u64 & 0x42u64 == 0)
        && (0x1000000000000000u64 & 0x24u64 == 0)
        && (0x1000000000000000u64 & 0x81u64 == 0)
        && (0x1000000000000000u64 & 0x10u64 == 0)
        && (0x1000000000000000u64 & 0x8u64 == 0)
        && (0x1000000000000000u64 & 0xff000000000000u64 == 0)
        && (0x1000000000000000u64 & 0x4200000000000000u64 == 0)
        && (0x1000000000000000u64 & 0x2400000000000000u64 == 0)
        && (0x1000000000000000u64 & 0x8100000000000000u64 == 0)
        && (0x1000000000000000u64 & 0x800000000000000u64 == 0)
        && (0x800000000000000u64 & 0xff00u64 == 0)
        && (0x800000000000000u64 & 0x42u64 == 0)
        && (0x800000000000000u64 & 0x24u64 == 0)
        && (0x800000000000000u64 & 0x81u64 == 0)
        && (0x800000000000000u64 & 0x10u64 == 0)
        && (0x800000000000000u64 & 0x8u64 == 0)
        && (0x800000000000000u64 & 0xff000000000000u64 == 0)
        && (0x800000000000000u64 & 0x4200000000000000u64 == 0)
        && (0x800000000000000u64 & 0x2400000000000000u64 == 0)
        && (0x800000000000000u64 & 0x8100000000000000u64 == 0)
        && (0x800000000000000u64 & 0x1000000000000000u64 == 0)
        && (0x8u64 & (1u64 << 3u64) != 0)
        && (0x81u64 & (1u64 << 0u64) != 0)
        && (0x81u64 & (1u64 << 7u64) != 0)
        && (0x800000000000000u64 & (1u64 << 59u64) != 0)
        && (0x8100000000000000u64 & (1u64 << 56u64) != 0)
        && (0x8100000000000000u64 & (1u64 << 63u64) != 0)) by (bit_vector);
}

} // verus!
