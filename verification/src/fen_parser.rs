use vstd::prelude::*;

use fen::{BoardState, Color, PieceKind};

use crate::bits::sq_mask;
use crate::board::{BitBoard, CastlingRights, Position, State};
use crate::square::{sq_idx, Square};
use crate::ChessError;

verus! {

broadcast use vstd::array::group_array_axioms;

/// What a parsed Forsyth-Edwards string holds, as plain values: one entry
/// per board cell in the parser's own order (index 0 is a1, 1 is b1, 8 is
/// a2, 63 is h8), each a piece kind code (0 pawn .. 5 king) and a color
/// code (0 White, 1 Black); the side to play; the four castling rights;
/// the en-passant cell in the same order; and the two clocks.
pub struct FenRaw {
    pub pieces: Seq<Option<(u8, u8)>>,
    pub side_to_move: u8,
    pub white_oo: bool,
    pub white_ooo: bool,
    pub black_oo: bool,
    pub black_ooo: bool,
    pub en_passant: Option<u8>,
    pub halfmove: u64,
    pub fullmove: u64,
}

/// The runtime counterpart of `FenRaw`.
pub struct FenBoard {
    pub pieces: Vec<Option<(u8, u8)>>,
    pub side_to_move: u8,
    pub white_oo: bool,
    pub white_ooo: bool,
    pub black_oo: bool,
    pub black_ooo: bool,
    pub en_passant: Option<u8>,
    pub halfmove: u64,
    pub fullmove: u64,
}

/// The fields of a `FenBoard`, as a `FenRaw`.
pub open spec fn fb_view(b: FenBoard) -> FenRaw {
    FenRaw {
        pieces: b.pieces@,
        side_to_move: b.side_to_move,
        white_oo: b.white_oo,
        white_ooo: b.white_ooo,
        black_oo: b.black_oo,
        black_ooo: b.black_ooo,
        en_passant: b.en_passant,
        halfmove: b.halfmove,
        fullmove: b.fullmove,
    }
}

/// What parsing a Forsyth-Edwards string yields: `None` where the string
/// is rejected. The result depends on the characters alone.
pub uninterp spec fn fen_parse_of(s: Seq<char>) -> Option<FenRaw>;

/// The running cell count of a placement rank stays within eight: a digit
/// advances by its value, any other character by one, `/` starts the next
/// rank, and the first space ends the placement field.
pub open spec fn fen_placement_ok(s: Seq<char>, i: int, run: int) -> bool
    decreases s.len() - i,
{
    if !(0 <= i < s.len()) {
        true
    } else if s[i] as int == 32 {
        true
    } else if s[i] as int == 47 {
        fen_placement_ok(s, i + 1, 0)
    } else if 49 <= s[i] as int <= 57 {
        run + (s[i] as int - 48) <= 8 && fen_placement_ok(s, i + 1, run + (s[i] as int - 48))
    } else {
        run + 1 <= 8 && fen_placement_ok(s, i + 1, run + 1)
    }
}

/// The inputs the parser accepts without bound errors: ASCII text whose
/// placement field never overfills a rank.
pub open spec fn fen_input_ok(s: Seq<char>) -> bool {
    &&& forall|i: int| 0 <= i < s.len() ==> (#[trigger] s[i] as int) < 128
    &&& fen_placement_ok(s, 0, 0)
}

/// Whether `s` satisfies `fen_input_ok`.
fn fen_input_check(s: &str) -> (r: bool)
    ensures
        r == fen_input_ok(s@),
{
    let n = s.unicode_len();
    let mut i: usize = 0;
    while i < n
        invariant
            n == s@.len(),
            i <= n,
            forall|j: int| 0 <= j < i ==> (#[trigger] s@[j] as int) < 128,
        decreases n - i,
    {
        let c = s.get_char(i);
        if (c as u32) >= 128 {
            return false;
        }
        i = i + 1;
    }
    let mut run: u32 = 0;
    i = 0;
    while i < n
        invariant
            n == s@.len(),
            i <= n,
            run <= 8,
            fen_placement_ok(s@, 0, 0) == fen_placement_ok(s@, i as int, run as int),
            forall|j: int| 0 <= j < s@.len() ==> (#[trigger] s@[j] as int) < 128,
        decreases n - i,
    {
        let c = s.get_char(i) as u32;
        if c == 32 {
            return true;
        } else if c == 47 {
            run = 0;
        } else if 49 <= c && c <= 57 {
            let d = c - 48;
            if run + d > 8 {
                return false;
            }
            run = run + d;
        } else {
            if run + 1 > 8 {
                return false;
            }
            run = run + 1;
        }
        i = i + 1;
    }
    true
}

/// Relies on `fen::BoardState::from_fen`: it parses Forsyth-Edwards
/// notation into a 64-cell placement (cell 0 is a1), a side to play, four
/// castling flags, an en-passant cell below 64, and the two clocks, all
/// from the characters alone; on a rejected string it returns an error.
/// The `fen_input_ok` precondition keeps its placement and en-passant
/// indexing in bounds, so the call returns normally.
#[verifier::external_body]
fn parse_fen_call(s: &str) -> (r: Option<FenBoard>)
    requires
        fen_input_ok(s@),
    ensures
        match r {
            Some(b) => {
                &&& fen_parse_of(s@) == Some(fb_view(b))
                &&& b.pieces@.len() == 64
                &&& forall|i: int|
                    0 <= i < 64 ==> match #[trigger] b.pieces@[i] {
                        Some(kc) => kc.0 < 6 && kc.1 < 2,
                        None => true,
                    }
                &&& b.side_to_move < 2
                &&& match b.en_passant {
                    Some(v) => v < 64,
                    None => true,
                }
            },
            None => fen_parse_of(s@) is None,
        },
{
    let b = match BoardState::from_fen(s) { Ok(b) => b, Err(_) => return None };
    let pieces = b.pieces.iter().map(|p| p.as_ref().map(|q| (match q.kind {
        PieceKind::Pawn => 0u8, PieceKind::Knight => 1, PieceKind::Bishop => 2,
        PieceKind::Rook => 3, PieceKind::Queen => 4, PieceKind::King => 5,
    }, match q.color { Color::White => 0u8, Color::Black => 1 }))).collect();
    Some(FenBoard { pieces,
        side_to_move: match b.side_to_play { Color::White => 0, Color::Black => 1 },
        white_oo: b.white_can_oo, white_ooo: b.white_can_ooo, black_oo: b.black_can_oo,
        black_ooo: b.black_can_ooo, en_passant: b.en_passant_square,
        halfmove: b.halfmove_clock, fullmove: b.fullmove_number })
}

/// The board-square index of the parser's cell `idx`: the parser counts
/// from a1 left to right and bottom up, the board from A8.
pub open spec fn convert_index_spec(idx: int) -> int {
    (7 - idx / 8) * 8 + idx % 8
}

/// The bitboard of kind `k` and color `c` that the first `n` parsed cells
/// contribute.
pub open spec fn fen_bb(ps: Seq<Option<(u8, u8)>>, k: u8, c: u8, n: int) -> u64
    decreases n,
{
    if n <= 0 {
        0
    } else {
        fen_bb(ps, k, c, n - 1) | (if 0 <= n - 1 < ps.len() && ps[n - 1] == Some((k, c)) {
            sq_mask(convert_index_spec(n - 1))
        } else {
            0
        })
    }
}

/// The castling-rights bits a parse yields.
pub open spec fn fen_cr_bits(fr: FenRaw) -> u8 {
    (if fr.white_oo {
        0b0001u8
    } else {
        0
    }) | (if fr.white_ooo {
        0b0010u8
    } else {
        0
    }) | (if fr.black_oo {
        0b0100u8
    } else {
        0
    }) | (if fr.black_ooo {
        0b1000u8
    } else {
        0
    })
}

/// Whether `p` is exactly the position a parse result `fr` describes:
/// every piece board and every state field is pinned.
pub open spec fn is_fen_position(p: Position, fr: FenRaw) -> bool {
    &&& forall|s: int, k: int|
        0 <= s < 2 && 0 <= k < 6 ==> #[trigger] p.board(s, k) == fen_bb(
            fr.pieces,
            k as u8,
            s as u8,
            64,
        )
    &&& p.state.castling_rights.0 == fen_cr_bits(fr)
    &&& p.ep_idx() == match fr.en_passant {
        Some(v) => Some(convert_index_spec(v as int)),
        None => None::<int>,
    }
    &&& p.state.half_move_counter == fr.halfmove
    &&& p.state.full_move_counter == fr.fullmove
    &&& p.state.side_to_move == fr.side_to_move as usize
}

/// The bitboard of kind `k` and color `c` over all 64 parsed cells.
fn build_bb(fb: &FenBoard, k: u8, c: u8) -> (r: u64)
    requires
        fb.pieces@.len() == 64,
    ensures
        r == fen_bb(fb.pieces@, k, c, 64),
{
    let mut acc: u64 = 0;
    let mut n: usize = 0;
    while n < 64
        invariant
            fb.pieces@.len() == 64,
            n <= 64,
            acc == fen_bb(fb.pieces@, k, c, n as int),
        decreases 64 - n,
    {
        let hit = match fb.pieces[n] {
            Some((a, b)) => a == k && b == c,
            None => false,
        };
        if hit {
            let sq = FenParser::convert_index(n);
            acc = acc | (1u64 << ((63 - sq) as u64));
            proof {
                assert(1u64 << ((63 - sq) as u64) == sq_mask(convert_index_spec(n as int)));
            }
        } else {
            proof {
                assert(acc | 0u64 == acc) by (bit_vector);
            }
        }
        n = n + 1;
    }
    acc
}

/// Builds a `Position` from a string in Forsyth-Edwards notation; a string
/// the parser rejects, or one describing a state that breaks the
/// structural invariants, is refused with `InvalidPositionState`.
pub struct FenParser {}

impl FenParser {
    pub fn new() -> FenParser {
        FenParser {}
    }

    /// The board-square index of the parser's cell `idx`.
    pub fn convert_index(idx: usize) -> (r: usize)
        requires
            idx < 64,
        ensures
            r == convert_index_spec(idx as int),
            r < 64,
    {
        (7 - idx / 8) * 8 + idx % 8
    }

    /// Parses `fen` and validates the result: `Ok` exactly when the string
    /// parses and the described position satisfies the structural
    /// invariant, and then the returned position is pinned field by field.
    pub fn parse_fen(&self, fen: &str) -> (r: Result<Position, ChessError>)
        ensures
            match r {
                Ok(p) => {
                    &&& fen_input_ok(fen@)
                    &&& fen_parse_of(fen@) is Some
                    &&& is_fen_position(p, fen_parse_of(fen@).unwrap())
                    &&& p.wf()
                },
                Err(e) => {
                    &&& e == ChessError::InvalidPositionState
                    &&& (!fen_input_ok(fen@) || fen_parse_of(fen@) is None || (forall|pp: Position|
                        is_fen_position(pp, fen_parse_of(fen@).unwrap()) ==> !pp.wf()))
                },
            },
    {
        if !fen_input_check(fen) {
            return Err(ChessError::InvalidPositionState);
        }
        let fb = match parse_fen_call(fen) {
            Some(b) => b,
            None => {
                return Err(ChessError::InvalidPositionState);
            },
        };
        let ghost fr = fb_view(fb);
        let bb: [[BitBoard; 6]; 2] = [
            [
                BitBoard(build_bb(&fb, 0, 0)),
                BitBoard(build_bb(&fb, 1, 0)),
                BitBoard(build_bb(&fb, 2, 0)),
                BitBoard(build_bb(&fb, 3, 0)),
                BitBoard(build_bb(&fb, 4, 0)),
                BitBoard(build_bb(&fb, 5, 0)),
            ],
            [
                BitBoard(build_bb(&fb, 0, 1)),
                BitBoard(build_bb(&fb, 1, 1)),
                BitBoard(build_bb(&fb, 2, 1)),
                BitBoard(build_bb(&fb, 3, 1)),
                BitBoard(build_bb(&fb, 4, 1)),
                BitBoard(build_bb(&fb, 5, 1)),
            ],
        ];
        let cr: u8 = (if fb.white_oo {
            0b0001u8
        } else {
            0
        }) | (if fb.white_ooo {
            0b0010u8
        } else {
            0
        }) | (if fb.black_oo {
            0b0100u8
        } else {
            0
        }) | (if fb.black_ooo {
            0b1000u8
        } else {
            0
        });
        let ep: Option<Square> = match fb.en_passant {
            Some(v) => {
                let sq_i = FenParser::convert_index(v as usize);
                match Square::from_usize(sq_i) {
                    Some(sq) => Some(sq),
                    None => {
                        proof {
                            assert(false);
                        }
                        None
                    },
                }
            },
            None => None,
        };
        let state = State {
            castling_rights: CastlingRights(cr),
            en_passant_square: ep,
            half_move_counter: fb.halfmove,
            full_move_counter: fb.fullmove,
            side_to_move: fb.side_to_move as usize,
        };
        let candidate = Position { state, bb_pieces: bb };
        proof {
            assert forall|s: int, k: int| 0 <= s < 2 && 0 <= k < 6 implies #[trigger] candidate.board(
                s,
                k,
            ) == fen_bb(fr.pieces, k as u8, s as u8, 64) by {
            }
            assert(is_fen_position(candidate, fr));
        }
        match Position::new(state, bb) {
            Ok(p) => Ok(p),
            Err(_) => {
                proof {
                    assert forall|pp: Position| is_fen_position(pp, fr) implies !pp.wf() by {
                        lemma_fen_position_unique(pp, candidate, fr);
                    }
                }
                Err(ChessError::InvalidPositionState)
            },
        }
    }
}

/// Two positions a single parse result describes are equal: the relation
/// pins every field.
proof fn lemma_fen_position_unique(p1: Position, p2: Position, fr: FenRaw)
    requires
        is_fen_position(p1, fr),
        is_fen_position(p2, fr),
    ensures
        p1 == p2,
{
    assert forall|s: int| 0 <= s < 2 implies p1.bb_pieces@[s] == p2.bb_pieces@[s] by {
        assert forall|k: int| 0 <= k < 6 implies p1.bb_pieces@[s]@[k] == p2.bb_pieces@[s]@[k] by {
            assert(p1.board(s, k) == p2.board(s, k));
        }
        assert(p1.bb_pieces@[s]@ =~= p2.bb_pieces@[s]@);
        assert(p1.bb_pieces@[s] =~= p2.bb_pieces@[s]);
    }
    assert(p1.bb_pieces@ =~= p2.bb_pieces@);
    assert(p1.bb_pieces =~= p2.bb_pieces);
    assert(p1.state.en_passant_square == p2.state.en_passant_square) by {
        match (p1.state.en_passant_square, p2.state.en_passant_square) {
            (Some(a), Some(b)) => {
                assert(sq_idx(a) == sq_idx(b));
                crate::square::lemma_sq_idx_injective(a, b);
            },
            _ => {},
        }
    }
}

impl Position {
    /// Builds a `Position` from a string in Forsyth-Edwards notation, with
    /// the same validation and contract as `FenParser::parse_fen`.
    pub fn load_position_from_fen(fen: &str) -> (r: Result<Position, ChessError>)
        ensures
            match r {
                Ok(p) => {
                    &&& fen_input_ok(fen@)
                    &&& fen_parse_of(fen@) is Some
                    &&& is_fen_position(p, fen_parse_of(fen@).unwrap())
                    &&& p.wf()
                },
                Err(e) => {
                    &&& e == ChessError::InvalidPositionState
                    &&& (!fen_input_ok(fen@) || fen_parse_of(fen@) is None || (forall|pp: Position|
                        is_fen_position(pp, fen_parse_of(fen@).unwrap()) ==> !pp.wf()))
                },
            },
    {
        let parser = FenParser::new();
        parser.parse_fen(fen)
    }
}

} // verus!
