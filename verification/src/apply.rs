use vstd::prelude::*;

use crate::bits::{
    bb_has, lemma_bits_to_disjoint, lemma_bit_clear, lemma_clear_then_set, lemma_disjoint_bit,
    lemma_set_then_clear, lemma_u8_and_flag, lemma_u8_and_le, sq_mask,
};
use crate::board::{BitBoard, Castling, CastlingRights, Position, State};
use crate::move_generator::{Move, MoveGenerator, MoveKind};
use crate::rules::{
    after_bit, bb_after, bb_unmake, castle_rook_from, castle_rook_to, cr_mask, ep_victim,
    is_legal, is_pseudo, is_result_of, is_unmake_of, lemma_bb_after_bit, lemma_occ_bit,
    lemma_occ_side_bit, opt_int, pawn_dir, pawn_start_row, row,
};
use crate::ChessError;
use crate::square::{sq_idx, Square};

verus! {

broadcast use vstd::array::group_array_axioms;

/// A bit present before the move survives on any square the move does not
/// touch: not the origin, not the destination, not the castle rook's home,
/// and not an en-passant victim.
proof fn lemma_bit_kept(p: Position, m: Move, q: Position, s: int, k: int, i: int)
    requires
        is_result_of(q, p, m),
        0 <= s < 2,
        0 <= k < 6,
        0 <= i < 64,
        bb_has(p.board(s, k), i),
        i != sq_idx(m.from),
        i != sq_idx(m.to),
        m.kind == MoveKind::Castle ==> i != castle_rook_from(sq_idx(m.to)),
        m.kind == MoveKind::EnPassant ==> i != ep_victim(p.stm(), sq_idx(m.to)),
    ensures
        bb_has(q.board(s, k), i),
{
    lemma_bb_after_bit(p, m, s, k, i);
}

/// Applying a pseudo-legal move to a well-formed position keeps the
/// structural invariant: the piece boards stay pairwise disjoint, the
/// en-passant target stays plausible, and every castling right still set
/// has its king and rook at home.
pub proof fn lemma_apply_preserves_wf(p: Position, m: Move, q: Position)
    requires
        p.wf(),
        is_pseudo(p, m),
        is_result_of(q, p, m),
    ensures
        q.wf(),
{
    let mv = p.stm();
    let op = 1 - mv;
    let f = sq_idx(m.from);
    let t = sq_idx(m.to);
    let pc = m.piece as int;
    // Square-wise reading of every board after the move.
    assert forall|s: int, k: int, i: int|
        0 <= s < 2 && 0 <= k < 6 && 0 <= i < 64 implies #[trigger] bb_has(q.board(s, k), i)
        == after_bit(p, m, s, k, i) by {
        lemma_bb_after_bit(p, m, s, k, i);
    }
    // The mover's own boards do not hold the destination.
    assert forall|k: int| 0 <= k < 6 implies !bb_has(#[trigger] p.board(mv, k), t) by {
        lemma_occ_side_bit(p, mv, t);
    }
    // Where the move's extra squares are empty, no board holds them.
    if m.kind == MoveKind::Castle || m.kind == MoveKind::EnPassant || m.kind == MoveKind::DoublePush
        || (m.kind == MoveKind::Normal && m.capture is None) {
        if m.kind == MoveKind::Castle {
            let rt = castle_rook_to(t);
            assert(!bb_has(p.occ(), rt));
            assert forall|s: int, k: int| 0 <= s < 2 && 0 <= k < 6 implies !bb_has(
                #[trigger] p.board(s, k),
                rt,
            ) by {
                lemma_occ_bit(p, rt);
                lemma_occ_side_bit(p, 0, rt);
                lemma_occ_side_bit(p, 1, rt);
            }
        }
    }
    // Opponent boards and the destination square.
    if m.kind != MoveKind::EnPassant {
        match opt_int(m.capture) {
            Some(c) => {
                assert(bb_has(p.board(op, c), t));
                assert forall|k: int| 0 <= k < 6 && k != c implies !bb_has(
                    #[trigger] p.board(op, k),
                    t,
                ) by {
                    let n1 = op * 6 + c;
                    let n2 = op * 6 + k;
                    assert(p.board(n1 / 6, n1 % 6) & p.board(n2 / 6, n2 % 6) == 0);
                    lemma_disjoint_bit(p.board(op, c), p.board(op, k), t);
                }
            },
            None => {
                assert(p.piece_at(op, t) is None);
                assert(forall|k: int| 0 <= k < 6 ==> !bb_has(#[trigger] p.board(op, k), t));
            },
        }
    } else {
        assert(!bb_has(p.occ(), t));
        assert forall|s: int, k: int| 0 <= s < 2 && 0 <= k < 6 implies !bb_has(
            #[trigger] p.board(s, k),
            t,
        ) by {
            lemma_occ_bit(p, t);
            lemma_occ_side_bit(p, 0, t);
            lemma_occ_side_bit(p, 1, t);
        }
    }
    // Part 1: the side to move is valid.
    assert(q.state.side_to_move == 0 || q.state.side_to_move == 1);
    // Part 2: only the four castling bits.
    lemma_u8_and_le(p.cr(), cr_mask(f), cr_mask(t), 15);
    // Part 3: the boards stay pairwise disjoint.
    assert forall|n1: int, n2: int|
        0 <= n1 < 12 && 0 <= n2 < 12 && n1 != n2 implies #[trigger] (q.board(n1 / 6, n1 % 6)
        & q.board(n2 / 6, n2 % 6)) == 0 by {
        let s1 = n1 / 6;
        let k1 = n1 % 6;
        let s2 = n2 / 6;
        let k2 = n2 % 6;
        assert forall|i: int| 0 <= i < 64 implies !(bb_has(q.board(s1, k1), i) && bb_has(
            q.board(s2, k2),
            i,
        )) by {
            if bb_has(q.board(s1, k1), i) && bb_has(q.board(s2, k2), i) {
                assert(after_bit(p, m, s1, k1, i));
                assert(after_bit(p, m, s2, k2, i));
                assert(p.board(s1, k1) & p.board(s2, k2) == 0);
                if bb_has(p.board(s1, k1), i) {
                    lemma_disjoint_bit(p.board(s1, k1), p.board(s2, k2), i);
                }
                if bb_has(p.board(s2, k2), i) {
                    lemma_disjoint_bit(p.board(s2, k2), p.board(s1, k1), i);
                }
            }
        }
        lemma_bits_to_disjoint(q.board(s1, k1), q.board(s2, k2));
    }
    // Part 4: the en-passant target stays plausible.
    if m.kind == MoveKind::DoublePush {
        let skip = f + 8 * pawn_dir(mv);
        assert(q.ep_idx() == Some(skip));
        assert(!bb_has(p.occ(), skip));
        assert forall|s: int, k: int| 0 <= s < 2 && 0 <= k < 6 implies !bb_has(
            #[trigger] p.board(s, k),
            skip,
        ) by {
            lemma_occ_bit(p, skip);
            lemma_occ_side_bit(p, 0, skip);
            lemma_occ_side_bit(p, 1, skip);
        }
        assert(bb_has(q.board(mv, 0), t));
        assert forall|s: int, k: int| 0 <= s < 2 && 0 <= k < 6 implies !bb_has(
            #[trigger] q.board(s, k),
            skip,
        ) by {
            assert(skip != t);
            assert(skip != f);
        }
        lemma_occ_bit(q, skip);
        lemma_occ_side_bit(q, 0, skip);
        lemma_occ_side_bit(q, 1, skip);
        assert(q.ep_ok());
    } else {
        assert(q.ep_idx() is None);
    }
    // Part 5: surviving castling rights keep king and rook at home.
    let crq = q.cr();
    assert(crq == p.cr() & cr_mask(f) & cr_mask(t));
    assert((0b1100u8 & 0b0001u8 == 0) && (0b1110u8 & 0b0001u8 == 0) && (0b1101u8 & 0b0001u8 != 0)
        && (0b0011u8 & 0b0001u8 != 0) && (0b1011u8 & 0b0001u8 != 0) && (0b0111u8 & 0b0001u8 != 0)
        && (0b1111u8 & 0b0001u8 != 0) && (0b1100u8 & 0b0010u8 == 0) && (0b1110u8 & 0b0010u8 != 0)
        && (0b1101u8 & 0b0010u8 == 0) && (0b0011u8 & 0b0010u8 != 0) && (0b1011u8 & 0b0010u8 != 0)
        && (0b0111u8 & 0b0010u8 != 0) && (0b1111u8 & 0b0010u8 != 0) && (0b1100u8 & 0b0100u8 != 0)
        && (0b1110u8 & 0b0100u8 != 0) && (0b1101u8 & 0b0100u8 != 0) && (0b0011u8 & 0b0100u8 == 0)
        && (0b1011u8 & 0b0100u8 == 0) && (0b0111u8 & 0b0100u8 != 0) && (0b1111u8 & 0b0100u8 != 0)
        && (0b1100u8 & 0b1000u8 != 0) && (0b1110u8 & 0b1000u8 != 0) && (0b1101u8 & 0b1000u8 != 0)
        && (0b0011u8 & 0b1000u8 == 0) && (0b1011u8 & 0b1000u8 != 0) && (0b0111u8 & 0b1000u8 == 0)
        && (0b1111u8 & 0b1000u8 != 0)) by (bit_vector);
    if m.kind == MoveKind::EnPassant {
        assert(ep_victim(mv, t) / 8 == 3 || ep_victim(mv, t) / 8 == 4);
    }
    if crq & Castling::WHITE_OO != 0 {
        lemma_u8_and_flag(p.cr(), cr_mask(f), cr_mask(t), Castling::WHITE_OO);
        assert(f != 60 && f != 63 && t != 60 && t != 63);
        lemma_bit_kept(p, m, q, 0, 5, 60);
        lemma_bit_kept(p, m, q, 0, 3, 63);
    }
    if crq & Castling::WHITE_OOO != 0 {
        lemma_u8_and_flag(p.cr(), cr_mask(f), cr_mask(t), Castling::WHITE_OOO);
        assert(f != 60 && f != 56 && t != 60 && t != 56);
        lemma_bit_kept(p, m, q, 0, 5, 60);
        lemma_bit_kept(p, m, q, 0, 3, 56);
    }
    if crq & Castling::BLACK_OO != 0 {
        lemma_u8_and_flag(p.cr(), cr_mask(f), cr_mask(t), Castling::BLACK_OO);
        assert(f != 4 && f != 7 && t != 4 && t != 7);
        lemma_bit_kept(p, m, q, 1, 5, 4);
        lemma_bit_kept(p, m, q, 1, 3, 7);
    }
    if crq & Castling::BLACK_OOO != 0 {
        lemma_u8_and_flag(p.cr(), cr_mask(f), cr_mask(t), Castling::BLACK_OOO);
        assert(f != 4 && f != 0 && t != 4 && t != 0);
        lemma_bit_kept(p, m, q, 1, 5, 4);
        lemma_bit_kept(p, m, q, 1, 3, 0);
    }
    assert(q.castle_ok());
}

/// Unmaking a move restores exactly the position it was applied to, every
/// board and every state field included.
pub proof fn lemma_unmake_restores(p: Position, m: Move, q: Position, r: Position)
    requires
        p.wf(),
        is_pseudo(p, m),
        is_result_of(q, p, m),
        is_unmake_of(r, q, m, p.state),
    ensures
        r == p,
{
    let mv = p.stm();
    let op = 1 - mv;
    let f = sq_idx(m.from);
    let t = sq_idx(m.to);
    let pc = m.piece as int;
    assert forall|k: int| 0 <= k < 6 implies !bb_has(#[trigger] p.board(mv, k), t) by {
        lemma_occ_side_bit(p, mv, t);
    }
    assert forall|s: int, k: int| 0 <= s < 2 && 0 <= k < 6 implies #[trigger] r.board(s, k)
        == p.board(s, k) by {
        let b = p.board(s, k);
        assert(q.board(s, k) == bb_after(p, m, s, k));
        assert(r.board(s, k) == bb_unmake(q, m, mv, s, k));
        if s == mv {
            if m.kind == MoveKind::Castle {
                let rf = castle_rook_from(t);
                let rt = castle_rook_to(t);
                if k == 5 {
                    lemma_bit_clear(b, f, t);
                    lemma_set_then_clear(b & !sq_mask(f), t);
                    lemma_clear_then_set(b, f);
                } else if k == 3 {
                    assert(!bb_has(p.occ(), rt));
                    lemma_occ_bit(p, rt);
                    lemma_occ_side_bit(p, 0, rt);
                    lemma_occ_side_bit(p, 1, rt);
                    assert(!bb_has(b, rt));
                    assert(bb_has(b, rf));
                    lemma_bit_clear(b, rf, rt);
                    lemma_set_then_clear(b & !sq_mask(rf), rt);
                    lemma_clear_then_set(b, rf);
                }
            } else if m.promotion is Some {
                let pr = m.promotion.unwrap() as int;
                if k == 0 {
                    lemma_clear_then_set(b, f);
                } else if k == pr {
                    lemma_set_then_clear(b, t);
                }
            } else {
                if k == pc {
                    lemma_bit_clear(b, f, t);
                    lemma_set_then_clear(b & !sq_mask(f), t);
                    lemma_clear_then_set(b, f);
                }
            }
        } else {
            if m.kind == MoveKind::EnPassant {
                if k == 0 {
                    assert(bb_has(b, ep_victim(mv, t)));
                    lemma_clear_then_set(b, ep_victim(mv, t));
                }
            } else {
                match opt_int(m.capture) {
                    Some(c) => {
                        if k == c {
                            assert(bb_has(b, t));
                            lemma_clear_then_set(b, t);
                        }
                    },
                    None => {},
                }
            }
        }
    }
    assert(r.state == p.state);
    assert forall|s: int| 0 <= s < 2 implies r.bb_pieces@[s] == p.bb_pieces@[s] by {
        assert forall|k: int| 0 <= k < 6 implies r.bb_pieces@[s]@[k] == p.bb_pieces@[s]@[k] by {
            assert(r.board(s, k) == p.board(s, k));
        }
        assert(r.bb_pieces@[s]@ =~= p.bb_pieces@[s]@);
        assert(r.bb_pieces@[s] =~= p.bb_pieces@[s]);
    }
    assert(r.bb_pieces@ =~= p.bb_pieces@);
    assert(r.bb_pieces =~= p.bb_pieces);
}

/// The square-`i` mask, as a runtime value.
fn mask_of(i: usize) -> (r: u64)
    requires
        i < 64,
    ensures
        r == sq_mask(i as int),
{
    1u64 << ((63 - i) as u64)
}

/// The castling rights a move touching square `i` leaves intact.
fn cr_mask_exec(i: usize) -> (r: u8)
    ensures
        r == cr_mask(i as int),
{
    match i {
        60 => 0b1100,
        63 => 0b1110,
        56 => 0b1101,
        4 => 0b0011,
        7 => 0b1011,
        0 => 0b0111,
        _ => 0b1111,
    }
}

/// The board of side `s`, kind `k` after `m` is applied to `p`.
fn board_after_exec(p: &Position, m: Move, s: usize, k: usize) -> (r: u64)
    requires
        p.wf(),
        is_pseudo(*p, m),
        s < 2,
        k < 6,
    ensures
        r == bb_after(*p, m, s as int, k as int),
{
    let mv = p.state.side_to_move;
    let f = m.from.to_usize();
    let t = m.to.to_usize();
    let b = p.bb_pieces[s][k].0;
    if s == mv {
        match m.kind {
            MoveKind::Castle => {
                if k == 5 {
                    (b & !mask_of(f)) | mask_of(t)
                } else if k == 3 {
                    let rf: usize = match t {
                        62 => 63,
                        58 => 56,
                        6 => 7,
                        _ => 0,
                    };
                    let rt: usize = match t {
                        62 => 61,
                        58 => 59,
                        6 => 5,
                        _ => 3,
                    };
                    (b & !mask_of(rf)) | mask_of(rt)
                } else {
                    b
                }
            },
            _ => {
                match m.promotion {
                    Some(pr) => {
                        if k == 0 {
                            b & !mask_of(f)
                        } else if k == pr {
                            b | mask_of(t)
                        } else {
                            b
                        }
                    },
                    None => {
                        if k == m.piece {
                            (b & !mask_of(f)) | mask_of(t)
                        } else {
                            b
                        }
                    },
                }
            },
        }
    } else {
        match m.kind {
            MoveKind::EnPassant => {
                if k == 0 {
                    proof {
                        if mv == 0 {
                            assert(t as int / 8 == 2);
                        } else {
                            assert(t as int / 8 == 5);
                        }
                    }
                    let v: usize = if mv == 0 {
                        t + 8
                    } else {
                        t - 8
                    };
                    b & !mask_of(v)
                } else {
                    b
                }
            },
            _ => {
                match m.capture {
                    Some(c) => {
                        if k == c {
                            b & !mask_of(t)
                        } else {
                            b
                        }
                    },
                    None => b,
                }
            },
        }
    }
}

/// Performs make-move and unmake-move transitions on a `Position`,
/// maintaining every structural invariant and state rule.
pub struct MoveApplier;

impl MoveApplier {
    /// The position a pseudo-legal move produces, with every board and
    /// state field pinned by the after-move specification; the result is
    /// again well formed. Legality filtering is the move generator's job;
    /// the public `apply` checks it.
    pub fn apply_pseudo(p: &Position, m: Move) -> (q: Position)
        requires
            p.wf(),
            is_pseudo(*p, m),
        ensures
            is_result_of(q, *p, m),
            q.wf(),
    {
        let mv = p.state.side_to_move;
        let f = m.from.to_usize();
        let t = m.to.to_usize();
        let bb: [[BitBoard; 6]; 2] = [
            [
                BitBoard(board_after_exec(p, m, 0, 0)),
                BitBoard(board_after_exec(p, m, 0, 1)),
                BitBoard(board_after_exec(p, m, 0, 2)),
                BitBoard(board_after_exec(p, m, 0, 3)),
                BitBoard(board_after_exec(p, m, 0, 4)),
                BitBoard(board_after_exec(p, m, 0, 5)),
            ],
            [
                BitBoard(board_after_exec(p, m, 1, 0)),
                BitBoard(board_after_exec(p, m, 1, 1)),
                BitBoard(board_after_exec(p, m, 1, 2)),
                BitBoard(board_after_exec(p, m, 1, 3)),
                BitBoard(board_after_exec(p, m, 1, 4)),
                BitBoard(board_after_exec(p, m, 1, 5)),
            ],
        ];
        let ep: Option<Square> = if matches!(m.kind, MoveKind::DoublePush) {
            proof {
                assert(row(f as int) == pawn_start_row(mv as int));
            }
            let skip: usize = if mv == 0 {
                f - 8
            } else {
                f + 8
            };
            Square::from_usize(skip)
        } else {
            None
        };
        let half: u64 = if m.piece == 0 || m.capture.is_some() {
            0
        } else if p.state.half_move_counter < u64::MAX {
            p.state.half_move_counter + 1
        } else {
            p.state.half_move_counter
        };
        let full: u64 = if mv == 1 && p.state.full_move_counter < u64::MAX {
            p.state.full_move_counter + 1
        } else {
            p.state.full_move_counter
        };
        let state = State {
            castling_rights: CastlingRights(
                p.state.castling_rights.0 & cr_mask_exec(f) & cr_mask_exec(t),
            ),
            en_passant_square: ep,
            half_move_counter: half,
            full_move_counter: full,
            side_to_move: 1 - mv,
        };
        let q = Position { state, bb_pieces: bb };
        proof {
            assert forall|s: int, k: int| 0 <= s < 2 && 0 <= k < 6 implies #[trigger] q.board(s, k)
                == bb_after(*p, m, s, k) by {
            }
            assert(is_result_of(q, *p, m));
            lemma_apply_preserves_wf(*p, m, q);
        }
        q
    }

    /// The position that unmaking `m` from `q` restores, given the state
    /// `prior` recorded before the move; `lemma_unmake_restores` shows it
    /// is exactly the position the move was applied to.
    pub fn unmake(q: &Position, m: Move, prior: State) -> (r: Position)
        requires
            exists|pp: Position| pre_unmake(pp, *q, m, prior),
        ensures
            is_unmake_of(r, *q, m, prior),
    {
        proof {
            let pp = choose|pp: Position| pre_unmake(pp, *q, m, prior);
            assert(pp.wf() && is_pseudo(pp, m) && is_result_of(*q, pp, m) && prior == pp.state);
            if m.kind == MoveKind::EnPassant {
                if pp.stm() == 0 {
                    assert(sq_idx(m.to) / 8 == 2);
                } else {
                    assert(sq_idx(m.to) / 8 == 5);
                }
            }
            if m.kind == MoveKind::Castle {
                assert(sq_idx(m.to) == 62 || sq_idx(m.to) == 58 || sq_idx(m.to) == 6 || sq_idx(
                    m.to,
                ) == 2);
            }
        }
        let mv = prior.side_to_move;
        let r = Position {
            state: prior,
            bb_pieces: [
                [
                    BitBoard(board_unmake_exec(q, m, mv, 0, 0)),
                    BitBoard(board_unmake_exec(q, m, mv, 0, 1)),
                    BitBoard(board_unmake_exec(q, m, mv, 0, 2)),
                    BitBoard(board_unmake_exec(q, m, mv, 0, 3)),
                    BitBoard(board_unmake_exec(q, m, mv, 0, 4)),
                    BitBoard(board_unmake_exec(q, m, mv, 0, 5)),
                ],
                [
                    BitBoard(board_unmake_exec(q, m, mv, 1, 0)),
                    BitBoard(board_unmake_exec(q, m, mv, 1, 1)),
                    BitBoard(board_unmake_exec(q, m, mv, 1, 2)),
                    BitBoard(board_unmake_exec(q, m, mv, 1, 3)),
                    BitBoard(board_unmake_exec(q, m, mv, 1, 4)),
                    BitBoard(board_unmake_exec(q, m, mv, 1, 5)),
                ],
            ],
        };
        r
    }
}

/// What `MoveApplier::unmake` asks of its caller: the after-position `q`
/// and pre-move state `prior` really came from applying `m` to some
/// well-formed position.
pub open spec fn pre_unmake(pp: Position, q: Position, m: Move, prior: State) -> bool {
    &&& pp.wf()
    &&& is_pseudo(pp, m)
    &&& is_result_of(q, pp, m)
    &&& prior == pp.state
}

/// The board of side `s`, kind `k` of the position `m` was applied to,
/// reconstructed from the position it produced.
fn board_unmake_exec(q: &Position, m: Move, mv: usize, s: usize, k: usize) -> (r: u64)
    requires
        s < 2,
        k < 6,
        mv < 2,
        m.kind == MoveKind::EnPassant && mv == 0 ==> sq_idx(m.to) < 56,
        m.kind == MoveKind::EnPassant && mv == 1 ==> sq_idx(m.to) >= 8,
    ensures
        r == bb_unmake(*q, m, mv as int, s as int, k as int),
{
    let f = m.from.to_usize();
    let t = m.to.to_usize();
    let b = q.bb_pieces[s][k].0;
    if s == mv {
        match m.kind {
            MoveKind::Castle => {
                if k == 5 {
                    (b & !mask_of(t)) | mask_of(f)
                } else if k == 3 {
                    let rf: usize = match t {
                        62 => 63,
                        58 => 56,
                        6 => 7,
                        _ => 0,
                    };
                    let rt: usize = match t {
                        62 => 61,
                        58 => 59,
                        6 => 5,
                        _ => 3,
                    };
                    (b & !mask_of(rt)) | mask_of(rf)
                } else {
                    b
                }
            },
            _ => {
                match m.promotion {
                    Some(pr) => {
                        if k == 0 {
                            b | mask_of(f)
                        } else if k == pr {
                            b & !mask_of(t)
                        } else {
                            b
                        }
                    },
                    None => {
                        if k == m.piece {
                            (b & !mask_of(t)) | mask_of(f)
                        } else {
                            b
                        }
                    },
                }
            },
        }
    } else {
        match m.kind {
            MoveKind::EnPassant => {
                if k == 0 {
                    let v: usize = if mv == 0 {
                        t + 8
                    } else {
                        t - 8
                    };
                    b | mask_of(v)
                } else {
                    b
                }
            },
            _ => {
                match m.capture {
                    Some(c) => {
                        if k == c {
                            b | mask_of(t)
                        } else {
                            b
                        }
                    },
                    None => b,
                }
            },
        }
    }
}

impl MoveApplier {
    /// Applies `m` to `p` when it is legal, and reports `IllegalMove`
    /// otherwise: exactly the moves of the legal move set are accepted,
    /// and the result is the pinned after-move position, well formed.
    pub fn apply(p: &Position, m: Move) -> (r: Result<Position, ChessError>)
        requires
            p.wf(),
        ensures
            match r {
                Ok(q) => is_legal(*p, m) && is_result_of(q, *p, m) && q.wf(),
                Err(e) => e == ChessError::IllegalMove && !is_legal(*p, m),
            },
    {
        if MoveGenerator::is_legal_move(p, m) {
            Ok(MoveApplier::apply_pseudo(p, m))
        } else {
            Err(ChessError::IllegalMove)
        }
    }
}

impl Position {
    /// Applies `mv` in place when it is legal; an illegal move is refused
    /// with `IllegalMove` and leaves the position untouched.
    pub fn make_move(&mut self, mv: Move) -> (r: Result<(), ChessError>)
        requires
            old(self).wf(),
        ensures
            match r {
                Ok(()) => {
                    &&& is_legal(*old(self), mv)
                    &&& is_result_of(*final(self), *old(self), mv)
                    &&& final(self).wf()
                },
                Err(e) => {
                    &&& e == ChessError::IllegalMove
                    &&& !is_legal(*old(self), mv)
                    &&& *final(self) == *old(self)
                },
            },
    {
        match MoveApplier::apply(&*self, mv) {
            Ok(q) => {
                *self = q;
                Ok(())
            },
            Err(e) => Err(e),
        }
    }
}

} // verus!
