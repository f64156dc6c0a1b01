use vstd::prelude::*;

use crate::bits::{bb_has, sq_mask};
use crate::board::Position;
use crate::move_generator::{Move, MoveKind};
use crate::square::sq_idx;

verus! {

// Piece kinds are indexed as in `Pieces`: 0 pawn, 1 knight, 2 bishop,
// 3 rook, 4 queen, 5 king. Sides: 0 White, 1 Black. Squares are indexed
// `A8` = 0 .. `H1` = 63, so White moves toward smaller indices.
/// The rank coordinate of a square index: 0 is the 8th rank, 7 the 1st.
pub open spec fn row(i: int) -> int {
    i / 8
}

/// The file coordinate of a square index: 0 is the a-file, 7 the h-file.
pub open spec fn col(i: int) -> int {
    i % 8
}

/// Whether `i` is a board square index.
pub open spec fn on_board(i: int) -> bool {
    0 <= i < 64
}

/// The distance between two coordinates.
pub open spec fn absd(a: int, b: int) -> int {
    if a >= b {
        a - b
    } else {
        b - a
    }
}

/// The sign of a coordinate difference.
pub open spec fn sgn(a: int) -> int {
    if a > 0 {
        1
    } else if a < 0 {
        -1
    } else {
        0
    }
}

/// A knight's jump: one step on one axis and two on the other.
pub open spec fn knight_jump(f: int, t: int) -> bool {
    let dr = absd(row(f), row(t));
    let dc = absd(col(f), col(t));
    (dr == 1 && dc == 2) || (dr == 2 && dc == 1)
}

/// A king's step: to a distinct square at most one away on each axis.
pub open spec fn king_step(f: int, t: int) -> bool {
    f != t && absd(row(f), row(t)) <= 1 && absd(col(f), col(t)) <= 1
}

/// Rook geometry: a distinct square on the same rank or file.
pub open spec fn rook_aligned(f: int, t: int) -> bool {
    f != t && (row(f) == row(t) || col(f) == col(t))
}

/// Bishop geometry: a distinct square on a common diagonal.
pub open spec fn bishop_aligned(f: int, t: int) -> bool {
    f != t && absd(row(f), row(t)) == absd(col(f), col(t))
}

/// The number of steps between two aligned squares.
pub open spec fn line_len(f: int, t: int) -> int {
    if absd(row(f), row(t)) >= absd(col(f), col(t)) {
        absd(row(f), row(t))
    } else {
        absd(col(f), col(t))
    }
}

/// The square `k` steps from `f` toward `t` along the straight line or
/// diagonal through them.
pub open spec fn step_sq(f: int, t: int, k: int) -> int {
    (row(f) + k * sgn(row(t) - row(f))) * 8 + col(f) + k * sgn(col(t) - col(f))
}

/// Whether every square strictly between `f` and `t` is empty in `occ`.
pub open spec fn path_clear(occ: u64, f: int, t: int) -> bool {
    forall|k: int| 1 <= k < line_len(f, t) ==> !bb_has(occ, #[trigger] step_sq(f, t, k))
}

/// The row direction a pawn of side `s` moves in.
pub open spec fn pawn_dir(s: int) -> int {
    if s == 0 {
        -1
    } else {
        1
    }
}

/// The rank a pawn of side `s` starts on.
pub open spec fn pawn_start_row(s: int) -> int {
    if s == 0 {
        6
    } else {
        1
    }
}

/// The rank a pawn of side `s` promotes on.
pub open spec fn promo_row(s: int) -> int {
    if s == 0 {
        0
    } else {
        7
    }
}

/// A pawn of side `s` on `f` attacks `t`: one rank forward, one file aside.
pub open spec fn pawn_attack(s: int, f: int, t: int) -> bool {
    row(t) == row(f) + pawn_dir(s) && absd(col(f), col(t)) == 1
}

/// Whether a piece of kind `k` and side `s` standing on `f` attacks `t`,
/// given the total occupancy `occ`. Sliding pieces see up to and including
/// the first occupied square along each ray; pawn pushes are not attacks.
pub open spec fn piece_reaches(k: int, s: int, occ: u64, f: int, t: int) -> bool {
    if k == 0 {
        pawn_attack(s, f, t)
    } else if k == 1 {
        knight_jump(f, t)
    } else if k == 2 {
        bishop_aligned(f, t) && path_clear(occ, f, t)
    } else if k == 3 {
        rook_aligned(f, t) && path_clear(occ, f, t)
    } else if k == 4 {
        (rook_aligned(f, t) || bishop_aligned(f, t)) && path_clear(occ, f, t)
    } else if k == 5 {
        king_step(f, t)
    } else {
        false
    }
}

/// Whether some piece of side `s` standing on `f` attacks `t` in `p`.
pub open spec fn attacks_sq(p: Position, s: int, f: int, t: int) -> bool {
    &&& on_board(f)
    &&& {
        ||| bb_has(p.board(s, 0), f) && piece_reaches(0, s, p.occ(), f, t)
        ||| bb_has(p.board(s, 1), f) && piece_reaches(1, s, p.occ(), f, t)
        ||| bb_has(p.board(s, 2), f) && piece_reaches(2, s, p.occ(), f, t)
        ||| bb_has(p.board(s, 3), f) && piece_reaches(3, s, p.occ(), f, t)
        ||| bb_has(p.board(s, 4), f) && piece_reaches(4, s, p.occ(), f, t)
        ||| bb_has(p.board(s, 5), f) && piece_reaches(5, s, p.occ(), f, t)
    }
}

/// Whether side `s` attacks square `t` in `p`.
pub open spec fn attacked(p: Position, s: int, t: int) -> bool {
    exists|f: int| attacks_sq(p, s, f, t)
}

/// Whether the king of side `s` stands on an attacked square.
pub open spec fn in_check(p: Position, s: int) -> bool {
    exists|k: int| on_board(k) && bb_has(p.board(s, 5), k) && attacked(p, 1 - s, k)
}

/// An `Option<usize>` as an `Option<int>`.
pub open spec fn opt_int(o: Option<usize>) -> Option<int> {
    match o {
        Some(v) => Some(v as int),
        None => None,
    }
}

/// The home square of the rook taking part in a castle whose king lands
/// on `t`.
pub open spec fn castle_rook_from(t: int) -> int {
    if t == 62 {
        63
    } else if t == 58 {
        56
    } else if t == 6 {
        7
    } else {
        0
    }
}

/// The square that rook lands on.
pub open spec fn castle_rook_to(t: int) -> int {
    if t == 62 {
        61
    } else if t == 58 {
        59
    } else if t == 6 {
        5
    } else {
        3
    }
}

/// The square of the pawn an en-passant capture to `t` by side `s` removes:
/// behind the destination, on the capturing pawn's starting rank.
pub open spec fn ep_victim(s: int, t: int) -> int {
    if s == 0 {
        t + 8
    } else {
        t - 8
    }
}

/// The castling conditions for side `s`, king from `f` to `t`: the right is
/// still held, every square between king and rook is empty, and neither the
/// king's square nor any square it crosses or lands on is attacked.
pub open spec fn castle_pseudo(p: Position, s: int, f: int, t: int) -> bool {
    if s == 0 {
        f == 60 && {
            ||| {
                &&& t == 62
                &&& p.cr() & crate::board::Castling::WHITE_OO != 0
                &&& !bb_has(p.occ(), 61)
                &&& !bb_has(p.occ(), 62)
                &&& !attacked(p, 1, 60)
                &&& !attacked(p, 1, 61)
                &&& !attacked(p, 1, 62)
            }
            ||| {
                &&& t == 58
                &&& p.cr() & crate::board::Castling::WHITE_OOO != 0
                &&& !bb_has(p.occ(), 59)
                &&& !bb_has(p.occ(), 58)
                &&& !bb_has(p.occ(), 57)
                &&& !attacked(p, 1, 60)
                &&& !attacked(p, 1, 59)
                &&& !attacked(p, 1, 58)
            }
        }
    } else {
        f == 4 && {
            ||| {
                &&& t == 6
                &&& p.cr() & crate::board::Castling::BLACK_OO != 0
                &&& !bb_has(p.occ(), 5)
                &&& !bb_has(p.occ(), 6)
                &&& !attacked(p, 0, 4)
                &&& !attacked(p, 0, 5)
                &&& !attacked(p, 0, 6)
            }
            ||| {
                &&& t == 2
                &&& p.cr() & crate::board::Castling::BLACK_OOO != 0
                &&& !bb_has(p.occ(), 3)
                &&& !bb_has(p.occ(), 2)
                &&& !bb_has(p.occ(), 1)
                &&& !attacked(p, 0, 4)
                &&& !attacked(p, 0, 3)
                &&& !attacked(p, 0, 2)
            }
        }
    }
}

/// A pseudo-legal move: it obeys piece movement, occupancy, capture,
/// promotion and castling rules, but is not yet checked for leaving its
/// own king attacked.
pub open spec fn is_pseudo(p: Position, m: Move) -> bool {
    let s = p.stm();
    let f = sq_idx(m.from);
    let t = sq_idx(m.to);
    let pc = m.piece as int;
    &&& 0 <= pc < 6
    &&& bb_has(p.board(s, pc), f)
    &&& f != t
    &&& !bb_has(p.occ_side(s), t)
    &&& (m.promotion is Some <==> (pc == 0 && row(t) == promo_row(s)))
    &&& match m.promotion {
        Some(pr) => 1 <= pr as int <= 4,
        None => true,
    }
    &&& match m.kind {
        MoveKind::EnPassant => opt_int(m.capture) == Some(0int),
        _ => opt_int(m.capture) == p.piece_at(1 - s, t),
    }
    &&& match m.kind {
        MoveKind::Normal => {
            if pc == 0 {
                if col(f) == col(t) {
                    t == f + 8 * pawn_dir(s) && !bb_has(p.occ(), t)
                } else {
                    pawn_attack(s, f, t) && bb_has(p.occ_side(1 - s), t)
                }
            } else {
                piece_reaches(pc, s, p.occ(), f, t)
            }
        },
        MoveKind::DoublePush => {
            &&& pc == 0
            &&& col(f) == col(t)
            &&& row(f) == pawn_start_row(s)
            &&& t == f + 16 * pawn_dir(s)
            &&& !bb_has(p.occ(), f + 8 * pawn_dir(s))
            &&& !bb_has(p.occ(), t)
        },
        MoveKind::EnPassant => {
            &&& pc == 0
            &&& p.ep_idx() == Some(t)
            &&& pawn_attack(s, f, t)
            &&& bb_has(p.board(1 - s, 0), ep_victim(s, t))
            &&& !bb_has(p.occ(), t)
        },
        MoveKind::Castle => pc == 5 && castle_pseudo(p, s, f, t),
    }
}

/// The bitboard of side `s` and kind `k` after `m` is applied to `p`.
pub open spec fn bb_after(p: Position, m: Move, s: int, k: int) -> u64 {
    let mv = p.stm();
    let f = sq_idx(m.from);
    let t = sq_idx(m.to);
    let pc = m.piece as int;
    let b = p.board(s, k);
    if s == mv {
        if m.kind == MoveKind::Castle {
            if k == 5 {
                (b & !sq_mask(f)) | sq_mask(t)
            } else if k == 3 {
                (b & !sq_mask(castle_rook_from(t))) | sq_mask(castle_rook_to(t))
            } else {
                b
            }
        } else if m.promotion is Some {
            let pr = m.promotion.unwrap() as int;
            if k == 0 {
                b & !sq_mask(f)
            } else if k == pr {
                b | sq_mask(t)
            } else {
                b
            }
        } else {
            if k == pc {
                (b & !sq_mask(f)) | sq_mask(t)
            } else {
                b
            }
        }
    } else {
        if m.kind == MoveKind::EnPassant {
            if k == 0 {
                b & !sq_mask(ep_victim(mv, t))
            } else {
                b
            }
        } else {
            match opt_int(m.capture) {
                Some(c) => if k == c {
                    b & !sq_mask(t)
                } else {
                    b
                },
                None => b,
            }
        }
    }
}

/// The castling rights a move touching square `i` leaves intact.
pub open spec fn cr_mask(i: int) -> u8 {
    if i == 60 {
        0b1100
    } else if i == 63 {
        0b1110
    } else if i == 56 {
        0b1101
    } else if i == 4 {
        0b0011
    } else if i == 7 {
        0b1011
    } else if i == 0 {
        0b0111
    } else {
        0b1111
    }
}

/// The castling rights after `m`: a right is lost as soon as its king or
/// rook home square is left, passed into, or captured on.
pub open spec fn cr_after(p: Position, m: Move) -> u8 {
    p.cr() & cr_mask(sq_idx(m.from)) & cr_mask(sq_idx(m.to))
}

/// The en-passant target after `m`: the skipped square of a double pawn
/// push, and nothing otherwise.
pub open spec fn ep_after(p: Position, m: Move) -> Option<int> {
    if m.kind == MoveKind::DoublePush {
        Some(sq_idx(m.from) + 8 * pawn_dir(p.stm()))
    } else {
        None
    }
}

/// The halfmove clock after `m`: reset by a pawn move or a capture, and
/// otherwise incremented (saturating at the type's limit).
pub open spec fn hm_after(p: Position, m: Move) -> u64 {
    if m.piece == 0 || m.capture is Some {
        0
    } else if p.state.half_move_counter < u64::MAX {
        (p.state.half_move_counter + 1) as u64
    } else {
        u64::MAX
    }
}

/// The fullmove number after `m`: incremented after Black's move
/// (saturating at the type's limit).
pub open spec fn fm_after(p: Position, m: Move) -> u64 {
    if p.stm() == 1 && p.state.full_move_counter < u64::MAX {
        (p.state.full_move_counter + 1) as u64
    } else {
        p.state.full_move_counter
    }
}

/// Whether `q` is exactly the position that applying `m` to `p` yields:
/// every piece board and every state field is pinned.
pub open spec fn is_result_of(q: Position, p: Position, m: Move) -> bool {
    &&& forall|s: int, k: int|
        0 <= s < 2 && 0 <= k < 6 ==> #[trigger] q.board(s, k) == bb_after(p, m, s, k)
    &&& q.cr() == cr_after(p, m)
    &&& q.ep_idx() == ep_after(p, m)
    &&& q.state.half_move_counter == hm_after(p, m)
    &&& q.state.full_move_counter == fm_after(p, m)
    &&& q.stm() == 1 - p.stm()
}

/// The occupancy of side `s` after `m`.
pub open spec fn occ_side_after(p: Position, m: Move, s: int) -> u64 {
    bb_after(p, m, s, 0) | bb_after(p, m, s, 1) | bb_after(p, m, s, 2) | bb_after(p, m, s, 3)
        | bb_after(p, m, s, 4) | bb_after(p, m, s, 5)
}

/// The total occupancy after `m`.
pub open spec fn occ_after(p: Position, m: Move) -> u64 {
    occ_side_after(p, m, 0) | occ_side_after(p, m, 1)
}

/// Whether, after `m`, some piece of side `s` on `f` attacks `t`.
pub open spec fn attacks_sq_after(p: Position, m: Move, s: int, f: int, t: int) -> bool {
    &&& on_board(f)
    &&& {
        ||| bb_has(bb_after(p, m, s, 0), f) && piece_reaches(0, s, occ_after(p, m), f, t)
        ||| bb_has(bb_after(p, m, s, 1), f) && piece_reaches(1, s, occ_after(p, m), f, t)
        ||| bb_has(bb_after(p, m, s, 2), f) && piece_reaches(2, s, occ_after(p, m), f, t)
        ||| bb_has(bb_after(p, m, s, 3), f) && piece_reaches(3, s, occ_after(p, m), f, t)
        ||| bb_has(bb_after(p, m, s, 4), f) && piece_reaches(4, s, occ_after(p, m), f, t)
        ||| bb_has(bb_after(p, m, s, 5), f) && piece_reaches(5, s, occ_after(p, m), f, t)
    }
}

/// Whether, after `m`, side `s` attacks square `t`.
pub open spec fn attacked_after(p: Position, m: Move, s: int, t: int) -> bool {
    exists|f: int| attacks_sq_after(p, m, s, f, t)
}

/// Whether, after `m`, the king of side `s` stands attacked.
pub open spec fn on_check_after_side(p: Position, m: Move, s: int) -> bool {
    exists|k: int|
        on_board(k) && bb_has(bb_after(p, m, s, 5), k) && attacked_after(p, m, 1 - s, k)
}

/// Whether the mover's own king stands attacked once `m` is applied:
/// the one test that separates legal from pseudo-legal moves.
pub open spec fn in_check_after(p: Position, m: Move) -> bool {
    on_check_after_side(p, m, p.stm())
}

/// A legal move: pseudo-legal, and it does not leave the moving side's
/// king attacked.
pub open spec fn is_legal(p: Position, m: Move) -> bool {
    is_pseudo(p, m) && !in_check_after(p, m)
}

/// A position that results from applying `m` shows the same attack
/// relations as the after-move specification functions.
pub proof fn lemma_result_attacks(q: Position, p: Position, m: Move)
    requires
        is_result_of(q, p, m),
    ensures
        forall|s: int, t: int|
            0 <= s < 2 ==> #[trigger] attacked(q, s, t) == attacked_after(p, m, s, t),
        forall|s: int| 0 <= s < 2 ==> #[trigger] in_check(q, s) == (on_check_after_side(p, m, s)),
{
    assert(q.occ() == occ_after(p, m));
    assert forall|s: int, t: int| 0 <= s < 2 implies #[trigger] attacked(q, s, t)
        == attacked_after(p, m, s, t) by {
        if attacked(q, s, t) {
            let f = choose|f: int| attacks_sq(q, s, f, t);
            assert(attacks_sq_after(p, m, s, f, t));
        }
        if attacked_after(p, m, s, t) {
            let f = choose|f: int| attacks_sq_after(p, m, s, f, t);
            assert(attacks_sq(q, s, f, t));
        }
    }
    assert forall|s: int| 0 <= s < 2 implies #[trigger] in_check(q, s) == on_check_after_side(
        p,
        m,
        s,
    ) by {
        if in_check(q, s) {
            let k = choose|k: int| on_board(k) && bb_has(q.board(s, 5), k) && attacked(q, 1 - s, k);
            assert(bb_has(bb_after(p, m, s, 5), k));
            assert(attacked_after(p, m, 1 - s, k));
        }
        if on_check_after_side(p, m, s) {
            let k = choose|k: int|
                on_board(k) && bb_has(bb_after(p, m, s, 5), k) && attacked_after(p, m, 1 - s, k);
            assert(bb_has(q.board(s, 5), k));
            assert(attacked(q, 1 - s, k));
        }
    }
}

/// The after-move boards, stated square by square: the moving piece leaves
/// `from` and appears on `to` (as the promotion piece if promoting), the
/// castle rook is relocated, and the captured man — on `to`, or behind it
/// for en passant — disappears. Every other square is untouched.
pub open spec fn after_bit(p: Position, m: Move, s: int, k: int, i: int) -> bool {
    let mv = p.stm();
    let f = sq_idx(m.from);
    let t = sq_idx(m.to);
    let pc = m.piece as int;
    let b = p.board(s, k);
    if s == mv {
        if m.kind == MoveKind::Castle {
            if k == 5 {
                (bb_has(b, i) && i != f) || i == t
            } else if k == 3 {
                (bb_has(b, i) && i != castle_rook_from(t)) || i == castle_rook_to(t)
            } else {
                bb_has(b, i)
            }
        } else if m.promotion is Some {
            let pr = m.promotion.unwrap() as int;
            if k == 0 {
                bb_has(b, i) && i != f
            } else if k == pr {
                bb_has(b, i) || i == t
            } else {
                bb_has(b, i)
            }
        } else {
            if k == pc {
                (bb_has(b, i) && i != f) || i == t
            } else {
                bb_has(b, i)
            }
        }
    } else {
        if m.kind == MoveKind::EnPassant {
            if k == 0 {
                bb_has(b, i) && i != ep_victim(mv, t)
            } else {
                bb_has(b, i)
            }
        } else {
            match opt_int(m.capture) {
                Some(c) => if k == c {
                    bb_has(b, i) && i != t
                } else {
                    bb_has(b, i)
                },
                None => bb_has(b, i),
            }
        }
    }
}

/// The update rule `bb_after` and its square-wise reading `after_bit`
/// agree on every board square.
pub proof fn lemma_bb_after_bit(p: Position, m: Move, s: int, k: int, i: int)
    requires
        0 <= i < 64,
    ensures
        bb_has(bb_after(p, m, s, k), i) == after_bit(p, m, s, k, i),
{
    let mv = p.stm();
    let f = sq_idx(m.from);
    let t = sq_idx(m.to);
    let pc = m.piece as int;
    let b = p.board(s, k);
    if s == mv {
        if m.kind == MoveKind::Castle {
            if k == 5 {
                crate::bits::lemma_bit_set(b & !sq_mask(f), t, i);
                crate::bits::lemma_bit_clear(b, f, i);
            } else if k == 3 {
                crate::bits::lemma_bit_set(b & !sq_mask(castle_rook_from(t)), castle_rook_to(t), i);
                crate::bits::lemma_bit_clear(b, castle_rook_from(t), i);
                assert(0 <= castle_rook_to(t) < 64);
            }
        } else if m.promotion is Some {
            let pr = m.promotion.unwrap() as int;
            if k == 0 {
                crate::bits::lemma_bit_clear(b, f, i);
            } else if k == pr {
                crate::bits::lemma_bit_set(b, t, i);
            }
        } else {
            if k == pc {
                crate::bits::lemma_bit_set(b & !sq_mask(f), t, i);
                crate::bits::lemma_bit_clear(b, f, i);
            }
        }
    } else {
        if m.kind == MoveKind::EnPassant {
            if k == 0 {
                crate::bits::lemma_bit_clear(b, ep_victim(mv, t), i);
            }
        } else {
            match opt_int(m.capture) {
                Some(c) => {
                    if k == c {
                        crate::bits::lemma_bit_clear(b, t, i);
                    }
                },
                None => {},
            }
        }
    }
}

/// A side's occupancy holds a square exactly when one of its six piece
/// boards does.
pub proof fn lemma_occ_side_bit(p: Position, s: int, i: int)
    ensures
        bb_has(p.occ_side(s), i) == (bb_has(p.board(s, 0), i) || bb_has(p.board(s, 1), i)
            || bb_has(p.board(s, 2), i) || bb_has(p.board(s, 3), i) || bb_has(p.board(s, 4), i)
            || bb_has(p.board(s, 5), i)),
{
    let b0 = p.board(s, 0);
    let b1 = p.board(s, 1);
    let b2 = p.board(s, 2);
    let b3 = p.board(s, 3);
    let b4 = p.board(s, 4);
    let b5 = p.board(s, 5);
    crate::bits::lemma_bit_or(b0, b1, i);
    crate::bits::lemma_bit_or(b0 | b1, b2, i);
    crate::bits::lemma_bit_or(b0 | b1 | b2, b3, i);
    crate::bits::lemma_bit_or(b0 | b1 | b2 | b3, b4, i);
    crate::bits::lemma_bit_or(b0 | b1 | b2 | b3 | b4, b5, i);
}

/// The total occupancy holds a square exactly when one side's does.
pub proof fn lemma_occ_bit(p: Position, i: int)
    ensures
        bb_has(p.occ(), i) == (bb_has(p.occ_side(0), i) || bb_has(p.occ_side(1), i)),
{
    crate::bits::lemma_bit_or(p.occ_side(0), p.occ_side(1), i);
}

/// The boards of the position `m` was applied to, reconstructed from the
/// one it produced: the inverse update of `bb_after`, given the mover
/// `mv` recorded before the move.
pub open spec fn bb_unmake(q: Position, m: Move, mv: int, s: int, k: int) -> u64 {
    let f = sq_idx(m.from);
    let t = sq_idx(m.to);
    let pc = m.piece as int;
    let b = q.board(s, k);
    if s == mv {
        if m.kind == MoveKind::Castle {
            if k == 5 {
                (b & !sq_mask(t)) | sq_mask(f)
            } else if k == 3 {
                (b & !sq_mask(castle_rook_to(t))) | sq_mask(castle_rook_from(t))
            } else {
                b
            }
        } else if m.promotion is Some {
            let pr = m.promotion.unwrap() as int;
            if k == 0 {
                b | sq_mask(f)
            } else if k == pr {
                b & !sq_mask(t)
            } else {
                b
            }
        } else {
            if k == pc {
                (b & !sq_mask(t)) | sq_mask(f)
            } else {
                b
            }
        }
    } else {
        if m.kind == MoveKind::EnPassant {
            if k == 0 {
                b | sq_mask(ep_victim(mv, t))
            } else {
                b
            }
        } else {
            match opt_int(m.capture) {
                Some(c) => if k == c {
                    b | sq_mask(t)
                } else {
                    b
                },
                None => b,
            }
        }
    }
}

/// Whether `r` is exactly the position that unmaking `m` from `q`, with
/// the pre-move state `prior`, yields.
pub open spec fn is_unmake_of(r: Position, q: Position, m: Move, prior: crate::board::State) -> bool {
    &&& forall|s: int, k: int|
        0 <= s < 2 && 0 <= k < 6 ==> #[trigger] r.board(s, k) == bb_unmake(
            q,
            m,
            prior.side_to_move as int,
            s,
            k,
        )
    &&& r.state == prior
}

/// The occupancy after a move holds a square exactly when one of the
/// twelve after-move boards does.
pub proof fn lemma_occ_after_bit(p: Position, m: Move, i: int)
    ensures
        bb_has(occ_after(p, m), i) == (bb_has(bb_after(p, m, 0, 0), i) || bb_has(
            bb_after(p, m, 0, 1),
            i,
        ) || bb_has(bb_after(p, m, 0, 2), i) || bb_has(bb_after(p, m, 0, 3), i) || bb_has(
            bb_after(p, m, 0, 4),
            i,
        ) || bb_has(bb_after(p, m, 0, 5), i) || bb_has(bb_after(p, m, 1, 0), i) || bb_has(
            bb_after(p, m, 1, 1),
            i,
        ) || bb_has(bb_after(p, m, 1, 2), i) || bb_has(bb_after(p, m, 1, 3), i) || bb_has(
            bb_after(p, m, 1, 4),
            i,
        ) || bb_has(bb_after(p, m, 1, 5), i)),
{
    crate::bits::lemma_bit_or(occ_side_after(p, m, 0), occ_side_after(p, m, 1), i);
    crate::bits::lemma_bit_or(bb_after(p, m, 0, 0), bb_after(p, m, 0, 1), i);
    crate::bits::lemma_bit_or(bb_after(p, m, 0, 0) | bb_after(p, m, 0, 1), bb_after(p, m, 0, 2), i);
    crate::bits::lemma_bit_or(
        bb_after(p, m, 0, 0) | bb_after(p, m, 0, 1) | bb_after(p, m, 0, 2),
        bb_after(p, m, 0, 3),
        i,
    );
    crate::bits::lemma_bit_or(
        bb_after(p, m, 0, 0) | bb_after(p, m, 0, 1) | bb_after(p, m, 0, 2) | bb_after(p, m, 0, 3),
        bb_after(p, m, 0, 4),
        i,
    );
    crate::bits::lemma_bit_or(
        bb_after(p, m, 0, 0) | bb_after(p, m, 0, 1) | bb_after(p, m, 0, 2) | bb_after(p, m, 0, 3)
            | bb_after(p, m, 0, 4),
        bb_after(p, m, 0, 5),
        i,
    );
    crate::bits::lemma_bit_or(bb_after(p, m, 1, 0), bb_after(p, m, 1, 1), i);
    crate::bits::lemma_bit_or(bb_after(p, m, 1, 0) | bb_after(p, m, 1, 1), bb_after(p, m, 1, 2), i);
    crate::bits::lemma_bit_or(
        bb_after(p, m, 1, 0) | bb_after(p, m, 1, 1) | bb_after(p, m, 1, 2),
        bb_after(p, m, 1, 3),
        i,
    );
    crate::bits::lemma_bit_or(
        bb_after(p, m, 1, 0) | bb_after(p, m, 1, 1) | bb_after(p, m, 1, 2) | bb_after(p, m, 1, 3),
        bb_after(p, m, 1, 4),
        i,
    );
    crate::bits::lemma_bit_or(
        bb_after(p, m, 1, 0) | bb_after(p, m, 1, 1) | bb_after(p, m, 1, 2) | bb_after(p, m, 1, 3)
            | bb_after(p, m, 1, 4),
        bb_after(p, m, 1, 5),
        i,
    );
}

} // verus!
