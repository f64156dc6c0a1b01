use vstd::prelude::*;

use crate::bits::{bb_has, lemma_bit_set, sq_mask, test_bit};
use crate::board::{BitBoard, Position};
use crate::rules::{
    absd, attacked, attacks_sq, col, in_check, line_len, on_board, path_clear, piece_reaches, row,
    sgn, step_sq,
};
use crate::square::{sq_idx, Square};

verus! {

broadcast use vstd::array::group_array_axioms;

/// Whether every square strictly between the aligned squares `f` and `t`
/// is empty in `occ`, by walking the ray one step at a time.
fn path_clear_exec(occ: u64, f: usize, t: usize) -> (r: bool)
    requires
        f < 64,
        t < 64,
        f != t,
        row(f as int) == row(t as int) || col(f as int) == col(t as int) || absd(
            row(f as int),
            row(t as int),
        ) == absd(col(f as int), col(t as int)),
    ensures
        r == path_clear(occ, f as int, t as int),
{
    let fr = f / 8;
    let fc = f % 8;
    let tr = t / 8;
    let tc = t % 8;
    let n: usize = {
        let dr = if fr >= tr {
            fr - tr
        } else {
            tr - fr
        };
        let dc = if fc >= tc {
            fc - tc
        } else {
            tc - fc
        };
        if dr >= dc {
            dr
        } else {
            dc
        }
    };
    let sr: i64 = if tr > fr {
        1
    } else if tr < fr {
        -1
    } else {
        0
    };
    let sc: i64 = if tc > fc {
        1
    } else if tc < fc {
        -1
    } else {
        0
    };
    proof {
        assert(n == line_len(f as int, t as int));
        assert(sr == sgn(row(t as int) - row(f as int)));
        assert(sc == sgn(col(t as int) - col(f as int)));
        assert(sr != 0 ==> n == absd(row(f as int), row(t as int)));
        assert(sc != 0 ==> n == absd(col(f as int), col(t as int)));
    }
    let mut kk: usize = 1;
    let mut cr: i64 = fr as i64 + sr;
    let mut cc: i64 = fc as i64 + sc;
    proof {
        assert(1 * sr == sr && 1 * sc == sc) by (nonlinear_arith);
    }
    while kk < n
        invariant
            f < 64,
            t < 64,
            f != t,
            n == line_len(f as int, t as int),
            sr == sgn(row(t as int) - row(f as int)),
            sc == sgn(col(t as int) - col(f as int)),
            sr != 0 ==> n == absd(row(f as int), row(t as int)),
            sc != 0 ==> n == absd(col(f as int), col(t as int)),
            1 <= kk <= n,
            cr == row(f as int) + kk * sr,
            cc == col(f as int) + kk * sc,
            forall|j: int| 1 <= j < kk ==> !bb_has(occ, #[trigger] step_sq(f as int, t as int, j)),
        decreases n - kk,
    {
        proof {
            if sr == 1 {
                assert(kk * 1 == kk) by (nonlinear_arith);
            } else if sr == -1 {
                assert(kk * (-1) == -(kk as int)) by (nonlinear_arith);
            } else {
                assert(kk * 0 == 0) by (nonlinear_arith);
            }
            if sc == 1 {
                assert(kk * 1 == kk) by (nonlinear_arith);
            } else if sc == -1 {
                assert(kk * (-1) == -(kk as int)) by (nonlinear_arith);
            } else {
                assert(kk * 0 == 0) by (nonlinear_arith);
            }
            assert(0 <= cr < 8);
            assert(0 <= cc < 8);
            assert(cr * 8 + cc == step_sq(f as int, t as int, kk as int));
        }
        let idx: usize = (cr * 8 + cc) as usize;
        if test_bit(occ, idx) {
            proof {
                assert(bb_has(occ, step_sq(f as int, t as int, kk as int)));
            }
            return false;
        }
        kk = kk + 1;
        cr = cr + sr;
        cc = cc + sc;
        proof {
            assert((kk as int) * sr == (kk - 1) * sr + sr) by (nonlinear_arith);
            assert((kk as int) * sc == (kk - 1) * sc + sc) by (nonlinear_arith);
        }
    }
    true
}

/// Whether a piece of kind `k` and side `s` standing on `f` attacks `t`,
/// given total occupancy `occ`.
pub fn reaches(k: usize, s: usize, occ: u64, f: usize, t: usize) -> (r: bool)
    requires
        f < 64,
        t < 64,
    ensures
        r == piece_reaches(k as int, s as int, occ, f as int, t as int),
{
    let fr = f / 8;
    let fc = f % 8;
    let tr = t / 8;
    let tc = t % 8;
    let dr = if fr >= tr {
        fr - tr
    } else {
        tr - fr
    };
    let dc = if fc >= tc {
        fc - tc
    } else {
        tc - fc
    };
    if k == 0 {
        (if s == 0 {
            tr + 1 == fr
        } else {
            tr == fr + 1
        }) && dc == 1
    } else if k == 1 {
        (dr == 1 && dc == 2) || (dr == 2 && dc == 1)
    } else if k == 2 {
        f != t && dr == dc && path_clear_exec(occ, f, t)
    } else if k == 3 {
        f != t && (fr == tr || fc == tc) && path_clear_exec(occ, f, t)
    } else if k == 4 {
        f != t && (fr == tr || fc == tc || dr == dc) && path_clear_exec(occ, f, t)
    } else if k == 5 {
        f != t && dr <= 1 && dc <= 1
    } else {
        false
    }
}

/// On-demand attack masks: what each piece kind attacks from each origin,
/// given the board occupancy. Built from the same movement rules the move
/// generator is specified against.
pub struct AttackTables;

impl AttackTables {
    /// The set of squares a piece of kind `piece` and side `side` on
    /// `from` attacks, given total occupancy `occ`: squares a sliding
    /// piece sees up to and including the first occupied square, friendly
    /// squares included. Pawn pushes are not attacks and are not in the
    /// set.
    pub fn attack_set(piece: usize, side: usize, from: Square, occ: BitBoard) -> (r: BitBoard)
        ensures
            forall|t: int|
                #[trigger] bb_has(r.0, t) == (on_board(t) && piece_reaches(
                    piece as int,
                    side as int,
                    occ.0,
                    sq_idx(from),
                    t,
                )),
    {
        let f = from.to_usize();
        let mut acc: u64 = 0;
        let mut t: usize = 0;
        proof {
            assert(forall|j: int| !bb_has(0u64, j)) by {
                assert forall|j: int| !bb_has(0u64, j) by {
                    crate::bits::lemma_and_zero(0u64, sq_mask(j));
                }
            }
        }
        while t < 64
            invariant
                t <= 64,
                f == sq_idx(from),
                f < 64,
                forall|j: int|
                    #[trigger] bb_has(acc, j) == (0 <= j < t && piece_reaches(
                        piece as int,
                        side as int,
                        occ.0,
                        f as int,
                        j,
                    )),
            decreases 64 - t,
        {
            let hit = reaches(piece, side, occ.0, f, t);
            let ghost old_acc = acc;
            if hit {
                let sh: u64 = (63 - t) as u64;
                acc = acc | (1u64 << sh);
                proof {
                    assert(1u64 << sh == sq_mask(t as int));
                    assert forall|j: int| #[trigger] bb_has(acc, j) == (0 <= j < t + 1
                        && piece_reaches(
                        piece as int,
                        side as int,
                        occ.0,
                        f as int,
                        j,
                    )) by {
                        lemma_bit_set(old_acc, t as int, j);
                    }
                }
            }
            t = t + 1;
        }
        BitBoard(acc)
    }

    /// Whether side `s` attacks square `t` of `p`.
    pub fn is_attacked(p: &Position, s: usize, t: usize) -> (r: bool)
        requires
            s < 2,
            t < 64,
        ensures
            r == attacked(*p, s as int, t as int),
    {
        let occ = p.find_occupied().0;
        let mut fsq: usize = 0;
        while fsq < 64
            invariant
                s < 2,
                t < 64,
                occ == p.occ(),
                fsq <= 64,
                forall|f: int| 0 <= f < fsq ==> !attacks_sq(*p, s as int, f, t as int),
            decreases 64 - fsq,
        {
            let mut k: usize = 0;
            while k < 6
                invariant
                    s < 2,
                    t < 64,
                    fsq < 64,
                    occ == p.occ(),
                    k <= 6,
                    forall|kk: int|
                        0 <= kk < k ==> !(bb_has(p.board(s as int, kk), fsq as int)
                            && piece_reaches(kk, s as int, p.occ(), fsq as int, t as int)),
                decreases 6 - k,
            {
                if p.bb_pieces[s][k].test_idx(fsq) && reaches(k, s, occ, fsq, t) {
                    proof {
                        assert(attacks_sq(*p, s as int, fsq as int, t as int));
                    }
                    return true;
                }
                k = k + 1;
            }
            proof {
                assert(!attacks_sq(*p, s as int, fsq as int, t as int));
            }
            fsq = fsq + 1;
        }
        proof {
            assert forall|f: int| !attacks_sq(*p, s as int, f, t as int) by {
                if on_board(f) {
                    assert(!attacks_sq(*p, s as int, f, t as int));
                }
            }
        }
        false
    }

    /// Whether the king of side `s` stands on an attacked square in `p`.
    pub fn king_in_check(p: &Position, s: usize) -> (r: bool)
        requires
            s < 2,
        ensures
            r == in_check(*p, s as int),
    {
        let kings = p.bb_pieces[s][5];
        let mut ksq: usize = 0;
        while ksq < 64
            invariant
                s < 2,
                kings == p.bb_pieces@[s as int]@[5],
                ksq <= 64,
                forall|k: int|
                    0 <= k < ksq ==> !(bb_has(p.board(s as int, 5), k) && attacked(
                        *p,
                        1 - s as int,
                        k,
                    )),
            decreases 64 - ksq,
        {
            if kings.test_idx(ksq) {
                let other: usize = 1 - s;
                if AttackTables::is_attacked(p, other, ksq) {
                    proof {
                        assert(on_board(ksq as int) && bb_has(p.board(s as int, 5), ksq as int)
                            && attacked(*p, 1 - s as int, ksq as int));
                    }
                    return true;
                }
            }
            ksq = ksq + 1;
        }
        false
    }
}

} // verus!
