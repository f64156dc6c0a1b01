use vstd::prelude::*;

use crate::apply::MoveApplier;
use crate::attacks::{reaches, AttackTables};
use crate::bits::{bb_has, lemma_bit_set, lemma_disjoint_bit, sq_mask};
use crate::board::{BitBoard, Position, State};
use crate::rules::{
    absd, attacked, attacked_after, attacks_sq_after, bb_after, castle_pseudo, col, is_legal,
    is_pseudo, lemma_occ_after_bit, lemma_result_attacks, occ_after, on_check_after_side,
    opt_int, promo_row, row,
};
use crate::square::{idx_sq, lemma_idx_sq, sq_idx, Square};

verus! {

/// What kind of move a `Move` describes, beyond its origin and
/// destination: the three special kinds change the board in ways the two
/// squares alone do not determine.
#[derive(Debug, PartialEq, Eq, Clone, Copy, Hash, Structural)]
pub enum MoveKind {
    Normal,
    DoublePush,
    EnPassant,
    Castle,
}

/// One ply: the moving piece kind (an index as in `Pieces`), origin and
/// destination squares, the captured and promotion piece kinds if any, and
/// the move kind flag.
#[derive(Debug, PartialEq, Eq, Clone, Copy, Hash)]
pub struct Move {
    pub piece: usize,
    pub from: Square,
    pub to: Square,
    pub promotion: Option<usize>,
    pub capture: Option<usize>,
    pub kind: MoveKind,
}

impl Move {
    /// A plain move of `piece` from `from` to `to`: no capture, no
    /// promotion, no special kind.
    pub fn new(piece: usize, from: Square, to: Square) -> (r: Move)
        ensures
            r == (Move {
                piece,
                from,
                to,
                promotion: None,
                capture: None,
                kind: MoveKind::Normal,
            }),
    {
        Move { piece, from, to, promotion: None, capture: None, kind: MoveKind::Normal }
    }
}

/// The square with index `i`.
fn sq_of(i: usize) -> (r: Square)
    requires
        i < 64,
    ensures
        sq_idx(r) == i,
{
    match Square::from_usize(i) {
        Some(sq) => sq,
        None => {
            proof {
                assert(false);
            }
            Square::A8
        },
    }
}

/// The piece kind of side `s` on square `t`, if any.
pub fn piece_on(p: &Position, s: usize, t: usize) -> (r: Option<usize>)
    requires
        s < 2,
        t < 64,
    ensures
        opt_int(r) == p.piece_at(s as int, t as int),
{
    if p.bb_pieces[s][0].test_idx(t) {
        Some(0)
    } else if p.bb_pieces[s][1].test_idx(t) {
        Some(1)
    } else if p.bb_pieces[s][2].test_idx(t) {
        Some(2)
    } else if p.bb_pieces[s][3].test_idx(t) {
        Some(3)
    } else if p.bb_pieces[s][4].test_idx(t) {
        Some(4)
    } else if p.bb_pieces[s][5].test_idx(t) {
        Some(5)
    } else {
        None
    }
}

/// Produces the legal moves of the side to move, by generating
/// pseudo-legal candidates and filtering the ones that leave the king
/// attacked.
pub struct MoveGenerator {}

impl MoveGenerator {
    /// Whether `m` is pseudo-legal in `p`: it obeys piece movement,
    /// occupancy, capture, promotion and castling rules, before the
    /// own-king safety filter.
    pub fn is_pseudo_move(p: &Position, m: Move) -> (r: bool)
        requires
            p.wf(),
        ensures
            r == is_pseudo(*p, m),
    {
        let s = p.state.side_to_move;
        let f = m.from.to_usize();
        let t = m.to.to_usize();
        if m.piece >= 6 {
            return false;
        }
        if !p.bb_pieces[s][m.piece].test_idx(f) {
            return false;
        }
        if f == t {
            return false;
        }
        if p.find_occupied_by(s).test_idx(t) {
            return false;
        }
        let promo_needed = m.piece == 0 && t / 8 == (if s == 0 {
            0
        } else {
            7
        });
        match m.promotion {
            Some(pr) => {
                if !promo_needed || pr < 1 || pr > 4 {
                    return false;
                }
            },
            None => {
                if promo_needed {
                    return false;
                }
            },
        }
        let cap_ok = match m.kind {
            MoveKind::EnPassant => {
                match m.capture {
                    Some(c) => c == 0,
                    None => false,
                }
            },
            _ => {
                let pa = piece_on(p, 1 - s, t);
                match (m.capture, pa) {
                    (None, None) => true,
                    (Some(a), Some(b)) => a == b,
                    _ => false,
                }
            },
        };
        if !cap_ok {
            return false;
        }
        let occ = p.find_occupied().0;
        match m.kind {
            MoveKind::Normal => {
                if m.piece == 0 {
                    if f % 8 == t % 8 {
                        (if s == 0 {
                            f == t + 8
                        } else {
                            t == f + 8
                        }) && !p.find_occupied().test_idx(t)
                    } else {
                        reaches(0, s, occ, f, t) && p.find_occupied_by(1 - s).test_idx(t)
                    }
                } else {
                    reaches(m.piece, s, occ, f, t)
                }
            },
            MoveKind::DoublePush => {
                m.piece == 0 && f % 8 == t % 8 && f / 8 == (if s == 0 {
                    6
                } else {
                    1
                }) && (if s == 0 {
                    f == t + 16
                } else {
                    t == f + 16
                }) && !p.find_occupied().test_idx(
                    if s == 0 {
                        f - 8
                    } else {
                        f + 8
                    },
                ) && !p.find_occupied().test_idx(t)
            },
            MoveKind::EnPassant => {
                let ep_match = match p.state.en_passant_square {
                    Some(sq) => sq.to_usize() == t,
                    None => false,
                };
                if m.piece == 0 && ep_match && reaches(0, s, occ, f, t) {
                    proof {
                        if s == 0 {
                            assert(t as int / 8 == 2);
                        } else {
                            assert(t as int / 8 == 5);
                        }
                    }
                    let victim: usize = if s == 0 {
                        t + 8
                    } else {
                        t - 8
                    };
                    p.bb_pieces[1 - s][0].test_idx(victim) && !p.find_occupied().test_idx(t)
                } else {
                    false
                }
            },
            MoveKind::Castle => {
                if m.piece != 5 {
                    return false;
                }
                let occ_bb = p.find_occupied();
                if s == 0 {
                    f == 60 && ((t == 62 && p.state.castling_rights.0 & 0b0001 != 0
                        && !occ_bb.test_idx(61) && !occ_bb.test_idx(62) && !AttackTables::is_attacked(
                        p,
                        1,
                        60,
                    ) && !AttackTables::is_attacked(p, 1, 61) && !AttackTables::is_attacked(p, 1, 62))
                        || (t == 58 && p.state.castling_rights.0 & 0b0010 != 0 && !occ_bb.test_idx(59)
                        && !occ_bb.test_idx(58) && !occ_bb.test_idx(57)
                        && !AttackTables::is_attacked(p, 1, 60) && !AttackTables::is_attacked(p, 1, 59)
                        && !AttackTables::is_attacked(p, 1, 58)))
                } else {
                    f == 4 && ((t == 6 && p.state.castling_rights.0 & 0b0100 != 0 && !occ_bb.test_idx(
                        5,
                    ) && !occ_bb.test_idx(6) && !AttackTables::is_attacked(p, 0, 4)
                        && !AttackTables::is_attacked(p, 0, 5) && !AttackTables::is_attacked(p, 0, 6))
                        || (t == 2 && p.state.castling_rights.0 & 0b1000 != 0 && !occ_bb.test_idx(3)
                        && !occ_bb.test_idx(2) && !occ_bb.test_idx(1) && !AttackTables::is_attacked(
                        p,
                        0,
                        4,
                    ) && !AttackTables::is_attacked(p, 0, 3) && !AttackTables::is_attacked(p, 0, 2)))
                }
            },
        }
    }

    /// Whether `m` is legal in `p`: pseudo-legal, and applying it does not
    /// leave the moving side's king attacked. Decided by simulation:
    /// apply, test the king, discard.
    pub fn is_legal_move(p: &Position, m: Move) -> (r: bool)
        requires
            p.wf(),
        ensures
            r == is_legal(*p, m),
    {
        if !MoveGenerator::is_pseudo_move(p, m) {
            return false;
        }
        let mover = p.state.side_to_move;
        let q = MoveApplier::apply_pseudo(p, m);
        let chk = AttackTables::king_in_check(&q, mover);
        proof {
            lemma_result_attacks(q, *p, m);
        }
        !chk
    }
}

/// The kind of the canonical candidate from `f` to `t` in `p`: en passant
/// for a sideways pawn move into the en-passant target, a double push for
/// a two-rank pawn move, a castle for a two-file king move, and a normal
/// move otherwise.
pub open spec fn kind_for(p: Position, f: int, t: int) -> MoveKind {
    let s = p.stm();
    if p.piece_at(s, f) == Some(0int) && col(f) != col(t) && p.ep_idx() == Some(t) {
        MoveKind::EnPassant
    } else if p.piece_at(s, f) == Some(0int) && absd(row(f), row(t)) == 2 {
        MoveKind::DoublePush
    } else if p.piece_at(s, f) == Some(5int) && absd(col(f), col(t)) == 2 {
        MoveKind::Castle
    } else {
        MoveKind::Normal
    }
}

/// The captured piece the canonical candidate from `f` to `t` records.
pub open spec fn cap_for(p: Position, f: int, t: int) -> Option<usize> {
    if kind_for(p, f, t) == MoveKind::EnPassant {
        Some(0usize)
    } else {
        match p.piece_at(1 - p.stm(), t) {
            Some(c) => Some(c as usize),
            None => None,
        }
    }
}

/// The canonical candidate move from `f` to `t` with promotion `pr`: its
/// piece, capture and kind fields are read off the position, so any legal
/// move equals the candidate of its own squares and promotion.
pub open spec fn cand_move(p: Position, f: int, t: int, pr: Option<usize>) -> Move {
    Move {
        piece: match p.piece_at(p.stm(), f) {
            Some(k) => k as usize,
            None => 0,
        },
        from: idx_sq(f),
        to: idx_sq(t),
        promotion: pr,
        capture: cap_for(p, f, t),
        kind: kind_for(p, f, t),
    }
}

/// The candidate from `f` to `t` promoting to `pr`, if it is legal.
pub open spec fn promo_filtered(p: Position, f: int, t: int, pr: usize) -> Seq<Move> {
    if is_legal(p, cand_move(p, f, t, Some(pr))) {
        seq![cand_move(p, f, t, Some(pr))]
    } else {
        Seq::empty()
    }
}

/// The legal moves from `f` to `t`: four candidates for a promoting pawn
/// move (knight, bishop, rook, queen, in that order), and otherwise the
/// single candidate, kept only if legal.
pub open spec fn moves_at(p: Position, f: int, t: int) -> Seq<Move> {
    let s = p.stm();
    if p.piece_at(s, f) == Some(0int) && row(t) == promo_row(s) && kind_for(p, f, t)
        == MoveKind::Normal {
        promo_filtered(p, f, t, 1) + promo_filtered(p, f, t, 2) + promo_filtered(p, f, t, 3)
            + promo_filtered(p, f, t, 4)
    } else {
        if is_legal(p, cand_move(p, f, t, None)) {
            seq![cand_move(p, f, t, None)]
        } else {
            Seq::empty()
        }
    }
}

/// The legal moves of the first `n` origin-destination pairs, pairs
/// ordered by origin then destination.
pub open spec fn gen_upto(p: Position, n: int) -> Seq<Move>
    decreases n,
{
    if n <= 0 {
        Seq::empty()
    } else {
        gen_upto(p, n - 1) + moves_at(p, (n - 1) / 64, (n - 1) % 64)
    }
}

/// The full legal move list of `p`, in canonical order: by origin square,
/// then destination square, then promotion piece.
pub open spec fn legal_moves(p: Position) -> Seq<Move> {
    gen_upto(p, 4096)
}

impl MoveGenerator {
    /// The legal moves of the side to move, in the canonical order of
    /// `legal_moves`: the result is a function of the position alone, so
    /// two calls on equal positions return identical sequences.
    #[verifier::rlimit(100)]
    pub fn generate_legal_moves(p: &Position) -> (r: Vec<Move>)
        requires
            p.wf(),
        ensures
            r@ == legal_moves(*p),
            forall|i: int| 0 <= i < r@.len() ==> is_legal(*p, #[trigger] r@[i]),
    {
        let s = p.state.side_to_move;
        let mut res: Vec<Move> = Vec::new();
        let mut f: usize = 0;
        while f < 64
            invariant
                p.wf(),
                s == p.state.side_to_move,
                f <= 64,
                res@ == gen_upto(*p, 64 * f),
            decreases 64 - f,
        {
            let mut t: usize = 0;
            while t < 64
                invariant
                    p.wf(),
                    s == p.state.side_to_move,
                    f < 64,
                    t <= 64,
                    res@ == gen_upto(*p, 64 * f + t),
                decreases 64 - t,
            {
                let ghost n: int = 64 * (f as int) + t as int;
                proof {
                    assert(n / 64 == f && n % 64 == t) by (nonlinear_arith)
                        requires
                            n == 64 * (f as int) + t as int,
                            0 <= f < 64,
                            0 <= t < 64,
                    ;
                    assert(gen_upto(*p, n + 1) == gen_upto(*p, n) + moves_at(
                        *p,
                        f as int,
                        t as int,
                    ));
                }
                let sqf = sq_of(f);
                let sqt = sq_of(t);
                proof {
                    lemma_idx_sq(sqf);
                    lemma_idx_sq(sqt);
                }
                match piece_on(p, s, f) {
                    None => {
                        proof {
                            assert(moves_at(*p, f as int, t as int) =~= Seq::<Move>::empty());
                            assert(res@ =~= gen_upto(*p, n + 1));
                        }
                    },
                    Some(pc) => {
                        let fr = f / 8;
                        let tr = t / 8;
                        let fc = f % 8;
                        let tc = t % 8;
                        let dr = if fr >= tr {
                            fr - tr
                        } else {
                            tr - fr
                        };
                        let dc = if fc >= tc {
                            fc - tc
                        } else {
                            tc - fc
                        };
                        let ep_match = match p.state.en_passant_square {
                            Some(sq) => sq.to_usize() == t,
                            None => false,
                        };
                        let kind = if pc == 0 && fc != tc && ep_match {
                            MoveKind::EnPassant
                        } else if pc == 0 && dr == 2 {
                            MoveKind::DoublePush
                        } else if pc == 5 && dc == 2 {
                            MoveKind::Castle
                        } else {
                            MoveKind::Normal
                        };
                        proof {
                            assert(kind == kind_for(*p, f as int, t as int));
                        }
                        let cap = if matches!(kind, MoveKind::EnPassant) {
                            Some(0)
                        } else {
                            piece_on(p, 1 - s, t)
                        };
                        proof {
                            assert(cap == cap_for(*p, f as int, t as int));
                        }
                        if pc == 0 && tr == (if s == 0 {
                            0
                        } else {
                            7
                        }) && matches!(kind, MoveKind::Normal) {
                            let ghost res0 = res@;
                            let m1 = Move {
                                piece: pc,
                                from: sqf,
                                to: sqt,
                                promotion: Some(1),
                                capture: cap,
                                kind,
                            };
                            proof {
                                assert(m1 == cand_move(*p, f as int, t as int, Some(1usize)));
                            }
                            if MoveGenerator::is_legal_move(p, m1) {
                                res.push(m1);
                            }
                            proof {
                                assert(res@ =~= res0 + promo_filtered(*p, f as int, t as int, 1));
                            }
                            let ghost res1 = res@;
                            let m2 = Move { promotion: Some(2), ..m1 };
                            proof {
                                assert(m2 == cand_move(*p, f as int, t as int, Some(2usize)));
                            }
                            if MoveGenerator::is_legal_move(p, m2) {
                                res.push(m2);
                            }
                            proof {
                                assert(res@ =~= res1 + promo_filtered(*p, f as int, t as int, 2));
                            }
                            let ghost res2 = res@;
                            let m3 = Move { promotion: Some(3), ..m1 };
                            proof {
                                assert(m3 == cand_move(*p, f as int, t as int, Some(3usize)));
                            }
                            if MoveGenerator::is_legal_move(p, m3) {
                                res.push(m3);
                            }
                            proof {
                                assert(res@ =~= res2 + promo_filtered(*p, f as int, t as int, 3));
                            }
                            let m4 = Move { promotion: Some(4), ..m1 };
                            proof {
                                assert(m4 == cand_move(*p, f as int, t as int, Some(4usize)));
                            }
                            if MoveGenerator::is_legal_move(p, m4) {
                                res.push(m4);
                            }
                            proof {
                                assert(res@ =~= gen_upto(*p, n + 1));
                            }
                        } else {
                            let mm = Move {
                                piece: pc,
                                from: sqf,
                                to: sqt,
                                promotion: None,
                                capture: cap,
                                kind,
                            };
                            proof {
                                assert(mm == cand_move(*p, f as int, t as int, None));
                            }
                            if MoveGenerator::is_legal_move(p, mm) {
                                res.push(mm);
                            }
                            proof {
                                assert(res@ =~= gen_upto(*p, n + 1));
                            }
                        }
                    },
                }
                t = t + 1;
            }
            f = f + 1;
        }
        proof {
            assert(res@ == gen_upto(*p, 4096));
            assert forall|i: int| 0 <= i < res@.len() implies is_legal(*p, #[trigger] res@[i]) by {
                assert(legal_moves(*p).contains(res@[i]));
                lemma_gen_upto_sound(*p, 4096, res@[i]);
            }
        }
        res
    }
}

/// A concatenation holds an element exactly when one part does.
proof fn lemma_add_contains<A>(a: Seq<A>, b: Seq<A>, x: A)
    ensures
        (a + b).contains(x) == (a.contains(x) || b.contains(x)),
{
    if a.contains(x) {
        let i = choose|i: int| 0 <= i < a.len() && a[i] == x;
        assert((a + b)[i] == x);
    }
    if b.contains(x) {
        let i = choose|i: int| 0 <= i < b.len() && b[i] == x;
        assert((a + b)[a.len() + i] == x);
    }
    if (a + b).contains(x) {
        let i = choose|i: int| 0 <= i < (a + b).len() && (a + b)[i] == x;
        if i < a.len() {
            assert(a[i] == x);
        } else {
            assert(b[i - a.len()] == x);
        }
    }
}

/// Everything `moves_at` yields is legal.
proof fn lemma_moves_at_sound(p: Position, f: int, t: int, m: Move)
    requires
        moves_at(p, f, t).contains(m),
    ensures
        is_legal(p, m),
{
    let s = p.stm();
    if p.piece_at(s, f) == Some(0int) && row(t) == promo_row(s) && kind_for(p, f, t)
        == MoveKind::Normal {
        let p1 = promo_filtered(p, f, t, 1);
        let p2 = promo_filtered(p, f, t, 2);
        let p3 = promo_filtered(p, f, t, 3);
        let p4 = promo_filtered(p, f, t, 4);
        lemma_add_contains(p1 + p2 + p3, p4, m);
        lemma_add_contains(p1 + p2, p3, m);
        lemma_add_contains(p1, p2, m);
    }
}

/// Everything the first `n` origin-destination pairs yield is legal.
proof fn lemma_gen_upto_sound(p: Position, n: int, m: Move)
    requires
        gen_upto(p, n).contains(m),
    ensures
        is_legal(p, m),
    decreases n,
{
    if n <= 0 {
        assert(false);
    } else {
        lemma_add_contains(gen_upto(p, n - 1), moves_at(p, (n - 1) / 64, (n - 1) % 64), m);
        if gen_upto(p, n - 1).contains(m) {
            lemma_gen_upto_sound(p, n - 1, m);
        } else {
            lemma_moves_at_sound(p, (n - 1) / 64, (n - 1) % 64, m);
        }
    }
}

/// A legal move is exactly the canonical candidate of its own origin,
/// destination and promotion, and `moves_at` yields it there.
proof fn lemma_legal_is_canonical(p: Position, m: Move)
    requires
        p.wf(),
        is_legal(p, m),
    ensures
        m == cand_move(p, sq_idx(m.from), sq_idx(m.to), m.promotion),
        moves_at(p, sq_idx(m.from), sq_idx(m.to)).contains(m),
{
    let s = p.stm();
    let f = sq_idx(m.from);
    let t = sq_idx(m.to);
    let pc = m.piece as int;
    // The board at the origin determines the piece field.
    assert forall|k: int| 0 <= k < 6 && k != pc implies !bb_has(#[trigger] p.board(s, k), f) by {
        let n1 = s * 6 + pc;
        let n2 = s * 6 + k;
        assert(p.board(n1 / 6, n1 % 6) & p.board(n2 / 6, n2 % 6) == 0);
        lemma_disjoint_bit(p.board(s, pc), p.board(s, k), f);
    }
    assert(p.piece_at(s, f) == Some(pc));
    lemma_idx_sq(m.from);
    lemma_idx_sq(m.to);
    // The geometry determines the kind field.
    match m.kind {
        MoveKind::EnPassant => {
            assert(kind_for(p, f, t) == MoveKind::EnPassant);
        },
        MoveKind::DoublePush => {
            assert(col(f) == col(t));
            assert(kind_for(p, f, t) == MoveKind::DoublePush);
        },
        MoveKind::Castle => {
            assert(pc == 5);
            assert(kind_for(p, f, t) == MoveKind::Castle);
        },
        MoveKind::Normal => {
            if pc == 0 {
                if col(f) != col(t) {
                    // A normal diagonal pawn capture never goes to the
                    // (empty) en-passant target.
                    if p.ep_idx() == Some(t) {
                        assert(bb_has(p.occ_side(1 - s), t));
                        crate::rules::lemma_occ_bit(p, t);
                        assert(bb_has(p.occ(), t));
                        assert(false);
                    }
                }
                assert(absd(row(f), row(t)) == 1);
            }
            assert(kind_for(p, f, t) == MoveKind::Normal);
        },
    }
    assert(m.capture == cap_for(p, f, t));
    assert(m == cand_move(p, f, t, m.promotion));
    // Membership in `moves_at`.
    match m.promotion {
        Some(pr) => {
            assert(pc == 0 && row(t) == promo_row(s));
            assert(m.kind == MoveKind::Normal) by {
                if m.kind == MoveKind::EnPassant {
                    assert(p.ep_idx() == Some(t));
                    assert(false);
                }
                if m.kind == MoveKind::DoublePush {
                    assert(false);
                }
            }
            let p1 = promo_filtered(p, f, t, 1);
            let p2 = promo_filtered(p, f, t, 2);
            let p3 = promo_filtered(p, f, t, 3);
            let p4 = promo_filtered(p, f, t, 4);
            assert(promo_filtered(p, f, t, pr as usize) == seq![m]);
            assert(promo_filtered(p, f, t, pr as usize)[0] == m);
            assert(promo_filtered(p, f, t, pr as usize).contains(m));
            lemma_add_contains(p1, p2, m);
            lemma_add_contains(p1 + p2, p3, m);
            lemma_add_contains(p1 + p2 + p3, p4, m);
        },
        None => {
            assert(!(p.piece_at(s, f) == Some(0int) && row(t) == promo_row(s)));
            assert(moves_at(p, f, t) == seq![m]);
            assert(moves_at(p, f, t)[0] == m);
            assert(moves_at(p, f, t).contains(m));
        },
    }
}

/// A legal move appears among the moves of the first `n` pairs as soon as
/// `n` passes its own origin-destination pair.
proof fn lemma_gen_upto_complete(p: Position, m: Move, n: int)
    requires
        p.wf(),
        is_legal(p, m),
        n > sq_idx(m.from) * 64 + sq_idx(m.to),
        n <= 4096,
    ensures
        gen_upto(p, n).contains(m),
    decreases n,
{
    let f = sq_idx(m.from);
    let t = sq_idx(m.to);
    let n0 = f * 64 + t;
    assert(0 <= n0 < 4096) by (nonlinear_arith)
        requires
            0 <= f < 64,
            0 <= t < 64,
            n0 == f * 64 + t,
    ;
    lemma_add_contains(gen_upto(p, n - 1), moves_at(p, (n - 1) / 64, (n - 1) % 64), m);
    if n == n0 + 1 {
        assert(n0 / 64 == f && n0 % 64 == t) by (nonlinear_arith)
            requires
                0 <= f < 64,
                0 <= t < 64,
                n0 == f * 64 + t,
        ;
        lemma_legal_is_canonical(p, m);
    } else {
        lemma_gen_upto_complete(p, m, n - 1);
    }
}

/// The generator's characterization: a move is in the generated list
/// exactly when it is legal. Together with the generator's contract this
/// says `generate_legal_moves` returns every legal move and nothing else.
pub proof fn lemma_generated_iff_legal(p: Position, m: Move)
    requires
        p.wf(),
    ensures
        legal_moves(p).contains(m) <==> is_legal(p, m),
{
    if legal_moves(p).contains(m) {
        lemma_gen_upto_sound(p, 4096, m);
    }
    if is_legal(p, m) {
        assert(sq_idx(m.from) * 64 + sq_idx(m.to) < 4096) by (nonlinear_arith)
            requires
                0 <= sq_idx(m.from) < 64,
                0 <= sq_idx(m.to) < 64,
        ;
        lemma_gen_upto_complete(p, m, 4096);
    }
}

/// Generation is deterministic: the legal move list is a function of the
/// position alone, so any two sequences meeting the generator's contract
/// on one position are identical.
pub proof fn lemma_generation_deterministic(p: Position, r1: Seq<Move>, r2: Seq<Move>)
    requires
        r1 == legal_moves(p),
        r2 == legal_moves(p),
    ensures
        r1 == r2,
{
}

/// The position as seen when it is `sd`'s turn: the position itself when
/// `sd` is the side to move, and otherwise the same boards with the turn
/// handed over and the en-passant window closed (the right to capture en
/// passant does not survive a missed turn).
pub open spec fn side_view(p: Position, sd: int) -> Position {
    if sd == p.stm() {
        p
    } else {
        Position {
            state: State {
                side_to_move: sd as usize,
                en_passant_square: None,
                ..p.state
            },
            ..p
        }
    }
}

impl MoveGenerator {
    /// All squares some legal move of the side to move can reach: the
    /// destinations of `legal_moves`, as a board set.
    pub fn generate_available_moves(position: &Position) -> (r: BitBoard)
        requires
            position.wf(),
        ensures
            forall|j: int|
                #[trigger] bb_has(r.0, j) <==> exists|mm: Move|
                    is_legal(*position, mm) && sq_idx(mm.to) == j,
    {
        let s = position.state.side_to_move;
        proof {
            assert(side_view(*position, s as int) == *position);
        }
        MoveGenerator::generate_available_moves_for_side(position, s)
    }

    /// All squares side `side` could reach if it were its turn, with the
    /// en-passant window closed when the turn is handed over.
    pub fn generate_available_moves_for_side(position: &Position, side: usize) -> (r: BitBoard)
        requires
            position.wf(),
            side < 2,
        ensures
            forall|j: int|
                #[trigger] bb_has(r.0, j) <==> exists|mm: Move|
                    is_legal(side_view(*position, side as int), mm) && sq_idx(mm.to) == j,
    {
        let p2: Position = if side == position.state.side_to_move {
            proof {
                assert(side_view(*position, side as int) == *position);
            }
            Position { state: position.state, bb_pieces: position.bb_pieces }
        } else {
            let q = Position {
                state: State {
                    side_to_move: side,
                    en_passant_square: None,
                    castling_rights: position.state.castling_rights,
                    half_move_counter: position.state.half_move_counter,
                    full_move_counter: position.state.full_move_counter,
                },
                bb_pieces: position.bb_pieces,
            };
            proof {
                assert(q == side_view(*position, side as int));
                assert forall|s2: int, k2: int| 0 <= s2 < 2 && 0 <= k2 < 6 implies #[trigger] q.board(
                    s2,
                    k2,
                ) == position.board(s2, k2) by {
                }
                assert(q.wf());
            }
            q
        };
        let moves = MoveGenerator::generate_legal_moves(&p2);
        let mut acc: u64 = 0;
        let mut i: usize = 0;
        proof {
            assert forall|j: int| !bb_has(0u64, j) by {
                crate::bits::lemma_and_zero(0u64, sq_mask(j));
            }
        }
        while i < moves.len()
            invariant
                p2.wf(),
                p2 == side_view(*position, side as int),
                moves@ == legal_moves(p2),
                i <= moves.len(),
                forall|j: int|
                    #[trigger] bb_has(acc, j) <==> exists|ii: int|
                        0 <= ii < i && sq_idx(moves@[ii].to) == j,
            decreases moves.len() - i,
        {
            let m = moves[i];
            let t = m.to.to_usize();
            let ghost old_acc = acc;
            acc = acc | (1u64 << ((63 - t) as u64));
            proof {
                assert(1u64 << ((63 - t) as u64) == sq_mask(t as int));
                assert forall|j: int| #[trigger] bb_has(acc, j) <==> exists|ii: int|
                    0 <= ii < i + 1 && sq_idx(moves@[ii].to) == j by {
                    lemma_bit_set(old_acc, t as int, j);
                    if bb_has(acc, j) {
                        if bb_has(old_acc, j) {
                            let ii = choose|ii: int| 0 <= ii < i && sq_idx(moves@[ii].to) == j;
                            assert(0 <= ii < i + 1 && sq_idx(moves@[ii].to) == j);
                        } else {
                            assert(sq_idx(moves@[i as int].to) == j);
                        }
                    }
                    if exists|ii: int| 0 <= ii < i + 1 && sq_idx(moves@[ii].to) == j {
                        let ii = choose|ii: int| 0 <= ii < i + 1 && sq_idx(moves@[ii].to) == j;
                        if ii < i {
                            assert(bb_has(old_acc, j));
                        }
                    }
                }
            }
            i = i + 1;
        }
        proof {
            assert forall|j: int| #[trigger] bb_has(acc, j) <==> exists|mm: Move|
                is_legal(side_view(*position, side as int), mm) && sq_idx(mm.to) == j by {
                if bb_has(acc, j) {
                    let ii = choose|ii: int|
                        0 <= ii < moves@.len() && sq_idx(moves@[ii].to) == j;
                    let mm = moves@[ii];
                    assert(legal_moves(p2).contains(mm));
                    lemma_gen_upto_sound(p2, 4096, mm);
                    assert(is_legal(p2, mm) && sq_idx(mm.to) == j);
                }
                if exists|mm: Move| is_legal(p2, mm) && sq_idx(mm.to) == j {
                    let mm = choose|mm: Move| is_legal(p2, mm) && sq_idx(mm.to) == j;
                    lemma_generated_iff_legal(p2, mm);
                    assert(legal_moves(p2).contains(mm));
                    let ii = choose|ii: int|
                        0 <= ii < legal_moves(p2).len() && legal_moves(p2)[ii] == mm;
                    assert(sq_idx(moves@[ii].to) == j);
                    assert(bb_has(acc, j));
                }
            }
        }
        BitBoard(acc)
    }
}

/// The legality of a promotion does not depend on the piece promoted to:
/// every pawn move to the last rank comes as a full quadruple of legal
/// promotion choices, or not at all.
pub proof fn lemma_promotion_choices(p: Position, m: Move, pr2: usize)
    requires
        p.wf(),
        is_legal(p, m),
        m.promotion is Some,
        1 <= pr2 <= 4,
    ensures
        is_legal(p, Move { promotion: Some(pr2), ..m }),
{
    let m2 = Move { promotion: Some(pr2), ..m };
    let mv = p.stm();
    let op = 1 - mv;
    let t = sq_idx(m.to);
    assert(is_pseudo(p, m2));
    // The occupancy after the move does not depend on the promotion piece.
    assert forall|i: int| 0 <= i < 64 implies bb_has(occ_after(p, m), i) == bb_has(
        occ_after(p, m2),
        i,
    ) by {
        lemma_occ_after_bit(p, m, i);
        lemma_occ_after_bit(p, m2, i);
        assert forall|s: int, k: int| 0 <= s < 2 && 0 <= k < 6 implies #[trigger] bb_has(
            bb_after(p, m, s, k),
            i,
        ) == crate::rules::after_bit(p, m, s, k, i) by {
            crate::rules::lemma_bb_after_bit(p, m, s, k, i);
        }
        assert forall|s: int, k: int| 0 <= s < 2 && 0 <= k < 6 implies #[trigger] bb_has(
            bb_after(p, m2, s, k),
            i,
        ) == crate::rules::after_bit(p, m2, s, k, i) by {
            crate::rules::lemma_bb_after_bit(p, m2, s, k, i);
        }
    }
    crate::bits::lemma_bits_eq(occ_after(p, m), occ_after(p, m2));
    // The opponent's boards after the move are the same either way.
    assert forall|k: int| 0 <= k < 6 implies #[trigger] bb_after(p, m, op, k) == bb_after(
        p,
        m2,
        op,
        k,
    ) by {
    }
    // So are the mover's king boards.
    assert(bb_after(p, m, mv, 5) == bb_after(p, m2, mv, 5));
    // Hence the own-king safety test agrees.
    assert forall|j: int| attacked_after(p, m, op, j) == attacked_after(p, m2, op, j) by {
        if attacked_after(p, m, op, j) {
            let fw = choose|fw: int| attacks_sq_after(p, m, op, fw, j);
            assert(attacks_sq_after(p, m2, op, fw, j));
        }
        if attacked_after(p, m2, op, j) {
            let fw = choose|fw: int| attacks_sq_after(p, m2, op, fw, j);
            assert(attacks_sq_after(p, m, op, fw, j));
        }
    }
    assert(!on_check_after_side(p, m2, mv)) by {
        if on_check_after_side(p, m2, mv) {
            let kq = choose|kq: int|
                crate::rules::on_board(kq) && bb_has(bb_after(p, m2, mv, 5), kq) && attacked_after(
                    p,
                    m2,
                    op,
                    kq,
                );
            assert(bb_has(bb_after(p, m, mv, 5), kq) && attacked_after(p, m, op, kq));
            assert(on_check_after_side(p, m, mv));
        }
    }
}

/// The castling gate: a legal castle certifies its right flag, the
/// emptiness of every square between king and rook, and that the king
/// neither starts on, crosses, nor lands on an attacked square.
pub proof fn lemma_castle_gating(p: Position, m: Move)
    requires
        p.wf(),
        is_legal(p, m),
        m.kind == MoveKind::Castle,
    ensures
        m.piece == 5,
        p.stm() == 0 ==> sq_idx(m.from) == 60 && (sq_idx(m.to) == 62 || sq_idx(m.to) == 58),
        p.stm() == 1 ==> sq_idx(m.from) == 4 && (sq_idx(m.to) == 6 || sq_idx(m.to) == 2),
        p.stm() == 0 && sq_idx(m.to) == 62 ==> p.cr() & crate::board::Castling::WHITE_OO != 0
            && !bb_has(p.occ(), 61) && !bb_has(p.occ(), 62) && !attacked(p, 1, 60) && !attacked(
            p,
            1,
            61,
        ) && !attacked(p, 1, 62),
        p.stm() == 0 && sq_idx(m.to) == 58 ==> p.cr() & crate::board::Castling::WHITE_OOO != 0
            && !bb_has(p.occ(), 59) && !bb_has(p.occ(), 58) && !bb_has(p.occ(), 57) && !attacked(
            p,
            1,
            60,
        ) && !attacked(p, 1, 59) && !attacked(p, 1, 58),
        p.stm() == 1 && sq_idx(m.to) == 6 ==> p.cr() & crate::board::Castling::BLACK_OO != 0
            && !bb_has(p.occ(), 5) && !bb_has(p.occ(), 6) && !attacked(p, 0, 4) && !attacked(
            p,
            0,
            5,
        ) && !attacked(p, 0, 6),
        p.stm() == 1 && sq_idx(m.to) == 2 ==> p.cr() & crate::board::Castling::BLACK_OOO != 0
            && !bb_has(p.occ(), 3) && !bb_has(p.occ(), 2) && !bb_has(p.occ(), 1) && !attacked(
            p,
            0,
            4,
        ) && !attacked(p, 0, 3) && !attacked(p, 0, 2),
{
    assert(castle_pseudo(p, p.stm(), sq_idx(m.from), sq_idx(m.to)));
}

} // verus!
