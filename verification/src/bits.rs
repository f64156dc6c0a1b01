use vstd::prelude::*;

verus! {

/// The 64-bit mask with exactly the bit of square `i` set: squares are
/// numbered from `A8` = 0 to `H1` = 63, and square `i` sits at bit `63 - i`.
/// Out-of-range indices give the empty mask.
pub open spec fn sq_mask(i: int) -> u64 {
    if 0 <= i < 64 {
        1u64 << ((63 - i) as u64)
    } else {
        0
    }
}

/// Whether the bit of square `i` is set in `b`.
pub open spec fn bb_has(b: u64, i: int) -> bool {
    b & sq_mask(i) != 0
}

/// Anything intersected with the empty mask is empty.
pub proof fn lemma_and_zero(a: u64, b: u64)
    requires
        a == 0 || b == 0,
    ensures
        a & b == 0,
{
    assert(a & 0 == 0 && 0 & b == 0) by (bit_vector);
}

/// A square's mask is never the empty mask, and holds its own square.
pub proof fn lemma_sq_mask_nonzero(i: int)
    requires
        0 <= i < 64,
    ensures
        sq_mask(i) != 0,
        bb_has(sq_mask(i), i),
{
    let sh = (63 - i) as u64;
    assert(1u64 << sh != 0 && (1u64 << sh) & (1u64 << sh) != 0) by (bit_vector)
        requires
            sh < 64,
    ;
}

/// Masks of distinct squares share no bit.
pub proof fn lemma_sq_mask_distinct(i: int, j: int)
    requires
        i != j,
    ensures
        sq_mask(i) & sq_mask(j) == 0,
{
    if 0 <= i < 64 && 0 <= j < 64 {
        let si = (63 - i) as u64;
        let sj = (63 - j) as u64;
        assert((1u64 << si) & (1u64 << sj) == 0) by (bit_vector)
            requires
                si < 64,
                sj < 64,
                si != sj,
        ;
    } else {
        lemma_and_zero(sq_mask(i), sq_mask(j));
    }
}

/// A union holds a square exactly when one of its parts does.
pub proof fn lemma_bit_or(a: u64, b: u64, i: int)
    ensures
        bb_has(a | b, i) == (bb_has(a, i) || bb_has(b, i)),
{
    let m = sq_mask(i);
    assert(((a | b) & m != 0) == (a & m != 0 || b & m != 0)) by (bit_vector);
}

/// Setting the bit of square `j` affects no other square.
pub proof fn lemma_bit_set(a: u64, j: int, i: int)
    ensures
        bb_has(a | sq_mask(j), i) == (bb_has(a, i) || (i == j && 0 <= j < 64)),
{
    lemma_bit_or(a, sq_mask(j), i);
    if i == j && 0 <= j < 64 {
        lemma_sq_mask_nonzero(j);
    } else if i != j {
        lemma_sq_mask_distinct(j, i);
        lemma_disjoint_not_has(sq_mask(j), i);
    } else {
        assert(sq_mask(j) == 0);
        assert(a | 0u64 == a) by (bit_vector);
    }
}

/// A mask with no bit of `sq_mask(i)` does not hold square `i`.
proof fn lemma_disjoint_not_has(m: u64, i: int)
    requires
        m & sq_mask(i) == 0,
    ensures
        !bb_has(m, i),
{
}

/// Clearing the bit of square `j` affects no other square.
pub proof fn lemma_bit_clear(a: u64, j: int, i: int)
    ensures
        bb_has(a & !sq_mask(j), i) == (bb_has(a, i) && i != j),
{
    let m = sq_mask(i);
    let n = sq_mask(j);
    if i == j {
        assert((a & !n) & n == 0) by (bit_vector);
        if !(0 <= i < 64) {
            lemma_and_zero(a & !n, m);
        }
    } else {
        lemma_sq_mask_distinct(i, j);
        assert(((a & !n) & m != 0) == (a & m != 0)) by (bit_vector)
            requires
                m & n == 0,
        ;
    }
}


/// Two boards with no common bit never hold the same square.
pub proof fn lemma_disjoint_bit(a: u64, b: u64, i: int)
    requires
        a & b == 0,
        bb_has(a, i),
    ensures
        !bb_has(b, i),
{
    if 0 <= i < 64 {
        let sh = (63 - i) as u64;
        assert(!(b & (1u64 << sh) != 0)) by (bit_vector)
            requires
                a & b == 0,
                a & (1u64 << sh) != 0,
                sh < 64,
        ;
    } else {
        lemma_and_zero(a, sq_mask(i));
    }
}

/// A board with a square set keeps that square's whole mask.
pub proof fn lemma_has_mask(b: u64, i: int)
    requires
        bb_has(b, i),
    ensures
        b & sq_mask(i) == sq_mask(i),
{
    if 0 <= i < 64 {
        let sh = (63 - i) as u64;
        assert(b & (1u64 << sh) == (1u64 << sh)) by (bit_vector)
            requires
                b & (1u64 << sh) != 0,
                sh < 64,
        ;
    } else {
        lemma_and_zero(b, sq_mask(i));
    }
}



/// Clearing a bit and setting it back restores a board that held it.
pub proof fn lemma_clear_then_set(b: u64, t: int)
    requires
        bb_has(b, t),
    ensures
        (b & !sq_mask(t)) | sq_mask(t) == b,
{
    lemma_has_mask(b, t);
    let m = sq_mask(t);
    assert((b & !m) | m == b) by (bit_vector)
        requires
            b & m == m,
    ;
}

/// Setting a bit and clearing it again restores a board that lacked it.
pub proof fn lemma_set_then_clear(b: u64, t: int)
    requires
        !bb_has(b, t),
    ensures
        (b | sq_mask(t)) & !sq_mask(t) == b,
{
    let m = sq_mask(t);
    assert((b | m) & !m == b) by (bit_vector)
        requires
            b & m == 0,
    ;
}

/// Whether the bit of the square with index `i` is set in `b`.
pub fn test_bit(b: u64, i: usize) -> (r: bool)
    requires
        i < 64,
    ensures
        r == bb_has(b, i as int),
{
    let sh: u64 = (63 - i) as u64;
    (b & (1u64 << sh)) != 0
}

/// Boards with no square in common share no bit: the converse of
/// `lemma_disjoint_bit`, through the position of a leading one.
pub proof fn lemma_bits_to_disjoint(x: u64, y: u64)
    requires
        forall|i: int| 0 <= i < 64 ==> !(bb_has(x, i) && bb_has(y, i)),
    ensures
        x & y == 0,
{
    let z = x & y;
    if z != 0 {
        vstd::std_specs::bits::axiom_u64_leading_zeros(z);
        let lz = vstd::std_specs::bits::u64_leading_zeros(z);
        assert(0 <= lz < 64);
        let shz = (63 - lz) as u64;
        assert((z >> shz) & 1u64 != 0u64 ==> z & (1u64 << shz) != 0) by (bit_vector)
            requires
                shz < 64,
        ;
        assert(bb_has(z, lz));
        assert(sq_mask(lz) == 1u64 << shz);
        assert(z & (1u64 << shz) != 0 ==> (x & (1u64 << shz) != 0 && y & (1u64 << shz) != 0))
            by (bit_vector)
            requires
                z == x & y,
        ;
        assert(bb_has(x, lz) && bb_has(y, lz));
        assert(false);
    }
}

/// A set flag survives intersections only if every operand holds it.
pub proof fn lemma_u8_and_flag(a: u8, b: u8, c: u8, g: u8)
    requires
        (a & b & c) & g != 0,
    ensures
        a & g != 0,
        b & g != 0,
        c & g != 0,
{
    assert(a & g != 0 && b & g != 0 && c & g != 0) by (bit_vector)
        requires
            (a & b & c) & g != 0,
    ;
}

/// Intersecting with more masks can only keep a bound.
pub proof fn lemma_u8_and_le(a: u8, b: u8, c: u8, n: u8)
    requires
        a <= n,
    ensures
        (a & b & c) <= n,
{
    assert((a & b & c) <= n) by (bit_vector)
        requires
            a <= n,
    ;
}

/// Boards that agree on every square are equal, through the position of a
/// leading one in their difference.
pub proof fn lemma_bits_eq(x: u64, y: u64)
    requires
        forall|i: int| 0 <= i < 64 ==> bb_has(x, i) == bb_has(y, i),
    ensures
        x == y,
{
    if x != y {
        let z = x ^ y;
        assert(z != 0) by (bit_vector)
            requires
                z == x ^ y,
                x != y,
        ;
        vstd::std_specs::bits::axiom_u64_leading_zeros(z);
        let lz = vstd::std_specs::bits::u64_leading_zeros(z);
        assert(0 <= lz < 64);
        let shz = (63 - lz) as u64;
        assert((z >> shz) & 1u64 != 0u64 ==> z & (1u64 << shz) != 0) by (bit_vector)
            requires
                shz < 64,
        ;
        assert(sq_mask(lz) == 1u64 << shz);
        assert(z & (1u64 << shz) != 0 ==> ((x & (1u64 << shz) != 0) != (y & (1u64 << shz) != 0)))
            by (bit_vector)
            requires
                z == x ^ y,
        ;
        assert(bb_has(x, lz) != bb_has(y, lz));
        assert(false);
    }
}

} // verus!
