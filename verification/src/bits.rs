//! Population count over 64-bit words, with the lemmas that connect a word's
//! popcount to the sum of its individual bits.

use vstd::prelude::*;

verus! {

/// Number of set bits in `x`, counted from the low end.
pub open spec fn pc(x: u64) -> nat
    decreases x via pc_decreases
{
    if x == 0 {
        0
    } else {
        ((x & 1) + pc(x >> 1)) as nat
    }
}

#[via_fn]
proof fn pc_decreases(x: u64) {
    assert(x != 0 ==> x >> 1 < x) by (bit_vector);
}

/// Sum of the low `m` bits of `x`, i.e. of `(x >> i) & 1` for `i < m`.
pub open spec fn bitsum(x: u64, m: nat) -> nat
    decreases m
{
    if m == 0 {
        0
    } else {
        (bitsum(x, (m - 1) as nat) + ((x >> ((m - 1) as u64)) & 1)) as nat
    }
}

/// The mask selecting the low `m` bits of a 64-bit word.
pub open spec fn maskbits(m: nat) -> u64 {
    if m >= 64 {
        !0u64
    } else {
        !((!0u64) << (m as u64))
    }
}

pub proof fn lemma_bitsum_le(x: u64, m: nat)
    ensures
        bitsum(x, m) <= m,
    decreases m,
{
    if m > 0 {
        lemma_bitsum_le(x, (m - 1) as nat);
        let k = (m - 1) as u64;
        assert((x >> k) & 1 <= 1) by (bit_vector);
    }
}

/// `bitsum` also satisfies the low-end recursion that `pc` uses.
pub proof fn lemma_bitsum_low(x: u64, m: nat)
    requires
        1 <= m <= 64,
    ensures
        bitsum(x, m) == ((x & 1) + bitsum(x >> 1, (m - 1) as nat)) as nat,
    decreases m,
{
    if m == 1 {
        assert((x >> 0u64) & 1 == x & 1) by (bit_vector);
        assert(bitsum(x, 0) == 0);
        assert(bitsum(x >> 1, 0) == 0);
        assert(bitsum(x, 1) == ((x & 1) + bitsum(x >> 1, 0)) as nat);
    } else {
        lemma_bitsum_low(x, (m - 1) as nat);
        let k = (m - 1) as u64;
        assert(1 <= k <= 63 ==> (x >> k) & 1 == ((x >> 1) >> ((k - 1) as u64)) & 1)
            by (bit_vector);
        assert(bitsum(x, m) == bitsum(x, (m - 1) as nat) + ((x >> k) & 1));
        assert(bitsum(x >> 1, (m - 1) as nat) == bitsum(x >> 1, (m - 2) as nat) + (((x >> 1)
            >> ((k - 1) as u64)) & 1));
        assert(bitsum(x, (m - 1) as nat) == ((x & 1) + bitsum(x >> 1, (m - 2) as nat)) as nat);
    }
}

/// The popcount of the low `m` bits of `x` is the sum of those bits.
pub proof fn lemma_bitsum_is_pc_masked(x: u64, m: nat)
    requires
        m <= 64,
    ensures
        bitsum(x, m) == pc(x & maskbits(m)),
    decreases m,
{
    if m == 0 {
        assert(x & !((!0u64) << 0u64) == 0) by (bit_vector);
    } else {
        lemma_bitsum_low(x, m);
        lemma_bitsum_is_pc_masked(x >> 1, (m - 1) as nat);
        let y = x & maskbits(m);
        if m == 64 {
            assert(x & !0u64 == x) by (bit_vector);
            assert((x >> 1) & !((!0u64) << 63u64) == x >> 1) by (bit_vector);
            if y == 0 {
                assert(x == 0 ==> x & 1 == 0 && x >> 1 == 0) by (bit_vector);
            }
        } else {
            let k = m as u64;
            assert(1 <= k <= 63 ==> (x & !((!0u64) << k)) & 1 == x & 1) by (bit_vector);
            assert(1 <= k <= 63 ==> (x & !((!0u64) << k)) >> 1 == (x >> 1) & !((!0u64) << (
            (k - 1) as u64))) by (bit_vector);
            if y == 0 {
                assert((x & !((!0u64) << k)) == 0 && 1 <= k <= 63 ==> x & 1 == 0 && ((x >> 1)
                    & !((!0u64) << ((k - 1) as u64))) == 0) by (bit_vector);
            }
        }
    }
}

/// A whole word's popcount is the sum of its 64 bits.
pub proof fn lemma_pc_is_bitsum(x: u64)
    ensures
        pc(x) == bitsum(x, 64),
        pc(x) <= 64,
{
    lemma_bitsum_is_pc_masked(x, 64);
    assert(x & !0u64 == x) by (bit_vector);
    lemma_bitsum_le(x, 64);
}

/// Counts the set bits of `x`.
pub fn popcount64(x: u64) -> (c: u64)
    ensures
        c == pc(x),
        c <= 64,
{
    proof {
        lemma_pc_is_bitsum(x);
    }
    let mut y: u64 = x;
    let mut c: u64 = 0;
    while y != 0
        invariant
            c + pc(y) == pc(x),
            pc(x) <= 64,
        decreases y,
    {
        assert(y != 0 ==> y >> 1 < y) by (bit_vector);
        c = c + (y & 1);
        y = y >> 1;
    }
    c
}

} // verus!
