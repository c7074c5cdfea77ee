//! Reduction of the generator's bit stream: the number of set bits among the
//! first `n` bits produced, consumed word by word with an exactly-masked
//! tail, so that no bit is counted twice and none is dropped.

use vstd::prelude::*;
use vstd::arithmetic::div_mod::{
    lemma_fundamental_div_mod,
    lemma_fundamental_div_mod_converse,
};
use crate::bits::{pc, bitsum, popcount64, lemma_pc_is_bitsum, lemma_bitsum_is_pc_masked};
use crate::vectored_xoshiro::{Xoshiro256PlusPlusX8, stream_word, nth_lane, lane_next, lane_output};

verus! {

/// The `i`-th bit of the generator's output stream, taken from the low end
/// of each 64-bit word.
pub open spec fn stream_bit(g: Xoshiro256PlusPlusX8, i: nat) -> u64 {
    (stream_word(g, i / 64) >> ((i % 64) as u64)) & 1
}

/// The number of set bits among the first `n` bits of the stream: the exact
/// count of heads among `n` coin flips drawn from `g`.
pub open spec fn heads(g: Xoshiro256PlusPlusX8, n: nat) -> nat
    decreases n,
{
    if n == 0 {
        0
    } else {
        (heads(g, (n - 1) as nat) + stream_bit(g, (n - 1) as nat)) as nat
    }
}

/// The total popcount of the first `k` whole words of the stream.
pub open spec fn wordsum(g: Xoshiro256PlusPlusX8, k: nat) -> nat
    decreases k,
{
    if k == 0 {
        0
    } else {
        (wordsum(g, (k - 1) as nat) + pc(stream_word(g, (k - 1) as nat))) as nat
    }
}

/// Word `j` of batch `b` is stream word `8 * b + j`.
proof fn lemma_batch_index(b: nat, j: nat)
    requires
        j < 8,
    ensures
        (8 * b + j) % 8 == j,
        (8 * b + j) / 8 == b,
{
    lemma_fundamental_div_mod_converse((8 * b + j) as int, 8, b as int, j as int);
}

/// Counting `64 * k + m` bits is counting `k` whole words plus the low `m`
/// bits of word `k`.
pub proof fn lemma_heads_words(g: Xoshiro256PlusPlusX8, k: nat, m: nat)
    requires
        m <= 64,
    ensures
        heads(g, 64 * k + m) == wordsum(g, k) + bitsum(stream_word(g, k), m),
    decreases k, m,
{
    if m == 0 {
        if k == 0 {
        } else {
            lemma_heads_words(g, (k - 1) as nat, 64);
            lemma_pc_is_bitsum(stream_word(g, (k - 1) as nat));
            assert(64 * k + 0 == 64 * ((k - 1) as nat) + 64);
            assert(wordsum(g, k) == wordsum(g, (k - 1) as nat) + pc(
                stream_word(g, (k - 1) as nat)));
            assert(bitsum(stream_word(g, k), 0) == 0);
        }
    } else {
        lemma_heads_words(g, k, (m - 1) as nat);
        let n = (64 * k + m - 1) as nat;
        lemma_fundamental_div_mod_converse(n as int, 64, k as int, (m - 1) as int);
        assert(stream_bit(g, n) == (stream_word(g, k) >> (((m - 1) as nat) as u64)) & 1);
        assert(bitsum(stream_word(g, k), m) == bitsum(stream_word(g, k), (m - 1) as nat) + ((
        stream_word(g, k) >> ((m - 1) as u64)) & 1));
        assert(heads(g, 64 * k + m) == heads(g, n) + stream_bit(g, n));
    }
}

/// At most every flipped bit can be a head.
pub proof fn lemma_heads_le(g: Xoshiro256PlusPlusX8, n: nat)
    ensures
        heads(g, n) <= n,
    decreases n,
{
    if n > 0 {
        lemma_heads_le(g, (n - 1) as nat);
        let w = stream_word(g, ((n - 1) as nat) / 64);
        let s = (((n - 1) as nat) % 64) as u64;
        assert((w >> s) & 1 <= 1) by (bit_vector);
    }
}

/// The position of the tail words: `count / 64` splits into full batches of
/// eight words plus the whole words of the last partial batch.
proof fn lemma_word_split(count: nat)
    ensures
        count / 64 == 8 * (count / 512) + (count % 512) / 64,
        count % 64 == (count % 512) % 64,
        64 * (count / 64) + count % 64 == count,
        512 * (count / 512) <= count,
        (count % 512) / 64 < 8,
{
    let a = count / 512;
    let r = count % 512;
    lemma_fundamental_div_mod(count as int, 512);
    let q = r / 64;
    let m = r % 64;
    lemma_fundamental_div_mod(r as int, 64);
    assert(count == 64 * (8 * a + q) + m) by (nonlinear_arith)
        requires
            count == 512 * a + r,
            r == 64 * q + m,
    ;
    lemma_fundamental_div_mod_converse(count as int, 64, (8 * a + q) as int, m as int);
    lemma_fundamental_div_mod(count as int, 64);
}

/// Consumes `count` random bits from the generator and returns how many were
/// set: full 512-bit batches first, then the whole words of one final batch,
/// then the masked low bits of the following word of that same batch.
#[verifier::loop_isolation(false)]
pub fn gen_portable_simd_x8_inner(count: u64, generator: Xoshiro256PlusPlusX8) -> (r: u64)
    ensures
        r as nat == heads(generator, count as nat),
        r <= count,
{
    let ghost g0 = generator;
    proof {
        lemma_heads_le(g0, count as nat);
        lemma_word_split(count as nat);
    }
    let mut gen = generator;
    let mut acc: u64 = 0;
    let full: u64 = count / 512;
    let mut b: u64 = 0;
    while b < full
        invariant
            b <= full,
            forall|i: int| 0 <= i < 8 ==> (#[trigger] gen.s[i]) == nth_lane(g0.s[i], b as nat),
            acc as nat == wordsum(g0, (8 * b) as nat),
            acc as int <= 512 * b as int,
        decreases full - b,
    {
        let ghost pre = gen;
        let words = gen.next_u64_x8();
        let mut j: usize = 0;
        while j < 8
            invariant
                j <= 8,
                acc as nat == wordsum(g0, (8 * b + j) as nat),
                acc as int <= 512 * b as int + 64 * j as int,
            decreases 8 - j,
        {
            proof {
                lemma_batch_index(b as nat, j as nat);
                assert(words[j as int] == lane_output(pre.s[j as int]));
                assert(pre.s[j as int] == nth_lane(g0.s[j as int], b as nat));
                assert(words[j as int] == stream_word(g0, (8 * b + j) as nat));
                assert(wordsum(g0, (8 * b + j + 1) as nat) == wordsum(g0, (8 * b + j) as nat)
                    + pc(stream_word(g0, (8 * b + j) as nat)));
            }
            let c = popcount64(words[j]);
            assert(acc + c <= 512 * full <= count) by (nonlinear_arith)
                requires
                    acc as int <= 512 * b as int + 64 * j as int,
                    c <= 64,
                    j < 8,
                    b < full,
                    512 * (count as int / 512) <= count,
                    full == count / 512,
            ;
            acc = acc + c;
            j += 1;
        }
        proof {
            assert forall|i: int| 0 <= i < 8 implies (#[trigger] gen.s[i]) == nth_lane(
                g0.s[i], (b + 1) as nat) by {
                assert(gen.s[i] == lane_next(pre.s[i]));
                assert(pre.s[i] == nth_lane(g0.s[i], b as nat));
            }
            assert(8 * (b + 1) as int == 8 * b as int + 8);
        }
        b += 1;
    }
    let rem: u64 = count % 512;
    let ghost fw: nat = (count / 64) as nat;
    if rem > 0 {
        let ghost pre = gen;
        let words = gen.next_u64_x8();
        proof {
            assert forall|i: int| 0 <= i < 8 implies (#[trigger] words[i]) == lane_output(
                nth_lane(g0.s[i], full as nat)) by {
                assert(words[i] == lane_output(pre.s[i]));
                assert(pre.s[i] == nth_lane(g0.s[i], full as nat));
            }
        }
        let q: u64 = rem / 64;
        let mut j: u64 = 0;
        while j < q
            invariant
                j <= q,
                acc as nat == wordsum(g0, (8 * full + j) as nat),
                acc as int <= 512 * full as int + 64 * j as int,
            decreases q - j,
        {
            proof {
                lemma_batch_index(full as nat, j as nat);
                assert(words[j as int] == stream_word(g0, (8 * full + j) as nat));
                assert(wordsum(g0, (8 * full + j + 1) as nat) == wordsum(
                    g0, (8 * full + j) as nat) + pc(stream_word(g0, (8 * full + j) as nat)));
            }
            let c = popcount64(words[j as usize]);
            assert(acc + c <= count) by (nonlinear_arith)
                requires
                    acc as int <= 512 * full as int + 64 * j as int,
                    c <= 64,
                    j < q,
                    full == count / 512,
                    q == rem / 64,
                    rem == count % 512,
                    count as int == 512 * (count as int / 512) + count as int % 512,
                    rem as int == 64 * (rem as int / 64) + rem as int % 64,
            ;
            acc = acc + c;
            j += 1;
        }
        let mb: u64 = count % 64;
        proof {
            assert(fw == (8 * full + q) as nat);
        }
        if mb > 0 {
            proof {
                lemma_batch_index(full as nat, q as nat);
                assert(words[q as int] == stream_word(g0, fw));
                lemma_bitsum_is_pc_masked(words[q as int], mb as nat);
                lemma_heads_words(g0, fw, mb as nat);
            }
            let masked = words[q as usize] & !((!0u64) << mb);
            let c = popcount64(masked);
            proof {
                crate::bits::lemma_bitsum_le(words[q as int], mb as nat);
            }
            acc = acc + c;
        } else {
            proof {
                lemma_heads_words(g0, fw, 0);
            }
        }
    } else {
        proof {
            assert(acc as nat == wordsum(g0, fw));
            lemma_heads_words(g0, fw, 0);
        }
    }
    acc
}

/// How the bit positions move when one more bit is consumed.
proof fn lemma_step_index(i: nat)
    ensures
        (i + 1) % 512 != 0 ==> (i + 1) / 512 == i / 512,
        (i + 1) % 512 == 0 ==> (i + 1) / 512 == i / 512 + 1 && i % 512 == 511,
{
    let a = i / 512;
    let r = i % 512;
    lemma_fundamental_div_mod(i as int, 512);
    if r < 511 {
        lemma_fundamental_div_mod_converse((i + 1) as int, 512, a as int, (r + 1) as int);
    } else {
        lemma_fundamental_div_mod_converse((i + 1) as int, 512, (a + 1) as int, 0);
    }
}

/// Reference reduction: consumes the same stream one bit at a time, with the
/// same seed and recurrence. Its contract matches `gen_portable_simd_x8_inner`
/// exactly, so the word-and-mask tail handling agrees with a bit-by-bit count
/// on every input.
#[verifier::loop_isolation(false)]
pub fn reduce_bit_by_bit(count: u64, generator: Xoshiro256PlusPlusX8) -> (r: u64)
    ensures
        r as nat == heads(generator, count as nat),
        r <= count,
{
    let ghost g0 = generator;
    proof {
        lemma_heads_le(g0, count as nat);
    }
    let mut gen = generator;
    let mut acc: u64 = 0;
    let mut batch: [u64; 8] = [0; 8];
    let mut i: u64 = 0;
    while i < count
        invariant
            i <= count,
            acc as nat == heads(g0, i as nat),
            acc <= i,
            i % 512 == 0 ==> forall|l: int|
                0 <= l < 8 ==> (#[trigger] gen.s[l]) == nth_lane(g0.s[l], (i / 512) as nat),
            i % 512 != 0 ==> forall|l: int|
                0 <= l < 8 ==> (#[trigger] gen.s[l]) == nth_lane(g0.s[l], (i / 512 + 1) as nat),
            i % 512 != 0 ==> forall|j: int|
                0 <= j < 8 ==> (#[trigger] batch[j]) == stream_word(g0, (8 * (i / 512) + j) as nat),
        decreases count - i,
    {
        if i % 512 == 0 {
            let ghost pre = gen;
            batch = gen.next_u64_x8();
            proof {
                assert forall|j: int| 0 <= j < 8 implies (#[trigger] batch[j]) == stream_word(
                    g0, (8 * (i / 512) + j) as nat) by {
                    assert(batch[j] == lane_output(pre.s[j]));
                    assert(pre.s[j] == nth_lane(g0.s[j], (i / 512) as nat));
                    lemma_batch_index((i / 512) as nat, j as nat);
                }
                assert forall|l: int| 0 <= l < 8 implies (#[trigger] gen.s[l]) == nth_lane(
                    g0.s[l], (i / 512 + 1) as nat) by {
                    assert(gen.s[l] == lane_next(pre.s[l]));
                }
            }
        }
        let wi = ((i % 512) / 64) as usize;
        let w = batch[wi];
        let bit = (w >> (i % 64)) & 1;
        proof {
            lemma_word_split(i as nat);
            assert(w == stream_word(g0, (i as nat) / 64));
            assert(bit == stream_bit(g0, i as nat));
            assert(heads(g0, (i + 1) as nat) == heads(g0, i as nat) + stream_bit(g0, i as nat));
            let s = (i % 64) as u64;
            assert((w >> s) & 1 <= 1) by (bit_vector);
            lemma_step_index(i as nat);
        }
        acc = acc + bit;
        i = i + 1;
    }
    acc
}

} // verus!
