//! A vectorized xoshiro256++ pseudo-random generator: eight independent
//! 256-bit lane states advanced in lockstep, producing eight random 64-bit
//! words per step. Advancing the lanes together is equivalent to running
//! eight independent xoshiro256++ generators.

use vstd::prelude::*;
use crate::errors::FlipError;

verus! {

/// Fallback first word for a lane whose seed words are all zero: the all-zero
/// state is a fixed point of the xoshiro recurrence and must never be used.
pub const LANE_RESCUE: u64 = 0x9E3779B97F4A7C15;

/// The 256-bit state of one xoshiro256++ stream.
#[derive(Clone, Copy, Debug, PartialEq, Eq, Structural)]
pub struct Lane {
    pub s0: u64,
    pub s1: u64,
    pub s2: u64,
    pub s3: u64,
}

/// Eight lanes advanced in lockstep.
pub struct Xoshiro256PlusPlusX8 {
    pub s: [Lane; 8],
}

/// `x` rotated left by `k` bits.
pub open spec fn rotl(x: u64, k: u64) -> u64
    recommends
        0 < k < 64,
{
    (x << k) | (x >> ((64 - k) as u64))
}

/// The 64-bit word a lane emits before it steps: `rotl(s0 + s3, 23) + s0`,
/// with wrapping addition.
pub open spec fn lane_output(l: Lane) -> u64 {
    rotl(l.s0.wrapping_add(l.s3), 23).wrapping_add(l.s0)
}

/// One step of the xoshiro256++ recurrence on a single lane.
pub open spec fn lane_next(l: Lane) -> Lane {
    let t = l.s1 << 17u64;
    let s2a = l.s2 ^ l.s0;
    let s3a = l.s3 ^ l.s1;
    Lane {
        s0: l.s0 ^ s3a,
        s1: l.s1 ^ s2a,
        s2: s2a ^ t,
        s3: rotl(s3a, 45),
    }
}

/// The lane state after `k` steps.
pub open spec fn nth_lane(l: Lane, k: nat) -> Lane
    decreases k,
{
    if k == 0 {
        l
    } else {
        lane_next(nth_lane(l, (k - 1) as nat))
    }
}

/// The `i`-th 64-bit word of the generator's output stream: words come in
/// batches of eight, one per lane, batch `k` being emitted by the states
/// after `k` steps.
pub open spec fn stream_word(g: Xoshiro256PlusPlusX8, i: nat) -> u64 {
    lane_output(nth_lane(g.s[(i % 8) as int], i / 8))
}

/// The little-endian 64-bit word held at byte offset `off` of `seed`.
pub open spec fn le_word_at(seed: Seq<u8>, off: int) -> u64
    recommends
        0 <= off,
        off + 8 <= seed.len(),
{
    (seed[off] + seed[off + 1] * 0x100 + seed[off + 2] * 0x1_0000 + seed[off + 3] * 0x100_0000
        + seed[off + 4] * 0x1_0000_0000 + seed[off + 5] * 0x100_0000_0000 + seed[off + 6]
        * 0x1_0000_0000_0000 + seed[off + 7] * 0x100_0000_0000_0000) as u64
}

/// The `j`-th of the 32 seed words of a 256-byte seed.
pub open spec fn seed_word(seed: Seq<u8>, j: int) -> u64
    recommends
        0 <= j < 32,
        seed.len() == 256,
{
    le_word_at(seed, 8 * j)
}

pub open spec fn lane_is_zero(l: Lane) -> bool {
    l.s0 == 0 && l.s1 == 0 && l.s2 == 0 && l.s3 == 0
}

/// Lane `i` owns its own 256-bit window of the seed: words `4i .. 4i + 4`,
/// so no two lanes share any seed material.
pub open spec fn raw_lane(seed: Seq<u8>, i: int) -> Lane
    recommends
        0 <= i < 8,
        seed.len() == 256,
{
    Lane {
        s0: seed_word(seed, 4 * i),
        s1: seed_word(seed, 4 * i + 1),
        s2: seed_word(seed, 4 * i + 2),
        s3: seed_word(seed, 4 * i + 3),
    }
}

/// An all-zero lane is remapped to a fixed non-zero state before use.
pub open spec fn fix_lane(l: Lane) -> Lane {
    if lane_is_zero(l) {
        Lane { s0: LANE_RESCUE, s1: 0, s2: 0, s3: 0 }
    } else {
        l
    }
}

/// The state that lane `i` is seeded with, given a 256-byte seed.
pub open spec fn seed_lane(seed: Seq<u8>, i: int) -> Lane
    recommends
        0 <= i < 8,
        seed.len() == 256,
{
    fix_lane(raw_lane(seed, i))
}

/// The generator state that `from_seed` builds from a 256-byte seed.
pub open spec fn seeded(seed: Seq<u8>) -> Xoshiro256PlusPlusX8
    recommends
        seed.len() == 256,
{
    Xoshiro256PlusPlusX8 {
        s: [
            seed_lane(seed, 0),
            seed_lane(seed, 1),
            seed_lane(seed, 2),
            seed_lane(seed, 3),
            seed_lane(seed, 4),
            seed_lane(seed, 5),
            seed_lane(seed, 6),
            seed_lane(seed, 7),
        ],
    }
}

/// No lane of the generator holds the degenerate all-zero state.
pub open spec fn wf(g: Xoshiro256PlusPlusX8) -> bool {
    forall|i: int| 0 <= i < 8 ==> !lane_is_zero(#[trigger] g.s[i])
}

/// A step maps no non-zero lane state to the all-zero state, so a lane that
/// starts non-zero never collapses into the degenerate fixed point.
pub proof fn lemma_step_preserves_nonzero(l: Lane)
    requires
        !lane_is_zero(l),
    ensures
        !lane_is_zero(lane_next(l)),
{
    let s0 = l.s0;
    let s1 = l.s1;
    let s2 = l.s2;
    let s3 = l.s3;
    assert(!(s0 == 0 && s1 == 0 && s2 == 0 && s3 == 0) ==> !((s0 ^ (s3 ^ s1)) == 0 && (s1 ^ (s2
        ^ s0)) == 0 && ((s2 ^ s0) ^ (s1 << 17u64)) == 0 && rotl(s3 ^ s1, 45) == 0))
        by (bit_vector);
}

/// `wf` is an invariant of the generator: once every lane is non-zero, each
/// step keeps every lane non-zero.
pub proof fn lemma_wf_preserved(g: Xoshiro256PlusPlusX8, h: Xoshiro256PlusPlusX8)
    requires
        wf(g),
        forall|i: int| 0 <= i < 8 ==> h.s[i] == lane_next(#[trigger] g.s[i]),
    ensures
        wf(h),
{
    assert forall|i: int| 0 <= i < 8 implies !lane_is_zero(#[trigger] h.s[i]) by {
        lemma_step_preserves_nonzero(g.s[i]);
    }
}

#[verifier::external_type_specification]
#[verifier::external_body]
pub struct ExGetrandomError(getrandom::Error);

/// Relies on getrandom::getrandom: on success the buffer is filled with
/// entropy from the operating system. Which bytes come back depends on the
/// system randomness source, so nothing is stated of the result's value.
#[verifier::external_body]
pub(crate) fn entropy_bytes() -> (r: Result<[u8; 64], getrandom::Error>) {
    let mut buf = [0u8; 64];
    match getrandom::getrandom(&mut buf) {
        Ok(()) => Ok(buf),
        Err(e) => Err(e),
    }
}

/// `x` rotated left by `k` bits.
fn rotl64(x: u64, k: u64) -> (r: u64)
    requires
        1 <= k <= 63,
    ensures
        r == rotl(x, k),
{
    (x << k) | (x >> (64 - k))
}

/// Reads the little-endian 64-bit word at byte offset `off` of the seed.
fn le_word(seed: &[u8; 256], off: usize) -> (w: u64)
    requires
        off + 8 <= 256,
    ensures
        w == le_word_at(seed@, off as int),
{
    (seed[off] as u64) + (seed[off + 1] as u64) * 0x100 + (seed[off + 2] as u64) * 0x1_0000 + (
    seed[off + 3] as u64) * 0x100_0000 + (seed[off + 4] as u64) * 0x1_0000_0000 + (seed[off
        + 5] as u64) * 0x100_0000_0000 + (seed[off + 6] as u64) * 0x1_0000_0000_0000 + (seed[off
        + 7] as u64) * 0x100_0000_0000_0000
}

impl Xoshiro256PlusPlusX8 {
    /// Seeds the eight lanes from fresh system entropy: four 64-byte draws
    /// assemble the 256 bytes the eight 256-bit lanes consume.
    pub fn from_entropy() -> (r: Result<Self, FlipError>)
        ensures
            r matches Err(e) ==> e == FlipError::EntropyUnavailable,
            r matches Ok(g) ==> wf(g),
            r matches Ok(g) ==> exists|seed: Seq<u8>| seed.len() == 256 && g == seeded(seed),
    {
        let mut seed: [u8; 256] = [0; 256];
        let mut part: usize = 0;
        while part < 4
            invariant
                part <= 4,
            decreases 4 - part,
        {
            let block = match entropy_bytes() {
                Ok(b) => b,
                Err(_) => {
                    return Err(FlipError::EntropyUnavailable);
                },
            };
            let mut j: usize = 0;
            while j < 64
                invariant
                    j <= 64,
                    part < 4,
                decreases 64 - j,
            {
                seed[64 * part + j] = block[j];
                j += 1;
            }
            part += 1;
        }
        let g = Self::from_seed(seed);
        proof {
            assert(seed@.len() == 256 && g == seeded(seed@));
        }
        Ok(g)
    }

    /// Decodes the 256 seed bytes into 32 little-endian words, four per
    /// lane, remapping any all-zero lane.
    pub fn from_seed(seed: [u8; 256]) -> (r: Self)
        ensures
            forall|i: int| 0 <= i < 8 ==> r.s[i] == seed_lane(seed@, i),
            r == seeded(seed@),
            wf(r),
    {
        let zero_lane = Lane { s0: 0, s1: 0, s2: 0, s3: 0 };
        let mut s: [Lane; 8] = [zero_lane; 8];
        for i in 0..8usize
            invariant
                forall|j: int| 0 <= j < i ==> s[j] == seed_lane(seed@, j),
        {
            let b = 32 * i;
            let l = Lane {
                s0: le_word(&seed, b),
                s1: le_word(&seed, b + 8),
                s2: le_word(&seed, b + 16),
                s3: le_word(&seed, b + 24),
            };
            if l.s0 == 0 && l.s1 == 0 && l.s2 == 0 && l.s3 == 0 {
                s[i] = Lane { s0: LANE_RESCUE, s1: 0, s2: 0, s3: 0 };
            } else {
                s[i] = l;
            }
        }
        let r = Xoshiro256PlusPlusX8 { s };
        proof {
            assert(forall|i: int| 0 <= i < 8 ==> !lane_is_zero(#[trigger] r.s[i]));
            assert(r.s =~= seeded(seed@).s);
        }
        r
    }

    /// Steps every lane once and returns the eight words they emit.
    pub fn next_u64_x8(&mut self) -> (out: [u64; 8])
        ensures
            forall|i: int| 0 <= i < 8 ==> final(self).s[i] == lane_next(#[trigger] old(self).s[i]),
            forall|i: int| 0 <= i < 8 ==> out[i] == lane_output(#[trigger] old(self).s[i]),
            wf(*old(self)) ==> wf(*final(self)),
    {
        let mut out: [u64; 8] = [0; 8];
        for i in 0..8usize
            invariant
                forall|j: int| i <= j < 8 ==> self.s[j] == old(self).s[j],
                forall|j: int| 0 <= j < i ==> self.s[j] == lane_next(#[trigger] old(self).s[j]),
                forall|j: int| 0 <= j < i ==> out[j] == lane_output(#[trigger] old(self).s[j]),
        {
            let l = self.s[i];
            let o = rotl64(l.s0.wrapping_add(l.s3), 23).wrapping_add(l.s0);
            let t = l.s1 << 17u64;
            let s2a = l.s2 ^ l.s0;
            let s3a = l.s3 ^ l.s1;
            self.s[i] = Lane { s0: l.s0 ^ s3a, s1: l.s1 ^ s2a, s2: s2a ^ t, s3: rotl64(s3a, 45) };
            out[i] = o;
        }
        proof {
            if wf(*old(self)) {
                lemma_wf_preserved(*old(self), *self);
            }
        }
        out
    }
}

/// Seeding is idempotent: two generators seeded with identical byte
/// sequences hold identical lane states and therefore produce identical
/// output sequences from every step.
pub proof fn lemma_seeding_idempotent(s1: Seq<u8>, s2: Seq<u8>, i: nat)
    requires
        s1 == s2,
    ensures
        seeded(s1) == seeded(s2),
        stream_word(seeded(s1), i) == stream_word(seeded(s2), i),
{
}

} // verus!
