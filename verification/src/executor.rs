//! The CPU execution layer: partitions a total flip count across workers,
//! runs one generator-plus-reducer pipeline per partition, and combines the
//! partial results. Partitions are disjoint and exhaustive: every bit of the
//! request is assigned to exactly one worker.

use vstd::prelude::*;
use vstd::arithmetic::div_mod::lemma_fundamental_div_mod;
use crate::errors::FlipError;
use crate::vectored_xoshiro::{Xoshiro256PlusPlusX8, seeded};
use crate::reducer::{heads, gen_portable_simd_x8_inner};

verus! {

/// The share of worker `i` out of `workers`: everyone takes
/// `count / workers` flips, and the last worker also absorbs the remainder
/// `count % workers`.
pub open spec fn partition_size(count: u64, workers: u64, i: int) -> int
    recommends
        workers >= 1,
        0 <= i < workers,
{
    if i == workers - 1 {
        count as int / workers as int + count as int % workers as int
    } else {
        count as int / workers as int
    }
}

/// The total size of the first `n` partitions.
pub open spec fn partition_total(count: u64, workers: u64, n: int) -> int
    decreases n,
{
    if n <= 0 {
        0
    } else {
        partition_total(count, workers, n - 1) + partition_size(count, workers, n - 1)
    }
}

proof fn lemma_partition_prefix(count: u64, workers: u64, n: int)
    requires
        workers >= 1,
        0 <= n <= workers - 1,
    ensures
        partition_total(count, workers, n) == n * (count as int / workers as int),
    decreases n,
{
    let q = count as int / workers as int;
    if n == 0 {
        assert(0 * q == 0) by (nonlinear_arith);
    } else {
        lemma_partition_prefix(count, workers, n - 1);
        assert((n - 1) * q + q == n * q) by (nonlinear_arith);
    }
}

/// Partition exhaustiveness: the partition sizes sum to the full count, so
/// no flip is dropped and none is assigned twice.
pub proof fn lemma_partitions_cover(count: u64, workers: u64)
    requires
        workers >= 1,
    ensures
        partition_total(count, workers, workers as int) == count,
{
    let q = count as int / workers as int;
    let r = count as int % workers as int;
    lemma_partition_prefix(count, workers, workers as int - 1);
    lemma_fundamental_div_mod(count as int, workers as int);
    assert((workers as int - 1) * q + (q + r) == workers as int * q + r) by (nonlinear_arith);
}

/// Every prefix of the partition plan stays within the full count.
pub proof fn lemma_partition_total_bounds(count: u64, workers: u64, n: int)
    requires
        workers >= 1,
        0 <= n <= workers,
    ensures
        0 <= partition_total(count, workers, n) <= count,
{
    let q = count as int / workers as int;
    lemma_fundamental_div_mod(count as int, workers as int);
    if n == workers {
        lemma_partitions_cover(count, workers);
    } else {
        lemma_partition_prefix(count, workers, n);
        assert(0 <= n * q <= count) by (nonlinear_arith)
            requires
                0 <= q,
                0 <= n <= workers as int - 1,
                workers as int * q <= count,
        ;
    }
}

/// Builds the partition plan: `workers` contiguous disjoint shares covering
/// `count` exactly.
#[verifier::loop_isolation(false)]
pub fn partition_sizes(count: u64, workers: u64) -> (v: Vec<u64>)
    requires
        workers >= 1,
    ensures
        v@.len() == workers as int,
        forall|i: int| 0 <= i < workers ==> v@[i] == partition_size(count, workers, i),
{
    let base = count / workers;
    let rem = count % workers;
    proof {
        lemma_fundamental_div_mod(count as int, workers as int);
        assert(base + rem <= count) by (nonlinear_arith)
            requires
                count as int == workers as int * base as int + rem as int,
                workers >= 1,
                base >= 0,
                rem >= 0,
        ;
    }
    let mut v: Vec<u64> = Vec::new();
    let mut i: u64 = 0;
    while i < workers - 1
        invariant
            i <= workers - 1,
            v@.len() == i as int,
            forall|j: int| 0 <= j < i ==> v@[j] == partition_size(count, workers, j),
        decreases workers - 1 - i,
    {
        v.push(base);
        i += 1;
    }
    v.push(base + rem);
    v
}

/// One complete pipeline: seed a generator from fresh entropy, then count the
/// heads among `count` flips. `count == 0` returns zero without touching the
/// entropy source.
pub fn flip_serial(count: u64) -> (r: Result<u64, FlipError>)
    ensures
        r matches Ok(v) ==> v <= count,
        r matches Ok(v) ==> exists|seed: Seq<u8>|
            seed.len() == 256 && v as nat == heads(seeded(seed), count as nat),
        r matches Err(e) ==> e == FlipError::EntropyUnavailable,
        count == 0 ==> r == Ok::<u64, FlipError>(0u64),
{
    if count == 0 {
        proof {
            let blank = Seq::<u8>::new(256, |i: int| 0u8);
            assert(blank.len() == 256 && 0 as nat == heads(seeded(blank), 0));
        }
        return Ok(0);
    }
    match Xoshiro256PlusPlusX8::from_entropy() {
        Ok(g) => {
            let v = gen_portable_simd_x8_inner(count, g);
            proof {
                let seed = choose|seed: Seq<u8>| seed.len() == 256 && g == seeded(seed);
                assert(seed.len() == 256 && v as nat == heads(seeded(seed), count as nat));
            }
            Ok(v)
        },
        Err(e) => Err(e),
    }
}

/// The sum of the per-partition head counts under one seed byte sequence
/// per worker: partition `i` is reduced with a generator seeded from
/// `seeds[i]`.
pub open spec fn entropy_heads_sum(count: u64, workers: u64, seeds: Seq<Seq<u8>>, n: int) -> int
    decreases n,
{
    if n <= 0 {
        0
    } else {
        entropy_heads_sum(count, workers, seeds, n - 1) + heads(
            seeded(seeds[n - 1]),
            partition_size(count, workers, n - 1) as nat,
        )
    }
}

/// The sum over the first `n` partitions reads only the first `n` seeds.
proof fn lemma_entropy_heads_sum_prefix(
    count: u64,
    workers: u64,
    s1: Seq<Seq<u8>>,
    s2: Seq<Seq<u8>>,
    n: int,
)
    requires
        forall|i: int| 0 <= i < n ==> s1[i] == s2[i],
    ensures
        entropy_heads_sum(count, workers, s1, n) == entropy_heads_sum(count, workers, s2, n),
    decreases n,
{
    if n > 0 {
        lemma_entropy_heads_sum_prefix(count, workers, s1, s2, n - 1);
    }
}

/// The threaded executor's whole plan run in one thread: one independently
/// seeded pipeline per partition, partial results summed. On success the
/// result is exactly the sum of the per-partition head counts over the
/// seeds drawn, one per worker. A concurrent harness distributes exactly
/// these per-partition pipelines across worker threads; integer addition is
/// commutative and associative, so the order in which partial results
/// arrive cannot change the sum.
#[verifier::loop_isolation(false)]
pub fn run_partitioned(count: u64, workers: u64) -> (r: Result<u64, FlipError>)
    requires
        workers >= 1,
    ensures
        r matches Ok(v) ==> v <= count,
        r matches Ok(v) ==> exists|seeds: Seq<Seq<u8>>|
            seeds.len() == workers as int && (forall|i: int|
                0 <= i < workers ==> #[trigger] seeds[i].len() == 256) && v as int
                == entropy_heads_sum(count, workers, seeds, workers as int),
        r matches Err(e) ==> e == FlipError::EntropyUnavailable,
        count == 0 ==> r == Ok::<u64, FlipError>(0u64),
{
    let sizes = partition_sizes(count, workers);
    let mut acc: u64 = 0;
    let mut i: usize = 0;
    let ghost mut gseeds: Seq<Seq<u8>> = Seq::empty();
    while i < sizes.len()
        invariant
            i <= sizes@.len(),
            gseeds.len() == i as int,
            forall|j: int| 0 <= j < i ==> #[trigger] gseeds[j].len() == 256,
            acc as int == entropy_heads_sum(count, workers, gseeds, i as int),
            acc as int <= partition_total(count, workers, i as int),
        decreases sizes@.len() - i,
    {
        proof {
            lemma_partition_total_bounds(count, workers, i as int + 1);
            lemma_partition_total_bounds(count, workers, i as int);
        }
        match flip_serial(sizes[i]) {
            Ok(partial) => {
                proof {
                    let s = choose|s: Seq<u8>|
                        s.len() == 256 && partial as nat == heads(seeded(s), sizes@[i as int] as nat);
                    lemma_entropy_heads_sum_prefix(
                        count,
                        workers,
                        gseeds,
                        gseeds.push(s),
                        i as int,
                    );
                    gseeds = gseeds.push(s);
                }
                acc = acc + partial;
            },
            Err(e) => {
                return Err(e);
            },
        }
        i += 1;
    }
    proof {
        lemma_partitions_cover(count, workers);
        assert(gseeds.len() == workers as int && (forall|j: int|
            0 <= j < workers ==> #[trigger] gseeds[j].len() == 256) && acc as int
            == entropy_heads_sum(count, workers, gseeds, workers as int));
    }
    Ok(acc)
}

/// The sum of the per-partition head counts under an explicit seed per
/// worker: partition `i` is reduced with a generator seeded from `seeds[i]`.
pub open spec fn partitioned_heads(count: u64, workers: u64, seeds: Seq<[u8; 256]>, n: int) -> int
    decreases n,
{
    if n <= 0 {
        0
    } else {
        partitioned_heads(count, workers, seeds, n - 1) + heads(
            seeded(seeds[n - 1]@),
            partition_size(count, workers, n - 1) as nat,
        )
    }
}

/// The threaded executor's combination under fixed deterministic seeds: the
/// result is exactly the sum of each worker's independently computed
/// reduction, so the partition boundaries neither drop nor double-count
/// bits.
#[verifier::loop_isolation(false)]
pub fn run_partitioned_seeded(count: u64, workers: u64, seeds: &Vec<[u8; 256]>) -> (r: u64)
    requires
        workers >= 1,
        seeds@.len() == workers as int,
    ensures
        r as int == partitioned_heads(count, workers, seeds@, workers as int),
        r <= count,
{
    let sizes = partition_sizes(count, workers);
    let mut acc: u64 = 0;
    let mut i: usize = 0;
    while i < sizes.len()
        invariant
            i <= sizes@.len(),
            acc as int == partitioned_heads(count, workers, seeds@, i as int),
            acc as int <= partition_total(count, workers, i as int),
        decreases sizes@.len() - i,
    {
        proof {
            lemma_partition_total_bounds(count, workers, i as int + 1);
            lemma_partition_total_bounds(count, workers, i as int);
        }
        let g = Xoshiro256PlusPlusX8::from_seed(seeds[i]);
        let partial = gen_portable_simd_x8_inner(sizes[i], g);
        acc = acc + partial;
        i += 1;
    }
    proof {
        lemma_partitions_cover(count, workers);
    }
    acc
}

} // verus!
