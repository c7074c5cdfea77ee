//! Planning for the device offload path: how many device threads to launch,
//! how many iterations each runs, and which remainder the host keeps, so
//! that device work plus host remainder covers the request exactly. The
//! device calls themselves are performed by the surrounding harness; this
//! module owns every decision that feeds them.

use vstd::prelude::*;
use vstd::arithmetic::div_mod::{
    lemma_fundamental_div_mod,
    lemma_div_denominator,
    lemma_multiply_divide_lt,
    lemma_multiply_divide_le,
    lemma_div_is_ordered,
    lemma_div_multiples_vanish,
    lemma_basic_div,
    lemma_small_mod,
    lemma_mod_multiples_basic,
};
use crate::errors::FlipError;
use crate::vectored_xoshiro::entropy_bytes;

verus! {

/// Device threads launched per reported compute unit: 64-wide workgroups,
/// eight in flight per unit.
pub const OCCUPANCY_PER_UNIT: u64 = 64 * 8;

/// Per-thread iteration counters on the device are 32 bits wide.
pub const MAX_DEVICE_ITERATIONS: u64 = 0xFFFF_FFFF;

/// One planned device dispatch: `threads` device threads, each running
/// `iters_per_thread` iterations, with `remainder` flips left for the host.
pub struct DevicePlan {
    pub threads: u64,
    pub iters_per_thread: u32,
    pub remainder: u64,
}

impl DevicePlan {
    /// The plan covers `count` exactly: per-thread iterations and host
    /// remainder are the division of `count` by the thread count, so device
    /// work plus host remainder is the whole request, nothing more.
    pub open spec fn covers(self, count: u64) -> bool {
        &&& self.threads >= 1
        &&& self.iters_per_thread as int == count as int / self.threads as int
        &&& self.remainder as int == count as int % self.threads as int
        &&& self.threads as int * self.iters_per_thread as int + self.remainder as int
            == count as int
    }
}

/// Computes the dispatch geometry from the device's compute-unit count.
/// The thread count is a multiple of the 64-wide workgroup and is scaled up
/// whenever `count / threads` would overflow the device's 32-bit per-thread
/// iteration counter. Device work (`threads * iters_per_thread`) plus host
/// remainder equals `count` exactly; a device without compute units yields
/// no plan.
pub fn plan_device_dispatch(count: u64, compute_units: u32) -> (p: Option<DevicePlan>)
    ensures
        p is Some <==> compute_units > 0,
        p matches Some(plan) ==> {
            &&& plan.covers(count)
            &&& plan.threads % 64 == 0
            &&& (count == 0 ==> plan.iters_per_thread == 0 && plan.remainder == 0)
        },
{
    if compute_units == 0 {
        return None;
    }
    let base: u64 = (compute_units as u64) * OCCUPANCY_PER_UNIT;
    let m: u64 = MAX_DEVICE_ITERATIONS;
    let q: u64 = count / base;
    let threads: u64;
    if q > m {
        proof {
            lemma_multiply_divide_le(q as int, m as int, 0x1_0000_0001);
        }
        let k: u64 = q / m + 1;
        proof {
            let a = q as int / m as int;
            lemma_fundamental_div_mod(q as int, m as int);
            lemma_fundamental_div_mod(count as int, base as int);
            assert((base as int * a) * m as int <= count as int) by (nonlinear_arith)
                requires
                    a * m as int <= q as int,
                    base as int * q as int <= count as int,
                    base >= 1,
                    a >= 0,
                    m >= 1,
            ;
            lemma_div_is_ordered(base as int * a * m as int, count as int, m as int);
            lemma_div_multiples_vanish(base as int * a, m as int);
            assert(m as int * (base as int * a) == (base as int * a) * m as int)
                by (nonlinear_arith);
            lemma_multiply_divide_le(count as int, m as int, 0x1_0000_0001);
            assert(base as int * k as int == base as int * a + base as int) by (nonlinear_arith)
                requires
                    k as int == a + 1,
            ;
        }
        threads = base * k;
        proof {
            assert(threads as int == ((compute_units as int) * 8 * (k as int)) * 64)
                by (nonlinear_arith)
                requires
                    threads as int == base as int * k as int,
                    base as int == compute_units as int * 512,
            ;
            lemma_mod_multiples_basic((compute_units as int) * 8 * (k as int), 64);
            let a = q as int / m as int;
            lemma_div_denominator(count as int, base as int, a + 1);
            assert((q as int) < (a + 1) * (m as int + 1)) by (nonlinear_arith)
                requires
                    q as int == m as int * a + q as int % m as int,
                    (q as int % m as int) < m as int,
                    a >= 0,
                    m >= 1,
            ;
            lemma_multiply_divide_lt(q as int, a + 1, m as int + 1);
        }
    } else {
        threads = base;
        proof {
            assert(threads as int == ((compute_units as int) * 8) * 64) by (nonlinear_arith)
                requires
                    threads as int == compute_units as int * 512,
            ;
            lemma_mod_multiples_basic((compute_units as int) * 8, 64);
        }
    }
    let iters64: u64 = count / threads;
    let iters: u32 = iters64 as u32;
    let remainder: u64 = count % threads;
    proof {
        lemma_fundamental_div_mod(count as int, threads as int);
        if count == 0 {
            lemma_basic_div(0, threads as int);
            lemma_small_mod(0, threads as nat);
        }
    }
    Some(DevicePlan { threads, iters_per_thread: iters, remainder })
}

/// Adds the device's partial sum to the host-computed remainder sum, after
/// validating both against the plan: the device covers
/// `threads * iters_per_thread` bits and the host `remainder` bits, so a
/// partial sum above its share is implausible and yields `None`, which the
/// dispatcher treats like any other device failure. A combined total is
/// therefore never above `count`.
pub fn combine_device_result(
    count: u64,
    plan: &DevicePlan,
    device_heads: u64,
    remainder_heads: u64,
) -> (r: Option<u64>)
    ensures
        r matches Some(v) ==> v as int == device_heads as int + remainder_heads as int && v
            <= count,
        plan.covers(count) ==> ((r is Some) <==> device_heads as int <= plan.threads as int
            * plan.iters_per_thread as int && remainder_heads <= plan.remainder),
{
    if plan.threads == 0 {
        return None;
    }
    if plan.iters_per_thread as u64 != count / plan.threads {
        return None;
    }
    if plan.remainder != count % plan.threads {
        return None;
    }
    proof {
        lemma_fundamental_div_mod(count as int, plan.threads as int);
    }
    let device_bits: u64 = plan.threads * (plan.iters_per_thread as u64);
    if device_heads > device_bits {
        return None;
    }
    if remainder_heads > plan.remainder {
        return None;
    }
    Some(device_heads + remainder_heads)
}

/// Draws `threads` independent 64-byte generator seed blocks from system
/// entropy, concatenated host-side before upload to device memory.
#[verifier::loop_isolation(false)]
pub fn make_device_seeds(threads: u64) -> (r: Result<Vec<u8>, FlipError>)
    requires
        threads * 64 <= usize::MAX,
    ensures
        r matches Ok(v) ==> v@.len() == threads as int * 64,
        r matches Err(e) ==> e == FlipError::EntropyUnavailable,
        threads == 0 ==> (r matches Ok(v) && v@.len() == 0),
{
    let mut out: Vec<u8> = Vec::new();
    let mut t: u64 = 0;
    while t < threads
        invariant
            t <= threads,
            out@.len() == t as int * 64,
        decreases threads - t,
    {
        let block = match entropy_bytes() {
            Ok(b) => b,
            Err(_) => {
                return Err(FlipError::EntropyUnavailable);
            },
        };
        let mut j: usize = 0;
        while j < 64
            invariant
                j <= 64,
                out@.len() == t as int * 64 + j,
            decreases 64 - j,
        {
            out.push(block[j]);
            j += 1;
        }
        proof {
            assert((t + 1) as int * 64 == t as int * 64 + 64);
        }
        t += 1;
    }
    Ok(out)
}

} // verus!
