//! The dispatcher: a single-shot, stateless decision between the in-process
//! CPU path and the device offload path, driven by two configured size
//! thresholds, with fall-back to the CPU path over the full count whenever
//! the device path fails.

use vstd::prelude::*;
use crate::errors::DeviceError;

verus! {

/// The two size thresholds of the dispatcher. Workloads under
/// `small_threshold` run a single inline pipeline (thread-spawn overhead
/// exceeds the benefit); workloads at or above `large_threshold` attempt
/// the device offload path.
pub struct DispatchConfig {
    pub small_threshold: u64,
    pub large_threshold: u64,
}

/// The execution path selected for one request.
#[derive(Clone, Copy, Debug, PartialEq, Eq, Structural)]
pub enum ExecutionPath {
    Threaded,
    Device,
}

impl DispatchConfig {
    pub open spec fn wf(self) -> bool {
        self.small_threshold < self.large_threshold
    }

    pub fn new(small_threshold: u64, large_threshold: u64) -> (c: Self)
        requires
            small_threshold < large_threshold,
        ensures
            c.small_threshold == small_threshold,
            c.large_threshold == large_threshold,
            c.wf(),
    {
        DispatchConfig { small_threshold, large_threshold }
    }
}

impl Default for DispatchConfig {
    /// The tuned default cutoffs: ten million flips before threading pays
    /// off, one hundred billion before a device dispatch does.
    fn default() -> (c: Self)
        ensures
            c.small_threshold == 10_000_000u64,
            c.large_threshold == 100_000_000_000u64,
            c.wf(),
    {
        DispatchConfig { small_threshold: 10_000_000, large_threshold: 100_000_000_000 }
    }
}

/// Selects the path for `count`: the device only for huge workloads, the
/// CPU executor for everything else.
pub fn choose_path(count: u64, config: &DispatchConfig) -> (p: ExecutionPath)
    ensures
        p == ExecutionPath::Device <==> count >= config.large_threshold,
        p == ExecutionPath::Threaded <==> count < config.large_threshold,
{
    if count >= config.large_threshold {
        ExecutionPath::Device
    } else {
        ExecutionPath::Threaded
    }
}

/// True when the workload is small enough that one inline pipeline beats
/// spawning worker threads.
pub fn use_inline_path(count: u64, config: &DispatchConfig) -> (b: bool)
    ensures
        b <==> count < config.small_threshold,
{
    count < config.small_threshold
}

/// The recovery policy for a failed device path: whatever the failure was,
/// the CPU executor reruns the full count, never a partial amount.
pub fn device_fallback_count(count: u64, _error: DeviceError) -> (c: u64)
    ensures
        c == count,
{
    count
}

} // verus!
