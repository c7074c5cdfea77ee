//! Error taxonomy: failures of the CPU pipeline, and failures of the device
//! offload path. Device failures are never fatal to a request; the dispatcher
//! recovers them by falling back to the CPU path over the full count.

use vstd::prelude::*;

verus! {

/// A failure of the CPU pipeline. `EntropyUnavailable` means the system
/// randomness source produced no seed bytes; the pipeline cannot proceed and
/// the error propagates to the caller. `ThreadSpawnFailed` is reported by the
/// surrounding harness when it can neither spawn a worker nor degrade to
/// fewer workers.
#[derive(Clone, Copy, Debug, PartialEq, Eq, Structural)]
pub enum FlipError {
    EntropyUnavailable,
    ThreadSpawnFailed,
}

/// A failure of the device offload path. Every variant is recoverable: the
/// dispatcher substitutes the CPU path over the full count.
#[derive(Clone, Copy, Debug, PartialEq, Eq, Structural)]
pub enum DeviceError {
    NoPlatformOrDevice,
    ContextCreationFailed,
    CompileError,
    BufferAllocationFailed,
    DispatchFailed,
    ReadbackFailed,
}

} // verus!
