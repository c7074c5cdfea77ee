use coin_flipper::device::{combine_device_result, make_device_seeds, plan_device_dispatch};
use coin_flipper::dispatch::{
    choose_path, device_fallback_count, use_inline_path, DispatchConfig, ExecutionPath,
};
use coin_flipper::errors::DeviceError;
use coin_flipper::executor::run_partitioned;

#[test]
fn default_thresholds() {
    let cfg = DispatchConfig::default();
    assert_eq!(cfg.small_threshold, 10_000_000);
    assert_eq!(cfg.large_threshold, 100_000_000_000);
}

#[test]
fn path_selection() {
    let cfg = DispatchConfig::new(10, 1000);
    assert_eq!(choose_path(0, &cfg), ExecutionPath::Threaded);
    assert_eq!(choose_path(999, &cfg), ExecutionPath::Threaded);
    assert_eq!(choose_path(1000, &cfg), ExecutionPath::Device);
    assert_eq!(choose_path(u64::MAX, &cfg), ExecutionPath::Device);
    assert!(use_inline_path(9, &cfg));
    assert!(!use_inline_path(10, &cfg));
}

#[test]
fn device_failure_falls_back_to_full_count() {
    let errors = [
        DeviceError::NoPlatformOrDevice,
        DeviceError::ContextCreationFailed,
        DeviceError::CompileError,
        DeviceError::BufferAllocationFailed,
        DeviceError::DispatchFailed,
        DeviceError::ReadbackFailed,
    ];
    for e in errors {
        assert_eq!(device_fallback_count(123_456_789, e), 123_456_789);
    }
}

#[test]
fn forced_device_failure_uses_cpu_path() {
    // A count above the (here deliberately tiny) offload threshold whose
    // device path reports no platform must be recomputed on the CPU over the
    // full count, with the usual bounds.
    let cfg = DispatchConfig::new(10, 1000);
    let count: u64 = 4096;
    assert_eq!(choose_path(count, &cfg), ExecutionPath::Device);
    let fallback = device_fallback_count(count, DeviceError::NoPlatformOrDevice);
    assert_eq!(fallback, count);
    let r = run_partitioned(fallback, 4).unwrap();
    assert!(r <= count);
}

#[test]
fn plan_geometry_unscaled() {
    let plan = plan_device_dispatch(1_000_000_000_000, 16).unwrap();
    assert_eq!(plan.threads, 8192);
    assert_eq!(plan.iters_per_thread, 122070312);
    assert_eq!(plan.remainder, 4096);
    assert_eq!(
        plan.threads * plan.iters_per_thread as u64 + plan.remainder,
        1_000_000_000_000
    );
}

#[test]
fn plan_geometry_scaled_for_32_bit_counters() {
    // A maximal count on one compute unit overflows a 32-bit per-thread
    // counter unless the thread count is scaled up.
    let plan = plan_device_dispatch(u64::MAX, 1).unwrap();
    assert_eq!(plan.threads, 4294967808);
    assert_eq!(plan.iters_per_thread, 4294966784);
    assert_eq!(plan.remainder, 262143);
    assert_eq!(
        plan.threads as u128 * plan.iters_per_thread as u128 + plan.remainder as u128,
        u64::MAX as u128
    );
}

#[test]
fn plan_for_zero_count_does_no_work() {
    let plan = plan_device_dispatch(0, 4).unwrap();
    assert_eq!(plan.iters_per_thread, 0);
    assert_eq!(plan.remainder, 0);
    assert_eq!(combine_device_result(0, &plan, 0, 0), Some(0));
}

#[test]
fn no_compute_units_no_plan() {
    assert!(plan_device_dispatch(123, 0).is_none());
}

#[test]
fn plan_threads_align_with_workgroups() {
    // The global size is dispatched with a 64-wide local workgroup, so the
    // planned thread count must always divide into whole workgroups.
    let cases: [(u64, u32); 5] =
        [(0, 1), (512, 1), (1_000_000_000_000, 16), (u64::MAX, 1), (123_456_789, 3)];
    for (count, cu) in cases {
        let plan = plan_device_dispatch(count, cu).unwrap();
        assert_eq!(plan.threads % 64, 0, "count {} cu {}", count, cu);
    }
}

#[test]
fn combine_validates_against_plan() {
    let count: u64 = 1_000_000_000_000;
    let plan = plan_device_dispatch(count, 16).unwrap();
    let device_bits = plan.threads * plan.iters_per_thread as u64;
    assert_eq!(combine_device_result(count, &plan, 500, 7), Some(507));
    assert_eq!(
        combine_device_result(count, &plan, device_bits, plan.remainder),
        Some(count)
    );
    // A device sum above the device's share, or a remainder sum above the
    // planned remainder, is implausible and must be rejected.
    assert_eq!(combine_device_result(count, &plan, device_bits + 1, 0), None);
    assert_eq!(combine_device_result(count, &plan, 0, plan.remainder + 1), None);
}

#[test]
fn device_seed_blocks() {
    let seeds = make_device_seeds(3).unwrap();
    assert_eq!(seeds.len(), 192);
    let none = make_device_seeds(0).unwrap();
    assert!(none.is_empty());
}
