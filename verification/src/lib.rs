//! Estimates the number of heads among `count` fair coin flips by generating
//! `count` pseudo-random bits and summing their population count.
//!
//! The crate is organised leaf-first: `bits` holds the popcount machinery,
//! `vectored_xoshiro` the multi-lane xoshiro256++ generator, `reducer` the
//! bit-stream reduction, `executor` the work partitioning of the CPU path,
//! `device` the geometry planning of the GPU offload path, `dispatch` the
//! choice between the two, and `errors` the failure taxonomy.

pub mod bits;
pub mod device;
pub mod dispatch;
pub mod errors;
pub mod executor;
pub mod reducer;
pub mod vectored_xoshiro;
