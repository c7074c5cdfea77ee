use coin_flipper::executor::{
    flip_serial, partition_sizes, run_partitioned, run_partitioned_seeded,
};
use coin_flipper::reducer::gen_portable_simd_x8_inner;
use coin_flipper::vectored_xoshiro::Xoshiro256PlusPlusX8;

fn seed_bytes(f: impl Fn(usize) -> u8) -> [u8; 256] {
    let mut s = [0u8; 256];
    let mut i = 0;
    while i < 256 {
        s[i] = f(i);
        i += 1;
    }
    s
}

#[test]
fn partitions_cover_exactly() {
    let cases: [(u64, u64); 5] = [(1000, 3), (7, 8), (0, 4), (1, 1), (12345678, 7)];
    for (count, workers) in cases {
        let sizes = partition_sizes(count, workers);
        assert_eq!(sizes.len() as u64, workers);
        let total: u64 = sizes.iter().sum();
        assert_eq!(total, count, "partitions must cover count {} exactly", count);
        let base = count / workers;
        for (i, &s) in sizes.iter().enumerate() {
            if i + 1 < workers as usize {
                assert_eq!(s, base);
            } else {
                assert_eq!(s, base + count % workers);
            }
        }
    }
}

#[test]
fn zero_count_is_zero_heads() {
    assert_eq!(flip_serial(0), Ok(0));
    assert_eq!(run_partitioned(0, 4), Ok(0));
}

#[test]
fn combined_result_bounded_by_count() {
    let r = run_partitioned(10_000, 4).unwrap();
    assert!(r <= 10_000);
    let r = flip_serial(999).unwrap();
    assert!(r <= 999);
}

#[test]
fn partition_sum_invariant() {
    // Manually summing each worker's independently computed reduction must
    // equal the combined result for the same fixed per-worker seeds.
    let seeds = vec![
        seed_bytes(|i| (i % 256) as u8),
        seed_bytes(|i| ((7 * i + 3) % 256) as u8),
        seed_bytes(|i| (255 - i % 256) as u8),
    ];
    let combined = run_partitioned_seeded(1000, 3, &seeds);
    let sizes = partition_sizes(1000, 3);
    let mut manual = 0u64;
    for (i, &n) in sizes.iter().enumerate() {
        manual += gen_portable_simd_x8_inner(n, Xoshiro256PlusPlusX8::from_seed(seeds[i]));
    }
    assert_eq!(combined, manual);
    assert_eq!(combined, 527);
}

#[test]
fn single_worker_matches_plain_reduction() {
    let seed = seed_bytes(|i| ((7 * i + 3) % 256) as u8);
    let combined = run_partitioned_seeded(5000, 1, &vec![seed]);
    let direct = gen_portable_simd_x8_inner(5000, Xoshiro256PlusPlusX8::from_seed(seed));
    assert_eq!(combined, direct);
    assert_eq!(combined, 2509);
}

#[test]
fn large_count_is_statistically_plausible() {
    // Binomial with p = 1/2: the result should sit within six standard
    // deviations of count / 2.
    let count: u64 = 10_000_000;
    let bound = (6.0 * (count as f64).sqrt() / 2.0) as i64;
    for _ in 0..3 {
        let r = run_partitioned(count, 4).unwrap() as i64;
        let mid = (count / 2) as i64;
        assert!((r - mid).abs() < bound, "result {} too far from {}", r, mid);
    }
}
