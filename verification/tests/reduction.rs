use coin_flipper::reducer::{gen_portable_simd_x8_inner, reduce_bit_by_bit};
use coin_flipper::vectored_xoshiro::Xoshiro256PlusPlusX8;

fn seed_b() -> [u8; 256] {
    let mut s = [0u8; 256];
    let mut i = 0;
    while i < 256 {
        s[i] = ((7 * i + 3) % 256) as u8;
        i += 1;
    }
    s
}

#[test]
fn tail_bits_match_reference() {
    // Word-aligned, word-straddling and batch-straddling tails must agree
    // exactly with a bit-by-bit count over the same seed and recurrence.
    for n in [0u64, 1, 63, 64, 65, 511, 512, 513] {
        let fast = gen_portable_simd_x8_inner(n, Xoshiro256PlusPlusX8::from_seed(seed_b()));
        let slow = reduce_bit_by_bit(n, Xoshiro256PlusPlusX8::from_seed(seed_b()));
        assert_eq!(fast, slow, "mismatch at n = {}", n);
    }
}

#[test]
fn pinned_head_counts() {
    let expected: [(u64, u64); 8] = [
        (0, 0),
        (1, 1),
        (63, 37),
        (64, 38),
        (65, 39),
        (511, 300),
        (512, 301),
        (513, 302),
    ];
    for (n, h) in expected {
        let got = gen_portable_simd_x8_inner(n, Xoshiro256PlusPlusX8::from_seed(seed_b()));
        assert_eq!(got, h, "mismatch at n = {}", n);
    }
    let big = gen_portable_simd_x8_inner(5000, Xoshiro256PlusPlusX8::from_seed(seed_b()));
    assert_eq!(big, 2509);
    let big_slow = reduce_bit_by_bit(5000, Xoshiro256PlusPlusX8::from_seed(seed_b()));
    assert_eq!(big_slow, 2509);
}

#[test]
fn zero_count_returns_zero() {
    let g = Xoshiro256PlusPlusX8::from_seed(seed_b());
    assert_eq!(gen_portable_simd_x8_inner(0, g), 0);
}

#[test]
fn result_bounded_by_count() {
    for n in [1u64, 100, 1000, 4096, 10_000] {
        let r = gen_portable_simd_x8_inner(n, Xoshiro256PlusPlusX8::from_seed(seed_b()));
        assert!(r <= n);
    }
}
