use coin_flipper::vectored_xoshiro::Xoshiro256PlusPlusX8;

fn seed_bytes(f: impl Fn(usize) -> u8) -> [u8; 256] {
    let mut s = [0u8; 256];
    let mut i = 0;
    while i < 256 {
        s[i] = f(i);
        i += 1;
    }
    s
}

#[test]
fn pinned_first_batches() {
    let seed = seed_bytes(|i| ((7 * i + 3) % 256) as u8);
    let mut g = Xoshiro256PlusPlusX8::from_seed(seed);
    let batch0 = g.next_u64_x8();
    assert_eq!(
        batch0,
        [
            12076837246621813629,
            16706609412082125885,
            12149177419459890301,
            7519406357822983229,
            2889635296186076157,
            16706608308267109309,
            12076978536021855101,
            16706608308258720701,
        ]
    );
    let batch1 = g.next_u64_x8();
    assert_eq!(
        batch1,
        [
            15522553960957432441,
            3151042157351985741,
            8577897368367329817,
            14076668886302753253,
            1633240776046711225,
            16968016273239646861,
            4020325192307487449,
            9447180403457573541,
        ]
    );
}

#[test]
fn zero_seed_is_remapped() {
    let mut g = Xoshiro256PlusPlusX8::from_seed([0u8; 256]);
    for lane in &g.s {
        assert!(lane.s0 != 0 || lane.s1 != 0 || lane.s2 != 0 || lane.s3 != 0);
    }
    let batch = g.next_u64_x8();
    assert_eq!(batch, [8860584840397428689u64; 8]);
}

#[test]
fn seeding_is_idempotent() {
    let seed = seed_bytes(|i| (i as u8).wrapping_mul(37).wrapping_add(11));
    let mut a = Xoshiro256PlusPlusX8::from_seed(seed);
    let mut b = Xoshiro256PlusPlusX8::from_seed(seed);
    for _ in 0..16 {
        assert_eq!(a.next_u64_x8(), b.next_u64_x8());
    }
}

#[test]
fn entropy_seeding_succeeds() {
    let a = Xoshiro256PlusPlusX8::from_entropy();
    assert!(a.is_ok());
}

#[test]
fn distinct_seeds_diverge() {
    let mut a = Xoshiro256PlusPlusX8::from_seed(seed_bytes(|i| (i % 256) as u8));
    let mut b = Xoshiro256PlusPlusX8::from_seed(seed_bytes(|i| (i % 256) as u8 ^ 0x5A));
    assert_ne!(a.next_u64_x8(), b.next_u64_x8());
}
