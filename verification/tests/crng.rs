//! The random number generator and the platform root key.
use litebox::lvbs::crng::{
    DerivedKeyError, LvbsCrng, PlatformRootKey, RdrandSeed, RdrandStep, CRNG_RESEED_BACKOFF_BYTES,
    CRNG_RESEED_INTERVAL_BYTES, PRK_LEN,
};
use rand_core::{RngCore, SeedableRng};
use sha2::Digest;

const TEST_PRK: [u8; PRK_LEN] = [0x42; PRK_LEN];
const INIT_SEED: [u8; 32] = [0xA5; 32];
const RESEED_SEED: [u8; 32] = [0x5A; 32];

#[test]
fn crosses_reseed_boundary_twice_with_accurate_budget() {
    let mut crng = LvbsCrng::new(&TEST_PRK, INIT_SEED);
    let mut buf = vec![0u8; CRNG_RESEED_INTERVAL_BYTES * 2 + 7];
    crng.fill_bytes(&mut buf, || Some(RESEED_SEED));
    assert_eq!(crng.reseed_counter(), 2);
    assert_eq!(crng.bytes_until_reseed(), CRNG_RESEED_INTERVAL_BYTES - 7);
}

#[test]
fn rdrand_failure_engages_backoff_without_reseed() {
    let mut crng = LvbsCrng::new(&TEST_PRK, INIT_SEED);
    let mut buf = vec![0u8; CRNG_RESEED_INTERVAL_BYTES];
    crng.fill_bytes(&mut buf, || None);
    assert_eq!(crng.reseed_counter(), 0);
    assert_eq!(crng.bytes_until_reseed(), CRNG_RESEED_BACKOFF_BYTES);
}

fn first_seed() -> [u8; 32] {
    let mut hash = sha2::Sha256::new();
    hash.update(b"litebox-lvbs-crng-seed-v1");
    hash.update(TEST_PRK);
    hash.update(INIT_SEED);
    hash.finalize().into()
}

#[test]
fn first_bytes_come_from_key_and_randomness() {
    let mut crng = LvbsCrng::new(&TEST_PRK, INIT_SEED);
    let mut buf = vec![0u8; 40];
    crng.fill_bytes(&mut buf, || None);
    let mut expected = vec![0u8; 40];
    rand_chacha::ChaCha20Rng::from_seed(first_seed()).fill_bytes(&mut expected);
    assert_eq!(buf, expected);
    assert_ne!(buf, vec![0u8; 40]);
    assert_eq!(crng.bytes_until_reseed(), CRNG_RESEED_INTERVAL_BYTES - 40);
}

#[test]
fn later_bytes_come_from_new_randomness_and_old_state() {
    let mut crng = LvbsCrng::new(&TEST_PRK, INIT_SEED);
    let mut buf = vec![0u8; CRNG_RESEED_INTERVAL_BYTES + 16];
    crng.fill_bytes(&mut buf, || Some(RESEED_SEED));

    let mut first = rand_chacha::ChaCha20Rng::from_seed(first_seed());
    let mut expected = vec![0u8; CRNG_RESEED_INTERVAL_BYTES];
    first.fill_bytes(&mut expected);
    let mut state = [0u8; 32];
    first.fill_bytes(&mut state);
    let mut hash = sha2::Sha256::new();
    hash.update(b"litebox-lvbs-crng-reseed-v1");
    hash.update(RESEED_SEED);
    hash.update(1u64.to_le_bytes());
    hash.update(state);
    let mut second = rand_chacha::ChaCha20Rng::from_seed(hash.finalize().into());
    let mut tail = vec![0u8; 16];
    second.fill_bytes(&mut tail);
    expected.extend_from_slice(&tail);
    assert_eq!(buf, expected);
}

#[test]
fn backoff_is_followed_by_another_attempt() {
    let mut crng = LvbsCrng::new(&TEST_PRK, INIT_SEED);
    let mut buf = vec![0u8; CRNG_RESEED_INTERVAL_BYTES + 2 * CRNG_RESEED_BACKOFF_BYTES + 5];
    crng.fill_bytes(&mut buf, || None);
    assert_eq!(crng.reseed_counter(), 0);
    assert_eq!(crng.bytes_until_reseed(), CRNG_RESEED_BACKOFF_BYTES - 5);
    crng.refresh(Some(RESEED_SEED));
    assert_eq!(crng.reseed_counter(), 1);
    assert_eq!(crng.bytes_until_reseed(), CRNG_RESEED_INTERVAL_BYTES);
}

#[test]
fn seed_is_collected_word_by_word() {
    let mut seed = RdrandSeed::new();
    assert_eq!(seed.step(Some(0x0807_0605_0403_0201)), RdrandStep::Again);
    assert_eq!(seed.step(None), RdrandStep::Again);
    assert_eq!(seed.step(Some(0)), RdrandStep::Again);
    assert_eq!(seed.step(Some(0)), RdrandStep::Again);
    assert_eq!(seed.step(Some(0xff00_0000_0000_0000)), RdrandStep::Done);
    let bytes = seed.finish();
    assert_eq!(bytes[..8], [1, 2, 3, 4, 5, 6, 7, 8]);
    assert_eq!(bytes[31], 0xff);
}

#[test]
fn ten_failures_in_a_row_give_up() {
    let mut seed = RdrandSeed::new();
    for _ in 0..9 {
        assert_eq!(seed.step(None), RdrandStep::Again);
    }
    assert_eq!(seed.step(None), RdrandStep::Unavailable);
}

#[test]
fn root_key_is_set_once() {
    let mut key = PlatformRootKey::new();
    assert_eq!(
        key.derive_key(true),
        Err(DerivedKeyError::UnsupportedRebootPersistentKey)
    );
    key.set_platform_root_key(&TEST_PRK);
    key.set_platform_root_key(&[7; PRK_LEN]);
    assert_eq!(key.derive_key(true), Ok(TEST_PRK));
    assert_eq!(key.derive_key(false), Err(DerivedKeyError::ShimKDFRequired));
}
