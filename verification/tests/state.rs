use std::time::{Duration, SystemTime, UNIX_EPOCH};
use xor::host::{clock_secs, seed_from_bytes, seed_from_fill};
use xor::{SeedError, XorState};

fn unix_secs() -> u64 {
    SystemTime::now().duration_since(UNIX_EPOCH).unwrap().as_secs()
}

#[test]
fn new_state_takes_every_key() {
    let state = XorState::new(1024, Duration::from_secs(60)).unwrap();
    for key in [0u32, 1, 63, 64, 65535, 65536, u32::MAX] {
        assert!(state.is_fresh(key));
    }
}

#[test]
fn used_key_is_not_fresh() {
    let mut state = XorState::with_seed(1024, 60, 1, 0);
    state.mark_used(42);
    assert!(!state.is_fresh(42));
    assert!(state.is_fresh(43));
    assert!(state.is_fresh(41));
    assert!(state.is_fresh(42 + 64));
}

#[test]
fn keys_that_share_a_slot_share_their_fate() {
    let mut state = XorState::with_seed(2, 60, 1, 0);
    state.mark_used(5);
    assert!(!state.is_fresh(5 + 128));
    assert!(!state.is_fresh(5 + 1280));
    assert!(state.is_fresh(5 + 64));
    state.mark_used(u32::MAX);
    assert!(!state.is_fresh(127));
}

#[test]
fn every_slot_is_its_own() {
    let mut state = XorState::with_seed(3, 60, 1, 0);
    for key in 0..192u32 {
        assert!(state.is_fresh(key));
        state.mark_used(key);
        assert!(!state.is_fresh(key));
    }
    for key in 0..400u32 {
        assert!(!state.is_fresh(key));
    }
}

#[test]
fn key_is_remembered_until_the_second_rotation() {
    let mut state = XorState::with_seed(16, 60, 1, 0);
    state.mark_used(7);
    state.rotate_bitsets();
    assert!(!state.is_fresh(7));
    state.mark_used(8);
    state.rotate_bitsets();
    assert!(state.is_fresh(7));
    assert!(!state.is_fresh(8));
    state.rotate_bitsets();
    assert!(state.is_fresh(8));
}

#[test]
fn rotation_waits_for_the_interval() {
    let mut state = XorState::with_seed(16, 60, 1, 1000);
    state.mark_used(7);
    state.rotate_if_due(1059);
    state.rotate_if_due(1059);
    state.rotate_if_due(0);
    assert!(!state.is_fresh(7));
    state.rotate_if_due(1060);
    state.rotate_if_due(1119);
    assert!(!state.is_fresh(7));
    state.rotate_if_due(1120);
    assert!(state.is_fresh(7));
}

#[test]
fn late_rotation_starts_a_new_interval() {
    let mut state = XorState::with_seed(16, 60, 1, 1000);
    state.mark_used(7);
    state.rotate_if_due(5000);
    state.rotate_if_due(5059);
    assert!(!state.is_fresh(7));
    state.rotate_if_due(5060);
    assert!(state.is_fresh(7));
}

#[test]
fn interval_is_at_least_a_second() {
    let mut state = XorState::with_seed(16, 0, 1, 1000);
    state.mark_used(7);
    state.rotate_if_due(1000);
    state.rotate_if_due(1000);
    assert!(!state.is_fresh(7));
    state.rotate_if_due(1001);
    state.rotate_if_due(1002);
    assert!(state.is_fresh(7));
}

#[test]
fn interval_and_clock_of_a_new_state() {
    let mut state = XorState::new(16, Duration::from_millis(3_600_999)).unwrap();
    let now = unix_secs();
    state.mark_used(7);
    // Both would be due if the interval or the time were taken for something else.
    state.rotate_if_due(now + 3590);
    state.rotate_if_due(now + 3590);
    state.mark_used(8);
    state.rotate_if_due(now + 3610);
    assert!(!state.is_fresh(7));
    state.rotate_if_due(now + 3610 + 3599);
    assert!(!state.is_fresh(7));
    state.rotate_if_due(now + 3610 + 3600);
    assert!(state.is_fresh(7));
    assert!(state.is_fresh(8));
}

#[test]
fn the_clock_rotates_an_old_state() {
    let mut state = XorState::with_seed(16, 60, 1, 0);
    state.mark_used(7);
    state.maybe_rotate();
    assert!(!state.is_fresh(7));
    state.maybe_rotate();
    assert!(!state.is_fresh(7));
    state.rotate_if_due(unix_secs() + 61);
    assert!(state.is_fresh(7));
}

#[test]
fn the_clock_leaves_a_new_state_alone() {
    let mut state = XorState::new(16, Duration::from_secs(3600)).unwrap();
    state.mark_used(7);
    for _ in 0..5 {
        state.maybe_rotate();
    }
    assert!(!state.is_fresh(7));
}

#[test]
fn response_keys_are_draws_from_the_seed() {
    let mut state = XorState::with_seed(1, 60, 1, 0);
    assert_eq!(state.next_resp_key(), 0x514e28b7);
    state.mark_used(3);
    assert_eq!(state.next_resp_key(), 0x96a0f96b);
    state.rotate_bitsets();
    assert_eq!(state.next_resp_key(), 0x12bc8390);
}

#[test]
fn response_keys_do_not_repeat() {
    let mut state = XorState::new(1, Duration::from_secs(60)).unwrap();
    let mut keys: Vec<u32> = (0..50_000).map(|_| state.next_resp_key()).collect();
    keys.sort();
    keys.dedup();
    assert_eq!(keys.len(), 50_000);
}

#[test]
fn states_are_seeded_apart() {
    let firsts: Vec<u32> = (0..8)
        .map(|_| XorState::new(1, Duration::from_secs(60)).unwrap().next_resp_key())
        .collect();
    assert!(firsts.iter().any(|k| *k != firsts[0]));
}

#[test]
fn state_without_words_still_draws() {
    let mut state = XorState::with_seed(0, 60, 1, 0);
    state.rotate_bitsets();
    assert_eq!(state.next_resp_key(), 0x514e28b7);
}

#[test]
fn seed_is_little_endian() {
    assert_eq!(seed_from_bytes([0x78, 0x56, 0x34, 0x12]), 0x12345678);
    assert_eq!(seed_from_bytes([0xFF, 0xFF, 0xFF, 0xFF]), u32::MAX);
    assert_eq!(seed_from_bytes([0, 0, 0, 1]), 0x0100_0000);
}

#[test]
fn clock_readings() {
    assert_eq!(clock_secs(Some(Duration::from_millis(1999))), 1);
    assert_eq!(clock_secs(Some(Duration::from_secs(12))), 12);
    assert_eq!(clock_secs(None), 0);
}

#[test]
fn seed_comes_from_a_successful_fill_only() {
    let bytes = [0x78, 0x56, 0x34, 0x12];
    assert_eq!(seed_from_fill(Ok(()), bytes), Ok(0x12345678));
    assert_eq!(seed_from_fill(Err(getrandom::Error::UNSUPPORTED), bytes), Err(SeedError));
}

#[test]
fn start_with_the_machines_seed() {
    let interval = Duration::from_millis(60_999);
    let mut state = XorState::from_seed(16, interval, Ok(1), 1000).unwrap();
    assert_eq!(state.next_resp_key(), 0x514e28b7);
    state.mark_used(7);
    state.rotate_if_due(1059);
    state.rotate_if_due(1060);
    state.rotate_if_due(1119);
    assert!(!state.is_fresh(7));
    state.rotate_if_due(1120);
    assert!(state.is_fresh(7));
}

#[test]
fn start_without_a_seed_fails() {
    let state = XorState::from_seed(16, Duration::from_secs(60), Err(SeedError), 1000);
    assert_eq!(state.err(), Some(SeedError));
}

#[test]
fn freshness_over_several_rotations() {
    let mut state = XorState::with_seed(1, 10, 1, 0);
    state.mark_used(1);
    state.rotate_if_due(10);
    state.mark_used(2);
    // Used again, so that the first use no longer counts.
    state.mark_used(1 + 64);
    state.rotate_if_due(20);
    state.mark_used(3);
    assert!(!state.is_fresh(1));
    assert!(!state.is_fresh(2));
    state.rotate_if_due(30);
    assert!(state.is_fresh(1));
    assert!(state.is_fresh(2));
    assert!(!state.is_fresh(3));
    state.rotate_if_due(40);
    assert!(state.is_fresh(3));
}
