use rustedrazors::blocking_spsc::{pause_after, Pause, BUSY_RETRIES};
use rustedrazors::pool::{slot_of, word_of, EMPTY};
use rustedrazors::ticket_spsc::{following, is_served};
use rustedrazors::{atomic_spsc, blocking_spsc};

#[test]
fn test_pool_sizes() {
    assert_eq!(atomic_spsc::POOL_SIZE, 3);
    assert_eq!(blocking_spsc::POOL_SIZE, 2);
    assert_eq!(BUSY_RETRIES, 20);
    assert_eq!(EMPTY, -1);
}

#[test]
fn test_pause_after() {
    assert_eq!(pause_after(0), Pause::Spin);
    assert_eq!(pause_after(19), Pause::Spin);
    assert_eq!(pause_after(20), Pause::Yield);
    assert_eq!(pause_after(21), Pause::Yield);
    assert_eq!(pause_after(u64::MAX), Pause::Yield);
}

#[test]
fn test_slot_of() {
    assert_eq!(slot_of(-1, 3), None);
    assert_eq!(slot_of(0, 3), Some(0));
    assert_eq!(slot_of(2, 3), Some(2));
    assert_eq!(slot_of(3, 3), None);
    assert_eq!(slot_of(2, 2), None);
    assert_eq!(slot_of(isize::MIN, 3), None);
    assert_eq!(slot_of(isize::MAX, 3), None);
    assert_eq!(slot_of(0, 0), None);
}

#[test]
fn test_word_of() {
    assert_eq!(word_of(0), 0);
    assert_eq!(word_of(2), 2);
    assert_eq!(slot_of(word_of(1), 2), Some(1));
}

#[test]
fn test_is_served() {
    assert!(is_served(0, 0));
    assert!(!is_served(1, 0));
    assert!(!is_served(0, 1));
    assert!(is_served(u64::MAX, u64::MAX));
}

#[test]
fn test_following() {
    assert_eq!(following(0), 1);
    assert_eq!(following(41), 42);
    assert_eq!(following(u64::MAX), 0);
}
