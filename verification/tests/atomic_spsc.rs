use rustedrazors::atomic_spsc;
use rustedrazors::{Reader, Writer};

#[test]
fn test_basics() {
    // Test basic API

    let (r, w) = atomic_spsc::new::<i32>(0);

    for _ in 0..5 {
        let res = r.read();
        assert_eq!(res, None, "Read should have failed");
    }

    w.write(22);

    let res = r.read();
    assert_eq!(
        res,
        Some(22),
        "Read should have returned the value previously written"
    );

    let res = r.read();
    assert_eq!(res, None, "Read should have failed");

    w.write(42);
    w.write(62);

    let res = r.read();
    assert_eq!(
        res,
        Some(62),
        "Read should have returned the value previously written"
    );
}

#[derive(Clone, Debug, PartialEq)]
struct Payload {
    words: Vec<u64>,
    label: String,
}

#[test]
fn test_first_read_finds_nothing() {
    let (r, _w) = atomic_spsc::new::<i32>(7);
    assert_eq!(r.read(), None);
    assert_eq!(r.read(), None);
}

#[test]
fn test_read_follows_write() {
    let (r, w) = atomic_spsc::new::<i32>(0);
    for v in [i32::MIN, -1, 0, 1, 22, i32::MAX] {
        w.write(v);
        assert_eq!(r.read(), Some(v));
        assert_eq!(r.read(), None);
    }
}

#[test]
fn test_last_write_wins() {
    let (r, w) = atomic_spsc::new::<u64>(0);
    for v in 1..=100u64 {
        w.write(v);
    }
    assert_eq!(r.read(), Some(100));
    assert_eq!(r.read(), None);
    assert_eq!(r.read(), None);
}

#[test]
fn test_write_of_initial_value_is_delivered() {
    let (r, w) = atomic_spsc::new::<i32>(5);
    w.write(5);
    assert_eq!(r.read(), Some(5));
}

#[test]
fn test_try_write_always_finds_a_cell() {
    let (r, w) = atomic_spsc::new::<i32>(0);
    for v in 0..50 {
        assert_eq!(w.try_write(v), Ok(()));
        if v % 3 == 0 {
            assert_eq!(r.read(), Some(v));
        }
    }
    assert_eq!(r.read(), Some(49));
}

#[test]
fn test_cloned_payload_is_whole() {
    let first = Payload { words: vec![1, 2, 3], label: String::from("first") };
    let second = Payload { words: vec![9; 1024], label: String::from("second") };
    let (r, w) = atomic_spsc::new::<Payload>(first.clone());
    assert_eq!(r.read(), None);
    w.write(first.clone());
    w.write(second.clone());
    assert_eq!(r.read(), Some(second));
    assert_eq!(r.read(), None);
    w.write(first.clone());
    assert_eq!(r.read(), Some(first));
}

#[test]
fn test_handles_outlive_each_other() {
    let (r, w) = atomic_spsc::new::<i32>(0);
    w.write(11);
    drop(w);
    assert_eq!(r.read(), Some(11));
    assert_eq!(r.read(), None);

    let (r, w) = atomic_spsc::new::<i32>(0);
    drop(r);
    w.write(1);
    w.write(2);
    w.write(3);
    w.write(4);
}

fn is_send<H: Send>(_handle: &H) -> bool {
    true
}

#[test]
fn test_handles_move_between_threads() {
    let (r, w) = atomic_spsc::new::<i32>(0);
    assert!(is_send(&r));
    assert!(is_send(&w));
}
