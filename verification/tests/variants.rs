use rustedrazors::{blocking_spsc, mutex_spsc, ticket_spsc};
use rustedrazors::{Reader, Writer};

fn canonical<R: Reader<i32>, W: Writer<i32>>(r: R, w: W) {
    assert_eq!(r.read(), None);
    w.write(22);
    assert_eq!(r.read(), Some(22));
    assert_eq!(r.read(), None);
    w.write(42);
    w.write(62);
    assert_eq!(r.read(), Some(62));
    assert_eq!(r.read(), None);
}

fn last_of_many<R: Reader<u64>, W: Writer<u64>>(r: R, w: W) {
    for v in 1..=1000u64 {
        w.write(v);
    }
    assert_eq!(r.read(), Some(1000));
    assert_eq!(r.read(), None);
    for v in 1..=1000u64 {
        w.write(v);
        assert_eq!(r.read(), Some(v));
    }
    assert_eq!(r.read(), None);
}

fn is_send<H: Send>(_handle: &H) -> bool {
    true
}

#[test]
fn test_blocking_canonical() {
    let (r, w) = blocking_spsc::new::<i32>(0);
    canonical(r, w);
}

#[test]
fn test_mutex_canonical() {
    let (r, w) = mutex_spsc::new::<i32>(0);
    canonical(r, w);
}

#[test]
fn test_ticket_canonical() {
    let (r, w) = ticket_spsc::new::<i32>(0);
    canonical(r, w);
}

#[test]
fn test_blocking_last_write_wins() {
    let (r, w) = blocking_spsc::new::<u64>(0);
    last_of_many(r, w);
}

#[test]
fn test_mutex_last_write_wins() {
    let (r, w) = mutex_spsc::new::<u64>(0);
    last_of_many(r, w);
}

#[test]
fn test_ticket_last_write_wins() {
    let (r, w) = ticket_spsc::new::<u64>(0);
    last_of_many(r, w);
}

#[test]
fn test_blocking_try_write_with_reader_idle() {
    let (r, w) = blocking_spsc::new::<i32>(0);
    for v in 0..10 {
        assert_eq!(w.try_write(v), Ok(()));
    }
    assert_eq!(r.read(), Some(9));
    assert_eq!(w.try_write(10), Ok(()));
    assert_eq!(r.read(), Some(10));
}

#[test]
fn test_blocking_write_within_no_rounds() {
    let (r, w) = blocking_spsc::new::<i32>(0);
    assert_eq!(w.write_within(5, 0), Err(5));
    assert_eq!(r.read(), None);
    assert_eq!(w.write_within(5, 1), Ok(()));
    assert_eq!(r.read(), Some(5));
}

#[test]
fn test_ticket_try_write() {
    let (r, w) = ticket_spsc::new::<i32>(0);
    assert_eq!(w.try_write(3), Ok(()));
    assert_eq!(w.try_write(4), Ok(()));
    assert_eq!(r.read(), Some(4));
    assert_eq!(r.read(), None);
}

#[test]
fn test_ticket_many_rounds() {
    let (r, w) = ticket_spsc::new::<String>(String::new());
    for round in 0..500 {
        w.write(format!("value {}", round));
        assert_eq!(r.read(), Some(format!("value {}", round)));
        assert_eq!(r.read(), None);
    }
}

#[test]
fn test_initial_value_is_never_delivered() {
    let (r, _w) = blocking_spsc::new::<i32>(9);
    assert_eq!(r.read(), None);
    let (r, _w) = mutex_spsc::new::<i32>(9);
    assert_eq!(r.read(), None);
    let (r, _w) = ticket_spsc::new::<i32>(9);
    assert_eq!(r.read(), None);
}

#[test]
fn test_all_handles_are_send() {
    let (r, w) = blocking_spsc::new::<i32>(0);
    assert!(is_send(&r) && is_send(&w));
    let (r, w) = mutex_spsc::new::<i32>(0);
    assert!(is_send(&r) && is_send(&w));
    let (r, w) = ticket_spsc::new::<i32>(0);
    assert!(is_send(&r) && is_send(&w));
}

fn same_from_here<R: Reader<i32>, W: Writer<i32>>(twice: (R, W), once: (R, W)) {
    twice.1.write(1);
    twice.1.write(2);
    once.1.write(2);
    for round in 0..20 {
        assert_eq!(twice.0.read(), once.0.read());
        if round % 3 != 0 {
            twice.1.write(round);
            once.1.write(round);
        }
    }
}

#[test]
fn test_overwritten_value_is_gone_in_every_exchange() {
    same_from_here(rustedrazors::atomic_spsc::new::<i32>(0), rustedrazors::atomic_spsc::new::<i32>(0));
    same_from_here(blocking_spsc::new::<i32>(0), blocking_spsc::new::<i32>(0));
    same_from_here(mutex_spsc::new::<i32>(0), mutex_spsc::new::<i32>(0));
    same_from_here(ticket_spsc::new::<i32>(0), ticket_spsc::new::<i32>(0));
}

#[test]
fn test_pairs_do_not_share_state() {
    let (r1, w1) = blocking_spsc::new::<i32>(0);
    let (r2, w2) = blocking_spsc::new::<i32>(0);
    w1.write(5);
    assert_eq!(r2.read(), None);
    w2.write(6);
    assert_eq!(r1.read(), Some(5));
    assert_eq!(r2.read(), Some(6));
}
