use rustedrazors::solo::{SoloBuffer, SoloPool};

#[test]
fn test_solo_pool_canonical() {
    for size in [2usize, 3, 8] {
        let mut pool = SoloPool::<i32>::new(size, 0);
        assert_eq!(pool.read(), None);
        pool.write(22);
        assert_eq!(pool.read(), Some(22));
        assert_eq!(pool.read(), None);
        pool.write(42);
        pool.write(62);
        assert_eq!(pool.read(), Some(62));
        assert_eq!(pool.read(), None);
    }
}

#[test]
fn test_solo_pool_rotates_through_its_cells() {
    let mut pool = SoloPool::<u64>::new(2, 0);
    for v in 1..=100u64 {
        pool.write(v);
        if v % 7 == 0 {
            assert_eq!(pool.read(), Some(v));
            assert_eq!(pool.read(), None);
        }
    }
    assert_eq!(pool.read(), Some(100));
}

#[test]
fn test_solo_buffer_canonical() {
    let mut buffer = SoloBuffer::<i32>::new(0);
    assert_eq!(buffer.read(), None);
    buffer.write(22);
    assert_eq!(buffer.read(), Some(22));
    assert_eq!(buffer.read(), None);
    buffer.write(42);
    buffer.write(62);
    assert_eq!(buffer.read(), Some(62));
    assert_eq!(buffer.read(), None);
}

#[test]
fn test_solo_buffer_keeps_owned_values() {
    let mut buffer = SoloBuffer::<Vec<u8>>::new(Vec::new());
    buffer.write(vec![1, 2, 3]);
    buffer.write(vec![4, 5]);
    assert_eq!(buffer.read(), Some(vec![4, 5]));
    assert_eq!(buffer.read(), None);
}

#[test]
fn test_scan_claims_the_first_free_cell() {
    let mut pool = SoloPool::<i32>::new(3, 0);
    assert_eq!(rustedrazors::board::acquire(&mut pool), Some(0));
    assert_eq!(rustedrazors::board::acquire(&mut pool), Some(1));
    assert_eq!(rustedrazors::board::acquire(&mut pool), Some(2));
    assert_eq!(rustedrazors::board::acquire(&mut pool), None);
    assert_eq!(rustedrazors::board::acquire(&mut pool), None);
}

#[test]
fn test_write_with_no_free_cell_hands_the_value_back() {
    let mut pool = SoloPool::<i32>::new(2, 0);
    assert_eq!(rustedrazors::board::acquire(&mut pool), Some(0));
    assert_eq!(rustedrazors::board::acquire(&mut pool), Some(1));
    assert_eq!(rustedrazors::board::write(&mut pool, 7), Err(7));
    assert_eq!(rustedrazors::board::read(&mut pool), None);
}

#[test]
fn test_publish_frees_the_displaced_cell() {
    let mut pool = SoloPool::<i32>::new(2, 0);
    assert_eq!(rustedrazors::board::acquire(&mut pool), Some(0));
    rustedrazors::board::publish(&mut pool, 0, 10);
    assert_eq!(rustedrazors::board::acquire(&mut pool), Some(1));
    rustedrazors::board::publish(&mut pool, 1, 11);
    assert_eq!(rustedrazors::board::acquire(&mut pool), Some(0));
    assert_eq!(rustedrazors::board::acquire(&mut pool), None);
    assert_eq!(rustedrazors::board::read(&mut pool), Some(11));
    assert_eq!(rustedrazors::board::acquire(&mut pool), Some(1));
}

#[test]
fn test_buffer_protocol_on_owned_slot() {
    let mut buffer = SoloBuffer::<i32>::new(1);
    assert_eq!(rustedrazors::buffer::read(&mut buffer), None);
    assert_eq!(rustedrazors::buffer::write(&mut buffer, 2), Ok(()));
    assert_eq!(rustedrazors::buffer::write(&mut buffer, 3), Ok(()));
    assert_eq!(rustedrazors::buffer::read(&mut buffer), Some(3));
    assert_eq!(rustedrazors::buffer::read(&mut buffer), None);
}

#[test]
fn test_place_follows_the_scan() {
    let mut pool = SoloPool::<i32>::new(3, 0);
    assert_eq!(rustedrazors::board::place(&mut pool, None, 5), Err(5));
    assert_eq!(rustedrazors::board::read(&mut pool), None);
    let claimed = rustedrazors::board::acquire(&mut pool);
    assert_eq!(claimed, Some(0));
    assert_eq!(rustedrazors::board::place(&mut pool, claimed, 6), Ok(()));
    assert_eq!(rustedrazors::board::read(&mut pool), Some(6));
}

#[test]
fn test_deliver_follows_what_was_taken() {
    let mut pool = SoloPool::<i32>::new(2, 0);
    assert_eq!(rustedrazors::board::deliver(&mut pool, None), None);
    assert_eq!(rustedrazors::board::acquire(&mut pool), Some(0));
    assert_eq!(rustedrazors::board::acquire(&mut pool), Some(1));
    rustedrazors::board::publish(&mut pool, 1, 31);
    assert_eq!(rustedrazors::board::deliver(&mut pool, Some(1)), Some(31));
    assert_eq!(rustedrazors::board::acquire(&mut pool), Some(1));
}

#[test]
fn test_fetch_follows_the_flag_it_is_given() {
    let mut buffer = SoloBuffer::<i32>::new(1);
    assert_eq!(rustedrazors::buffer::fetch(&mut buffer, false), None);
    assert_eq!(rustedrazors::buffer::write(&mut buffer, 2), Ok(()));
    assert_eq!(rustedrazors::buffer::fetch(&mut buffer, false), None);
    assert_eq!(rustedrazors::buffer::fetch(&mut buffer, true), Some(2));
    assert_eq!(rustedrazors::buffer::read(&mut buffer), None);
}

#[test]
fn test_deposit_and_collect_inside_the_lock() {
    let mut buffer = SoloBuffer::<i32>::new(1);
    assert!(rustedrazors::buffer::Slot::enter(&mut buffer));
    rustedrazors::buffer::deposit(&mut buffer, 8);
    assert!(rustedrazors::buffer::Slot::is_unread(&buffer));
    assert!(rustedrazors::buffer::Slot::enter(&mut buffer));
    assert_eq!(rustedrazors::buffer::collect(&mut buffer), 8);
    assert!(!rustedrazors::buffer::Slot::is_unread(&buffer));
    assert_eq!(buffer.read(), None);
}

#[test]
fn test_overwritten_value_leaves_no_trace() {
    let mut twice = SoloPool::<i32>::new(3, 0);
    let mut once = SoloPool::<i32>::new(3, 0);
    twice.write(1);
    twice.write(2);
    once.write(2);
    for round in 0..20 {
        assert_eq!(twice.read(), once.read());
        if round % 3 != 0 {
            twice.write(round);
            once.write(round);
        }
    }

    let mut twice = SoloBuffer::<i32>::new(0);
    let mut once = SoloBuffer::<i32>::new(0);
    twice.write(1);
    twice.write(2);
    once.write(2);
    for round in 0..20 {
        assert_eq!(twice.read(), once.read());
        if round % 3 != 0 {
            twice.write(round);
            once.write(round);
        }
    }
}
