use benches::ring::RingState;

#[test]
fn new_ring_is_empty() {
    let r: RingState<usize> = RingState::new(3, 7);
    assert_eq!(r.capacity(), 3);
    assert_eq!(r.occupied(), 0);
    assert_eq!(r.put_at(), 0);
    assert_eq!(r.take_at(), 0);
}

#[test]
fn put_refuses_when_full() {
    let mut r: RingState<usize> = RingState::new(2, 0);
    assert!(r.try_put(10));
    assert!(r.try_put(11));
    assert!(!r.try_put(12));
    assert_eq!(r.occupied(), 2);
    assert_eq!(r.put_at(), 0);
}

#[test]
fn take_refuses_when_empty() {
    let mut r: RingState<usize> = RingState::new(2, 0);
    assert_eq!(r.try_take(), None);
    assert_eq!(r.take_at(), 0);
}

#[test]
fn items_come_out_in_order_across_wraparound() {
    let mut r: RingState<usize> = RingState::new(2, 0);
    assert!(r.try_put(1));
    assert!(r.try_put(2));
    assert_eq!(r.try_take(), Some(1));
    assert!(r.try_put(3));
    assert_eq!(r.try_take(), Some(2));
    assert_eq!(r.try_take(), Some(3));
    assert_eq!(r.try_take(), None);
}

#[test]
fn occupancy_stays_within_capacity() {
    let mut r: RingState<usize> = RingState::new(3, 0);
    for i in 0..10 {
        r.try_put(i);
        assert!(r.occupied() <= r.capacity());
    }
    for _ in 0..10 {
        r.try_take();
        assert!(r.occupied() <= r.capacity());
    }
    assert_eq!(r.occupied(), 0);
}

#[test]
fn put_cursor_after_capacity_plus_one_puts() {
    // capacity 3, four puts with one take in between: all four succeed
    let mut r: RingState<usize> = RingState::new(3, 0);
    let start = r.put_at();
    let mut ok = 0;
    for i in 0..3 {
        if r.try_put(i) {
            ok += 1;
        }
    }
    assert_eq!(r.try_take(), Some(0));
    if r.try_put(3) {
        ok += 1;
    }
    assert_eq!(ok, 4);
    assert_eq!(r.put_at(), (start + ok) % 3);
    assert_eq!(r.take_at(), 1);
}

#[test]
fn put_cursor_counts_only_successful_puts() {
    // capacity 2, three puts and no room for the third until a take
    let mut r: RingState<usize> = RingState::new(2, 0);
    assert!(r.try_put(5));
    assert!(r.try_put(6));
    assert!(!r.try_put(7));
    assert_eq!(r.try_take(), Some(5));
    assert_eq!(r.put_at(), 2 % 2);
}
