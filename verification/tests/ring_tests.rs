use security_camera::ring::RingBuffer;

#[test]
fn drain_before_full_keeps_write_order() {
    let mut r: RingBuffer<u32> = RingBuffer::new(5);
    for v in [10, 20, 30] {
        assert!(r.push(v).is_none());
    }
    assert_eq!(r.len(), 3);
    let out = r.drain();
    assert_eq!(out, vec![10, 20, 30]);
    assert_eq!(r.len(), 0);
}

#[test]
fn drain_after_wrap_keeps_write_order() {
    let mut r: RingBuffer<u32> = RingBuffer::new(3);
    assert!(r.push(1).is_none());
    assert!(r.push(2).is_none());
    assert!(r.push(3).is_none());
    assert_eq!(r.push(4), Some(1));
    assert_eq!(r.push(5), Some(2));
    let out = r.drain();
    assert_eq!(out, vec![3, 4, 5]);
}

#[test]
fn drain_exactly_full_without_wrap() {
    let mut r: RingBuffer<u32> = RingBuffer::new(3);
    r.push(7);
    r.push(8);
    r.push(9);
    let out = r.drain();
    assert_eq!(out, vec![7, 8, 9]);
}

#[test]
fn wrap_all_the_way_around() {
    let mut r: RingBuffer<u32> = RingBuffer::new(2);
    for v in 1..=7 {
        r.push(v);
    }
    let out = r.drain();
    assert_eq!(out, vec![6, 7]);
}

#[test]
fn reusable_after_drain() {
    let mut r: RingBuffer<u32> = RingBuffer::new(2);
    r.push(1);
    r.push(2);
    r.push(3);
    let _ = r.drain();
    r.push(40);
    r.push(50);
    r.push(60);
    let out = r.drain();
    assert_eq!(out, vec![50, 60]);
}

#[test]
fn capacity_one() {
    let mut r: RingBuffer<u8> = RingBuffer::new(1);
    assert!(r.push(1).is_none());
    assert_eq!(r.push(2), Some(1));
    assert_eq!(r.push(3), Some(2));
    assert_eq!(r.drain(), vec![3]);
}
