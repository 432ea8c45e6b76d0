use aunisoma::ring_buffer::RingBuffer;

#[test]
fn ring_fifo_order_and_capacity() {
    let mut ring: RingBuffer<u8, 4> = RingBuffer::new();
    assert!(ring.is_empty());
    assert_eq!(ring.push(1), Ok(()));
    assert_eq!(ring.push(2), Ok(()));
    assert_eq!(ring.push(3), Ok(()));
    assert!(ring.is_full());
    assert_eq!(ring.push(4), Err(4));
    assert_eq!(ring.len(), 3);
    assert_eq!(ring.next_read(), Some(1));
    assert_eq!(ring.push(4), Ok(()));
    assert_eq!(ring.next_read(), Some(2));
    assert_eq!(ring.next_read(), Some(3));
    assert_eq!(ring.next_read(), Some(4));
    assert_eq!(ring.next_read(), None);
    assert_eq!(ring.len(), 0);
}

#[test]
fn ring_wraps_and_flushes() {
    let mut ring: RingBuffer<u32, 3> = RingBuffer::new();
    for round in 0..10u32 {
        assert_eq!(ring.push(round), Ok(()));
        assert_eq!(ring.len(), 1);
        assert_eq!(ring.next_read(), Some(round));
    }
    assert_eq!(ring.push(7), Ok(()));
    assert_eq!(ring.push(8), Ok(()));
    ring.flush();
    assert!(ring.is_empty());
    assert_eq!(ring.next_read(), None);
}
