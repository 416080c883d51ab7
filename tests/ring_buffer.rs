use bibi_sync::RingBuffer;

#[test]
fn test_push_pop_fifo() {
    let mut rb: RingBuffer<i32> = RingBuffer::new(5);
    rb.push(10);
    rb.push(20);
    rb.push(30);
    assert_eq!(rb.pop(), Some(10));
    assert_eq!(rb.pop(), Some(20));
    assert_eq!(rb.pop(), Some(30));
    assert_eq!(rb.pop(), None);
}

#[test]
fn test_wraparound() {
    let mut rb: RingBuffer<i32> = RingBuffer::new(3);
    rb.push(1);
    rb.push(2);
    rb.push(3);
    assert_eq!(rb.pop(), Some(1));
    rb.push(4);
    assert_eq!(rb.pop(), Some(2));
    assert_eq!(rb.pop(), Some(3));
    assert_eq!(rb.pop(), Some(4));
    assert_eq!(rb.pop(), None);
}

#[test]
fn test_epoch_increment() {
    let mut rb: RingBuffer<i32> = RingBuffer::new(5);
    let e1 = rb.push(10);
    let e2 = rb.push(20);
    assert_eq!(e1, 1);
    assert_eq!(e2, 2);
    assert_eq!(rb.latest_epoch(), 2);
}

#[test]
fn test_overflow_skips_old() {
    let mut rb: RingBuffer<i32> = RingBuffer::new(3);
    rb.push(1);
    rb.push(2);
    rb.push(3);
    rb.push(4);
    rb.push(5);
    let mut values = vec![];
    while let Some(v) = rb.pop() {
        values.push(v);
    }
    assert_eq!(values, vec![4, 5]);
}

#[test]
fn test_full_capacity_usable() {
    let mut rb: RingBuffer<i32> = RingBuffer::new(3);
    rb.push(1);
    rb.push(2);
    rb.push(3);
    assert_eq!(rb.len(), 3);
    assert!(rb.is_full());
}

#[test]
fn test_peek_latest() {
    let mut rb: RingBuffer<i32> = RingBuffer::new(5);
    rb.push(10);
    rb.push(20);
    rb.push(30);
    let (val, epoch) = rb.peek_latest().unwrap();
    assert_eq!(val, 30);
    assert_eq!(epoch, 3);
}

#[test]
fn test_zero_copy_peek_ref() {
    let mut rb: RingBuffer<i32> = RingBuffer::new(5);
    rb.push(10);
    rb.push(20);
    rb.push(30);
    let (val_ref, _) = rb.peek_latest_ref().unwrap();
    assert_eq!(*val_ref, 30);
}

#[test]
fn fifo_within_capacity_tracks_latest_epoch() {
    let mut rb: RingBuffer<i32> = RingBuffer::new(5);
    rb.push(10);
    rb.push(20);
    rb.push(30);
    assert_eq!(rb.latest_epoch(), 3);
    assert_eq!(rb.pop(), Some(10));
    assert_eq!(rb.latest_epoch(), 3);
    assert_eq!(rb.pop(), Some(20));
    assert_eq!(rb.pop(), Some(30));
    assert_eq!(rb.pop(), None);
    assert_eq!(rb.latest_epoch(), 3);
}

#[test]
fn overflow_keeps_newest_and_epoch() {
    let mut rb: RingBuffer<i32> = RingBuffer::new(3);
    for v in 1..=5 {
        rb.push(v);
    }
    assert_eq!(rb.latest_epoch(), 5);
    assert_eq!(rb.len(), 3);
    let mut drained = vec![];
    while let Some(v) = rb.pop() {
        drained.push(v);
    }
    assert_eq!(drained, vec![4, 5]);
    assert!(drained.len() <= rb.capacity());
}

#[test]
fn push_epochs_have_no_gaps_across_pops() {
    let mut rb: RingBuffer<u8> = RingBuffer::new(2);
    let mut epochs = vec![];
    for v in 0..7u8 {
        epochs.push(rb.push(v));
        if v % 3 == 0 {
            rb.pop();
        }
    }
    assert_eq!(epochs, vec![1, 2, 3, 4, 5, 6, 7]);
    assert_eq!(rb.latest_epoch(), 7);
}

#[test]
fn len_never_exceeds_capacity() {
    let mut rb: RingBuffer<u32> = RingBuffer::new(4);
    assert_eq!(rb.len(), 0);
    assert!(rb.is_empty());
    for v in 0..10u32 {
        rb.push(v);
        assert!(rb.len() <= rb.capacity());
    }
    assert_eq!(rb.len(), 4);
    rb.pop();
    assert!(rb.len() <= rb.capacity());
}

#[test]
fn peek_latest_does_not_consume() {
    let mut rb: RingBuffer<i32> = RingBuffer::new(4);
    rb.push(7);
    rb.push(8);
    for _ in 0..5 {
        assert_eq!(rb.peek_latest(), Some((8, 2)));
        assert_eq!(rb.len(), 2);
    }
    assert_eq!(rb.pop(), Some(7));
}

#[test]
fn pop_on_never_written_buffer_is_absent() {
    let mut rb: RingBuffer<i32> = RingBuffer::new(3);
    assert_eq!(rb.pop(), None);
    assert_eq!(rb.peek_latest(), None);
    assert!(rb.peek_oldest_ref().is_none());
    assert_eq!(rb.latest_epoch(), 0);
}

#[test]
fn single_slot_keeps_latest() {
    let mut rb: RingBuffer<i32> = RingBuffer::new(1);
    for v in [5, 6, 7] {
        let e = rb.push(v);
        assert_eq!(rb.peek_latest(), Some((v, e)));
    }
    assert_eq!(rb.pop(), Some(7));
    assert_eq!(rb.pop(), None);
}

#[test]
fn peek_oldest_matches_next_pop() {
    let mut rb: RingBuffer<i32> = RingBuffer::new(3);
    for v in 1..=5 {
        rb.push(v);
    }
    let (v, e) = rb.peek_oldest_ref().map(|(v, e)| (*v, e)).unwrap();
    assert_eq!((v, e), (4, 4));
    assert_eq!(rb.pop(), Some(4));
}
