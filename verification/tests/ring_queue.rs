use negicon_hub::ringbuf::{Overflow, RingBuffer};

#[test]
fn new_queue_is_empty() {
    let mut q: RingBuffer<u32, 4> = RingBuffer::new();
    assert_eq!(q.len(), 0);
    assert!(q.is_empty());
    assert!(!q.is_full());
    assert_eq!(q.capacity(), 4);
    assert_eq!(q.peek(), None);
    assert_eq!(q.pop(), None);
}

#[test]
fn capacity_then_overflow_keeps_items_in_order() {
    let mut q: RingBuffer<u32, 4> = RingBuffer::new();
    for i in 0..4u32 {
        assert_eq!(q.push(10 + i), Ok(()));
    }
    assert!(q.is_full());
    assert_eq!(q.push(99), Err(Overflow));
    assert_eq!(q.len(), 4);
    for i in 0..4u32 {
        assert_eq!(q.pop(), Some(10 + i));
    }
    assert_eq!(q.pop(), None);
    assert_eq!(q.pop(), None);
}

#[test]
fn capacity_sixty_four() {
    let mut q: RingBuffer<[u8; 8], 64> = RingBuffer::new();
    for i in 0..64u8 {
        assert_eq!(q.push([i; 8]), Ok(()));
    }
    assert_eq!(q.push([0xee; 8]), Err(Overflow));
    for i in 0..64u8 {
        assert_eq!(q.pop(), Some([i; 8]));
    }
    assert_eq!(q.pop(), None);
}

#[test]
fn peek_does_not_remove() {
    let mut q: RingBuffer<u8, 3> = RingBuffer::new();
    q.push(7).unwrap();
    q.push(8).unwrap();
    assert_eq!(q.peek(), Some(7));
    assert_eq!(q.peek(), Some(7));
    assert_eq!(q.len(), 2);
    assert_eq!(q.pop(), Some(7));
    assert_eq!(q.peek(), Some(8));
}

#[test]
fn discard_removes_the_oldest_and_ignores_empty() {
    let mut q: RingBuffer<u8, 3> = RingBuffer::new();
    q.discard();
    assert_eq!(q.len(), 0);
    q.push(1).unwrap();
    q.push(2).unwrap();
    q.discard();
    assert_eq!(q.len(), 1);
    assert_eq!(q.pop(), Some(2));
    q.discard();
    assert_eq!(q.pop(), None);
}

#[test]
fn order_survives_wrapping_around() {
    let mut q: RingBuffer<u32, 3> = RingBuffer::new();
    let mut next_in = 0u32;
    let mut next_out = 0u32;
    for round in 0..20 {
        while q.push(next_in).is_ok() {
            next_in += 1;
        }
        assert_eq!(q.len(), 3);
        let take = 1 + round % 3;
        for _ in 0..take {
            assert_eq!(q.pop(), Some(next_out));
            next_out += 1;
        }
    }
    while let Some(v) = q.pop() {
        assert_eq!(v, next_out);
        next_out += 1;
    }
    assert_eq!(next_in, next_out);
}

#[test]
fn queue_without_room_refuses_everything() {
    let mut q: RingBuffer<u8, 0> = RingBuffer::new();
    assert!(q.is_full());
    assert!(q.is_empty());
    assert_eq!(q.push(1), Err(Overflow));
    assert_eq!(q.pop(), None);
    q.discard();
    assert_eq!(q.len(), 0);
}

#[test]
fn queue_of_one() {
    let mut q: RingBuffer<u8, 1> = RingBuffer::new();
    for i in 0..5u8 {
        assert_eq!(q.push(i), Ok(()));
        assert_eq!(q.push(100), Err(Overflow));
        assert_eq!(q.peek(), Some(i));
        assert_eq!(q.pop(), Some(i));
        assert_eq!(q.pop(), None);
    }
}
