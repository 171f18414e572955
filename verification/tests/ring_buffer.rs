use ring_buffer::{Empty, Full, InvalidCapacity, RingBuffer};

#[test]
fn fresh_buffer_is_empty() {
    for capacity in [1usize, 2, 4, 7, 128] {
        let mut buffer: RingBuffer<i32> = RingBuffer::new(capacity).unwrap();
        assert!(buffer.isEmpty());
        assert_eq!(buffer.len(), 0);
        assert_eq!(buffer.dequeue(), Err(Empty));
    }
}

#[test]
fn zero_capacity_is_rejected() {
    assert!(matches!(RingBuffer::<i32>::new(0), Err(InvalidCapacity)));
}

#[test]
fn capacity_boundary() {
    let mut buffer: RingBuffer<i32> = RingBuffer::new(4).unwrap();
    buffer.enqueue(10).unwrap();
    buffer.enqueue(20).unwrap();
    assert!(!buffer.isFull());
    buffer.enqueue(30).unwrap();
    assert!(buffer.isFull());
    assert_eq!(buffer.len(), 3);
    match buffer.enqueue(40) {
        Err(Full(rejected)) => assert_eq!(rejected, 40),
        Ok(()) => panic!("enqueue on a full buffer must fail"),
    }
    assert_eq!(buffer.len(), 3);
    assert_eq!(buffer.dequeue(), Ok(10));
    buffer.enqueue(40).unwrap();
    assert!(buffer.isFull());
}

#[test]
fn round_trip_fifo() {
    let mut buffer: RingBuffer<i32> = RingBuffer::new(8).unwrap();
    for value in [5, -3, 11, 0, 42] {
        buffer.enqueue(value).unwrap();
    }
    for value in [5, -3, 11, 0, 42] {
        assert_eq!(buffer.dequeue(), Ok(value));
    }
    assert!(buffer.isEmpty());
}

#[test]
fn wraparound() {
    let mut buffer: RingBuffer<char> = RingBuffer::new(4).unwrap();
    buffer.enqueue('A').unwrap();
    buffer.enqueue('B').unwrap();
    buffer.enqueue('C').unwrap();
    assert_eq!(buffer.len(), 3);
    assert_eq!(buffer.dequeue(), Ok('A'));
    assert_eq!(buffer.len(), 2);
    buffer.enqueue('D').unwrap();
    assert_eq!(buffer.len(), 3);
    assert_eq!(buffer.dequeue(), Ok('B'));
    assert_eq!(buffer.dequeue(), Ok('C'));
    assert_eq!(buffer.len(), 1);
    assert_eq!(buffer.dequeue(), Ok('D'));
    assert!(buffer.isEmpty());
    buffer.enqueue('E').unwrap();
    assert_eq!(buffer.dequeue(), Ok('E'));
    assert!(buffer.isEmpty());
}

#[test]
fn capacity_one_is_both_empty_and_full() {
    let mut buffer: RingBuffer<i32> = RingBuffer::new(1).unwrap();
    assert!(buffer.isEmpty());
    assert!(buffer.isFull());
    match buffer.enqueue(7) {
        Err(Full(rejected)) => assert_eq!(rejected, 7),
        Ok(()) => panic!("a one-slot buffer holds no value"),
    }
    assert_eq!(buffer.dequeue(), Err(Empty));
}

#[test]
fn owned_values_pass_through() {
    let mut buffer: RingBuffer<String> = RingBuffer::new(3).unwrap();
    buffer.enqueue(String::from("first")).unwrap();
    buffer.enqueue(String::from("second")).unwrap();
    assert_eq!(buffer.dequeue(), Ok(String::from("first")));
    assert_eq!(buffer.dequeue(), Ok(String::from("second")));
    assert_eq!(buffer.dequeue(), Err(Empty));
}

#[test]
fn fill_and_drain_tracks_len() {
    let mut buffer: RingBuffer<usize> = RingBuffer::new(6).unwrap();
    for value in 0..5usize {
        assert_eq!(buffer.len(), value);
        buffer.enqueue(value).unwrap();
    }
    assert!(buffer.isFull());
    for expected in 0..5usize {
        assert_eq!(buffer.len(), 5 - expected);
        assert_eq!(buffer.dequeue(), Ok(expected));
    }
    assert!(buffer.isEmpty());
    assert_eq!(buffer.len(), 0);
}
