use mpmc_rust::buffer::Inner;

#[test]
fn new_buffer_is_empty_with_its_capacity() {
    let buffer: Inner<u32> = Inner::new(4);
    assert_eq!(buffer.capacity(), 4);
    assert_eq!(buffer.len(), 0);
    assert!(buffer.is_empty());
    assert!(!buffer.is_full());
}

#[test]
fn offered_items_come_out_in_order() {
    let mut buffer = Inner::new(3);
    for value in [5, 6, 7] {
        assert_eq!(buffer.try_push(value), Ok(()));
    }
    assert!(buffer.is_full());
    assert_eq!(buffer.try_pop(), Some(5));
    assert_eq!(buffer.try_pop(), Some(6));
    assert_eq!(buffer.try_pop(), Some(7));
    assert_eq!(buffer.try_pop(), None);
}

#[test]
fn full_buffer_refuses_every_offer_and_keeps_its_items() {
    let mut buffer = Inner::new(2);
    buffer.push("a");
    buffer.push("b");
    for refused in ["c", "d", "e"] {
        assert_eq!(buffer.try_push(refused), Err(refused));
        assert_eq!(buffer.len(), 2);
    }
    assert_eq!(buffer.pop(), "a");
    assert_eq!(buffer.pop(), "b");
    assert!(buffer.is_empty());
}

#[test]
fn push_then_pop_on_empty_buffer_round_trips() {
    let mut buffer = Inner::new(1);
    assert_eq!(buffer.try_push(String::from("only")), Ok(()));
    assert_eq!(buffer.len(), 1);
    assert_eq!(buffer.try_pop(), Some(String::from("only")));
    assert!(buffer.is_empty());
}

#[test]
fn length_never_exceeds_capacity() {
    let mut buffer = Inner::new(3);
    for value in 0..10u64 {
        let _ = buffer.try_push(value);
        assert!(buffer.len() <= buffer.capacity());
    }
    assert_eq!(buffer.len(), 3);
    assert_eq!(buffer.try_pop(), Some(0));
    assert_eq!(buffer.try_push(99), Ok(()));
    assert_eq!(buffer.len(), 3);
}

#[test]
fn empty_buffer_gives_nothing_and_stays_empty() {
    let mut buffer: Inner<i64> = Inner::new(2);
    assert_eq!(buffer.try_pop(), None);
    assert_eq!(buffer.try_pop(), None);
    assert_eq!(buffer.len(), 0);
}

#[test]
fn wrapping_around_keeps_order() {
    let mut buffer = Inner::new(2);
    let mut out = Vec::new();
    for value in 0..6 {
        buffer.push(value);
        if buffer.is_full() {
            out.push(buffer.pop());
        }
    }
    while let Some(value) = buffer.try_pop() {
        out.push(value);
    }
    assert_eq!(out, vec![0, 1, 2, 3, 4, 5]);
}

#[test]
fn empty_buffer_accepts_exactly_capacity_offers() {
    for capacity in 1..5usize {
        let mut buffer = Inner::new(capacity);
        let answers: Vec<Result<(), usize>> = (0..capacity + 2).map(|v| buffer.try_push(v)).collect();
        for (i, answer) in answers.iter().enumerate() {
            if i < capacity {
                assert_eq!(*answer, Ok(()));
            } else {
                assert_eq!(*answer, Err(i));
            }
        }
    }
}
