use std::sync::atomic::{AtomicUsize, Ordering};
use std::sync::Arc;

use mpmc_rust::{BoundedQueue, MutexCondvarQueue};

struct DropTracker {
    drops: Arc<AtomicUsize>,
}

impl Drop for DropTracker {
    fn drop(&mut self) {
        self.drops.fetch_add(1, Ordering::SeqCst);
    }
}

#[test]
fn try_ops_work_on_empty_and_full_queue() {
    let queue = MutexCondvarQueue::with_capacity(2);

    assert_eq!(queue.try_pop(), None);
    assert_eq!(queue.try_push(10), Ok(()));
    assert_eq!(queue.try_push(20), Ok(()));
    assert_eq!(queue.try_push(30), Err(30));
    assert_eq!(queue.try_pop(), Some(10));
    assert_eq!(queue.try_pop(), Some(20));
    assert_eq!(queue.try_pop(), None);
}

#[test]
fn preserves_fifo_order_single_threaded() {
    let queue = MutexCondvarQueue::with_capacity(3);

    queue.push(1);
    queue.push(2);
    queue.push(3);

    assert_eq!(queue.pop(), 1);
    assert_eq!(queue.pop(), 2);
    assert_eq!(queue.pop(), 3);
}

#[test]
fn trait_constructor_works() {
    let queue = <MutexCondvarQueue<u32> as BoundedQueue<u32>>::new(1);

    assert_eq!(queue.try_push(7), Ok(()));
    assert_eq!(queue.try_pop(), Some(7));
}

#[test]
fn try_push_returns_original_item_when_full() {
    let queue = MutexCondvarQueue::with_capacity(1);

    assert_eq!(queue.try_push(String::from("first")), Ok(()));
    assert_eq!(
        queue.try_push(String::from("second")),
        Err(String::from("second"))
    );
}

#[test]
fn dropping_queue_drops_remaining_items_once() {
    let drops = Arc::new(AtomicUsize::new(0));

    {
        let queue = MutexCondvarQueue::with_capacity(2);
        queue.push(DropTracker {
            drops: Arc::clone(&drops),
        });
        queue.push(DropTracker {
            drops: Arc::clone(&drops),
        });
    }

    assert_eq!(drops.load(Ordering::SeqCst), 2);
}

#[test]
fn blocking_and_non_blocking_operations_share_one_order() {
    let queue = MutexCondvarQueue::with_capacity(3);

    queue.push(1u8);
    assert_eq!(queue.try_push(2), Ok(()));
    queue.push(3);
    assert_eq!(queue.try_push(4), Err(4));
    assert_eq!(queue.pop(), 1);
    assert_eq!(queue.try_pop(), Some(2));
    queue.push(5);
    assert_eq!(queue.pop(), 3);
    assert_eq!(queue.pop(), 5);
    assert_eq!(queue.try_pop(), None);
}

#[test]
fn pop_frees_room_for_push() {
    let queue = MutexCondvarQueue::with_capacity(1);

    queue.push('a');
    assert_eq!(queue.try_push('b'), Err('b'));
    assert_eq!(queue.pop(), 'a');
    queue.push('c');
    assert_eq!(queue.try_pop(), Some('c'));
}

#[test]
fn exactly_capacity_items_fit() {
    for capacity in 1..6usize {
        let queue = MutexCondvarQueue::with_capacity(capacity);
        for value in 0..capacity {
            assert_eq!(queue.try_push(value), Ok(()));
        }
        assert_eq!(queue.try_push(capacity), Err(capacity));
        for value in 0..capacity {
            assert_eq!(queue.pop(), value);
        }
        assert_eq!(queue.try_pop(), None);
    }
}
