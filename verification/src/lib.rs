//! Bounded multi-producer multi-consumer FIFO queues.
use vstd::prelude::*;

pub mod buffer;
pub mod mutex_condvar;
pub mod scenario;

pub use mutex_condvar::MutexCondvarQueue;

verus! {

/// A bounded FIFO queue shared between producer and consumer threads.
pub trait BoundedQueue<T>: Sized + Send + Sync {
    /// A queue with room for `capacity` items.
    fn new(capacity: usize) -> (queue: Self)
        requires
            capacity > 0,
    ;

    /// Adds `item`, waiting for room while the queue is full.
    fn push(&self, item: T);

    /// Removes the oldest item, waiting for one while the queue is empty.
    fn pop(&self) -> (item: T);

    /// Adds `item` if there is room now; otherwise hands it back in `Err`.
    fn try_push(&self, item: T) -> (result: Result<(), T>)
        ensures
            result matches Err(back) ==> back == item,
    ;

    /// Removes the oldest item if there is one now.
    fn try_pop(&self) -> (item: Option<T>);
}

} // verus!
