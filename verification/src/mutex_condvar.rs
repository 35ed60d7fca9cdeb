//! A blocking bounded queue: an `Inner` buffer behind a `std::sync::Mutex`, with one
//! condition variable for "an item arrived" and one for "room appeared".
use std::sync::{Condvar, Mutex, MutexGuard};
use vstd::prelude::*;

use crate::buffer::Inner;
use crate::BoundedQueue;

mod wakeup;

use wakeup::{LockedBuffer, Wakeup};

verus! {

#[verifier::external_type_specification]
#[verifier::external_body]
#[verifier::reject_recursive_types(T)]
pub struct ExMutex<T: ?Sized>(Mutex<T>);

#[verifier::external_type_specification]
#[verifier::external_body]
#[verifier::reject_recursive_types(T)]
pub struct ExMutexGuard<'a, T: ?Sized + 'a>(MutexGuard<'a, T>);

#[verifier::external_type_specification]
#[verifier::external_body]
pub struct ExCondvar(Condvar);

/// A condition variable with no waiter (`Condvar::new`).
#[verifier::external_body]
fn new_condvar() -> Condvar {
    Condvar::new()
}

/// `Condvar::notify_one` wakes one thread waiting on the condition variable, if any.
pub assume_specification[ Condvar::notify_one ](condvar: &Condvar);

/// Gives access to the buffer that a held lock guards, for as long as the guard is borrowed.
/// Nothing is stated of that buffer beyond what its type guarantees: its contents are what
/// other threads left there.
#[verifier::external_body]
fn guarded<'a, 'b, T>(guard: &'a mut MutexGuard<'b, Inner<T>>) -> &'a mut Inner<T> {
    &mut **guard
}

/// What a blocked thread waits for: room to add an item, or an item to take.
#[derive(Clone, Copy)]
enum Awaited {
    Room,
    Item,
}

/// Whether a thread waiting for `awaited` must keep waiting on a buffer holding `items`
/// with room for `capacity`.
spec fn spec_must_wait<T>(items: Seq<T>, capacity: nat, awaited: Awaited) -> bool {
    match awaited {
        Awaited::Room => items.len() == capacity,
        Awaited::Item => items.len() == 0,
    }
}

/// Whether a thread waiting for `awaited` must keep waiting on `inner`: while it is full
/// for room, while it is empty for an item.
fn must_wait<T>(inner: &Inner<T>, awaited: Awaited) -> (wait: bool)
    ensures
        wait == spec_must_wait(inner@, inner.spec_capacity(), awaited),
{
    match awaited {
        Awaited::Room => inner.is_full(),
        Awaited::Item => inner.is_empty(),
    }
}

/// A bounded multi-producer multi-consumer FIFO queue: a mutex-protected buffer plus
/// condition variables on which blocked producers and consumers wait.
#[verifier::reject_recursive_types(T)]
pub struct MutexCondvarQueue<T> {
    inner: LockedBuffer<T>,
    not_empty: Wakeup,
    not_full: Wakeup,
}

impl<T> MutexCondvarQueue<T> {
    /// The room the queue was made with.
    pub closed spec fn spec_capacity(&self) -> nat {
        self.inner.spec_capacity()
    }

    /// A queue with room for `capacity` items; `capacity` must be positive.
    pub fn with_capacity(capacity: usize) -> (queue: Self)
        requires
            capacity > 0,
        ensures
            queue.spec_capacity() == capacity,
    {
        Self {
            inner: LockedBuffer::new(capacity),
            not_empty: Wakeup::new(),
            not_full: Wakeup::new(),
        }
    }

    /// Waits until the buffer has room and returns it locked; the guard is kept in `slot`.
    fn wait_while_full<'a, 'b>(
        &'b self,
        slot: &'a mut Option<MutexGuard<'b, Inner<T>>>,
    ) -> (inner: &'a mut Inner<T>)
        requires
            old(slot).is_none(),
        ensures
            inner@.len() != inner.spec_capacity(),
    {
        self.wait_until(Awaited::Room, slot)
    }

    /// Waits until the buffer holds an item and returns it locked; the guard is kept in
    /// `slot`.
    fn wait_while_empty<'a, 'b>(
        &'b self,
        slot: &'a mut Option<MutexGuard<'b, Inner<T>>>,
    ) -> (inner: &'a mut Inner<T>)
        requires
            old(slot).is_none(),
        ensures
            inner@.len() != 0,
    {
        self.wait_until(Awaited::Item, slot)
    }
}

impl<T: Send> BoundedQueue<T> for MutexCondvarQueue<T> {
    fn new(capacity: usize) -> (queue: Self)
        ensures
            queue.spec_capacity() == capacity,
    {
        Self::with_capacity(capacity)
    }

    fn push(&self, item: T) {
        let mut slot = None;
        let inner = self.wait_while_full(&mut slot);
        let added = inner.push_adding(item);
        self.wake_item_waiter(added);
    }

    fn pop(&self) -> (item: T) {
        let mut slot = None;
        let inner = self.wait_while_empty(&mut slot);
        let (item, made) = inner.pop_making_room();
        self.wake_room_waiter(made);
        item
    }

    fn try_push(&self, item: T) -> (result: Result<(), T>) {
        let mut guard = self.lock_inner();
        let inner = guarded(&mut guard);
        match inner.try_push_adding(item) {
            Ok(added) => {
                self.wake_item_waiter(added);
                Ok(())
            },
            Err(back) => Err(back),
        }
    }

    fn try_pop(&self) -> (item: Option<T>) {
        let mut guard = self.lock_inner();
        let inner = guarded(&mut guard);
        match inner.try_pop_making_room() {
            Some((item, made)) => {
                self.wake_room_waiter(made);
                Some(item)
            },
            None => None,
        }
    }
}

} // verus!
