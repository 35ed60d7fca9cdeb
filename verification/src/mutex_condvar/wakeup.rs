//! The queue's lock and wake-up protocol, kept private to this module.
//!
//! The lock is made only together with the room its buffer was made with, so the room a
//! queue records is the room of the buffer behind its lock. A thread waits on a condition
//! variable only through `wait_until`, and wakes a waiter only through `wake_room_waiter`
//! or `wake_item_waiter`, which take the buffer's evidence that room was made or an item
//! was added: waiters for room are woken only after an item was taken out, and waiters for
//! an item only after one was put in.
use std::sync::{Condvar, Mutex, MutexGuard, PoisonError};
use vstd::prelude::*;

use super::{must_wait, new_condvar, spec_must_wait, Awaited, MutexCondvarQueue};
use crate::buffer::{Inner, ItemAdded, RoomMade};

verus! {

/// Puts `inner` behind a fresh, unlocked mutex (`Mutex::new`). Nothing is stated of the
/// result: what a mutex holds cannot be named here.
#[verifier::external_body]
fn new_lock<T>(inner: Inner<T>) -> Mutex<Inner<T>> {
    Mutex::new(inner)
}

/// A queue's buffer behind its lock, with the room the buffer was made with. Only `new`
/// makes one, from one number for both, so the room recorded is the buffer's.
#[verifier::reject_recursive_types(T)]
pub struct LockedBuffer<T> {
    lock: Mutex<Inner<T>>,
    capacity: usize,
}

impl<T> LockedBuffer<T> {
    /// The room the buffer behind the lock was made with.
    pub closed spec fn spec_capacity(&self) -> nat {
        self.capacity as nat
    }

    /// An empty buffer with room for `capacity` items, behind a fresh lock.
    pub(super) fn new(capacity: usize) -> (buffer: Self)
        requires
            capacity > 0,
        ensures
            buffer.spec_capacity() == capacity,
    {
        LockedBuffer { lock: new_lock(Inner::new(capacity)), capacity }
    }
}

/// A condition variable on which threads of one queue wait.
pub struct Wakeup {
    condvar: Condvar,
}

impl Wakeup {
    /// A condition variable with no waiter.
    pub(super) fn new() -> Self {
        Wakeup { condvar: new_condvar() }
    }
}

impl<T> MutexCondvarQueue<T> {
    /// Locks the buffer (`Mutex::lock`), taking over the lock if a former holder panicked.
    /// The guarded contents are whatever other threads left, so nothing is stated of them.
    #[verifier::external_body]
    pub(super) fn lock_inner(&self) -> MutexGuard<'_, Inner<T>> {
        self.inner.lock.lock().unwrap_or_else(PoisonError::into_inner)
    }

    /// The condition variable on which threads waiting for `awaited` sleep: `not_full`
    /// for room, `not_empty` for an item.
    spec fn spec_signal(&self, awaited: Awaited) -> Condvar {
        match awaited {
            Awaited::Room => self.not_full.condvar,
            Awaited::Item => self.not_empty.condvar,
        }
    }

    /// The condition variable on which threads waiting for `awaited` sleep.
    fn signal(&self, awaited: Awaited) -> (condvar: &Condvar)
        ensures
            *condvar == self.spec_signal(awaited),
    {
        match awaited {
            Awaited::Room => &self.not_full.condvar,
            Awaited::Item => &self.not_empty.condvar,
        }
    }

    /// Locks this queue's buffer (`Mutex::lock`) and waits on `condvar`
    /// (`Condvar::wait_while`) until `must_wait` turns false for the buffer; then keeps the
    /// guard in `slot` and returns the buffer it guards. `condvar` is one of this queue's
    /// own, and only ever used with this one mutex. The thread holds no guard of the mutex
    /// already: `slot` is empty, and the queue's functions hold no guard when they wait.
    /// std returns from the wait with the lock held only once the condition is false,
    /// unless the lock is poisoned; the mutex is a private field whose guard only this
    /// crate's verified code holds, which Verus proves free of panics, so it is never
    /// poisoned.
    #[verifier::external_body]
    fn lock_when_ready<'a, 'b>(
        &'b self,
        condvar: &'b Condvar,
        awaited: Awaited,
        slot: &'a mut Option<MutexGuard<'b, Inner<T>>>,
    ) -> (inner: &'a mut Inner<T>)
        requires
            old(slot).is_none(),
            *condvar == self.spec_signal(awaited),
        ensures
            !spec_must_wait(inner@, inner.spec_capacity(), awaited),
    {
        let guard = self.inner.lock.lock().unwrap_or_else(PoisonError::into_inner);
        let ready = condvar.wait_while(guard, |inner| must_wait(inner, awaited));
        &mut **slot.insert(ready.unwrap_or_else(PoisonError::into_inner))
    }

    /// Locks the buffer and waits, on the condition variable of the waiters for `awaited`,
    /// until the buffer has what they wait for; the guard is kept in `slot`.
    pub(super) fn wait_until<'a, 'b>(
        &'b self,
        awaited: Awaited,
        slot: &'a mut Option<MutexGuard<'b, Inner<T>>>,
    ) -> (inner: &'a mut Inner<T>)
        requires
            old(slot).is_none(),
        ensures
            !spec_must_wait(inner@, inner.spec_capacity(), awaited),
    {
        self.lock_when_ready(self.signal(awaited), awaited, slot)
    }

    /// Wakes one thread waiting for room; `made` shows that an item was just taken out.
    pub(super) fn wake_room_waiter(&self, made: RoomMade) {
        self.signal(Awaited::Room).notify_one();
    }

    /// Wakes one thread waiting for an item; `added` shows that an item was just put in.
    pub(super) fn wake_item_waiter(&self, added: ItemAdded) {
        self.signal(Awaited::Item).notify_one();
    }
}

} // verus!
