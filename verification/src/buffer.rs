//! The bounded FIFO buffer that a queue keeps behind its lock.
//!
//! `Inner` is a ring of items with a fixed capacity. Its contents are modelled as a
//! `Seq<T>` (front first) together with the capacity; every operation is specified by
//! `push_outcome` and `pop_outcome` below, which say what the operation returns and
//! what the buffer holds afterwards.
use std::collections::VecDeque;
use vstd::prelude::*;

verus! {

/// What an attempt to add `item` to a buffer holding `items` with room for `capacity`
/// items gives: the new contents and the answer. A full buffer refuses the item and
/// hands it back unchanged.
pub open spec fn push_outcome<T>(items: Seq<T>, capacity: nat, item: T) -> (Seq<T>, Result<(), T>) {
    if items.len() == capacity {
        (items, Err(item))
    } else {
        (items.push(item), Ok(()))
    }
}

/// What an attempt to take the oldest item of a buffer holding `items` gives: the new
/// contents and the item, or nothing when the buffer is empty.
pub open spec fn pop_outcome<T>(items: Seq<T>) -> (Seq<T>, Option<T>) {
    if items.len() == 0 {
        (items, None)
    } else {
        (items.drop_first(), Some(items[0]))
    }
}

/// The contents after offering each of `offered`, in order, to a buffer that holds `items`.
pub open spec fn push_all<T>(items: Seq<T>, capacity: nat, offered: Seq<T>) -> Seq<T>
    decreases offered.len(),
{
    if offered.len() == 0 {
        items
    } else {
        push_all(push_outcome(items, capacity, offered[0]).0, capacity, offered.drop_first())
    }
}

/// The items that repeated attempts to take from a buffer holding `items` hand out, in
/// the order they come, until the buffer is empty.
pub open spec fn pop_all<T>(items: Seq<T>) -> Seq<T>
    decreases items.len(),
{
    if items.len() == 0 {
        Seq::empty()
    } else {
        seq![pop_outcome(items).1.unwrap()] + pop_all(pop_outcome(items).0)
    }
}

/// The answers that offering each of `offered`, in order, to a buffer holding `items` gives.
pub open spec fn push_answers<T>(items: Seq<T>, capacity: nat, offered: Seq<T>) -> Seq<Result<(), T>>
    decreases offered.len(),
{
    if offered.len() == 0 {
        Seq::empty()
    } else {
        seq![push_outcome(items, capacity, offered[0]).1] + push_answers(
            push_outcome(items, capacity, offered[0]).0,
            capacity,
            offered.drop_first(),
        )
    }
}

/// Exactly as many offers fit as there is room: offered one by one to a buffer within its
/// bound, the `i`-th offer is accepted while the held items and the earlier offers leave
/// room, and every later offer is refused and handed back. In particular an empty buffer of
/// capacity `c` accepts the first `c` offers and refuses the next.
pub proof fn lemma_exactly_capacity_fits<T>(items: Seq<T>, capacity: nat, offered: Seq<T>)
    requires
        items.len() <= capacity,
    ensures
        push_answers(items, capacity, offered).len() == offered.len(),
        forall|i: int|
            0 <= i < offered.len() ==> #[trigger] push_answers(items, capacity, offered)[i] == (
            if items.len() + i < capacity {
                Ok(())
            } else {
                Err(offered[i])
            }),
    decreases offered.len(),
{
    if offered.len() > 0 {
        let next = push_outcome(items, capacity, offered[0]).0;
        let rest = offered.drop_first();
        lemma_exactly_capacity_fits(next, capacity, rest);
        let answers = push_answers(items, capacity, offered);
        assert forall|i: int| 0 <= i < offered.len() implies #[trigger] answers[i] == (
        if items.len() + i < capacity {
            Ok(())
        } else {
            Err(offered[i])
        }) by {
            if i > 0 {
                assert(answers[i] == push_answers(next, capacity, rest)[i - 1]);
                assert(rest[i - 1] == offered[i]);
            }
        }
    }
}

/// Offers that all fit are all accepted, in order: offering `offered` to a buffer holding
/// `items` leaves it holding `items` followed by `offered`.
pub proof fn lemma_push_all_fits<T>(items: Seq<T>, capacity: nat, offered: Seq<T>)
    requires
        items.len() + offered.len() <= capacity,
    ensures
        push_all(items, capacity, offered) == items + offered,
    decreases offered.len(),
{
    if offered.len() > 0 {
        let next = push_outcome(items, capacity, offered[0]).0;
        assert(next == items.push(offered[0]));
        lemma_push_all_fits(next, capacity, offered.drop_first());
        assert(items.push(offered[0]) + offered.drop_first() =~= items + offered);
    } else {
        assert(items + offered =~= items);
    }
}

/// Taking until empty hands out every item held, oldest first, each exactly once.
pub proof fn lemma_pop_all_in_order<T>(items: Seq<T>)
    ensures
        pop_all(items) == items,
    decreases items.len(),
{
    if items.len() > 0 {
        lemma_pop_all_in_order(items.drop_first());
        assert(seq![items[0]] + items.drop_first() =~= items);
    }
}

/// First in, first out, with nothing lost and nothing duplicated: when every offered item
/// fits, emptying the buffer afterwards hands out the items it held and then the offered
/// items, in the order they were offered.
pub proof fn lemma_fifo<T>(items: Seq<T>, capacity: nat, offered: Seq<T>)
    requires
        items.len() + offered.len() <= capacity,
    ensures
        pop_all(push_all(items, capacity, offered)) == items + offered,
{
    lemma_push_all_fits(items, capacity, offered);
    lemma_pop_all_in_order(items + offered);
}

/// A full buffer refuses every offer: whatever is offered, its contents stay as they were.
pub proof fn lemma_full_refuses_all<T>(items: Seq<T>, capacity: nat, offered: Seq<T>)
    requires
        items.len() == capacity,
    ensures
        push_all(items, capacity, offered) == items,
    decreases offered.len(),
{
    if offered.len() > 0 {
        lemma_full_refuses_all(items, capacity, offered.drop_first());
    }
}

/// No operation takes a buffer past its capacity: from contents within the bound, an
/// attempt to add and an attempt to take both leave contents within the bound.
pub proof fn lemma_capacity_respected<T>(items: Seq<T>, capacity: nat, item: T)
    requires
        items.len() <= capacity,
    ensures
        push_outcome(items, capacity, item).0.len() <= capacity,
        pop_outcome(items).0.len() <= capacity,
{
}

/// An item added to an empty buffer is the next one taken, and taking it empties the
/// buffer again.
pub proof fn lemma_push_then_pop<T>(capacity: nat, item: T)
    requires
        0 < capacity,
    ensures
        pop_outcome(push_outcome(Seq::<T>::empty(), capacity, item).0) == (
        Seq::<T>::empty(),
        Some(item),
        ),
{
    let pushed = push_outcome(Seq::<T>::empty(), capacity, item).0;
    assert(pushed =~= seq![item]);
    assert(pushed.drop_first() =~= Seq::<T>::empty());
}

/// Evidence that an operation has just taken an item out of a buffer, so that there is now
/// room in it. Only this module's operations make one, and only when they took an item.
pub struct RoomMade {
    taken: (),
}

/// Evidence that an operation has just put an item into a buffer. Only this module's
/// operations make one, and only when they added an item.
pub struct ItemAdded {
    added: (),
}

/// A bounded first-in first-out buffer: at most `capacity` items, `capacity` at least one.
pub struct Inner<T> {
    buf: VecDeque<T>,
    capacity: usize,
}

impl<T> View for Inner<T> {
    type V = Seq<T>;

    /// The items held, oldest first.
    closed spec fn view(&self) -> Seq<T> {
        self.buf@
    }
}

impl<T> Inner<T> {
    /// The largest number of items the buffer may hold.
    pub closed spec fn spec_capacity(&self) -> nat {
        self.capacity as nat
    }

    #[verifier::type_invariant]
    spec fn well_formed(self) -> bool {
        &&& 0 < self.capacity
        &&& self.buf@.len() <= self.capacity
    }

    /// An empty buffer with room for `capacity` items.
    pub fn new(capacity: usize) -> (buffer: Self)
        requires
            0 < capacity,
        ensures
            buffer@ == Seq::<T>::empty(),
            buffer.spec_capacity() == capacity,
    {
        Inner { buf: VecDeque::with_capacity(capacity), capacity }
    }

    /// The room the buffer was made with.
    pub fn capacity(&self) -> (capacity: usize)
        ensures
            capacity == self.spec_capacity(),
            0 < capacity,
            self@.len() <= capacity,
    {
        proof {
            use_type_invariant(self);
        }
        self.capacity
    }

    /// The number of items held.
    pub fn len(&self) -> (len: usize)
        ensures
            len == self@.len(),
            len <= self.spec_capacity(),
    {
        proof {
            use_type_invariant(self);
        }
        self.buf.len()
    }

    /// Whether the buffer holds as many items as it has room for.
    pub fn is_full(&self) -> (full: bool)
        ensures
            full == (self@.len() == self.spec_capacity()),
    {
        self.buf.len() == self.capacity
    }

    /// Whether the buffer holds no item.
    pub fn is_empty(&self) -> (empty: bool)
        ensures
            empty == (self@.len() == 0),
    {
        self.buf.len() == 0
    }

    /// Moves the items out, leaving the buffer empty with the same capacity.
    fn take_items(&mut self) -> (items: VecDeque<T>)
        ensures
            items@ == old(self)@,
            final(self)@ == Seq::<T>::empty(),
            final(self).spec_capacity() == old(self).spec_capacity(),
    {
        proof {
            use_type_invariant(&*self);
        }
        let mut items = VecDeque::new();
        std::mem::swap(&mut self.buf, &mut items);
        items
    }

    /// Adds `item` behind the items already held; the buffer must not be full.
    pub fn push(&mut self, item: T)
        requires
            old(self)@.len() != old(self).spec_capacity(),
        ensures
            final(self)@ == old(self)@.push(item),
            final(self).spec_capacity() == old(self).spec_capacity(),
    {
        proof {
            use_type_invariant(&*self);
        }
        let mut items = self.take_items();
        items.push_back(item);
        self.buf = items;
    }

    /// Removes and returns the oldest item; there must be one.
    pub fn pop(&mut self) -> (item: T)
        requires
            old(self)@.len() > 0,
        ensures
            item == old(self)@[0],
            final(self)@ == old(self)@.drop_first(),
            final(self).spec_capacity() == old(self).spec_capacity(),
    {
        proof {
            use_type_invariant(&*self);
        }
        let mut items = self.take_items();
        let item = items.pop_front().unwrap();
        self.buf = items;
        item
    }

    /// Adds `item` behind the items already held, as `push` does, and hands back evidence
    /// that an item was added; the buffer must not be full.
    pub fn push_adding(&mut self, item: T) -> (added: ItemAdded)
        requires
            old(self)@.len() != old(self).spec_capacity(),
        ensures
            final(self)@ == old(self)@.push(item),
            final(self).spec_capacity() == old(self).spec_capacity(),
    {
        self.push(item);
        ItemAdded { added: () }
    }

    /// Removes and returns the oldest item, as `pop` does, with evidence that room was made;
    /// there must be an item.
    pub fn pop_making_room(&mut self) -> (taken: (T, RoomMade))
        requires
            old(self)@.len() > 0,
        ensures
            taken.0 == old(self)@[0],
            final(self)@ == old(self)@.drop_first(),
            final(self).spec_capacity() == old(self).spec_capacity(),
    {
        let item = self.pop();
        (item, RoomMade { taken: () })
    }

    /// Adds `item` when there is room, as `try_push` does; evidence that an item was added
    /// comes back exactly when it was, and a refused item comes back in `Err`.
    pub fn try_push_adding(&mut self, item: T) -> (result: Result<ItemAdded, T>)
        ensures
            (final(self)@, match result {
                Ok(_) => Ok(()),
                Err(back) => Err(back),
            }) == push_outcome(old(self)@, old(self).spec_capacity(), item),
            final(self).spec_capacity() == old(self).spec_capacity(),
            final(self)@.len() <= final(self).spec_capacity(),
    {
        match self.try_push(item) {
            Ok(()) => Ok(ItemAdded { added: () }),
            Err(back) => Err(back),
        }
    }

    /// Removes and returns the oldest item when there is one, as `try_pop` does, with
    /// evidence that room was made exactly when an item came out.
    pub fn try_pop_making_room(&mut self) -> (result: Option<(T, RoomMade)>)
        ensures
            (final(self)@, match result {
                Some((item, _)) => Some(item),
                None => None,
            }) == pop_outcome(old(self)@),
            final(self).spec_capacity() == old(self).spec_capacity(),
    {
        match self.try_pop() {
            Some(item) => Some((item, RoomMade { taken: () })),
            None => None,
        }
    }

    /// Adds `item` when there is room; a full buffer is left as it is and the item comes
    /// back in `Err`.
    pub fn try_push(&mut self, item: T) -> (result: Result<(), T>)
        ensures
            (final(self)@, result) == push_outcome(old(self)@, old(self).spec_capacity(), item),
            final(self).spec_capacity() == old(self).spec_capacity(),
            final(self)@.len() <= final(self).spec_capacity(),
    {
        proof {
            use_type_invariant(&*self);
        }
        if self.is_full() {
            return Err(item);
        }
        self.push(item);
        Ok(())
    }

    /// Removes and returns the oldest item, or `None` when the buffer is empty.
    pub fn try_pop(&mut self) -> (result: Option<T>)
        ensures
            (final(self)@, result) == pop_outcome(old(self)@),
            final(self).spec_capacity() == old(self).spec_capacity(),
    {
        proof {
            use_type_invariant(&*self);
        }
        let mut items = self.take_items();
        let item = items.pop_front();
        self.buf = items;
        item
    }
}

} // verus!
