//! A buffer of fixed capacity that drops its oldest value to take a new one.

use std::collections::vec_deque::Iter;
use std::collections::VecDeque;

use vstd::prelude::*;

verus! {

/// The newest `capacity` values of `values`.
pub open spec fn newest<T>(values: Seq<T>, capacity: nat) -> Seq<T> {
    if values.len() <= capacity {
        values
    } else {
        values.skip(values.len() - capacity)
    }
}

/// At most `capacity` values, oldest first.
#[derive(Debug)]
pub struct RingBuffer<T> {
    capacity: usize,
    values: VecDeque<T>,
}

impl<T> View for RingBuffer<T> {
    type V = Seq<T>;

    closed spec fn view(&self) -> Seq<T> {
        self.values@
    }
}

impl<T> RingBuffer<T> {
    /// How many values the buffer can hold.
    pub closed spec fn spec_capacity(&self) -> nat {
        self.capacity as nat
    }

    #[verifier::type_invariant]
    pub closed spec fn well_formed(&self) -> bool {
        0 < self.capacity && self.values@.len() <= self.capacity
    }

    /// Makes an empty buffer for `capacity` values.
    pub fn new(capacity: usize) -> (result: Self)
        requires
            capacity > 0,
        ensures
            result@ == Seq::<T>::empty(),
            result.spec_capacity() == capacity,
            result.well_formed(),
    {
        RingBuffer { capacity, values: VecDeque::new() }
    }

    /// Appends a value. A full buffer gives up its oldest value first.
    pub fn push(&mut self, value: T)
        ensures
            final(self)@ == newest(old(self)@.push(value), old(self).spec_capacity()),
            final(self).spec_capacity() == old(self).spec_capacity(),
            final(self)@.len() <= final(self).spec_capacity(),
            final(self)@.len() > 0 && final(self)@.last() == value,
            old(self)@.len() < old(self).spec_capacity() ==> final(self)@ == old(self)@.push(value),
            old(self)@.len() == old(self).spec_capacity() ==> final(self)@
                == old(self)@.drop_first().push(value),
    {
        proof {
            use_type_invariant(&*self);
        }
        let mut values: VecDeque<T> = VecDeque::new();
        std::mem::swap(&mut values, &mut self.values);
        if values.len() == self.capacity {
            values.pop_front();
        }
        values.push_back(value);
        assert(values@ =~= newest(old(self)@.push(value), old(self).spec_capacity()));
        self.values = values;
    }

    /// The values, oldest first.
    pub fn iter(&self) -> (result: Iter<'_, T>)
        ensures
            vstd::std_specs::iter::IteratorSpec::remaining(&result) == self@.as_ref(),
    {
        self.values.iter()
    }

    /// How many values the buffer holds.
    pub fn len(&self) -> (result: usize)
        ensures
            result == self@.len(),
            result <= self.spec_capacity(),
    {
        proof {
            use_type_invariant(&*self);
        }
        self.values.len()
    }

    pub fn is_empty(&self) -> (result: bool)
        ensures
            result == (self@.len() == 0),
    {
        self.values.len() == 0
    }

    /// The value at `index`, counted from the oldest.
    pub(crate) fn at(&self, index: usize) -> (result: &T)
        requires
            index < self@.len(),
        ensures
            *result == self@[index as int],
    {
        &self.values[index]
    }
}

/// `copies` holds clones of `values`, one for one.
pub open spec fn cloned_values<T: Clone>(values: Seq<T>, copies: Seq<T>) -> bool {
    &&& copies.len() == values.len()
    &&& forall|i: int| 0 <= i < values.len() ==> cloned(#[trigger] values[i], copies[i])
}

impl<T: Clone> Clone for RingBuffer<T> {
    fn clone(&self) -> (result: Self)
        ensures
            cloned_values(self@, result@),
            result.spec_capacity() == self.spec_capacity(),
    {
        proof {
            use_type_invariant(self);
        }
        RingBuffer { capacity: self.capacity, values: self.values.clone() }
    }
}

/// What a buffer that holds `start` holds after the pushes of `values`, one by
/// one, where each push does what `RingBuffer::push` does.
pub open spec fn after_pushes<T>(start: Seq<T>, capacity: nat, values: Seq<T>) -> Seq<T>
    decreases values.len(),
{
    if values.len() == 0 {
        start
    } else {
        newest(after_pushes(start, capacity, values.drop_last()).push(values.last()), capacity)
    }
}

/// A buffer that has taken any number of values since it was made holds the
/// newest of them, as many as fit, in the order in which they came.
pub proof fn law_ring_keeps_the_newest<T>(capacity: nat, values: Seq<T>)
    requires
        capacity > 0,
    ensures
        after_pushes(Seq::<T>::empty(), capacity, values) == newest(values, capacity),
        after_pushes(Seq::<T>::empty(), capacity, values).len() <= capacity,
    decreases values.len(),
{
    if values.len() > 0 {
        law_ring_keeps_the_newest(capacity, values.drop_last());
        assert(values == values.drop_last().push(values.last()));
        assert(newest(newest(values.drop_last(), capacity).push(values.last()), capacity)
            =~= newest(values, capacity));
    }
}

/// A smaller buffer that takes the same values as a larger one holds the end of
/// what the larger one holds.
pub proof fn law_smaller_ring_holds_the_end<T>(small: nat, large: nat, values: Seq<T>)
    requires
        0 < small <= large,
    ensures
        after_pushes(Seq::<T>::empty(), small, values) == newest(
            after_pushes(Seq::<T>::empty(), large, values),
            small,
        ),
{
    law_ring_keeps_the_newest(small, values);
    law_ring_keeps_the_newest(large, values);
    assert(newest(newest(values, large), small) =~= newest(values, small));
}

/// What is kept is the end of what came: as many values as fit, each in its
/// place counted from the newest.
pub proof fn law_the_newest_are_the_end<T>(values: Seq<T>, capacity: nat)
    ensures
        values.len() <= capacity ==> newest(values, capacity).len() == values.len(),
        values.len() > capacity ==> newest(values, capacity).len() == capacity,
        forall|i: int|
            0 <= i < newest(values, capacity).len() ==> #[trigger] newest(values, capacity)[i]
                == values[values.len() - newest(values, capacity).len() + i],
{
}

/// A push puts the new value last; a buffer with room keeps all it had, a full
/// one all but the oldest.
pub proof fn law_push_drops_at_most_the_oldest<T>(held: Seq<T>, capacity: nat, value: T)
    requires
        0 < capacity,
        held.len() <= capacity,
    ensures
        newest(held.push(value), capacity).last() == value,
        held.len() < capacity ==> newest(held.push(value), capacity).drop_last() == held,
        held.len() == capacity ==> newest(held.push(value), capacity).drop_last()
            == held.drop_first(),
{
    if held.len() < capacity {
        assert(newest(held.push(value), capacity).drop_last() =~= held);
    } else {
        assert(newest(held.push(value), capacity).drop_last() =~= held.drop_first());
    }
}

} // verus!
