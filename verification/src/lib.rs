//! A fixed-capacity ring buffer.
//!
//! The buffer owns `capacity` slots addressed by two indices that wrap
//! modulo the capacity: `head`, the next slot to be read, and `tail`, the
//! next slot to be written.  One slot is kept free so that `head == tail`
//! means "empty" and `(tail + 1) % capacity == head` means "full": the
//! buffer holds at most `capacity - 1` live elements, and the live count is
//! derived from the two indices rather than stored separately.

use vstd::prelude::*;

verus! {

/// Error returned by a dequeue on an empty buffer.
#[derive(Debug, PartialEq, Eq, Structural)]
pub struct Empty;

/// Error returned by a construction with capacity zero, for which no
/// empty/full convention exists.
#[derive(Debug, PartialEq, Eq, Structural)]
pub struct InvalidCapacity;

/// Error returned by an enqueue on a full buffer; it hands the rejected
/// value back to the caller intact.
#[derive(Debug, PartialEq, Eq)]
pub struct Full<T>(pub T);

/// A bounded queue over `capacity` slots, each either vacant or holding one
/// queued value.  The slots from `head` (inclusive) to `tail` (exclusive),
/// taken circularly, hold the queued values in arrival order; every other
/// slot is vacant.
pub struct RingBuffer<T> {
    storage: Vec<Option<T>>,
    head: usize,
    tail: usize,
}

impl<T> RingBuffer<T> {
    /// Number of slots; the buffer holds at most `capacity() - 1` values.
    pub closed spec fn capacity(self) -> int {
        self.storage@.len() as int
    }

    /// Number of queued values, derived from the two indices.
    spec fn count(self) -> int {
        if self.tail >= self.head {
            self.tail - self.head
        } else {
            self.tail - self.head + self.capacity()
        }
    }

    /// The slot holding the `i`-th queued value, counting from the oldest:
    /// `(head + i) % capacity`, written without `%` since `head + i` never
    /// reaches twice the capacity.
    spec fn slot_index(self, i: int) -> int {
        if self.head + i < self.capacity() {
            self.head + i
        } else {
            self.head + i - self.capacity()
        }
    }

    /// Whether slot `i` holds a queued value: `i` lies in the circular
    /// range from `head` (inclusive) to `tail` (exclusive).
    spec fn slot_live(self, i: int) -> bool {
        if self.head <= self.tail {
            self.head <= i < self.tail
        } else {
            i >= self.head || i < self.tail
        }
    }

    /// Internal invariant: both indices address a slot, and exactly the
    /// slots in the circular live range are occupied, so a vacated slot can
    /// never be re-read.
    pub closed spec fn well_formed(self) -> bool {
        &&& self.storage@.len() >= 1
        &&& self.head < self.storage@.len()
        &&& self.tail < self.storage@.len()
        &&& forall|i: int| 0 <= i < self.storage@.len() ==>
                (#[trigger] self.storage@[i] is Some <==> self.slot_live(i))
    }

    /// Creates a buffer of `capacity` vacant slots with `head == tail == 0`.
    /// Capacity zero cannot distinguish empty from full and is rejected.
    pub fn new(capacity: usize) -> (result: Result<Self, InvalidCapacity>)
        ensures
            match result {
                Ok(buffer) => {
                    &&& capacity >= 1
                    &&& buffer.well_formed()
                    &&& buffer.capacity() == capacity
                    &&& buffer@ == Seq::<T>::empty()
                },
                Err(e) => {
                    &&& capacity == 0
                    &&& e == InvalidCapacity
                },
            },
    {
        if capacity == 0 {
            return Err(InvalidCapacity);
        }
        let mut storage: Vec<Option<T>> = Vec::new();
        let mut i: usize = 0;
        while i < capacity
            invariant
                i <= capacity,
                storage@.len() == i,
                forall|j: int| 0 <= j < i ==> #[trigger] storage@[j] is None,
            decreases capacity - i,
        {
            storage.push(None);
            i = i + 1;
        }
        let buffer = RingBuffer { storage, head: 0, tail: 0 };
        proof {
            assert(buffer@ =~= Seq::<T>::empty());
        }
        Ok(buffer)
    }

    /// Whether no value is queued: `head == tail`.
    #[allow(non_snake_case)]
    pub fn isEmpty(&self) -> (empty: bool)
        requires
            self.well_formed(),
        ensures
            empty == (self@.len() == 0),
    {
        self.head == self.tail
    }

    /// Whether every slot but the reserved one is occupied:
    /// `(tail + 1) % capacity == head`.
    #[allow(non_snake_case)]
    pub fn isFull(&self) -> (full: bool)
        requires
            self.well_formed(),
        ensures
            full == (self@.len() == self.capacity() - 1),
    {
        let cap = self.storage.len();
        proof {
            if self.tail + 1 == cap {
                vstd::arithmetic::div_mod::lemma_mod_self_0(cap as int);
            } else {
                vstd::arithmetic::div_mod::lemma_small_mod((self.tail + 1) as nat, cap as nat);
            }
        }
        (self.tail + 1) % cap == self.head
    }

    /// The number of queued values: `(tail - head + capacity) % capacity`,
    /// computed without the intermediate sum so that it cannot overflow.
    pub fn len(&self) -> (count: usize)
        requires
            self.well_formed(),
        ensures
            count == self@.len(),
    {
        let cap = self.storage.len();
        if self.tail >= self.head {
            self.tail - self.head
        } else {
            self.tail + (cap - self.head)
        }
    }

    /// Appends `value` behind the newest queued value.  On a full buffer it
    /// fails with `Full`, handing `value` back to the caller; otherwise it
    /// writes `value` into slot `tail` and advances `tail` by one, wrapping.
    pub fn enqueue(&mut self, value: T) -> (result: Result<(), Full<T>>)
        requires
            old(self).well_formed(),
        ensures
            final(self).well_formed(),
            final(self).capacity() == old(self).capacity(),
            match result {
                Ok(()) => {
                    &&& old(self)@.len() < old(self).capacity() - 1
                    &&& final(self)@ == old(self)@.push(value)
                },
                Err(Full(v)) => {
                    &&& old(self)@.len() == old(self).capacity() - 1
                    &&& v == value
                    &&& *final(self) == *old(self)
                },
            },
    {
        if self.isFull() {
            return Err(Full(value));
        }
        let cap = self.storage.len();
        self.storage[self.tail] = Some(value);
        proof {
            if self.tail + 1 == cap {
                vstd::arithmetic::div_mod::lemma_mod_self_0(cap as int);
            } else {
                vstd::arithmetic::div_mod::lemma_small_mod((self.tail + 1) as nat, cap as nat);
            }
        }
        self.tail = (self.tail + 1) % cap;
        proof {
            assert(self@ =~= old(self)@.push(value));
        }
        Ok(())
    }

    /// Removes and returns the oldest queued value.  On an empty buffer it
    /// fails with `Empty`; otherwise it vacates slot `head`, so the value
    /// can never be re-read, and advances `head` by one, wrapping.
    pub fn dequeue(&mut self) -> (result: Result<T, Empty>)
        requires
            old(self).well_formed(),
        ensures
            final(self).well_formed(),
            final(self).capacity() == old(self).capacity(),
            match result {
                Ok(value) => {
                    &&& old(self)@.len() > 0
                    &&& value == old(self)@[0]
                    &&& final(self)@ == old(self)@.drop_first()
                },
                Err(e) => {
                    &&& old(self)@.len() == 0
                    &&& e == Empty
                    &&& *final(self) == *old(self)
                },
            },
    {
        if self.isEmpty() {
            return Err(Empty);
        }
        let cap = self.storage.len();
        let mut taken: Option<T> = None;
        core::mem::swap(&mut taken, &mut self.storage[self.head]);
        proof {
            if self.head + 1 == cap {
                vstd::arithmetic::div_mod::lemma_mod_self_0(cap as int);
            } else {
                vstd::arithmetic::div_mod::lemma_small_mod((self.head + 1) as nat, cap as nat);
            }
        }
        self.head = (self.head + 1) % cap;
        proof {
            assert(self@ =~= old(self)@.drop_first());
        }
        match taken {
            Some(value) => Ok(value),
            None => vstd::pervasive::unreached(),
        }
    }
}

/// Invariant: every well-formed buffer, and so every buffer reachable
/// through `new`, `enqueue` and `dequeue`, holds between `0` and
/// `capacity - 1` queued values — one slot always stays free, which is what
/// lets `head == tail` mean "empty" without ambiguity.
pub proof fn lemma_count_bounds<T>(buffer: RingBuffer<T>)
    requires
        buffer.well_formed(),
    ensures
        buffer.capacity() >= 1,
        0 <= buffer@.len() <= buffer.capacity() - 1,
{
}

/// FIFO round trip: start from an empty buffer and enqueue `vals` in order.
/// By `enqueue`'s contract the `i`-th enqueue turns contents `vals.take(i)`
/// into `vals.take(i + 1)`, so after all of them the contents are `vals`.
/// By `dequeue`'s contract the `i`-th dequeue then returns the first of
/// `vals.skip(i)`, which is `vals[i]`, and leaves `vals.skip(i + 1)`: the
/// values come back out in exactly the order they went in.
pub proof fn lemma_fifo_round_trip<T>(vals: Seq<T>, i: int)
    requires
        0 <= i < vals.len(),
    ensures
        vals.take(i).push(vals[i]) == vals.take(i + 1),
        vals.take(vals.len() as int) == vals,
        vals.skip(i)[0] == vals[i],
        vals.skip(i).drop_first() == vals.skip(i + 1),
        vals.skip(vals.len() as int) == Seq::<T>::empty(),
{
    assert(vals.take(i).push(vals[i]) =~= vals.take(i + 1));
    assert(vals.take(vals.len() as int) =~= vals);
    assert(vals.skip(i).drop_first() =~= vals.skip(i + 1));
    assert(vals.skip(vals.len() as int) =~= Seq::<T>::empty());
}

impl<T> View for RingBuffer<T> {
    type V = Seq<T>;

    /// The queued values, oldest first.
    closed spec fn view(&self) -> Seq<T> {
        Seq::new(self.count() as nat, |i: int| self.storage@[self.slot_index(i)]->0)
    }
}

} // verus!
