//! A bounded circular stack.
//!
//! The stack has a fixed number of slots and a cursor. A push writes the slot
//! under the cursor and moves the cursor on, back to slot 0 after the last
//! slot; it never fails, so pushing into a fully used stack overwrites the
//! oldest entries. A pop moves the cursor back, stopping at slot 0, and
//! empties the slot it lands on.

use vstd::prelude::*;

verus! {

/// The mathematical content of a [`Stack`]: a cursor and one entry per slot.
pub struct StackModel<T> {
    /// The slot that the next push writes to.
    pub top: nat,
    /// The slots, `None` where a slot holds nothing. The length is the capacity.
    pub slots: Seq<Option<T>>,
}

impl<T> StackModel<T> {
    /// The stack of `capacity` slots in which nothing was pushed yet.
    pub open spec fn empty(capacity: nat) -> Self {
        StackModel { top: 0, slots: Seq::new(capacity, |i: int| None::<T>) }
    }

    /// The number of slots.
    pub open spec fn capacity(self) -> nat {
        self.slots.len()
    }

    /// The cursor points at a slot, or at 0 where there are no slots.
    pub open spec fn wf(self) -> bool {
        self.top < self.slots.len() || self.top == 0
    }

    /// The stack after `value` was pushed. A stack without slots keeps nothing.
    pub open spec fn after_push(self, value: T) -> Self {
        if self.slots.len() == 0 {
            self
        } else {
            StackModel {
                top: if self.top + 1 < self.slots.len() {
                    self.top + 1
                } else {
                    0
                },
                slots: self.slots.update(self.top as int, Some(value)),
            }
        }
    }

    /// The slot that a pop reads and empties: the one below the cursor, or
    /// slot 0 where the cursor is already there.
    pub open spec fn pop_slot(self) -> nat {
        if self.top == 0 {
            0
        } else {
            (self.top - 1) as nat
        }
    }

    /// What a pop returns.
    pub open spec fn pop_value(self) -> Option<T> {
        if self.slots.len() == 0 {
            None
        } else {
            self.slots[self.pop_slot() as int]
        }
    }

    /// The stack after a pop.
    pub open spec fn after_pop(self) -> Self {
        if self.slots.len() == 0 {
            self
        } else {
            StackModel {
                top: self.pop_slot(),
                slots: self.slots.update(self.pop_slot() as int, None),
            }
        }
    }

    /// The stack after each value of `values` was pushed, first to last.
    pub open spec fn after_pushes(self, values: Seq<T>) -> Self
        decreases values.len(),
    {
        if values.len() == 0 {
            self
        } else {
            self.after_pushes(values.drop_last()).after_push(values.last())
        }
    }
}

/// A stack of at most `capacity` values that overwrites instead of growing.
pub struct Stack<T> {
    tail: usize,
    capacity: usize,
    data: Vec<Option<T>>,
}

impl<T> View for Stack<T> {
    type V = StackModel<T>;

    closed spec fn view(&self) -> StackModel<T> {
        StackModel {
            top: self.tail as nat,
            slots: Seq::new(
                self.capacity as nat,
                |i: int|
                    if i < self.data.len() {
                        self.data[i]
                    } else {
                        None
                    },
            ),
        }
    }
}

impl<T> Stack<T> {
    /// The invariant of the representation. Slots are allocated on first use,
    /// from slot 0 upwards, and the cursor never passes the allocated slots.
    pub closed spec fn wf(&self) -> bool {
        &&& self.tail <= self.data.len()
        &&& self.data.len() <= self.capacity
        &&& (self.tail < self.capacity || self.tail == 0)
    }

    /// A well-formed stack has a well-formed model.
    pub proof fn lemma_wf_model(&self)
        requires
            self.wf(),
        ensures
            self@.wf(),
    {
    }

    /// An empty stack with `size` slots.
    pub fn new(size: usize) -> (s: Self)
        ensures
            s.wf(),
            s@ == StackModel::<T>::empty(size as nat),
    {
        let s = Stack { tail: 0, capacity: size, data: Vec::new() };
        assert(s@.slots =~= StackModel::<T>::empty(size as nat).slots);
        s
    }

    /// Stores `element` under the cursor and moves the cursor to the next
    /// slot, or to slot 0 after the last one.
    pub fn push(&mut self, element: T)
        requires
            old(self).wf(),
        ensures
            final(self).wf(),
            final(self)@ == old(self)@.after_push(element),
    {
        if self.capacity == 0 {
            return ;
        }
        self.push_element(element);
        if self.tail + 1 < self.capacity {
            self.tail += 1;
        } else {
            self.tail = 0;
        }
    }

    /// Moves the cursor one slot back, unless it is at slot 0, and takes what
    /// the slot under it holds.
    pub fn pop(&mut self) -> (value: Option<T>)
        requires
            old(self).wf(),
        ensures
            final(self).wf(),
            value == old(self)@.pop_value(),
            final(self)@ == old(self)@.after_pop(),
    {
        let prev: usize = if self.tail == 0 {
            0
        } else {
            self.tail -= 1;
            self.tail
        };
        if prev < self.data.len() {
            let value = self.data[prev].take();
            assert(self@.slots =~= old(self)@.after_pop().slots);
            value
        } else {
            assert(self@.slots =~= old(self)@.after_pop().slots);
            None
        }
    }

    /// Writes `element` to the slot under the cursor, allocating the slot
    /// where it was never used. The cursor stays.
    fn push_element(&mut self, element: T)
        requires
            old(self).wf(),
            old(self).capacity > 0,
        ensures
            final(self).tail == old(self).tail,
            final(self).capacity == old(self).capacity,
            final(self).tail < final(self).data.len(),
            final(self).data.len() <= final(self).capacity,
            final(self)@.slots == old(self)@.slots.update(old(self).tail as int, Some(element)),
    {
        if self.is_full() {
            self.data.push(Some(element));
        } else {
            self.data[self.tail] = Some(element);
        }
        assert(self@.slots =~= old(self)@.slots.update(old(self).tail as int, Some(element)));
    }

    /// Whether every allocated slot lies below the cursor while unallocated
    /// slots are left, so that the next write has to allocate one.
    fn is_full(&self) -> (full: bool)
        ensures
            full == (self.tail == self.data.len() && self.tail < self.capacity),
    {
        self.tail == self.data.len() && self.tail < self.capacity
    }
}

/// Pushing fewer values than an empty stack has slots leaves the cursor at
/// their count, with every slot still there.
pub proof fn lemma_pushes_below_capacity<T>(capacity: nat, values: Seq<T>)
    requires
        values.len() < capacity,
    ensures
        StackModel::<T>::empty(capacity).after_pushes(values).top == values.len(),
        StackModel::<T>::empty(capacity).after_pushes(values).slots.len() == capacity,
    decreases values.len(),
{
    if values.len() > 0 {
        lemma_pushes_below_capacity::<T>(capacity, values.drop_last());
    }
}

/// An empty stack of `capacity` slots, at least one, into which one value
/// more than it has slots was pushed, pops the value pushed last: the push
/// past the capacity wrote over the first value, and raised no error.
pub proof fn lemma_overflow_pops_newest<T>(capacity: nat, values: Seq<T>)
    requires
        capacity >= 1,
        values.len() == capacity + 1,
    ensures
        StackModel::<T>::empty(capacity).after_pushes(values).pop_value() == Some(
            values.last(),
        ),
        StackModel::<T>::empty(capacity).after_pushes(values).pop_value() == Some(
            values[capacity as int],
        ),
{
    let filled = values.drop_last();
    let below = filled.drop_last();
    lemma_pushes_below_capacity::<T>(capacity, below);
    let start = StackModel::<T>::empty(capacity);
    assert(start.after_pushes(filled) == start.after_pushes(below).after_push(filled.last()));
    assert(start.after_pushes(values) == start.after_pushes(filled).after_push(values.last()));
}

} // verus!
