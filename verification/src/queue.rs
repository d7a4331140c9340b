//! Fixed-capacity ring queue shared by one producer and one consumer.
//!
//! The queue is a plain value: it takes no lock of its own. Every method that
//! changes it takes `&mut self`, so the two sides can only reach it one at a
//! time, through whatever mutual exclusion the caller wraps around it.

use crate::ring::RingState;
use vstd::prelude::*;

verus! {

/// The ring queue: `N` optional slots, a read index and a write index.
///
/// One slot is given up to tell a full queue from an empty one, so at most
/// `N - 1` items wait at a time. `enqueue` stores its item even when it
/// reports failure; see [`SimpleQueue::enqueue`].
pub struct SimpleQueue<T, const N: usize> {
    data: [Option<T>; N],
    read_index: usize,
    write_index: usize,
}

impl<T, const N: usize> View for SimpleQueue<T, N> {
    type V = RingState<T>;

    closed spec fn view(&self) -> RingState<T> {
        RingState {
            slots: self.data@,
            read: self.read_index as int,
            write: self.write_index as int,
        }
    }
}

/// An empty slot, whatever its index.
fn vacant_slot<T>(_index: usize) -> (slot: Option<T>)
    ensures
        slot is None,
{
    None
}

/// Builds the slot array with `core::array::from_fn`, which fills each
/// position with what the given function returns for that position's index.
/// The function handed over is `vacant_slot`, so every slot of the result is
/// claimed to be `None`.
#[verifier::external_body]
fn vacant_slots<T, const N: usize>() -> (slots: [Option<T>; N])
    ensures
        forall|i: int| 0 <= i < N ==> slots@[i] is None,
{
    core::array::from_fn(vacant_slot::<T>)
}

impl<T, const N: usize> SimpleQueue<T, N> {
    /// Holds of every queue value: the state is well formed and has `N` slots.
    #[verifier::type_invariant]
    pub open spec fn well_formed(&self) -> bool {
        self@.wf() && self@.capacity() == N
    }

    /// An empty queue: every slot vacant, both indices at zero.
    pub fn new() -> (queue: SimpleQueue<T, N>)
        ensures
            queue@ == RingState::<T>::vacant(N as nat),
            queue.well_formed(),
            queue@.pending() == Seq::<T>::empty(),
    {
        let queue = SimpleQueue { data: vacant_slots(), read_index: 0, write_index: 0 };
        assert(queue@.slots =~= RingState::<T>::vacant(N as nat).slots);
        assert(queue@.pending() =~= Seq::<T>::empty());
        queue
    }

    /// Stores `e` at the write slot and advances the write index.
    ///
    /// Returns `false` when the advanced write index meets the read index.
    /// The item has been stored all the same, but from then on the queue
    /// reads as empty: the items that were waiting, and `e` with them, are no
    /// longer handed out by `dequeue`.
    ///
    /// A queue without slots has nowhere to store an item, hence `N > 0`.
    pub fn enqueue(&mut self, e: T) -> (accepted: bool)
        requires
            N > 0,
        ensures
            final(self)@ == old(self)@.enqueue(e),
            accepted == old(self)@.accepts(),
            final(self).well_formed(),
            accepted <==> old(self)@.len() + 1 < N,
            accepted ==> final(self)@.pending() == old(self)@.pending().push(e),
            !accepted ==> final(self)@.pending() == Seq::<T>::empty(),
    {
        proof {
            use_type_invariant(&*self);
            self@.lemma_enqueue(e);
            self@.lemma_advance(self@.write);
            self@.enqueue(e).lemma_len_bounds();
            self@.lemma_stored(e);
        }
        self.data[self.write_index] = Some(e);
        self.write_index = (self.write_index + 1) % N;
        self.write_index != self.read_index
    }

    /// Takes the oldest waiting item out of the queue.
    ///
    /// Returns `None`, at once and without changing anything, when the two
    /// indices coincide. Otherwise the read slot is cleared and the read
    /// index advances.
    pub fn dequeue(&mut self) -> (item: Option<T>)
        ensures
            final(self)@ == old(self)@.dequeue(),
            item == old(self)@.front(),
            final(self).well_formed(),
            old(self)@.is_empty() <==> old(self)@.pending().len() == 0,
            old(self)@.is_empty() ==> item is None && final(self)@ == old(self)@,
            !old(self)@.is_empty() ==> item == Some(old(self)@.pending()[0]),
            !old(self)@.is_empty() ==> final(self)@.pending() == old(self)@.pending().drop_first(),
    {
        proof {
            use_type_invariant(&*self);
            self@.lemma_dequeue();
            self@.lemma_len_bounds();
        }
        if self.write_index == self.read_index {
            None
        } else {
            proof {
                self@.lemma_advance(self@.read);
                self@.lemma_released();
            }
            let slot: usize = self.read_index;
            self.read_index = (slot + 1) % N;
            let mut item: Option<T> = None;
            core::mem::swap(&mut self.data[slot], &mut item);
            item
        }
    }

    /// Whether nothing is waiting: the two indices coincide.
    pub fn is_empty(&self) -> (empty: bool)
        ensures
            empty == self@.is_empty(),
            empty <==> self@.pending().len() == 0,
    {
        proof {
            use_type_invariant(self);
            self@.lemma_len_bounds();
        }
        self.read_index == self.write_index
    }

    /// Whether the queue is full: `N - 1` items wait, so that the next
    /// `enqueue` would make the write index catch up with the read index and
    /// report failure. Changes nothing. The index cannot be advanced in a
    /// queue without slots, hence `N > 0`.
    pub fn is_full(&self) -> (full: bool)
        requires
            N > 0,
        ensures
            full == self@.is_full(),
            full <==> (self@.write + 1) % (N as int) == self@.read,
            full <==> self@.len() == N - 1,
            full <==> self@.pending().len() == N - 1,
            full == !self@.accepts(),
    {
        proof {
            use_type_invariant(self);
            self@.lemma_full();
            self@.lemma_len_bounds();
        }
        let mut next_write: usize = self.write_index + 1;
        next_write %= N;
        next_write == self.read_index
    }
}

} // verus!
