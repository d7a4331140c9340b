//! Mathematical model of the ring queue: its state, what each operation
//! does to it, and the laws that follow.

use vstd::prelude::*;

verus! {

/// Mathematical state of a ring queue: its slots and its two indices.
#[verifier::ext_equal]
pub struct RingState<T> {
    /// One entry per slot; `None` marks a slot that holds nothing.
    pub slots: Seq<Option<T>>,
    /// Index of the slot the next `dequeue` reads.
    pub read: int,
    /// Index of the slot the next `enqueue` writes.
    pub write: int,
}

impl<T> RingState<T> {
    /// Number of slots.
    pub open spec fn capacity(self) -> int {
        self.slots.len() as int
    }

    /// A queue of `n` empty slots with both indices at zero.
    pub open spec fn vacant(n: nat) -> Self {
        RingState { slots: Seq::new(n, |i: int| None), read: 0, write: 0 }
    }

    /// The index after `i`, wrapping at the capacity.
    pub open spec fn advance(self, i: int) -> int {
        (i + 1) % self.capacity()
    }

    /// Number of items waiting to be read: `write - read`, modulo the capacity.
    pub open spec fn len(self) -> int {
        if self.write >= self.read {
            self.write - self.read
        } else {
            self.write - self.read + self.capacity()
        }
    }

    /// Slot index of the `k`-th waiting item, counted from the read index.
    pub open spec fn slot_of(self, k: int) -> int {
        if self.read + k < self.capacity() {
            self.read + k
        } else {
            self.read + k - self.capacity()
        }
    }

    /// Both indices are inside the slots and every waiting item is present.
    pub open spec fn wf(self) -> bool {
        &&& 0 <= self.read
        &&& 0 <= self.write
        &&& self.capacity() > 0 ==> self.read < self.capacity() && self.write < self.capacity()
        &&& self.capacity() == 0 ==> self.read == 0 && self.write == 0
        &&& forall|k: int| 0 <= k < self.len() ==> self.slots[#[trigger] self.slot_of(k)] is Some
    }

    /// The waiting items, oldest first.
    pub open spec fn pending(self) -> Seq<T> {
        Seq::new(self.len() as nat, |k: int| self.slots[self.slot_of(k)]->0)
    }

    /// The two indices coincide, so there is nothing to read.
    pub open spec fn is_empty(self) -> bool {
        self.read == self.write
    }

    /// One more item would make the write index catch up with the read
    /// index: every slot but the one given up is taken.
    pub open spec fn is_full(self) -> bool {
        self.advance(self.write) == self.read
    }

    /// Whether `enqueue` reports success: the advanced write index has not
    /// caught up with the read index.
    pub open spec fn accepts(self) -> bool {
        self.advance(self.write) != self.read
    }

    /// State after `enqueue(e)`: the item is stored at the write slot in every
    /// case, and the write index advances.
    pub open spec fn enqueue(self, e: T) -> Self {
        RingState {
            slots: self.slots.update(self.write, Some(e)),
            read: self.read,
            write: self.advance(self.write),
        }
    }

    /// What `dequeue` returns: nothing when empty, else the content of the
    /// read slot.
    pub open spec fn front(self) -> Option<T> {
        if self.is_empty() {
            None
        } else {
            self.slots[self.read]
        }
    }

    /// State after `dequeue`: unchanged when empty, else the read slot is
    /// cleared and the read index advances.
    pub open spec fn dequeue(self) -> Self {
        if self.is_empty() {
            self
        } else {
            RingState {
                slots: self.slots.update(self.read, None),
                read: self.advance(self.read),
                write: self.write,
            }
        }
    }

    /// State half way through `enqueue(e)`: the item is stored, the write
    /// index has not moved yet.
    pub open spec fn stored(self, e: T) -> Self {
        RingState {
            slots: self.slots.update(self.write, Some(e)),
            read: self.read,
            write: self.write,
        }
    }

    /// State half way through `dequeue` on a queue that is not empty: the
    /// read index has moved on, the slot it left is not cleared yet.
    pub open spec fn released(self) -> Self {
        RingState { slots: self.slots, read: self.advance(self.read), write: self.write }
    }

    /// State after enqueueing `items` one by one, first to last.
    pub open spec fn enqueue_all(self, items: Seq<T>) -> Self
        decreases items.len(),
    {
        if items.len() == 0 {
            self
        } else {
            self.enqueue_all(items.drop_last()).enqueue(items.last())
        }
    }

    /// State after `n` successive dequeues.
    pub open spec fn dequeue_n(self, n: nat) -> Self
        decreases n,
    {
        if n == 0 {
            self
        } else {
            self.dequeue_n((n - 1) as nat).dequeue()
        }
    }

    /// What `n` successive dequeues return, in call order.
    pub open spec fn dequeued(self, n: nat) -> Seq<Option<T>>
        decreases n,
    {
        if n == 0 {
            Seq::empty()
        } else {
            self.dequeued((n - 1) as nat).push(self.dequeue_n((n - 1) as nat).front())
        }
    }

    /// Wrapping advance, by cases.
    pub proof fn lemma_advance(self, i: int)
        requires
            0 <= i < self.capacity(),
        ensures
            i + 1 == self.capacity() ==> self.advance(i) == 0,
            i + 1 < self.capacity() ==> self.advance(i) == i + 1,
            0 <= self.advance(i) < self.capacity(),
    {
        let n = self.capacity();
        if i + 1 == n {
            vstd::arithmetic::div_mod::lemma_mod_self_0(n);
        } else {
            vstd::arithmetic::div_mod::lemma_small_mod((i + 1) as nat, n as nat);
        }
    }

    /// A well-formed queue never holds more than `capacity - 1` waiting
    /// items, and holds none exactly when its indices coincide.
    pub proof fn lemma_len_bounds(self)
        requires
            self.wf(),
        ensures
            0 <= self.len(),
            self.capacity() > 0 ==> self.len() < self.capacity(),
            self.is_empty() <==> self.len() == 0,
            self.pending().len() == self.len(),
    {
    }

    /// A queue is full exactly when `capacity - 1` items wait, which is
    /// exactly when the next `enqueue` would report failure.
    pub proof fn lemma_full(self)
        requires
            self.wf(),
            self.capacity() > 0,
        ensures
            self.is_full() <==> self.len() == self.capacity() - 1,
            self.is_full() <==> !self.accepts(),
            self.capacity() > 1 ==> !(self.is_full() && self.is_empty()),
    {
        self.lemma_advance(self.write);
    }

    /// Storing the item before the write index moves keeps the queue well
    /// formed.
    pub proof fn lemma_stored(self, e: T)
        requires
            self.wf(),
            self.capacity() > 0,
        ensures
            self.stored(e).wf(),
    {
        let stored = self.stored(e);
        assert forall|k: int|
            0 <= k < stored.len() implies stored.slots[#[trigger] stored.slot_of(k)] is Some by {
            assert(self.slots[self.slot_of(k)] is Some);
        }
    }

    /// Moving the read index on before its slot is cleared keeps the queue
    /// well formed.
    pub proof fn lemma_released(self)
        requires
            self.wf(),
            !self.is_empty(),
        ensures
            self.released().wf(),
    {
        let released = self.released();
        self.lemma_advance(self.read);
        assert forall|k: int|
            0 <= k < released.len() implies released.slots[#[trigger] released.slot_of(
                k,
            )] is Some by {
            assert(released.slot_of(k) == self.slot_of(k + 1));
            assert(self.slots[self.slot_of(k + 1)] is Some);
        }
    }

    /// `enqueue` keeps the queue well formed. With room left it reports
    /// success and appends the item to the waiting items; at `capacity - 1`
    /// waiting items it reports failure and the queue reads as empty.
    pub proof fn lemma_enqueue(self, e: T)
        requires
            self.wf(),
            self.capacity() > 0,
        ensures
            self.enqueue(e).wf(),
            self.enqueue(e).capacity() == self.capacity(),
            self.enqueue(e).slots[self.write] == Some(e),
            self.accepts() <==> self.len() + 1 < self.capacity(),
            self.accepts() ==> self.enqueue(e).pending() == self.pending().push(e),
            !self.accepts() ==> self.enqueue(e).is_empty(),
    {
        let after = self.enqueue(e);
        self.lemma_advance(self.write);
        if self.accepts() {
            assert forall|k: int|
                0 <= k < after.len() implies after.slots[#[trigger] after.slot_of(k)] is Some by {
                if k < self.len() {
                    assert(self.slots[self.slot_of(k)] is Some);
                }
            }
            assert forall|k: int| 0 <= k < after.len() implies #[trigger] after.pending()[k]
                == self.pending().push(e)[k] by {
                if k < self.len() {
                    assert(after.slot_of(k) == self.slot_of(k));
                }
            }
            assert(after.pending() =~= self.pending().push(e));
        }
    }

    /// `dequeue` keeps the queue well formed. On an empty queue it returns
    /// nothing and changes nothing; otherwise it returns the oldest waiting
    /// item and leaves the rest in order.
    pub proof fn lemma_dequeue(self)
        requires
            self.wf(),
        ensures
            self.dequeue().wf(),
            self.dequeue().capacity() == self.capacity(),
            self.is_empty() ==> self.front() is None && self.dequeue() == self,
            !self.is_empty() ==> self.front() == Some(self.pending()[0]),
            !self.is_empty() ==> self.dequeue().pending() == self.pending().drop_first(),
            !self.is_empty() ==> self.dequeue().slots[self.read] is None,
    {
        if !self.is_empty() {
            let after = self.dequeue();
            self.lemma_advance(self.read);
            assert(self.slots[self.slot_of(0)] is Some);
            assert forall|k: int|
                0 <= k < after.len() implies after.slots[#[trigger] after.slot_of(k)] is Some by {
                assert(after.slot_of(k) == self.slot_of(k + 1));
                assert(self.slots[self.slot_of(k + 1)] is Some);
            }
            assert forall|k: int| 0 <= k < after.len() implies #[trigger] after.pending()[k]
                == self.pending().drop_first()[k] by {
                assert(after.slot_of(k) == self.slot_of(k + 1));
            }
            assert(after.pending() =~= self.pending().drop_first());
        }
    }
}

impl<T> RingState<T> {
    /// Enqueueing while room is left: every enqueue reports success and the
    /// items join the waiting items in order.
    pub proof fn lemma_enqueue_all(self, items: Seq<T>)
        requires
            self.wf(),
            self.capacity() > 0,
            self.len() + items.len() < self.capacity(),
        ensures
            self.enqueue_all(items).wf(),
            self.enqueue_all(items).capacity() == self.capacity(),
            self.enqueue_all(items).read == self.read,
            self.enqueue_all(items).len() == self.len() + items.len(),
            self.enqueue_all(items).pending() == self.pending() + items,
            forall|k: int|
                0 <= k < items.len() ==> #[trigger] self.enqueue_all(items.take(k)).accepts(),
        decreases items.len(),
    {
        self.lemma_len_bounds();
        if items.len() == 0 {
            assert(self.pending() + items =~= self.pending());
        } else {
            let earlier = items.drop_last();
            let middle = self.enqueue_all(earlier);
            self.lemma_enqueue_all(earlier);
            middle.lemma_len_bounds();
            middle.lemma_enqueue(items.last());
            let after = self.enqueue_all(items);
            after.lemma_len_bounds();
            assert(after.pending() =~= self.pending() + items);
            assert forall|k: int| 0 <= k < items.len() implies #[trigger] self.enqueue_all(
                items.take(k),
            ).accepts() by {
                if k < earlier.len() {
                    assert(items.take(k) =~= earlier.take(k));
                } else {
                    assert(items.take(k) =~= earlier);
                }
            }
        }
    }

    /// Dequeueing no more than what waits: the dequeues return the oldest
    /// waiting items in order and leave the rest.
    pub proof fn lemma_dequeue_n(self, n: nat)
        requires
            self.wf(),
            n <= self.len(),
        ensures
            self.dequeue_n(n).wf(),
            self.dequeue_n(n).capacity() == self.capacity(),
            self.dequeue_n(n).len() == self.len() - n,
            self.dequeue_n(n).pending() == self.pending().skip(n as int),
            self.dequeued(n) == self.pending().take(n as int).map_values(|item: T| Some(item)),
        decreases n,
    {
        self.lemma_len_bounds();
        if n == 0 {
            assert(self.pending().skip(0) =~= self.pending());
            assert(self.dequeued(0) =~= self.pending().take(0).map_values(|item: T| Some(item)));
        } else {
            let before = (n - 1) as nat;
            let middle = self.dequeue_n(before);
            self.lemma_dequeue_n(before);
            middle.lemma_len_bounds();
            middle.lemma_dequeue();
            let after = self.dequeue_n(n);
            after.lemma_len_bounds();
            assert(after.pending() =~= self.pending().skip(n as int));
            assert(middle.front() == Some(self.pending()[n - 1]));
            assert(self.dequeued(n) =~= self.pending().take(n as int).map_values(
                |item: T| Some(item),
            ));
        }
    }
}

/// First in, first out: items enqueued into an empty queue, no more than
/// `capacity - 1` of them, are all accepted, and as many dequeues return
/// them in the order they were enqueued and leave the queue empty.
pub proof fn law_fifo_round_trip<T>(queue: RingState<T>, items: Seq<T>)
    requires
        queue.wf(),
        queue.is_empty(),
        items.len() < queue.capacity(),
    ensures
        forall|k: int|
            0 <= k < items.len() ==> #[trigger] queue.enqueue_all(items.take(k)).accepts(),
        queue.enqueue_all(items).pending() == items,
        queue.enqueue_all(items).dequeued(items.len()) == items.map_values(|item: T| Some(item)),
        queue.enqueue_all(items).dequeue_n(items.len()).is_empty(),
{
    queue.lemma_len_bounds();
    queue.lemma_enqueue_all(items);
    let filled = queue.enqueue_all(items);
    assert(filled.pending() =~= items);
    filled.lemma_dequeue_n(items.len());
    assert(filled.pending().take(items.len() as int) =~= items);
    filled.dequeue_n(items.len()).lemma_len_bounds();
}

/// Overrun: of `capacity` items enqueued into an empty queue, all but the
/// last are accepted and the last is reported as a failure. Every one of
/// them, the last included, sits in its slot afterwards, yet the queue
/// reads as empty: a dequeue that follows returns nothing.
pub proof fn law_overrun_on_last_slot<T>(queue: RingState<T>, items: Seq<T>)
    requires
        queue.wf(),
        queue.is_empty(),
        queue.capacity() > 0,
        items.len() == queue.capacity(),
    ensures
        forall|k: int|
            0 <= k < items.len() - 1 ==> #[trigger] queue.enqueue_all(items.take(k)).accepts(),
        !queue.enqueue_all(items.drop_last()).accepts(),
        forall|k: int|
            0 <= k < items.len() ==> queue.enqueue_all(items).slots[#[trigger] queue.slot_of(k)]
                == Some(items[k]),
        queue.enqueue_all(items).is_empty(),
        queue.enqueue_all(items).front() is None,
        queue.enqueue_all(items).dequeue() == queue.enqueue_all(items),
{
    let earlier = items.drop_last();
    let middle = queue.enqueue_all(earlier);
    let after = queue.enqueue_all(items);
    queue.lemma_len_bounds();
    queue.lemma_enqueue_all(earlier);
    middle.lemma_len_bounds();
    middle.lemma_enqueue(items.last());
    assert forall|k: int| 0 <= k < items.len() - 1 implies #[trigger] queue.enqueue_all(
        items.take(k),
    ).accepts() by {
        assert(items.take(k) =~= earlier.take(k));
    }
    assert forall|k: int| 0 <= k < items.len() implies after.slots[#[trigger] queue.slot_of(k)]
        == Some(items[k]) by {
        if k < earlier.len() {
            assert(middle.slot_of(k) == queue.slot_of(k));
            assert(middle.slots[middle.slot_of(k)] is Some);
            assert(middle.pending()[k] == items[k]);
        }
    }
}

/// One step taken on the queue by either side.
pub enum QueueOp<T> {
    /// The producer enqueues this item.
    Enqueue(T),
    /// The consumer dequeues.
    Dequeue,
}

/// The items that the enqueues among `ops` bring, in order.
pub open spec fn offered<T>(ops: Seq<QueueOp<T>>) -> Seq<T>
    decreases ops.len(),
{
    if ops.len() == 0 {
        Seq::empty()
    } else {
        match ops.last() {
            QueueOp::Enqueue(item) => offered(ops.drop_last()).push(item),
            QueueOp::Dequeue => offered(ops.drop_last()),
        }
    }
}

impl<T> RingState<T> {
    /// State after one step.
    pub open spec fn apply(self, op: QueueOp<T>) -> Self {
        match op {
            QueueOp::Enqueue(item) => self.enqueue(item),
            QueueOp::Dequeue => self.dequeue(),
        }
    }

    /// State after a run of steps, taken one at a time in the given order.
    pub open spec fn apply_all(self, ops: Seq<QueueOp<T>>) -> Self
        decreases ops.len(),
    {
        if ops.len() == 0 {
            self
        } else {
            self.apply_all(ops.drop_last()).apply(ops.last())
        }
    }

    /// Every enqueue among `ops` finds room: none of them is reported as a
    /// failure.
    pub open spec fn never_overruns(self, ops: Seq<QueueOp<T>>) -> bool
        decreases ops.len(),
    {
        if ops.len() == 0 {
            true
        } else {
            &&& self.never_overruns(ops.drop_last())
            &&& ops.last() is Enqueue ==> self.apply_all(ops.drop_last()).accepts()
        }
    }

    /// The items that the dequeues among `ops` return, in order.
    pub open spec fn delivered(self, ops: Seq<QueueOp<T>>) -> Seq<T>
        decreases ops.len(),
    {
        if ops.len() == 0 {
            Seq::empty()
        } else {
            let earlier = self.delivered(ops.drop_last());
            match (ops.last(), self.apply_all(ops.drop_last()).front()) {
                (QueueOp::Dequeue, Some(item)) => earlier.push(item),
                _ => earlier,
            }
        }
    }
}

/// Nothing is lost, doubled or reordered, however the two sides take turns:
/// as long as no enqueue is reported as a failure, what has been delivered,
/// followed by what still waits, is what waited at the start followed by
/// what was enqueued since.
pub proof fn law_interleaving_keeps_order<T>(queue: RingState<T>, ops: Seq<QueueOp<T>>)
    requires
        queue.wf(),
        queue.capacity() > 0,
        queue.never_overruns(ops),
    ensures
        queue.apply_all(ops).wf(),
        queue.apply_all(ops).capacity() == queue.capacity(),
        queue.delivered(ops) + queue.apply_all(ops).pending() == queue.pending() + offered(ops),
    decreases ops.len(),
{
    if ops.len() == 0 {
        assert(queue.delivered(ops) + queue.pending() =~= queue.pending() + offered(ops));
    } else {
        let earlier = ops.drop_last();
        let middle = queue.apply_all(earlier);
        let after = queue.apply_all(ops);
        law_interleaving_keeps_order(queue, earlier);
        match ops.last() {
            QueueOp::Enqueue(item) => {
                middle.lemma_enqueue(item);
                assert(queue.delivered(ops) + after.pending() =~= (queue.delivered(earlier)
                    + middle.pending()).push(item));
                assert(queue.pending() + offered(ops) =~= (queue.pending() + offered(
                    earlier,
                )).push(item));
            },
            QueueOp::Dequeue => {
                middle.lemma_dequeue();
                middle.lemma_len_bounds();
                if !middle.is_empty() {
                    assert(queue.delivered(ops) + after.pending() =~= queue.delivered(earlier)
                        + middle.pending());
                }
            },
        }
    }
}

} // verus!
