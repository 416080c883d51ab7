//! Fixed-capacity ring of typed records with drop-oldest overflow.
//!
//! The buffer is described by the records pushed so far (`history`, record `k`
//! carrying epoch `k + 1`), the epoch of the last record consumed
//! (`read_epoch_spec`) and the number of slots (`capacity_spec`). A push always
//! succeeds; once the consumer falls more than a lap behind, the oldest records
//! are overwritten and `pop` continues with the newest record of the next slot.
use vstd::prelude::*;
use crate::epochs::{
    holds_epoch,
    next_epoch,
    lemma_fresh_ring,
    lemma_latest_slot,
    lemma_next_slot,
    lemma_prev_index,
    lemma_push_epochs,
    lemma_step_mod,
};

verus! {

/// One position of the ring: a record and the epoch it was written with
/// (0 while the slot has never been written).
pub struct Slot<T> {
    data: T,
    epoch: u64,
}

impl<T: Default> Slot<T> {
    fn default() -> (s: Self)
        ensures
            s.epoch == 0,
    {
        Slot { data: T::default(), epoch: 0 }
    }
}

pub struct RingBuffer<T> {
    buffer: Vec<Slot<T>>,
    head: usize,
    tail: usize,
    write_epoch: u64,
    read_epoch: u64,
    capacity: usize,
    records: Ghost<Seq<T>>,
}

impl<T> RingBuffer<T> {
    /// Every record pushed so far, oldest first; record `k` carries epoch `k + 1`.
    pub closed spec fn history(&self) -> Seq<T> {
        self.records@
    }

    /// Epoch of the last record consumed (0 before the first `pop`).
    pub closed spec fn read_epoch_spec(&self) -> nat {
        self.read_epoch as nat
    }

    /// Number of slots.
    pub closed spec fn capacity_spec(&self) -> nat {
        self.capacity as nat
    }

    /// Current write epoch: the number of records pushed so far.
    pub open spec fn write_epoch_spec(&self) -> nat {
        self.history().len()
    }

    /// Some pushed record has not been consumed yet.
    pub open spec fn has_unread(&self) -> bool {
        self.read_epoch_spec() < self.write_epoch_spec()
    }

    /// Epoch of the record that the next `pop` returns, when `has_unread()`.
    pub open spec fn next_read(&self) -> int {
        next_epoch(
            self.write_epoch_spec() as int,
            self.read_epoch_spec() as int,
            self.capacity_spec() as int,
        )
    }

    /// `min(write_epoch - read_epoch, capacity)`.
    pub open spec fn len_spec(&self) -> nat {
        let unread = (self.write_epoch_spec() - self.read_epoch_spec()) as nat;
        if unread < self.capacity_spec() {
            unread
        } else {
            self.capacity_spec()
        }
    }

    /// Slots, indices and counters agree with the model.
    pub closed spec fn wf(&self) -> bool {
        let w = self.write_epoch as int;
        let c = self.capacity as int;
        &&& c > 0
        &&& self.buffer@.len() == c
        &&& self.write_epoch == self.records@.len()
        &&& self.read_epoch <= self.write_epoch
        &&& self.head as int == w % c
        &&& self.tail as int == self.read_epoch as int % c
        &&& forall|i: int|
            0 <= i < c ==> #[trigger] holds_epoch(w, c, i, self.buffer@[i].epoch as int)
        &&& forall|i: int|
            0 <= i < c && self.buffer@[i].epoch > 0 ==> #[trigger] self.buffer@[i].data
                == self.records@[self.buffer@[i].epoch - 1]
    }

    /// The buffer's invariant, with the facts about its model that callers use.
    pub open spec fn inv(&self) -> bool {
        &&& self.wf()
        &&& self.read_epoch_spec() <= self.write_epoch_spec()
        &&& self.capacity_spec() > 0
    }

    proof fn lemma_wf_facts(&self)
        requires
            self.wf(),
        ensures
            self.inv(),
            self.write_epoch_spec() == self.write_epoch,
    {
    }
}

impl<T: Clone + Default> RingBuffer<T> {
    /// An empty buffer of `capacity` slots, all with epoch 0.
    pub fn new(capacity: usize) -> (b: Self)
        requires
            capacity > 0,
        ensures
            b.inv(),
            b.history() == Seq::<T>::empty(),
            b.read_epoch_spec() == 0,
            b.capacity_spec() == capacity,
    {
        let mut buffer: Vec<Slot<T>> = Vec::with_capacity(capacity);
        let mut k: usize = 0;
        while k < capacity
            invariant
                k <= capacity,
                buffer@.len() == k,
                forall|i: int| 0 <= i < k ==> #[trigger] buffer@[i].epoch == 0,
            decreases capacity - k,
        {
            buffer.push(Slot::default());
            k = k + 1;
        }
        let b = RingBuffer {
            buffer,
            head: 0,
            tail: 0,
            write_epoch: 0,
            read_epoch: 0,
            capacity,
            records: Ghost(Seq::empty()),
        };
        assert forall|i: int| 0 <= i < capacity implies #[trigger] holds_epoch(
            0,
            capacity as int,
            i,
            b.buffer@[i].epoch as int,
        ) by {
            lemma_fresh_ring(capacity as int, i);
        }
        proof {
            b.lemma_wf_facts();
        }
        b
    }

    /// Writes `item` into the slot at `head` with the next epoch and returns that
    /// epoch. Never fails: an unread record in that slot is overwritten.
    pub fn push(&mut self, item: T) -> (e: u64)
        requires
            old(self).inv(),
            old(self).write_epoch_spec() < u64::MAX,
        ensures
            final(self).inv(),
            final(self).history() == old(self).history().push(item),
            final(self).read_epoch_spec() == old(self).read_epoch_spec(),
            final(self).capacity_spec() == old(self).capacity_spec(),
            e == final(self).write_epoch_spec(),
            e == old(self).write_epoch_spec() + 1,
    {
        let ghost w = self.write_epoch as int;
        let ghost c = self.capacity as int;
        let ghost old_buffer = self.buffer@;
        let ghost pushed = item;
        let head = self.head;
        let new_epoch = self.write_epoch + 1;
        self.write_epoch = new_epoch;
        self.buffer.set(head, Slot { data: item, epoch: new_epoch });
        self.head = (head + 1) % self.capacity;
        self.records = Ghost(self.records@.push(pushed));
        proof {
            lemma_step_mod(w, c);
            assert forall|i: int| 0 <= i < c implies #[trigger] holds_epoch(
                w + 1,
                c,
                i,
                self.buffer@[i].epoch as int,
            ) by {
                lemma_push_epochs(w, c, i, old_buffer[i].epoch as int);
            }
            assert forall|i: int| 0 <= i < c && self.buffer@[i].epoch > 0 implies #[trigger] self.buffer@[i].data
                == self.records@[self.buffer@[i].epoch - 1] by {
                if i != head as int {
                    assert(holds_epoch(w, c, i, old_buffer[i].epoch as int));
                }
            }
            self.lemma_wf_facts();
        }
        new_epoch
    }

    /// Takes the next record: the newest one in the slot after the last record
    /// consumed. Records overwritten before they were read are skipped; `None`
    /// once every record has been consumed.
    pub fn pop(&mut self) -> (r: Option<T>)
        requires
            old(self).inv(),
        ensures
            final(self).inv(),
            final(self).history() == old(self).history(),
            final(self).capacity_spec() == old(self).capacity_spec(),
            !old(self).has_unread() ==> r is None && final(self).read_epoch_spec()
                == old(self).read_epoch_spec(),
            old(self).has_unread() ==> old(self).read_epoch_spec() < old(self).next_read()
                <= old(self).write_epoch_spec(),
            old(self).has_unread() ==> final(self).read_epoch_spec() == old(self).next_read() && (
            r matches Some(v) && cloned(old(self).history()[old(self).next_read() - 1], v)),
    {
        let ghost w = self.write_epoch as int;
        let ghost c = self.capacity as int;
        let ghost rd = self.read_epoch as int;
        if self.write_epoch == 0 {
            return None;
        }
        let tail = self.tail;
        let slot_epoch = self.buffer[tail].epoch;
        proof {
            assert(holds_epoch(w, c, tail as int, slot_epoch as int));
            if rd < w {
                lemma_next_slot(w, rd, c, slot_epoch as int);
            }
        }
        if slot_epoch <= self.read_epoch {
            return None;
        }
        let item = self.buffer[tail].data.clone();
        self.read_epoch = slot_epoch;
        self.tail = (tail + 1) % self.capacity;
        proof {
            self.lemma_wf_facts();
        }
        Some(item)
    }

    /// The most recently pushed record and its epoch, without consuming anything.
    pub fn peek_latest(&self) -> (r: Option<(T, u64)>)
        requires
            self.inv(),
        ensures
            self.write_epoch_spec() == 0 ==> r is None,
            self.write_epoch_spec() > 0 ==> (r matches Some((v, e)) && e == self.write_epoch_spec()
                && cloned(self.history().last(), v)),
    {
        match self.peek_latest_ref() {
            Some((v, e)) => Some((v.clone(), e)),
            None => None,
        }
    }

    /// A borrowed view of the most recently pushed record and its epoch.
    pub fn peek_latest_ref(&self) -> (r: Option<(&T, u64)>)
        requires
            self.inv(),
        ensures
            self.write_epoch_spec() == 0 ==> r is None,
            self.write_epoch_spec() > 0 ==> (r matches Some((v, e)) && e == self.write_epoch_spec()
                && *v == self.history().last()),
    {
        if self.write_epoch == 0 {
            return None;
        }
        let head = self.head;
        let latest_idx = if head == 0 {
            self.capacity - 1
        } else {
            head - 1
        };
        proof {
            let w = self.write_epoch as int;
            let c = self.capacity as int;
            lemma_prev_index(w, c);
            assert(holds_epoch(w, c, latest_idx as int, self.buffer@[latest_idx as int].epoch as int));
            lemma_latest_slot(w, c, self.buffer@[latest_idx as int].epoch as int);
        }
        let slot = &self.buffer[latest_idx];
        Some((&slot.data, slot.epoch))
    }

    /// A borrowed view of the record that the next `pop` returns, and its epoch,
    /// without consuming it; `None` once every record has been consumed.
    pub fn peek_oldest_ref(&self) -> (r: Option<(&T, u64)>)
        requires
            self.inv(),
        ensures
            !self.has_unread() ==> r is None,
            self.has_unread() ==> (r matches Some((v, e)) && e == self.next_read()
                && *v == self.history()[self.next_read() - 1]),
    {
        if self.write_epoch == 0 {
            return None;
        }
        let tail = self.tail;
        let slot_epoch = self.buffer[tail].epoch;
        proof {
            let w = self.write_epoch as int;
            let c = self.capacity as int;
            let rd = self.read_epoch as int;
            assert(holds_epoch(w, c, tail as int, slot_epoch as int));
            if rd < w {
                lemma_next_slot(w, rd, c, slot_epoch as int);
            }
        }
        if slot_epoch <= self.read_epoch {
            return None;
        }
        Some((&self.buffer[tail].data, slot_epoch))
    }

    /// Current write epoch; 0 iff nothing was ever pushed.
    pub fn latest_epoch(&self) -> (e: u64)
        requires
            self.inv(),
        ensures
            e == self.write_epoch_spec(),
    {
        self.write_epoch
    }

    /// `min(write_epoch - read_epoch, capacity)`.
    pub fn len(&self) -> (n: usize)
        requires
            self.inv(),
        ensures
            n == self.len_spec(),
            n <= self.capacity_spec(),
    {
        if self.write_epoch == 0 {
            return 0;
        }
        let unread = self.write_epoch.saturating_sub(self.read_epoch);
        if unread < self.capacity as u64 {
            unread as usize
        } else {
            self.capacity
        }
    }

    pub fn is_empty(&self) -> (b: bool)
        requires
            self.inv(),
        ensures
            b == (self.len_spec() == 0),
    {
        self.len() == 0
    }

    pub fn is_full(&self) -> (b: bool)
        requires
            self.inv(),
        ensures
            b == (self.len_spec() == self.capacity_spec()),
    {
        self.len() == self.capacity
    }

    pub fn capacity(&self) -> (c: usize)
        requires
            self.inv(),
        ensures
            c == self.capacity_spec(),
    {
        self.capacity
    }

    /// After a push, the latest epoch is positive and is the epoch that push returned.
    pub proof fn lemma_latest_epoch_is_last_push(before: &Self, after: &Self, item: T, e: u64)
        requires
            before.inv(),
            after.history() == before.history().push(item),
            e == after.write_epoch_spec(),
        ensures
            after.write_epoch_spec() > 0,
            after.write_epoch_spec() == e,
    {
    }

    /// Without overwrites (at most `capacity` records unread), `pop` returns the
    /// oldest unread record: the records come out in the order they were pushed.
    pub proof fn lemma_pop_in_push_order(b: &Self)
        requires
            b.inv(),
            b.has_unread(),
            b.write_epoch_spec() - b.read_epoch_spec() <= b.capacity_spec(),
        ensures
            b.next_read() == b.read_epoch_spec() + 1,
    {
        crate::epochs::lemma_next_without_overwrite(
            b.write_epoch_spec() as int,
            b.read_epoch_spec() as int,
            b.capacity_spec() as int,
        );
    }
}

} // verus!
