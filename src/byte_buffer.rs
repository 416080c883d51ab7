//! Ring of variable-length byte records, each stored inline in a fixed-size slot
//! behind a length header. Same epoch protocol and overflow policy as
//! [`crate::ring_buffer::RingBuffer`].
use vstd::prelude::*;
use crate::epochs::{
    holds_epoch,
    next_epoch,
    lemma_fresh_ring,
    lemma_latest_slot,
    lemma_next_slot,
    lemma_prev_index,
    lemma_push_epochs,
    lemma_step_mod,
};

verus! {

/// Bytes taken by one slot: header and payload area.
pub const SLOT_SIZE: usize = 256;

/// Bytes of a slot's header (payload length and epoch).
pub const HEADER_SIZE: usize = 12;

/// Largest payload one slot holds.
pub const MAX_PAYLOAD_SIZE: usize = SLOT_SIZE - HEADER_SIZE;

/// One position of the ring: the length of the stored payload, the epoch it was
/// written with (0 while never written) and a payload area of `MAX_PAYLOAD_SIZE` bytes.
pub struct ByteSlot {
    len: u32,
    epoch: u64,
    data: Vec<u8>,
}

impl ByteSlot {
    fn new() -> (s: Self)
        ensures
            s.epoch == 0,
            s.len == 0,
            s.data@.len() == MAX_PAYLOAD_SIZE,
    {
        ByteSlot { len: 0, epoch: 0, data: vec![0u8; MAX_PAYLOAD_SIZE] }
    }

    /// The payload currently stored in the slot.
    closed spec fn payload(&self) -> Seq<u8> {
        self.data@.subrange(0, self.len as int)
    }

    closed spec fn shaped(&self) -> bool {
        self.data@.len() == MAX_PAYLOAD_SIZE && self.len <= MAX_PAYLOAD_SIZE
    }

    /// Stores `bytes` with `epoch`: length first, then the payload, epoch last.
    fn write(&mut self, bytes: &[u8], epoch: u64)
        requires
            old(self).shaped(),
            bytes@.len() <= MAX_PAYLOAD_SIZE,
        ensures
            final(self).shaped(),
            final(self).payload() == bytes@,
            final(self).epoch == epoch,
    {
        let n = bytes.len();
        self.len = n as u32;
        let mut i: usize = 0;
        while i < n
            invariant
                n == bytes@.len(),
                n <= MAX_PAYLOAD_SIZE,
                i <= n,
                self.len == n,
                self.data@.len() == MAX_PAYLOAD_SIZE,
                forall|k: int| 0 <= k < i ==> #[trigger] self.data@[k] == bytes@[k],
            decreases n - i,
        {
            self.data.set(i, bytes[i]);
            i = i + 1;
        }
        self.epoch = epoch;
        assert(self.payload() =~= bytes@);
    }

    /// A copy of the stored payload.
    fn copy_payload(&self) -> (v: Vec<u8>)
        requires
            self.shaped(),
        ensures
            v@ == self.payload(),
    {
        let n = self.len as usize;
        let mut v: Vec<u8> = Vec::with_capacity(n);
        let mut i: usize = 0;
        while i < n
            invariant
                n == self.len,
                n <= self.data@.len(),
                i <= n,
                v@ == self.data@.subrange(0, i as int),
            decreases n - i,
        {
            v.push(self.data[i]);
            i = i + 1;
            assert(v@ =~= self.data@.subrange(0, i as int));
        }
        v
    }

    /// A borrowed view of the stored payload.
    fn payload_ref(&self) -> (s: &[u8])
        requires
            self.shaped(),
        ensures
            s@ == self.payload(),
    {
        let n = self.len as usize;
        &self.data.as_slice()[0..n]
    }
}

pub struct ByteRingBuffer {
    buffer: Vec<ByteSlot>,
    head: usize,
    tail: usize,
    write_epoch: u64,
    read_epoch: u64,
    capacity: usize,
    records: Ghost<Seq<Seq<u8>>>,
}

impl ByteRingBuffer {
    /// Every payload pushed so far, oldest first; payload `k` carries epoch `k + 1`.
    pub closed spec fn history(&self) -> Seq<Seq<u8>> {
        self.records@
    }

    /// Epoch of the last record consumed (0 before the first `pop`).
    pub closed spec fn read_epoch_spec(&self) -> nat {
        self.read_epoch as nat
    }

    /// Number of slots.
    pub closed spec fn capacity_spec(&self) -> nat {
        self.capacity as nat
    }

    /// Current write epoch: the number of records pushed so far.
    pub open spec fn write_epoch_spec(&self) -> nat {
        self.history().len()
    }

    /// Some pushed record has not been consumed yet.
    pub open spec fn has_unread(&self) -> bool {
        self.read_epoch_spec() < self.write_epoch_spec()
    }

    /// Epoch of the record that the next `pop` returns, when `has_unread()`.
    pub open spec fn next_read(&self) -> int {
        next_epoch(
            self.write_epoch_spec() as int,
            self.read_epoch_spec() as int,
            self.capacity_spec() as int,
        )
    }

    /// `min(write_epoch - read_epoch, capacity)`.
    pub open spec fn len_spec(&self) -> nat {
        let unread = (self.write_epoch_spec() - self.read_epoch_spec()) as nat;
        if unread < self.capacity_spec() {
            unread
        } else {
            self.capacity_spec()
        }
    }

    /// Slots, indices and counters agree with the model.
    pub closed spec fn wf(&self) -> bool {
        let w = self.write_epoch as int;
        let c = self.capacity as int;
        &&& c > 0
        &&& self.buffer@.len() == c
        &&& self.write_epoch == self.records@.len()
        &&& self.read_epoch <= self.write_epoch
        &&& self.head as int == w % c
        &&& self.tail as int == self.read_epoch as int % c
        &&& forall|k: int|
            0 <= k < self.records@.len() ==> (#[trigger] self.records@[k]).len() <= MAX_PAYLOAD_SIZE
        &&& forall|i: int| 0 <= i < c ==> (#[trigger] self.buffer@[i]).shaped()
        &&& forall|i: int|
            0 <= i < c ==> #[trigger] holds_epoch(w, c, i, self.buffer@[i].epoch as int)
        &&& forall|i: int|
            0 <= i < c && self.buffer@[i].epoch > 0 ==> #[trigger] self.buffer@[i].payload()
                == self.records@[self.buffer@[i].epoch - 1]
    }

    /// The buffer's invariant, with the facts about its model that callers use.
    pub open spec fn inv(&self) -> bool {
        &&& self.wf()
        &&& self.read_epoch_spec() <= self.write_epoch_spec()
        &&& self.capacity_spec() > 0
        &&& forall|k: int|
            0 <= k < self.write_epoch_spec() ==> (#[trigger] self.history()[k]).len()
                <= MAX_PAYLOAD_SIZE
    }

    proof fn lemma_wf_facts(&self)
        requires
            self.wf(),
        ensures
            self.inv(),
            self.write_epoch_spec() == self.write_epoch,
    {
    }

    /// An empty buffer of `capacity` slots, all with epoch 0.
    pub fn new(capacity: usize) -> (b: Self)
        requires
            capacity > 0,
        ensures
            b.inv(),
            b.history() == Seq::<Seq<u8>>::empty(),
            b.read_epoch_spec() == 0,
            b.capacity_spec() == capacity,
    {
        let mut buffer: Vec<ByteSlot> = Vec::with_capacity(capacity);
        let mut k: usize = 0;
        while k < capacity
            invariant
                k <= capacity,
                buffer@.len() == k,
                forall|i: int|
                    0 <= i < k ==> (#[trigger] buffer@[i]).epoch == 0 && buffer@[i].shaped(),
            decreases capacity - k,
        {
            buffer.push(ByteSlot::new());
            k = k + 1;
        }
        let b = ByteRingBuffer {
            buffer,
            head: 0,
            tail: 0,
            write_epoch: 0,
            read_epoch: 0,
            capacity,
            records: Ghost(Seq::empty()),
        };
        assert forall|i: int| 0 <= i < capacity implies #[trigger] holds_epoch(
            0,
            capacity as int,
            i,
            b.buffer@[i].epoch as int,
        ) by {
            lemma_fresh_ring(capacity as int, i);
        }
        proof {
            b.lemma_wf_facts();
        }
        b
    }

    /// Stores `data` in the slot at `head` with the next epoch and returns that
    /// epoch, overwriting an unread record there. `None`, with nothing changed,
    /// when `data` is longer than `MAX_PAYLOAD_SIZE`.
    pub fn push(&mut self, data: &[u8]) -> (r: Option<u64>)
        requires
            old(self).inv(),
            old(self).write_epoch_spec() < u64::MAX,
        ensures
            final(self).inv(),
            final(self).read_epoch_spec() == old(self).read_epoch_spec(),
            final(self).capacity_spec() == old(self).capacity_spec(),
            data@.len() > MAX_PAYLOAD_SIZE ==> r is None && final(self).history() == old(
                self,
            ).history(),
            data@.len() <= MAX_PAYLOAD_SIZE ==> final(self).history() == old(
                self,
            ).history().push(data@) && r == Some(final(self).write_epoch_spec() as u64),
    {
        if data.len() > MAX_PAYLOAD_SIZE {
            return None;
        }
        let ghost w = self.write_epoch as int;
        let ghost c = self.capacity as int;
        let ghost old_buffer = self.buffer@;
        let head = self.head;
        let new_epoch = self.write_epoch + 1;
        self.write_epoch = new_epoch;
        let mut slot = ByteSlot { len: 0, epoch: 0, data: Vec::new() };
        self.buffer.set_and_swap(head, &mut slot);
        assert(slot == old_buffer[head as int]);
        slot.write(data, new_epoch);
        self.buffer.set(head, slot);
        self.head = (head + 1) % self.capacity;
        self.records = Ghost(self.records@.push(data@));
        proof {
            lemma_step_mod(w, c);
            assert forall|i: int| 0 <= i < c implies #[trigger] holds_epoch(
                w + 1,
                c,
                i,
                self.buffer@[i].epoch as int,
            ) by {
                lemma_push_epochs(w, c, i, old_buffer[i].epoch as int);
            }
            assert forall|i: int| 0 <= i < c implies (#[trigger] self.buffer@[i]).shaped() by {
                if i != head as int {
                    assert(old_buffer[i].shaped());
                }
            }
            assert forall|i: int| 0 <= i < c && self.buffer@[i].epoch > 0 implies #[trigger] self.buffer@[i].payload()
                == self.records@[self.buffer@[i].epoch - 1] by {
                if i != head as int {
                    assert(holds_epoch(w, c, i, old_buffer[i].epoch as int));
                }
            }
            self.lemma_wf_facts();
        }
        Some(new_epoch)
    }

    /// Takes the next record and its epoch: the newest record in the slot after
    /// the last one consumed. Records overwritten before they were read are
    /// skipped; `None` once every record has been consumed.
    pub fn pop(&mut self) -> (r: Option<(Vec<u8>, u64)>)
        requires
            old(self).inv(),
        ensures
            final(self).inv(),
            final(self).history() == old(self).history(),
            final(self).capacity_spec() == old(self).capacity_spec(),
            !old(self).has_unread() ==> r is None && final(self).read_epoch_spec()
                == old(self).read_epoch_spec(),
            old(self).has_unread() ==> old(self).read_epoch_spec() < old(self).next_read()
                <= old(self).write_epoch_spec(),
            old(self).has_unread() ==> final(self).read_epoch_spec() == old(self).next_read() && (
            r matches Some((v, e)) && e == old(self).next_read() && v@ == old(
                self,
            ).history()[old(self).next_read() - 1]),
    {
        let ghost w = self.write_epoch as int;
        let ghost c = self.capacity as int;
        let ghost rd = self.read_epoch as int;
        if self.write_epoch == 0 {
            return None;
        }
        let tail = self.tail;
        let slot_epoch = self.buffer[tail].epoch;
        proof {
            assert(holds_epoch(w, c, tail as int, slot_epoch as int));
            if rd < w {
                lemma_next_slot(w, rd, c, slot_epoch as int);
            }
        }
        if slot_epoch <= self.read_epoch {
            return None;
        }
        let data = self.buffer[tail].copy_payload();
        self.read_epoch = slot_epoch;
        self.tail = (tail + 1) % self.capacity;
        proof {
            self.lemma_wf_facts();
        }
        Some((data, slot_epoch))
    }

    /// A copy of the most recently pushed record and its epoch, without consuming anything.
    pub fn peek_latest(&self) -> (r: Option<(Vec<u8>, u64)>)
        requires
            self.inv(),
        ensures
            self.write_epoch_spec() == 0 ==> r is None,
            self.write_epoch_spec() > 0 ==> (r matches Some((v, e)) && e == self.write_epoch_spec()
                && v@ == self.history().last()),
    {
        if self.write_epoch == 0 {
            return None;
        }
        let idx = self.latest_index();
        Some((self.buffer[idx].copy_payload(), self.buffer[idx].epoch))
    }

    /// A borrowed view of the most recently pushed record and its epoch. The view
    /// is valid until the next `push`.
    pub fn peek_latest_ref(&self) -> (r: Option<(&[u8], u64)>)
        requires
            self.inv(),
        ensures
            self.write_epoch_spec() == 0 ==> r is None,
            self.write_epoch_spec() > 0 ==> (r matches Some((v, e)) && e == self.write_epoch_spec()
                && v@ == self.history().last()),
    {
        if self.write_epoch == 0 {
            return None;
        }
        let idx = self.latest_index();
        Some((self.buffer[idx].payload_ref(), self.buffer[idx].epoch))
    }

    /// Index of the slot written last, the one before `head`.
    fn latest_index(&self) -> (idx: usize)
        requires
            self.inv(),
            self.write_epoch_spec() > 0,
        ensures
            idx < self.capacity_spec(),
            self.buffer@[idx as int].epoch == self.write_epoch_spec(),
            self.buffer@[idx as int].shaped(),
            self.buffer@[idx as int].payload() == self.history().last(),
    {
        let head = self.head;
        let latest_idx = if head == 0 {
            self.capacity - 1
        } else {
            head - 1
        };
        proof {
            let w = self.write_epoch as int;
            let c = self.capacity as int;
            lemma_prev_index(w, c);
            assert(holds_epoch(w, c, latest_idx as int, self.buffer@[latest_idx as int].epoch as int));
            lemma_latest_slot(w, c, self.buffer@[latest_idx as int].epoch as int);
            assert(self.buffer@[latest_idx as int].shaped());
        }
        latest_idx
    }

    /// A borrowed view of the record that the next `pop` returns, and its epoch,
    /// without consuming it; `None` once every record has been consumed.
    pub fn peek_oldest_ref(&self) -> (r: Option<(&[u8], u64)>)
        requires
            self.inv(),
        ensures
            !self.has_unread() ==> r is None,
            self.has_unread() ==> (r matches Some((v, e)) && e == self.next_read() && v@
                == self.history()[self.next_read() - 1]),
    {
        if self.write_epoch == 0 {
            return None;
        }
        let tail = self.tail;
        let slot_epoch = self.buffer[tail].epoch;
        proof {
            let w = self.write_epoch as int;
            let c = self.capacity as int;
            let rd = self.read_epoch as int;
            assert(holds_epoch(w, c, tail as int, slot_epoch as int));
            assert(self.buffer@[tail as int].shaped());
            if rd < w {
                lemma_next_slot(w, rd, c, slot_epoch as int);
            }
        }
        if slot_epoch <= self.read_epoch {
            return None;
        }
        Some((self.buffer[tail].payload_ref(), slot_epoch))
    }

    /// Current write epoch; 0 iff nothing was ever pushed.
    pub fn latest_epoch(&self) -> (e: u64)
        requires
            self.inv(),
        ensures
            e == self.write_epoch_spec(),
    {
        self.write_epoch
    }

    /// `min(write_epoch - read_epoch, capacity)`.
    pub fn len(&self) -> (n: usize)
        requires
            self.inv(),
        ensures
            n == self.len_spec(),
            n <= self.capacity_spec(),
    {
        if self.write_epoch == 0 {
            return 0;
        }
        let unread = self.write_epoch.saturating_sub(self.read_epoch);
        if unread < self.capacity as u64 {
            unread as usize
        } else {
            self.capacity
        }
    }

    pub fn is_empty(&self) -> (b: bool)
        requires
            self.inv(),
        ensures
            b == (self.len_spec() == 0),
    {
        self.len() == 0
    }

    pub fn is_full(&self) -> (b: bool)
        requires
            self.inv(),
        ensures
            b == (self.len_spec() == self.capacity_spec()),
    {
        self.len() == self.capacity
    }

    pub fn capacity(&self) -> (c: usize)
        requires
            self.inv(),
        ensures
            c == self.capacity_spec(),
    {
        self.capacity
    }

    /// Round trip: once every earlier record has been consumed, a payload that
    /// `push` accepted is what the next `pop` returns, with the epoch the push
    /// returned, which is then the latest epoch.
    pub proof fn lemma_push_pop_round_trip(before: &Self, after: &Self, data: Seq<u8>)
        requires
            before.inv(),
            after.inv(),
            !before.has_unread(),
            after.history() == before.history().push(data),
            after.read_epoch_spec() == before.read_epoch_spec(),
            after.capacity_spec() == before.capacity_spec(),
        ensures
            after.has_unread(),
            after.next_read() == after.write_epoch_spec(),
            after.history()[after.next_read() - 1] == data,
    {
        crate::epochs::lemma_next_without_overwrite(
            after.write_epoch_spec() as int,
            after.read_epoch_spec() as int,
            after.capacity_spec() as int,
        );
    }
}

} // verus!
