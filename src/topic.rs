//! Named topics: shareable handles onto one ring buffer.
//!
//! Clones of a topic, and every publisher and subscriber built on it, reach the
//! same buffer. Each operation takes the buffer's lock for its duration, so it
//! acts on the buffer exactly as the buffer's own method does; what other
//! handles did in between is not known to the caller, which is why these
//! contracts speak of the buffer's invariant and fixed capacity rather than of
//! its contents.
use std::sync::Arc;
use vstd::prelude::*;
use vstd::rwlock::{RwLock, RwLockPredicate};
use crate::byte_buffer::{ByteRingBuffer, MAX_PAYLOAD_SIZE};
use crate::message::Message;
use crate::ring_buffer::RingBuffer;

verus! {

/// What a shared buffer satisfies at every moment: its invariant, and the
/// capacity it was created with.
pub struct BufferShape {
    pub capacity: usize,
}

impl<T> RwLockPredicate<RingBuffer<T>> for BufferShape {
    open spec fn inv(self, b: RingBuffer<T>) -> bool {
        b.inv() && b.capacity_spec() == self.capacity
    }
}

impl RwLockPredicate<ByteRingBuffer> for BufferShape {
    open spec fn inv(self, b: ByteRingBuffer) -> bool {
        b.inv() && b.capacity_spec() == self.capacity
    }
}

/// A typed buffer behind its lock, as shared by topic handles.
pub type SharedBuffer<T> = RwLock<RingBuffer<T>, BufferShape>;

/// A byte buffer behind its lock, as shared by topic handles.
pub type SharedByteBuffer = RwLock<ByteRingBuffer, BufferShape>;

pub struct Topic<T: Message> {
    name: String,
    buffer: Arc<SharedBuffer<T>>,
}

impl<T: Message> Topic<T> {
    pub closed spec fn name_spec(&self) -> Seq<char> {
        self.name@
    }

    /// Number of slots of the underlying buffer.
    pub closed spec fn capacity_spec(&self) -> nat {
        self.buffer.pred().capacity as nat
    }

    /// The shared buffer this handle reaches.
    pub closed spec fn buffer_spec(&self) -> SharedBuffer<T> {
        *self.buffer
    }

    /// A topic named `name` over a new, empty buffer of `capacity` slots.
    pub fn new(name: &str, capacity: usize) -> (t: Self)
        requires
            capacity > 0,
        ensures
            t.name_spec() == name@,
            t.capacity_spec() == capacity,
    {
        let b = RingBuffer::new(capacity);
        Topic {
            name: name.to_owned(),
            buffer: Arc::new(RwLock::new(b, Ghost(BufferShape { capacity }))),
        }
    }

    pub fn name(&self) -> (r: &str)
        ensures
            r@ == self.name_spec(),
    {
        self.name.as_str()
    }

    /// Pushes `msg` and returns its epoch (at least 1). Returns 0, storing
    /// nothing, only once all 2^64 - 1 epochs have been handed out.
    pub fn publish(&self, msg: T) -> u64 {
        let (mut b, handle) = self.buffer.acquire_write();
        let e = if b.latest_epoch() < u64::MAX {
            b.push(msg)
        } else {
            0
        };
        handle.release_write(b);
        e
    }

    /// Takes the next record, as [`RingBuffer::pop`].
    pub fn try_receive(&self) -> Option<T> {
        let (mut b, handle) = self.buffer.acquire_write();
        let r = b.pop();
        handle.release_write(b);
        r
    }

    /// The most recent record and its epoch, as [`RingBuffer::peek_latest`].
    pub fn peek_latest(&self) -> (r: Option<(T, u64)>)
        ensures
            r matches Some((_, e)) ==> e >= 1,
    {
        let handle = self.buffer.acquire_read();
        let r = handle.borrow().peek_latest();
        handle.release_read();
        r
    }

    pub fn latest_epoch(&self) -> u64 {
        let handle = self.buffer.acquire_read();
        let e = handle.borrow().latest_epoch();
        handle.release_read();
        e
    }

    pub fn len(&self) -> (n: usize)
        ensures
            n <= self.capacity_spec(),
    {
        let handle = self.buffer.acquire_read();
        let n = handle.borrow().len();
        handle.release_read();
        n
    }

    pub fn is_empty(&self) -> bool {
        let handle = self.buffer.acquire_read();
        let r = handle.borrow().is_empty();
        handle.release_read();
        r
    }

    pub fn capacity(&self) -> (c: usize)
        ensures
            c == self.capacity_spec(),
    {
        let handle = self.buffer.acquire_read();
        let c = handle.borrow().capacity();
        handle.release_read();
        c
    }

    /// Another handle on the same buffer.
    pub fn buffer(&self) -> (b: Arc<SharedBuffer<T>>)
        ensures
            *b == self.buffer_spec(),
    {
        self.buffer.clone()
    }
}

impl<T: Message> Clone for Topic<T> {
    /// Another handle with the same name on the same buffer.
    fn clone(&self) -> (r: Self)
        ensures
            r.name_spec() == self.name_spec(),
            r.buffer_spec() == self.buffer_spec(),
            r.capacity_spec() == self.capacity_spec(),
    {
        Topic { name: self.name.clone(), buffer: self.buffer.clone() }
    }
}

pub struct ByteTopic {
    name: String,
    buffer: Arc<SharedByteBuffer>,
}

impl ByteTopic {
    pub closed spec fn name_spec(&self) -> Seq<char> {
        self.name@
    }

    /// Number of slots of the underlying buffer.
    pub closed spec fn capacity_spec(&self) -> nat {
        self.buffer.pred().capacity as nat
    }

    /// The shared buffer this handle reaches.
    pub closed spec fn buffer_spec(&self) -> SharedByteBuffer {
        *self.buffer
    }

    /// A topic named `name` over a new, empty byte buffer of `capacity` slots.
    pub fn new(name: &str, capacity: usize) -> (t: Self)
        requires
            capacity > 0,
        ensures
            t.name_spec() == name@,
            t.capacity_spec() == capacity,
    {
        let b = ByteRingBuffer::new(capacity);
        ByteTopic {
            name: name.to_owned(),
            buffer: Arc::new(RwLock::new(b, Ghost(BufferShape { capacity }))),
        }
    }

    pub fn name(&self) -> (r: &str)
        ensures
            r@ == self.name_spec(),
    {
        self.name.as_str()
    }

    pub(crate) fn is_named(&self, name: &String) -> (b: bool)
        ensures
            b == (self.name_spec() == name@),
    {
        self.name == *name
    }

    /// Pushes `data` and returns its epoch, as [`ByteRingBuffer::push`]: `None`
    /// when `data` is longer than `MAX_PAYLOAD_SIZE`, and also once all
    /// 2^64 - 1 epochs have been handed out.
    pub fn publish(&self, data: &[u8]) -> (r: Option<u64>)
        ensures
            data@.len() > MAX_PAYLOAD_SIZE ==> r is None,
            r matches Some(e) ==> e >= 1,
    {
        let (mut b, handle) = self.buffer.acquire_write();
        let r = if b.latest_epoch() < u64::MAX {
            b.push(data)
        } else {
            None
        };
        handle.release_write(b);
        r
    }

    /// Takes the next record and its epoch, as [`ByteRingBuffer::pop`].
    pub fn try_receive(&self) -> (r: Option<(Vec<u8>, u64)>)
        ensures
            r matches Some((v, e)) ==> e >= 1 && v@.len() <= MAX_PAYLOAD_SIZE,
    {
        let (mut b, handle) = self.buffer.acquire_write();
        let r = b.pop();
        handle.release_write(b);
        r
    }

    /// A copy of the most recent record and its epoch, as [`ByteRingBuffer::peek_latest`].
    pub fn peek_latest(&self) -> (r: Option<(Vec<u8>, u64)>)
        ensures
            r matches Some((v, e)) ==> e >= 1 && v@.len() <= MAX_PAYLOAD_SIZE,
    {
        let handle = self.buffer.acquire_read();
        let r = handle.borrow().peek_latest();
        handle.release_read();
        r
    }

    pub fn latest_epoch(&self) -> u64 {
        let handle = self.buffer.acquire_read();
        let e = handle.borrow().latest_epoch();
        handle.release_read();
        e
    }

    pub fn len(&self) -> (n: usize)
        ensures
            n <= self.capacity_spec(),
    {
        let handle = self.buffer.acquire_read();
        let n = handle.borrow().len();
        handle.release_read();
        n
    }

    pub fn is_empty(&self) -> bool {
        let handle = self.buffer.acquire_read();
        let r = handle.borrow().is_empty();
        handle.release_read();
        r
    }

    pub fn capacity(&self) -> (c: usize)
        ensures
            c == self.capacity_spec(),
    {
        let handle = self.buffer.acquire_read();
        let c = handle.borrow().capacity();
        handle.release_read();
        c
    }

    /// Another handle on the same buffer.
    pub fn buffer(&self) -> (b: Arc<SharedByteBuffer>)
        ensures
            *b == self.buffer_spec(),
    {
        self.buffer.clone()
    }
}

impl Clone for ByteTopic {
    /// Another handle with the same name on the same buffer.
    fn clone(&self) -> (r: Self)
        ensures
            r.name_spec() == self.name_spec(),
            r.buffer_spec() == self.buffer_spec(),
            r.capacity_spec() == self.capacity_spec(),
    {
        ByteTopic { name: self.name.clone(), buffer: self.buffer.clone() }
    }
}

} // verus!
