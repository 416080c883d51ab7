//! Read-side facades over a topic, with a cursor that tells whether anything
//! was published since the subscriber last looked.
use std::sync::Arc;
use std::sync::atomic::{AtomicU64, Ordering};
use vstd::prelude::*;
use crate::message::Message;
use crate::topic::{ByteTopic, Topic};
use crate::byte_buffer::MAX_PAYLOAD_SIZE;

verus! {

pub struct Subscriber<T: Message> {
    topic: Arc<Topic<T>>,
    last_seen_epoch: AtomicU64,
}

impl<T: Message> Subscriber<T> {
    /// The topic this subscriber reads from.
    pub closed spec fn topic_spec(&self) -> Topic<T> {
        *self.topic
    }

    /// A subscriber on `topic` that has seen nothing yet (cursor at epoch 0).
    pub fn new(topic: Arc<Topic<T>>) -> (s: Self)
        ensures
            s.topic_spec() == *topic,
    {
        Subscriber { topic, last_seen_epoch: AtomicU64::new(0) }
    }

    /// Takes the next record, as [`Topic::try_receive`]. Leaves the cursor alone.
    pub fn try_recv(&self) -> Option<T> {
        self.topic.try_receive()
    }

    /// The most recent record and its epoch, as [`Topic::peek_latest`].
    pub fn peek_latest(&self) -> (r: Option<(T, u64)>)
        ensures
            r matches Some((_, e)) ==> e >= 1,
    {
        self.topic.peek_latest()
    }

    /// True iff the topic's write epoch is past the cursor.
    pub fn has_new(&self) -> bool {
        let current = self.topic.latest_epoch();
        let last = self.last_seen_epoch.load(Ordering::SeqCst);
        current > last
    }

    /// Moves the cursor to the topic's current write epoch.
    pub fn mark_seen(&self) {
        let current = self.topic.latest_epoch();
        self.last_seen_epoch.store(current, Ordering::SeqCst);
    }

    pub fn topic_name(&self) -> (r: &str)
        ensures
            r@ == self.topic_spec().name_spec(),
    {
        self.topic.name()
    }
}

pub struct ByteSubscriber {
    topic: Arc<ByteTopic>,
    last_seen_epoch: AtomicU64,
}

impl ByteSubscriber {
    /// The topic this subscriber reads from.
    pub closed spec fn topic_spec(&self) -> ByteTopic {
        *self.topic
    }

    /// A subscriber on `topic` that has seen nothing yet (cursor at epoch 0).
    pub fn new(topic: Arc<ByteTopic>) -> (s: Self)
        ensures
            s.topic_spec() == *topic,
    {
        ByteSubscriber { topic, last_seen_epoch: AtomicU64::new(0) }
    }

    /// Takes the next record and its epoch, as [`ByteTopic::try_receive`].
    pub fn try_recv(&self) -> (r: Option<(Vec<u8>, u64)>)
        ensures
            r matches Some((v, e)) ==> e >= 1 && v@.len() <= MAX_PAYLOAD_SIZE,
    {
        self.topic.try_receive()
    }

    /// A copy of the most recent record and its epoch, as [`ByteTopic::peek_latest`].
    pub fn peek_latest(&self) -> (r: Option<(Vec<u8>, u64)>)
        ensures
            r matches Some((v, e)) ==> e >= 1 && v@.len() <= MAX_PAYLOAD_SIZE,
    {
        self.topic.peek_latest()
    }

    /// True iff the topic's write epoch is past the cursor.
    pub fn has_new(&self) -> bool {
        let current = self.topic.latest_epoch();
        let last = self.last_seen_epoch.load(Ordering::SeqCst);
        current > last
    }

    /// Moves the cursor to the topic's current write epoch.
    pub fn mark_seen(&self) {
        let current = self.topic.latest_epoch();
        self.last_seen_epoch.store(current, Ordering::SeqCst);
    }

    pub fn topic_name(&self) -> (r: &str)
        ensures
            r@ == self.topic_spec().name_spec(),
    {
        self.topic.name()
    }
}

} // verus!
