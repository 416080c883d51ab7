//! Write-side facades over a topic.
use std::sync::Arc;
use vstd::prelude::*;
use crate::message::Message;
use crate::topic::{ByteTopic, Topic};
use crate::byte_buffer::MAX_PAYLOAD_SIZE;

verus! {

pub struct Publisher<T: Message> {
    topic: Arc<Topic<T>>,
}

impl<T: Message> Publisher<T> {
    /// The topic this publisher writes to.
    pub closed spec fn topic_spec(&self) -> Topic<T> {
        *self.topic
    }

    pub fn new(topic: Arc<Topic<T>>) -> (p: Self)
        ensures
            p.topic_spec() == *topic,
    {
        Publisher { topic }
    }

    /// Publishes `msg` on the topic and returns its epoch, as [`Topic::publish`].
    pub fn publish(&self, msg: T) -> u64 {
        self.topic.publish(msg)
    }

    pub fn topic_name(&self) -> (r: &str)
        ensures
            r@ == self.topic_spec().name_spec(),
    {
        self.topic.name()
    }
}

impl<T: Message> Clone for Publisher<T> {
    /// Another publisher on the same topic.
    fn clone(&self) -> (r: Self)
        ensures
            r.topic_spec() == self.topic_spec(),
    {
        Publisher { topic: self.topic.clone() }
    }
}

pub struct BytePublisher {
    topic: Arc<ByteTopic>,
}

impl BytePublisher {
    /// The topic this publisher writes to.
    pub closed spec fn topic_spec(&self) -> ByteTopic {
        *self.topic
    }

    pub fn new(topic: Arc<ByteTopic>) -> (p: Self)
        ensures
            p.topic_spec() == *topic,
    {
        BytePublisher { topic }
    }

    /// Publishes `data` on the topic, as [`ByteTopic::publish`].
    pub fn publish(&self, data: &[u8]) -> (r: Option<u64>)
        ensures
            data@.len() > MAX_PAYLOAD_SIZE ==> r is None,
            r matches Some(e) ==> e >= 1,
    {
        self.topic.publish(data)
    }

    pub fn topic_name(&self) -> (r: &str)
        ensures
            r@ == self.topic_spec().name_spec(),
    {
        self.topic.name()
    }
}

impl Clone for BytePublisher {
    /// Another publisher on the same topic.
    fn clone(&self) -> (r: Self)
        ensures
            r.topic_spec() == self.topic_spec(),
    {
        BytePublisher { topic: self.topic.clone() }
    }
}

} // verus!
