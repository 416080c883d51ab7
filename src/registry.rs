//! Catalog of topics by name. Asking twice for the same name gives handles on
//! the same buffer; typed and byte topics live in separate namespaces.
use std::any::Any;
use std::collections::HashMap;
use std::sync::Arc;
use vstd::prelude::*;
use crate::message::Message;
use crate::topic::{ByteTopic, Topic};

verus! {

/// Typed topics by name. Each is stored as `dyn Any`, so that topics of every
/// element type share one map; a lookup gives a topic back only at the element
/// type it was created with.
#[verifier::external_body]
pub struct TypedTopics {
    map: HashMap<String, Box<dyn Any>>,
}

/// The names under which typed topics are registered.
pub uninterp spec fn typed_topic_names(m: TypedTopics) -> Set<Seq<char>>;

impl TypedTopics {
    /// Relies on `HashMap::new`: the map starts empty.
    #[verifier::external_body]
    fn new() -> (m: Self)
        ensures
            typed_topic_names(m) == Set::<Seq<char>>::empty(),
    {
        TypedTopics { map: HashMap::new() }
    }

    /// Relies on `HashMap::get` and `downcast_ref`: a topic comes back only from
    /// an entry registered under `name`.
    #[verifier::external_body]
    fn lookup<T: Message>(&self, name: &str) -> (r: Option<Arc<Topic<T>>>)
        ensures
            r is Some ==> typed_topic_names(*self).contains(name@),
    {
        match self.map.get(name) {
            Some(entry) => entry.downcast_ref::<Arc<Topic<T>>>().cloned(),
            None => None,
        }
    }

    /// Relies on `HashMap::insert`: `name` is registered afterwards, replacing
    /// any earlier entry under it, and no other name changes.
    #[verifier::external_body]
    fn insert<T: Message>(&mut self, name: &str, topic: Arc<Topic<T>>)
        ensures
            typed_topic_names(*final(self)) == typed_topic_names(*old(self)).insert(name@),
    {
        self.map.insert(name.to_owned(), Box::new(topic));
    }

    /// Relies on `HashMap::len`: the number of registered names.
    #[verifier::external_body]
    fn len(&self) -> (n: usize)
        ensures
            n == typed_topic_names(*self).len(),
    {
        self.map.len()
    }
}

pub struct TopicRegistry {
    typed_topics: TypedTopics,
    byte_topics: Vec<Arc<ByteTopic>>,
}

impl TopicRegistry {
    /// Names of the registered typed topics.
    pub closed spec fn typed_names(&self) -> Set<Seq<char>> {
        typed_topic_names(self.typed_topics)
    }

    /// The registered byte topics, in order of creation.
    pub closed spec fn byte_topics_spec(&self) -> Seq<ByteTopic> {
        self.byte_topics@.map_values(|t: Arc<ByteTopic>| *t)
    }

    /// A byte topic named `name` is registered.
    pub open spec fn has_byte_topic(&self, name: Seq<char>) -> bool {
        exists|i: int|
            0 <= i < self.byte_topics_spec().len() && (#[trigger] self.byte_topics_spec()[i]).name_spec()
                == name
    }

    /// The byte topic registered under `name`, when `has_byte_topic(name)`.
    pub open spec fn byte_topic_named(&self, name: Seq<char>) -> ByteTopic {
        self.byte_topics_spec()[choose|i: int|
            0 <= i < self.byte_topics_spec().len() && (#[trigger] self.byte_topics_spec()[i]).name_spec()
                == name]
    }

    /// Byte topic names are unique.
    pub open spec fn wf(&self) -> bool {
        forall|i: int, j: int|
            0 <= i < j < self.byte_topics_spec().len() ==> (#[trigger] self.byte_topics_spec()[i]).name_spec()
                != (#[trigger] self.byte_topics_spec()[j]).name_spec()
    }

    /// What `get_or_create_byte(name, capacity)` does to this registry, giving
    /// `after` and the topic `t`: an existing topic of that name is returned and
    /// nothing changes; otherwise a topic of `capacity` slots is created and added.
    pub open spec fn byte_lookup_post(
        &self,
        name: Seq<char>,
        capacity: nat,
        after: &Self,
        t: ByteTopic,
    ) -> bool {
        &&& after.wf()
        &&& after.typed_names() == self.typed_names()
        &&& self.has_byte_topic(name) ==> {
            &&& t == self.byte_topic_named(name)
            &&& after.byte_topics_spec() == self.byte_topics_spec()
        }
        &&& !self.has_byte_topic(name) ==> {
            &&& t.name_spec() == name
            &&& t.capacity_spec() == capacity
            &&& after.byte_topics_spec() == self.byte_topics_spec().push(t)
        }
    }

    /// A registry with no topics.
    pub fn new() -> (r: Self)
        ensures
            r.wf(),
            r.typed_names() == Set::<Seq<char>>::empty(),
            r.byte_topics_spec() == Seq::<ByteTopic>::empty(),
    {
        let r = TopicRegistry { typed_topics: TypedTopics::new(), byte_topics: Vec::new() };
        assert(r.byte_topics_spec() =~= Seq::<ByteTopic>::empty());
        r
    }

    /// The typed topic `name` for element type `T`, created with `capacity` slots
    /// unless one of that name and type exists. A topic of another element type
    /// under `name` is replaced by the new one.
    pub fn get_or_create<T: Message>(&mut self, name: &str, capacity: usize) -> (t: Arc<
        Topic<T>,
    >)
        requires
            old(self).wf(),
            capacity > 0,
        ensures
            final(self).wf(),
            final(self).typed_names() == old(self).typed_names().insert(name@),
            final(self).byte_topics_spec() == old(self).byte_topics_spec(),
            !old(self).typed_names().contains(name@) ==> t.name_spec() == name@
                && t.capacity_spec() == capacity,
    {
        match self.typed_topics.lookup::<T>(name) {
            Some(t) => {
                assert(old(self).typed_names().insert(name@) =~= old(self).typed_names());
                t
            },
            None => {
                let t = Arc::new(Topic::new(name, capacity));
                self.typed_topics.insert(name, t.clone());
                assert(self.byte_topics_spec() == old(self).byte_topics_spec());
                t
            },
        }
    }

    /// The byte topic `name`, created with `capacity` slots unless it exists; an
    /// existing topic is returned whatever `capacity` is.
    pub fn get_or_create_byte(&mut self, name: &str, capacity: usize) -> (t: Arc<ByteTopic>)
        requires
            old(self).wf(),
            !old(self).has_byte_topic(name@) ==> capacity > 0,
        ensures
            old(self).byte_lookup_post(name@, capacity as nat, final(self), *t),
    {
        let key = name.to_owned();
        let n = self.byte_topics.len();
        let mut i: usize = 0;
        while i < n
            invariant
                n == self.byte_topics@.len(),
                i <= n,
                *self == *old(self),
                self.wf(),
                key@ == name@,
                forall|j: int| 0 <= j < i ==> (#[trigger] self.byte_topics_spec()[j]).name_spec() != name@,
            decreases n - i,
        {
            assert(self.byte_topics_spec()[i as int] == *self.byte_topics@[i as int]);
            if self.byte_topics[i].is_named(&key) {
                let t = self.byte_topics[i].clone();
                proof {
                    assert(*t == self.byte_topics_spec()[i as int]);
                    assert(self.byte_topics_spec()[i as int].name_spec() == name@);
                    let k = choose|k: int|
                        0 <= k < self.byte_topics_spec().len() && (#[trigger] self.byte_topics_spec()[k]).name_spec()
                            == name@;
                    assert(self.byte_topics_spec()[i as int].name_spec() == name@);
                    assert(k == i) by {
                        if k < i {
                            assert(self.byte_topics_spec()[k].name_spec() != name@);
                        } else if k > i {
                            assert(self.byte_topics_spec()[i as int].name_spec()
                                != self.byte_topics_spec()[k].name_spec());
                        }
                    }
                }
                return t;
            }
            i = i + 1;
        }
        let t = Arc::new(ByteTopic::new(name, capacity));
        let ghost before = self.byte_topics_spec();
        self.byte_topics.push(t.clone());
        proof {
            assert(self.byte_topics_spec() =~= before.push(*t));
        }
        t
    }

    /// Number of registered topics, typed and byte together.
    pub fn topic_count(&self) -> (n: usize)
        ensures
            self.typed_names().len() + self.byte_topics_spec().len() <= usize::MAX ==> n
                == self.typed_names().len() + self.byte_topics_spec().len(),
    {
        let typed = self.typed_topics.len();
        let bytes = self.byte_topics.len();
        typed.saturating_add(bytes)
    }

    /// Registry idempotence: asking twice for the byte topic `name`, with any two
    /// capacities, gives the same topic (same name, same buffer) and registers
    /// nothing the second time.
    pub proof fn lemma_byte_lookup_idempotent(
        r0: &Self,
        r1: &Self,
        r2: &Self,
        name: Seq<char>,
        c1: nat,
        c2: nat,
        t1: ByteTopic,
        t2: ByteTopic,
    )
        requires
            r0.wf(),
            r0.byte_lookup_post(name, c1, r1, t1),
            r1.byte_lookup_post(name, c2, r2, t2),
        ensures
            t2 == t1,
            t2.buffer_spec() == t1.buffer_spec(),
            r2.byte_topics_spec() == r1.byte_topics_spec(),
            r2.typed_names() == r1.typed_names(),
    {
        if r0.has_byte_topic(name) {
            let k = choose|k: int|
                0 <= k < r0.byte_topics_spec().len() && (#[trigger] r0.byte_topics_spec()[k]).name_spec()
                    == name;
            assert(r1.byte_topics_spec()[k].name_spec() == name);
        } else {
            let k = r0.byte_topics_spec().len() as int;
            assert(r1.byte_topics_spec()[k] == t1);
        }
        let j = choose|j: int|
            0 <= j < r1.byte_topics_spec().len() && (#[trigger] r1.byte_topics_spec()[j]).name_spec()
                == name;
        let k = choose|k: int|
            0 <= k < r1.byte_topics_spec().len() && (#[trigger] r1.byte_topics_spec()[k]).name_spec()
                == name;
        if r0.has_byte_topic(name) {
            assert(r1.byte_topics_spec() == r0.byte_topics_spec());
        } else {
            let last = r0.byte_topics_spec().len() as int;
            if j != last {
                assert(r1.byte_topics_spec()[j] == r0.byte_topics_spec()[j]);
            }
        }
    }
}

impl Default for TopicRegistry {
    fn default() -> (r: Self)
        ensures
            r.wf(),
            r.typed_names() == Set::<Seq<char>>::empty(),
            r.byte_topics_spec() == Seq::<ByteTopic>::empty(),
    {
        Self::new()
    }
}

} // verus!
