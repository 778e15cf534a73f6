//! Typed, named-topic publish/subscribe bus.
//!
//! Producers emit closed tagged-variant events on a topic; every listener
//! registered on that topic receives every event, in emit order, and
//! listeners are numbered in registration order. A listener discriminates
//! by variant and treats an unrecognized variant as a silent no-op. Each
//! listener owns a queue here and drains it; delivery into the queues is
//! synchronous from the emitter's perspective.

use vstd::prelude::*;
use vstd::string::StringSliceAdditionalSpecFns;

verus! {

/// An event published on a topic.
#[derive(Debug)]
pub enum Event {
    /// A fresh snapshot of a subscribed account's raw bytes, observed at
    /// `slot`.
    AccountUpdate { data: Vec<u8>, slot: u64 },
    /// The underlying stream of a subscription dropped; the subscription is
    /// reconnecting.
    StreamInterrupted,
}

/// The mathematical value of an [`Event`].
pub enum EventV {
    AccountUpdate { data: Seq<u8>, slot: u64 },
    StreamInterrupted,
}

impl View for Event {
    type V = EventV;

    open spec fn view(&self) -> EventV {
        match self {
            Event::AccountUpdate { data, slot } => EventV::AccountUpdate {
                data: data@,
                slot: *slot,
            },
            Event::StreamInterrupted => EventV::StreamInterrupted,
        }
    }
}

impl Clone for Event {
    fn clone(&self) -> (r: Self)
        ensures
            r@ == self@,
    {
        match self {
            Event::AccountUpdate { data, slot } => {
                let copied = data.clone();
                proof {
                    assert(copied@ =~= data@);
                }
                Event::AccountUpdate { data: copied, slot: *slot }
            },
            Event::StreamInterrupted => Event::StreamInterrupted,
        }
    }
}

/// The events of one listener queue, by value.
pub open spec fn events_view(q: Vec<Event>) -> Seq<EventV> {
    Seq::new(q@.len(), |j: int| q@[j]@)
}

struct Topic {
    name: String,
    queues: Vec<Vec<Event>>,
}

/// The listener queues of one topic, by value, in registration order.
spec fn queues_view(queues: Vec<Vec<Event>>) -> Seq<Seq<EventV>> {
    Seq::new(queues@.len(), |i: int| events_view(queues@[i]))
}

/// The index of the first topic entry named `name`, or the number of
/// entries when none is.
spec fn spec_find_topic(topics: Seq<Topic>, name: Seq<char>) -> int
    decreases topics.len(),
{
    if topics.len() == 0 {
        0
    } else if topics.first().name@ == name {
        0
    } else {
        1 + spec_find_topic(topics.drop_first(), name)
    }
}

proof fn lemma_find_topic_characterization(topics: Seq<Topic>, name: Seq<char>, i: int)
    requires
        0 <= i <= topics.len(),
        forall|k: int| 0 <= k < i ==> topics[k].name@ != name,
        i == topics.len() || topics[i].name@ == name,
    ensures
        spec_find_topic(topics, name) == i,
    decreases i,
{
    if topics.len() > 0 && i > 0 {
        lemma_find_topic_characterization(topics.drop_first(), name, i - 1);
    }
}

proof fn lemma_find_topic_bounds(topics: Seq<Topic>, name: Seq<char>)
    ensures
        0 <= spec_find_topic(topics, name) <= topics.len(),
        spec_find_topic(topics, name) < topics.len() ==> topics[spec_find_topic(
            topics,
            name,
        )].name@ == name,
        forall|k: int| 0 <= k < spec_find_topic(topics, name) ==> topics[k].name@ != name,
    decreases topics.len(),
{
    if topics.len() > 0 && topics.first().name@ != name {
        lemma_find_topic_bounds(topics.drop_first(), name);
        assert forall|k: int|
            0 <= k < spec_find_topic(topics, name) implies topics[k].name@ != name by {
            if k > 0 {
                assert(topics.drop_first()[k - 1] == topics[k]);
            }
        }
    }
}

proof fn lemma_find_topic_same_names(a: Seq<Topic>, b: Seq<Topic>, name: Seq<char>)
    requires
        a.len() == b.len(),
        forall|k: int| 0 <= k < a.len() ==> a[k].name@ == b[k].name@,
    ensures
        spec_find_topic(a, name) == spec_find_topic(b, name),
    decreases a.len(),
{
    if a.len() > 0 {
        assert(a.first().name@ == b.first().name@);
        lemma_find_topic_same_names(a.drop_first(), b.drop_first(), name);
    }
}

/// Named-topic event bus: one queue per registered listener.
pub struct EventEmitter {
    topics: Vec<Topic>,
}

impl EventEmitter {
    /// The listener queues registered on `name`, in registration order; a
    /// topic nobody subscribed to has none.
    pub closed spec fn queues_of(self, name: Seq<char>) -> Seq<Seq<EventV>> {
        let idx = spec_find_topic(self.topics@, name);
        if idx < self.topics@.len() {
            queues_view(self.topics@[idx].queues)
        } else {
            Seq::empty()
        }
    }

    /// A bus with no listeners on any topic.
    pub fn new() -> (r: Self)
        ensures
            forall|name: Seq<char>| r.queues_of(name) == Seq::<Seq<EventV>>::empty(),
    {
        let r = EventEmitter { topics: Vec::new() };
        proof {
            assert forall|name: Seq<char>|
                r.queues_of(name) == Seq::<Seq<EventV>>::empty() by {
                assert(spec_find_topic(r.topics@, name) == 0);
            }
        }
        r
    }

    fn find_topic(&self, name: &String) -> (r: usize)
        ensures
            r == spec_find_topic(self.topics@, name@),
            r <= self.topics@.len(),
    {
        let mut i: usize = 0;
        while i < self.topics.len()
            invariant
                i <= self.topics@.len(),
                forall|k: int| 0 <= k < i ==> self.topics@[k].name@ != name@,
            decreases self.topics@.len() - i,
        {
            if self.topics[i].name == *name {
                proof {
                    lemma_find_topic_characterization(self.topics@, name@, i as int);
                }
                return i;
            }
            i += 1;
        }
        proof {
            lemma_find_topic_characterization(self.topics@, name@, self.topics@.len() as int);
        }
        i
    }

    /// Registers one more listener on `topic` and returns its number;
    /// listeners on one topic are numbered in registration order. Queues on
    /// every other topic are untouched.
    pub fn subscribe(&mut self, topic: &str) -> (id: usize)
        ensures
            id == old(self).queues_of(topic@).len(),
            final(self).queues_of(topic@) == old(self).queues_of(topic@).push(
                Seq::<EventV>::empty(),
            ),
            forall|name: Seq<char>|
                name != topic@ ==> final(self).queues_of(name) == old(self).queues_of(name),
    {
        let owned = topic.to_owned();
        let t = self.find_topic(&owned);
        let ghost oldtopics = self.topics@;
        if t < self.topics.len() {
            let mut entry = self.topics.remove(t);
            let id = entry.queues.len();
            entry.queues.push(Vec::new());
            let ghost newentry = entry;
            self.topics.insert(t, entry);
            proof {
                assert(self.topics@ =~= oldtopics.update(t as int, newentry));
                assert forall|name: Seq<char>|
                    spec_find_topic(self.topics@, name) == spec_find_topic(oldtopics, name) by {
                    lemma_find_topic_same_names(self.topics@, oldtopics, name);
                }
                assert(queues_view(newentry.queues) =~= queues_view(oldtopics[t as int].queues).push(
                    Seq::<EventV>::empty(),
                )) by {
                    assert(events_view(newentry.queues@.last()) =~= Seq::<EventV>::empty());
                }
                assert forall|name: Seq<char>|
                    name != topic@ implies self.queues_of(name) == old(self).queues_of(
                    name,
                ) by {
                    lemma_find_topic_bounds(oldtopics, name);
                    lemma_find_topic_bounds(oldtopics, topic@);
                    let f = spec_find_topic(oldtopics, name);
                    if f < oldtopics.len() {
                        assert(f != t);
                        assert(self.topics@[f] == oldtopics[f]);
                    }
                }
            }
            id
        } else {
            let mut queues: Vec<Vec<Event>> = Vec::new();
            queues.push(Vec::new());
            let entry = Topic { name: owned, queues };
            let ghost newentry = entry;
            self.topics.push(entry);
            proof {
                assert(self.topics@ =~= oldtopics.push(newentry));
                lemma_find_topic_bounds(oldtopics, topic@);
                lemma_find_topic_characterization(self.topics@, topic@, oldtopics.len() as int);
                assert(queues_view(newentry.queues) =~= Seq::<Seq<EventV>>::empty().push(
                    Seq::<EventV>::empty(),
                )) by {
                    assert(events_view(newentry.queues@[0]) =~= Seq::<EventV>::empty());
                }
                assert forall|name: Seq<char>|
                    name != topic@ implies self.queues_of(name) == old(self).queues_of(
                    name,
                ) by {
                    lemma_find_topic_bounds(oldtopics, name);
                    if spec_find_topic(oldtopics, name) < oldtopics.len() {
                        lemma_find_topic_characterization(
                            self.topics@,
                            name,
                            spec_find_topic(oldtopics, name),
                        );
                    } else {
                        lemma_find_topic_characterization(
                            self.topics@,
                            name,
                            self.topics@.len() as int,
                        );
                    }
                }
            }
            0
        }
    }

    /// Delivers `event` to every listener currently registered on `topic`,
    /// in registration order; a topic without listeners swallows the event.
    /// Queues on every other topic are untouched.
    pub fn emit(&mut self, topic: &str, event: Event)
        ensures
            final(self).queues_of(topic@).len() == old(self).queues_of(topic@).len(),
            forall|i: int|
                0 <= i < old(self).queues_of(topic@).len() ==> final(self).queues_of(topic@)[i]
                    == old(self).queues_of(topic@)[i].push(event@),
            forall|name: Seq<char>|
                name != topic@ ==> final(self).queues_of(name) == old(self).queues_of(name),
    {
        let owned = topic.to_owned();
        let t = self.find_topic(&owned);
        let ghost oldtopics = self.topics@;
        if t < self.topics.len() {
            let mut entry = self.topics.remove(t);
            let ghost oldqueues = entry.queues@;
            let mut k: usize = 0;
            while k < entry.queues.len()
                invariant
                    t < oldtopics.len(),
                    k <= entry.queues@.len(),
                    entry.queues@.len() == oldqueues.len(),
                    entry.name@ == oldtopics[t as int].name@,
                    forall|i: int|
                        0 <= i < k ==> events_view(entry.queues@[i]) == events_view(
                            oldqueues[i],
                        ).push(event@),
                    forall|i: int| k <= i < oldqueues.len() ==> entry.queues@[i] == oldqueues[i],
                decreases entry.queues@.len() - k,
            {
                let ghost before = entry.queues@;
                let mut q = entry.queues.remove(k);
                q.push(event.clone());
                proof {
                    assert(events_view(q) =~= events_view(before[k as int]).push(event@));
                }
                entry.queues.insert(k, q);
                proof {
                    assert(entry.queues@ =~= before.update(k as int, entry.queues@[k as int]));
                }
                k += 1;
            }
            let ghost newentry = entry;
            self.topics.insert(t, entry);
            proof {
                assert(self.topics@ =~= oldtopics.update(t as int, newentry));
                assert forall|name: Seq<char>|
                    spec_find_topic(self.topics@, name) == spec_find_topic(oldtopics, name) by {
                    lemma_find_topic_same_names(self.topics@, oldtopics, name);
                }
                assert(old(self).queues_of(topic@) == queues_view(oldtopics[t as int].queues));
                assert forall|i: int|
                    0 <= i < old(self).queues_of(topic@).len() implies self.queues_of(
                    topic@,
                )[i] == old(self).queues_of(topic@)[i].push(event@) by {
                    assert(events_view(newentry.queues@[i]) == events_view(oldqueues[i]).push(
                        event@,
                    ));
                }
                assert forall|name: Seq<char>|
                    name != topic@ implies self.queues_of(name) == old(self).queues_of(
                    name,
                ) by {
                    lemma_find_topic_bounds(oldtopics, name);
                    lemma_find_topic_bounds(oldtopics, topic@);
                    let f = spec_find_topic(oldtopics, name);
                    if f < oldtopics.len() {
                        assert(f != t);
                        assert(self.topics@[f] == oldtopics[f]);
                    }
                }
            }
        } else {
            proof {
                lemma_find_topic_bounds(oldtopics, topic@);
            }
        }
    }

    /// Hands listener `id` of `topic` everything delivered to it since it
    /// last drained, in delivery order, and leaves its queue empty. Other
    /// queues, on this topic and on every other, are untouched.
    pub fn drain(&mut self, topic: &str, id: usize) -> (events: Vec<Event>)
        requires
            id < old(self).queues_of(topic@).len(),
        ensures
            events_view(events) == old(self).queues_of(topic@)[id as int],
            final(self).queues_of(topic@) == old(self).queues_of(topic@).update(
                id as int,
                Seq::<EventV>::empty(),
            ),
            forall|name: Seq<char>|
                name != topic@ ==> final(self).queues_of(name) == old(self).queues_of(name),
    {
        let owned = topic.to_owned();
        let t = self.find_topic(&owned);
        let ghost oldtopics = self.topics@;
        proof {
            lemma_find_topic_bounds(oldtopics, topic@);
        }
        let mut entry = self.topics.remove(t);
        let ghost oldqueues = entry.queues@;
        let events = entry.queues.remove(id);
        entry.queues.insert(id, Vec::new());
        let ghost newentry = entry;
        self.topics.insert(t, entry);
        proof {
            assert(newentry.queues@ =~= oldqueues.update(id as int, newentry.queues@[id as int]));
            assert(self.topics@ =~= oldtopics.update(t as int, newentry));
            assert forall|name: Seq<char>|
                spec_find_topic(self.topics@, name) == spec_find_topic(oldtopics, name) by {
                lemma_find_topic_same_names(self.topics@, oldtopics, name);
            }
            assert(events_view(newentry.queues@[id as int]) =~= Seq::<EventV>::empty());
            assert(self.queues_of(topic@) =~= old(self).queues_of(topic@).update(
                id as int,
                Seq::<EventV>::empty(),
            ));
            assert forall|name: Seq<char>|
                name != topic@ implies self.queues_of(name) == old(self).queues_of(
                name,
            ) by {
                lemma_find_topic_bounds(oldtopics, name);
                lemma_find_topic_bounds(oldtopics, topic@);
                let f = spec_find_topic(oldtopics, name);
                if f < oldtopics.len() {
                    assert(f != t);
                    assert(self.topics@[f] == oldtopics[f]);
                }
            }
        }
        events
    }
}

} // verus!
