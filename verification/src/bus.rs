//! The registry-and-dispatch engine.
//!
//! An [`EventBus`] owns a mapping from topic name to the ordered sequence
//! of listeners registered for it. `subscribe` appends a listener to a
//! topic's sequence, `unsubscribe` drops a topic's whole sequence, and
//! `publish` invokes every listener of a topic in registration order,
//! collecting per-listener failures into a report instead of aborting the
//! fan-out. Exclusive access to the registry during mutation is enforced
//! by taking the bus by `&mut` for `subscribe` and `unsubscribe`, so a
//! publish call always dispatches to the sequence as it stood at entry.

use vstd::prelude::*;

use crate::config::Config;
use crate::config::ConfigValue;
use crate::payload::EventPayload;

verus! {

/// A callback registered against exactly one topic.
///
/// The bus invokes `on_event` once per matching published event. A
/// listener produces no result, but it may fail: it reports a failure by
/// returning `Err` with a message, and the bus isolates that failure from
/// the other listeners of the same publish call.
pub trait Listener {
    /// Receives one published event.
    fn on_event(&self, event: &EventPayload) -> Result<(), String>;
}

/// An error surfaced synchronously by a registry operation.
#[derive(Debug, PartialEq, Eq, Structural)]
pub enum BusError {
    /// The topic identifier fails the non-empty constraint.
    InvalidTopic,
}

/// One listener failure observed during a publish call: the topic the
/// event was published under, the failing listener's position in that
/// topic's sequence, and the message the listener reported.
#[derive(Debug, Clone)]
pub struct ListenerFailure {
    /// The topic of the publish call during which the listener failed.
    pub topic: String,
    /// The failing listener's position in the topic's sequence.
    pub listener_index: usize,
    /// The message the listener reported.
    pub message: String,
}

/// An opaque token identifying one (topic, listener) registration.
#[derive(Debug, Clone)]
pub struct SubscriptionHandle {
    topic: String,
    position: usize,
}

impl SubscriptionHandle {
    /// The topic of the registration this handle identifies.
    pub closed spec fn spec_topic(self) -> Seq<char> {
        self.topic@
    }

    /// The registered listener's position in its topic's sequence.
    pub closed spec fn spec_position(self) -> nat {
        self.position as nat
    }

    /// The topic of the registration this handle identifies.
    pub fn topic(&self) -> (t: &str)
        ensures
            t@ == self.spec_topic(),
    {
        self.topic.as_str()
    }

    /// The registered listener's position in its topic's sequence.
    pub fn position(&self) -> (p: usize)
        ensures
            p as nat == self.spec_position(),
    {
        self.position
    }
}

/// One topic with its ordered listener sequence.
struct TopicEntry<L> {
    topic: String,
    listeners: Vec<L>,
}

/// Whether some entry of `s` carries the topic `t`.
spec fn has_topic<L>(s: Seq<TopicEntry<L>>, t: Seq<char>) -> bool {
    exists|i: int| 0 <= i < s.len() && (#[trigger] s[i]).topic@ == t
}

/// The position of the entry carrying topic `t`; meaningful only when
/// `has_topic(s, t)` holds and topics are unique.
spec fn topic_index<L>(s: Seq<TopicEntry<L>>, t: Seq<char>) -> int {
    choose|i: int| 0 <= i < s.len() && (#[trigger] s[i]).topic@ == t
}

/// The mapping from topic to listener sequence that the entries denote.
spec fn registry_of<L>(s: Seq<TopicEntry<L>>) -> Map<Seq<char>, Seq<L>> {
    Map::new(|t: Seq<char>| has_topic(s, t), |t: Seq<char>| s[topic_index(s, t)].listeners@)
}

/// Each topic appears in at most one entry.
spec fn unique_topics<L>(s: Seq<TopicEntry<L>>) -> bool {
    forall|i: int, j: int|
        0 <= i < j < s.len() ==> (#[trigger] s[i]).topic@ != (#[trigger] s[j]).topic@
}

/// Every entry carries a non-empty topic.
spec fn nonempty_topics<L>(s: Seq<TopicEntry<L>>) -> bool {
    forall|i: int| 0 <= i < s.len() ==> (#[trigger] s[i]).topic@.len() > 0
}

/// Every entry carries at least one listener: a topic with zero
/// listeners is represented as an absent topic, never as an empty entry.
spec fn populated_topics<L>(s: Seq<TopicEntry<L>>) -> bool {
    forall|i: int| 0 <= i < s.len() ==> (#[trigger] s[i]).listeners@.len() > 0
}

/// With unique topics, the entry at position `i` is exactly what the
/// denoted registry holds for its topic.
proof fn lemma_registry_at<L>(s: Seq<TopicEntry<L>>, i: int)
    requires
        unique_topics(s),
        0 <= i < s.len(),
    ensures
        registry_of(s).contains_key(s[i].topic@),
        registry_of(s)[s[i].topic@] == s[i].listeners@,
{
    assert(has_topic(s, s[i].topic@));
    let j = topic_index(s, s[i].topic@);
    assert(0 <= j < s.len() && s[j].topic@ == s[i].topic@);
    assert(j == i);
}

/// Appending an entry for a fresh topic adds exactly that key to the
/// denoted registry.
proof fn lemma_registry_push<L>(s: Seq<TopicEntry<L>>, e: TopicEntry<L>)
    requires
        unique_topics(s),
        !has_topic(s, e.topic@),
    ensures
        unique_topics(s.push(e)),
        registry_of(s.push(e)) == registry_of(s).insert(e.topic@, e.listeners@),
{
    let s2 = s.push(e);
    assert forall|i: int, j: int| 0 <= i < j < s2.len() implies (#[trigger] s2[i]).topic@ != (
    #[trigger] s2[j]).topic@ by {
        if j == s.len() {
            assert(s2[i] == s[i]);
            if s[i].topic@ == e.topic@ {
                assert(has_topic(s, e.topic@));
            }
        } else {
            assert(s2[i] == s[i] && s2[j] == s[j]);
        }
    }
    let m1 = registry_of(s2);
    let m2 = registry_of(s).insert(e.topic@, e.listeners@);
    assert forall|t: Seq<char>| m1.contains_key(t) implies m2.contains_key(t) by {
        let i = choose|i: int| 0 <= i < s2.len() && (#[trigger] s2[i]).topic@ == t;
        if i < s.len() {
            assert(s[i] == s2[i]);
            assert(has_topic(s, t));
        }
    }
    assert forall|t: Seq<char>| m2.contains_key(t) implies m1.contains_key(t) by {
        if t == e.topic@ {
            assert(s2[s.len() as int].topic@ == t);
            assert(has_topic(s2, t));
        } else {
            let i = choose|i: int| 0 <= i < s.len() && (#[trigger] s[i]).topic@ == t;
            assert(s2[i] == s[i]);
            assert(has_topic(s2, t));
        }
    }
    assert forall|t: Seq<char>| m1.contains_key(t) implies m1[t] == m2[t] by {
        let j = topic_index(s2, t);
        assert(0 <= j < s2.len() && s2[j].topic@ == t);
        if t == e.topic@ {
            if j < s.len() {
                assert(s[j] == s2[j]);
                assert(has_topic(s, e.topic@));
            }
            assert(m1[t] == e.listeners@);
        } else {
            assert(j < s.len());
            assert(s2[j] == s[j]);
            assert(has_topic(s, t));
            let j2 = topic_index(s, t);
            assert(0 <= j2 < s.len() && s[j2].topic@ == t);
            assert(j2 == j);
            assert(m2[t] == s[j2].listeners@);
        }
    }
    assert(m1 =~= m2);
}

/// Replacing the entry at position `i` by one for the same topic updates
/// exactly that key of the denoted registry.
proof fn lemma_registry_update<L>(s: Seq<TopicEntry<L>>, i: int, e: TopicEntry<L>)
    requires
        unique_topics(s),
        0 <= i < s.len(),
        e.topic@ == s[i].topic@,
    ensures
        unique_topics(s.update(i, e)),
        registry_of(s.update(i, e)) == registry_of(s).insert(e.topic@, e.listeners@),
{
    let s2 = s.update(i, e);
    assert forall|p: int, q: int| 0 <= p < q < s2.len() implies (#[trigger] s2[p]).topic@ != (
    #[trigger] s2[q]).topic@ by {
        assert(s[p].topic@ != s[q].topic@);
        if p != i {
            assert(s2[p] == s[p]);
        }
        if q != i {
            assert(s2[q] == s[q]);
        }
    }
    let m1 = registry_of(s2);
    let m2 = registry_of(s).insert(e.topic@, e.listeners@);
    assert forall|t: Seq<char>| m1.contains_key(t) implies m2.contains_key(t) by {
        let p = choose|p: int| 0 <= p < s2.len() && (#[trigger] s2[p]).topic@ == t;
        if p == i {
            assert(t == e.topic@);
        } else {
            assert(s2[p] == s[p]);
            assert(has_topic(s, t));
        }
    }
    assert forall|t: Seq<char>| m2.contains_key(t) implies m1.contains_key(t) by {
        if t == e.topic@ {
            assert(s2[i].topic@ == t);
            assert(has_topic(s2, t));
        } else {
            let p = choose|p: int| 0 <= p < s.len() && (#[trigger] s[p]).topic@ == t;
            assert(p != i);
            assert(s2[p] == s[p]);
            assert(has_topic(s2, t));
        }
    }
    assert forall|t: Seq<char>| m1.contains_key(t) implies m1[t] == m2[t] by {
        let j = topic_index(s2, t);
        assert(0 <= j < s2.len() && s2[j].topic@ == t);
        if t == e.topic@ {
            if j != i {
                assert(s2[j] == s[j]);
                assert(s[j].topic@ == s[i].topic@);
            }
            assert(j == i);
            assert(m1[t] == e.listeners@);
        } else {
            assert(j != i);
            assert(s2[j] == s[j]);
            assert(has_topic(s, t));
            let j2 = topic_index(s, t);
            assert(0 <= j2 < s.len() && s[j2].topic@ == t);
            assert(j2 != i);
            assert(j2 == j);
            assert(m2[t] == s[j2].listeners@);
        }
    }
    assert(m1 =~= m2);
}

/// Removing the entry at position `i` removes exactly its topic from the
/// denoted registry.
proof fn lemma_registry_remove<L>(s: Seq<TopicEntry<L>>, i: int)
    requires
        unique_topics(s),
        0 <= i < s.len(),
    ensures
        unique_topics(s.remove(i)),
        registry_of(s.remove(i)) == registry_of(s).remove(s[i].topic@),
{
    let s2 = s.remove(i);
    s.remove_ensures(i);
    assert forall|p: int, q: int| 0 <= p < q < s2.len() implies (#[trigger] s2[p]).topic@ != (
    #[trigger] s2[q]).topic@ by {
        let p0: int = if p < i { p } else { p + 1 };
        let q0: int = if q < i { q } else { q + 1 };
        assert(s2[p] == s[p0]);
        assert(s2[q] == s[q0]);
        assert(s[p0].topic@ != s[q0].topic@);
    }
    let m1 = registry_of(s2);
    let m2 = registry_of(s).remove(s[i].topic@);
    assert forall|t: Seq<char>| m1.contains_key(t) implies m2.contains_key(t) by {
        let p = choose|p: int| 0 <= p < s2.len() && (#[trigger] s2[p]).topic@ == t;
        let p0: int = if p < i { p } else { p + 1 };
        assert(s2[p] == s[p0]);
        assert(has_topic(s, t));
        if t == s[i].topic@ {
            assert(s[p0].topic@ == s[i].topic@ && p0 != i);
            assert(false);
        }
    }
    assert forall|t: Seq<char>| m2.contains_key(t) implies m1.contains_key(t) by {
        let p = choose|p: int| 0 <= p < s.len() && (#[trigger] s[p]).topic@ == t;
        assert(p != i);
        let p2: int = if p < i { p } else { p - 1 };
        assert(s2[p2] == s[p]);
        assert(has_topic(s2, t));
    }
    assert forall|t: Seq<char>| m1.contains_key(t) implies m1[t] == m2[t] by {
        let j = topic_index(s2, t);
        assert(0 <= j < s2.len() && s2[j].topic@ == t);
        let j0: int = if j < i { j } else { j + 1 };
        assert(s2[j] == s[j0]);
        assert(has_topic(s, t));
        let j2 = topic_index(s, t);
        assert(0 <= j2 < s.len() && s[j2].topic@ == t);
        assert(j2 == j0);
        assert(m2[t] == s[j2].listeners@);
    }
    assert(m1 =~= m2);
}

/// The shared registry-and-dispatch engine: an immutable configuration
/// together with the mapping from topic to ordered listener sequence.
pub struct EventBus<L> {
    config: Config,
    entries: Vec<TopicEntry<L>>,
}

impl<L> EventBus<L> {
    /// The registry: which topics are known, and for each known topic the
    /// ordered sequence of listeners registered for it.
    pub closed spec fn registry(self) -> Map<Seq<char>, Seq<L>> {
        registry_of(self.entries@)
    }

    /// The configuration options this bus was constructed with.
    pub closed spec fn options(self) -> Map<Seq<char>, ConfigValue> {
        self.config.options()
    }

    /// Whether the configuration opts into fail-fast dispatch: the option
    /// `fail_fast` is present and holds the flag `true`.
    pub open spec fn fail_fast(self) -> bool {
        &&& self.options().contains_key("fail_fast"@)
        &&& self.options()["fail_fast"@] matches ConfigValue::Flag(true)
    }

    /// The listener sequence a publish call to topic `t` would dispatch
    /// to: the registered sequence for a known topic, empty otherwise.
    pub open spec fn listeners_of(self, t: Seq<char>) -> Seq<L> {
        if self.registry().contains_key(t) {
            self.registry()[t]
        } else {
            Seq::empty()
        }
    }

    /// The registry's structural invariant: every topic is carried by at
    /// most one entry, no entry carries an empty topic, and no entry
    /// carries an empty listener sequence.
    pub closed spec fn well_formed(self) -> bool {
        &&& unique_topics(self.entries@)
        &&& nonempty_topics(self.entries@)
        &&& populated_topics(self.entries@)
    }

    /// Constructs a bus holding the given configuration and an empty
    /// registry.
    pub fn new(config: Config) -> (bus: EventBus<L>)
        ensures
            bus.well_formed(),
            bus.registry() == Map::<Seq<char>, Seq<L>>::empty(),
            bus.options() == config.options(),
    {
        let bus = EventBus { config, entries: Vec::new() };
        proof {
            assert(bus.registry() =~= Map::<Seq<char>, Seq<L>>::empty());
        }
        bus
    }

    /// Finds the position of the entry carrying the wanted topic.
    fn find_topic(&self, wanted: &String) -> (r: Option<usize>)
        ensures
            match r {
                Some(i) => i < self.entries@.len() && self.entries@[i as int].topic@ == wanted@,
                None => !has_topic(self.entries@, wanted@),
            },
    {
        let n = self.entries.len();
        let mut i: usize = 0;
        while i < n
            invariant
                i <= n,
                n == self.entries@.len(),
                forall|j: int| 0 <= j < i ==> (#[trigger] self.entries@[j]).topic@ != wanted@,
            decreases n - i,
        {
            if self.entries[i].topic == *wanted {
                return Some(i);
            }
            i = i + 1;
        }
        None
    }

    /// Registers `listener` for `event_type`, appending it to the topic's
    /// sequence (creating the topic if it is new) and leaving every other
    /// topic untouched. Fails with `InvalidTopic` on an empty topic and
    /// then leaves the registry unchanged. On success the returned handle
    /// names the topic and the listener's position in its sequence.
    pub fn subscribe(&mut self, event_type: String, listener: L) -> (r: Result<
        SubscriptionHandle,
        BusError,
    >)
        requires
            old(self).well_formed(),
        ensures
            final(self).well_formed(),
            final(self).options() == old(self).options(),
            event_type@.len() == 0 ==> {
                &&& r == Err::<SubscriptionHandle, BusError>(BusError::InvalidTopic)
                &&& final(self).registry() == old(self).registry()
            },
            event_type@.len() > 0 ==> {
                &&& final(self).registry() == old(self).registry().insert(
                    event_type@,
                    old(self).listeners_of(event_type@).push(listener),
                )
                &&& r matches Ok(h) && h.spec_topic() == event_type@ && h.spec_position() == old(
                    self,
                ).listeners_of(event_type@).len()
            },
    {
        if event_type.as_str().is_empty() {
            return Err(BusError::InvalidTopic);
        }
        let handle_topic = event_type.clone();
        let position: usize;
        match self.find_topic(&event_type) {
            Some(i) => {
                let ghost s0 = self.entries@;
                position = self.entries[i].listeners.len();
                self.entries[i].listeners.push(listener);
                proof {
                    let e2 = self.entries@[i as int];
                    assert(self.entries@ == s0.update(i as int, e2));
                    lemma_registry_at(s0, i as int);
                    lemma_registry_update(s0, i as int, e2);
                }
            },
            None => {
                let ghost s0 = self.entries@;
                position = 0;
                let mut registered: Vec<L> = Vec::new();
                registered.push(listener);
                let entry = TopicEntry { topic: event_type, listeners: registered };
                self.entries.push(entry);
                proof {
                    let e = self.entries@.last();
                    lemma_registry_push(s0, e);
                }
            },
        }
        Ok(SubscriptionHandle { topic: handle_topic, position })
    }

    /// Removes the topic and all listeners registered for it in one step;
    /// an unknown topic is a no-op. Every other topic is left untouched.
    pub fn unsubscribe(&mut self, event_type: &str)
        requires
            old(self).well_formed(),
        ensures
            final(self).well_formed(),
            final(self).options() == old(self).options(),
            final(self).registry() == old(self).registry().remove(event_type@),
    {
        let wanted: String = event_type.to_owned();
        match self.find_topic(&wanted) {
            Some(i) => {
                let ghost s0 = self.entries@;
                self.entries.remove(i);
                proof {
                    lemma_registry_remove(s0, i as int);
                }
            },
            None => {
                proof {
                    assert(self.registry().remove(event_type@) =~= self.registry());
                }
            },
        }
    }

    /// The number of listeners currently registered for `event_type`.
    pub fn listener_count(&self, event_type: &str) -> (n: usize)
        requires
            self.well_formed(),
        ensures
            n == self.listeners_of(event_type@).len(),
    {
        let wanted: String = event_type.to_owned();
        match self.find_topic(&wanted) {
            Some(i) => {
                proof {
                    lemma_registry_at(self.entries@, i as int);
                }
                self.entries[i].listeners.len()
            },
            None => 0,
        }
    }
}

/// Every topic a well-formed registry knows is a non-empty string: an
/// empty topic is rejected at subscribe time and so never enters the
/// registry.
pub proof fn law_known_topics_are_nonempty<L>(bus: EventBus<L>, t: Seq<char>)
    requires
        bus.well_formed(),
        bus.registry().contains_key(t),
    ensures
        t.len() > 0,
{
    let s = bus.entries@;
    let i = topic_index(s, t);
    assert(0 <= i < s.len() && s[i].topic@ == t);
}

/// Every topic a well-formed registry knows has at least one listener: a
/// topic with zero listeners is equivalent to an absent topic, so the
/// two cases are indistinguishable to publishers.
pub proof fn law_known_topics_are_populated<L>(bus: EventBus<L>, t: Seq<char>)
    requires
        bus.well_formed(),
        bus.registry().contains_key(t),
    ensures
        bus.listeners_of(t).len() > 0,
{
    let s = bus.entries@;
    let i = topic_index(s, t);
    assert(0 <= i < s.len() && s[i].topic@ == t);
    assert(bus.registry()[t] == s[topic_index(s, t)].listeners@);
}

/// A successful subscribe appends the new listener at the end of its
/// topic's sequence without disturbing anything else: every listener
/// registered for the topic before keeps its position, the new listener
/// stands last, and every other topic's sequence is exactly what it was.
/// The premise is what `subscribe` ensures of the registries before and
/// after a successful call for a non-empty topic `t`.
pub proof fn law_subscribe_appends<L>(pre: EventBus<L>, post: EventBus<L>, t: Seq<char>, l: L)
    requires
        post.registry() == pre.registry().insert(t, pre.listeners_of(t).push(l)),
    ensures
        post.listeners_of(t).len() == pre.listeners_of(t).len() + 1,
        forall|k: int|
            0 <= k < pre.listeners_of(t).len() ==> post.listeners_of(t)[k] == pre.listeners_of(
                t,
            )[k],
        post.listeners_of(t).last() == l,
        forall|t2: Seq<char>| t2 != t ==> post.listeners_of(t2) == pre.listeners_of(t2),
{
}

/// Dropping a topic silences it and touches nothing else: afterwards the
/// topic is unknown, so a publish to it dispatches to no listener and
/// reports nothing, while every other topic's sequence is exactly what
/// it was. The premise is what `unsubscribe` ensures of the registries
/// before and after a call for topic `t`.
pub proof fn law_unsubscribe_silences<L>(pre: EventBus<L>, post: EventBus<L>, t: Seq<char>)
    requires
        post.registry() == pre.registry().remove(t),
    ensures
        !post.registry().contains_key(t),
        post.listeners_of(t) == Seq::<L>::empty(),
        forall|t2: Seq<char>| t2 != t ==> post.listeners_of(t2) == pre.listeners_of(t2),
{
}

/// Appends a report entry when `outcome` is a failure, and leaves the
/// report as it stands when `outcome` is a success. This is the whole
/// bookkeeping a publish call performs per listener invocation, stated
/// for every value the listener can return.
pub fn record_outcome(
    report: &mut Vec<ListenerFailure>,
    topic: &str,
    index: usize,
    outcome: Result<(), String>,
)
    ensures
        match outcome {
            Ok(_) => final(report)@ == old(report)@,
            Err(m) => {
                &&& final(report)@.len() == old(report)@.len() + 1
                &&& forall|k: int|
                    0 <= k < old(report)@.len() ==> final(report)@[k] == old(report)@[k]
                &&& final(report)@.last().topic@ == topic@
                &&& final(report)@.last().listener_index == index
                &&& final(report)@.last().message@ == m@
            },
        },
{
    match outcome {
        Ok(_) => {},
        Err(m) => {
            report.push(
                ListenerFailure { topic: topic.to_owned(), listener_index: index, message: m },
            );
        },
    }
}

impl<L: Listener> EventBus<L> {
    /// Fans the event out to every listener registered for `event_type`
    /// at entry, in registration order, and returns the per-listener
    /// failure report. Publishing to an unknown topic is a silent no-op
    /// with an empty report. A failing listener never prevents the
    /// remaining listeners from running; its failure is recorded in the
    /// report, one entry per failing listener, in dispatch order. When
    /// the configuration opts into fail-fast dispatch, the fan-out stops
    /// at the first failure instead, so the report holds at most one
    /// entry.
    pub fn publish(&self, event_type: &str, payload: EventPayload) -> (report: Vec<
        ListenerFailure,
    >)
        requires
            self.well_formed(),
        ensures
            !self.registry().contains_key(event_type@) ==> report@.len() == 0,
            forall|k: int|
                0 <= k < report@.len() ==> {
                    &&& (#[trigger] report@[k]).topic@ == event_type@
                    &&& report@[k].listener_index < self.listeners_of(event_type@).len()
                },
            forall|k1: int, k2: int|
                0 <= k1 < k2 < report@.len() ==> (#[trigger] report@[k1]).listener_index < (
                #[trigger] report@[k2]).listener_index,
            self.fail_fast() ==> report@.len() <= 1,
    {
        let mut report: Vec<ListenerFailure> = Vec::new();
        let wanted: String = event_type.to_owned();
        let found = self.find_topic(&wanted);
        match found {
            None => report,
            Some(i) => {
                proof {
                    lemma_registry_at(self.entries@, i as int);
                }
                let stop_on_failure = self.config.flag("fail_fast", false);
                let n = self.entries[i].listeners.len();
                let mut j: usize = 0;
                while j < n
                    invariant
                        j <= n,
                        i < self.entries@.len(),
                        self.well_formed(),
                        n == self.entries@[i as int].listeners@.len(),
                        self.entries@[i as int].topic@ == event_type@,
                        self.listeners_of(event_type@).len() == n,
                        stop_on_failure == self.fail_fast(),
                        forall|k: int|
                            0 <= k < report@.len() ==> {
                                &&& (#[trigger] report@[k]).topic@ == event_type@
                                &&& report@[k].listener_index < j
                            },
                        forall|k1: int, k2: int|
                            0 <= k1 < k2 < report@.len() ==> (#[trigger] report@[k1]).listener_index
                                < (#[trigger] report@[k2]).listener_index,
                        stop_on_failure ==> report@.len() == 0,
                    decreases n - j,
                {
                    let outcome = self.entries[i].listeners[j].on_event(&payload);
                    let failed = outcome.is_err();
                    record_outcome(&mut report, event_type, j, outcome);
                    if failed && stop_on_failure {
                        return report;
                    }
                    j = j + 1;
                }
                report
            },
        }
    }
}

} // verus!
