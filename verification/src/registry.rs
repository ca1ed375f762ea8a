//! Who is subscribed to what: the mathematical model of the bus, and the laws of subscribing.

use std::any::TypeId;
use vstd::prelude::*;

verus! {

/// Identifies a consumer of a bus. No two consumers of one bus share an id.
pub type ConsumerId = u64;

/// The consumers of every topic that has any, each with the listener `L` that stands for it.
#[verifier::ext_equal]
pub struct Registry<L> {
    /// For every topic with a consumer, its consumers.
    pub listeners: Map<TypeId, Map<ConsumerId, L>>,
    /// The id of the next consumer.
    pub next_id: nat,
}

/// A change of the subscriptions.
pub enum Change<L> {
    /// A new consumer of `topic_id`, heard through `listener`.
    Subscribe { topic_id: TypeId, listener: L },
    /// The consumer `consumer_id` of `topic_id` is gone.
    Unsubscribe { topic_id: TypeId, consumer_id: ConsumerId },
}

impl<L> Registry<L> {
    /// No consumer at all.
    pub open spec fn empty() -> Self {
        Registry { listeners: Map::empty(), next_id: 0 }
    }

    /// The consumers of `topic_id`; none where nobody subscribed to it.
    pub open spec fn topic_listeners(self, topic_id: TypeId) -> Map<ConsumerId, L> {
        if self.listeners.contains_key(topic_id) {
            self.listeners[topic_id]
        } else {
            Map::empty()
        }
    }

    /// `consumer_id` is subscribed to `topic_id`.
    pub open spec fn subscribed(self, topic_id: TypeId, consumer_id: ConsumerId) -> bool {
        self.listeners.contains_key(topic_id) && self.listeners[topic_id].contains_key(consumer_id)
    }

    /// The number of topics that have a consumer.
    pub open spec fn n_topics(self) -> nat {
        self.listeners.dom().len()
    }

    /// A topic is listed only while it has consumers, a consumer belongs to one topic, and every
    /// id in use was handed out before.
    pub open spec fn wf(self) -> bool {
        &&& self.listeners.dom().finite()
        &&& forall|topic_id: TypeId| #[trigger]
            self.listeners.contains_key(topic_id) ==> self.listeners[topic_id].dom().finite()
                && !self.listeners[topic_id].is_empty()
        &&& forall|topic_id: TypeId, consumer_id: ConsumerId| #[trigger]
            self.subscribed(topic_id, consumer_id) ==> consumer_id < self.next_id
        &&& forall|topic_id: TypeId, other_id: TypeId, consumer_id: ConsumerId| #[trigger]
            self.subscribed(topic_id, consumer_id) && #[trigger] self.subscribed(
                other_id,
                consumer_id,
            ) ==> topic_id == other_id
    }

    /// One more consumer, under the next id.
    pub open spec fn subscribe(self, topic_id: TypeId, listener: L) -> Self {
        Registry {
            listeners: self.listeners.insert(
                topic_id,
                self.topic_listeners(topic_id).insert(self.next_id as ConsumerId, listener),
            ),
            next_id: self.next_id + 1,
        }
    }

    /// One consumer less; its topic goes with its last consumer.
    pub open spec fn unsubscribe(self, topic_id: TypeId, consumer_id: ConsumerId) -> Self {
        let rest = self.topic_listeners(topic_id).remove(consumer_id);
        Registry {
            listeners: if rest.is_empty() {
                self.listeners.remove(topic_id)
            } else {
                self.listeners.insert(topic_id, rest)
            },
            next_id: self.next_id,
        }
    }

    /// The registry after one change.
    pub open spec fn after(self, change: Change<L>) -> Self {
        match change {
            Change::Subscribe { topic_id, listener } => self.subscribe(topic_id, listener),
            Change::Unsubscribe { topic_id, consumer_id } => self.unsubscribe(
                topic_id,
                consumer_id,
            ),
        }
    }

    /// The registry after a history of changes, the first one first.
    pub open spec fn after_all(self, history: Seq<Change<L>>) -> Self
        decreases history.len(),
    {
        if history.len() == 0 {
            self
        } else {
            self.after_all(history.drop_last()).after(history.last())
        }
    }

    /// A bus starts out well formed.
    pub proof fn law_empty_is_wf()
        ensures
            Self::empty().wf(),
            Self::empty().n_topics() == 0,
    {
    }

    /// Subscribing keeps the registry well formed, as long as ids are left.
    pub proof fn law_subscribe_keeps_wf(self, topic_id: TypeId, listener: L)
        requires
            self.wf(),
            self.next_id <= ConsumerId::MAX,
        ensures
            self.subscribe(topic_id, listener).wf(),
    {
        let id = self.next_id as ConsumerId;
        let after = self.subscribe(topic_id, listener);
        assert(after.listeners[topic_id].contains_key(id));
        assert forall|t: TypeId, c: ConsumerId| #[trigger] after.subscribed(t, c) implies (
        self.subscribed(t, c) || (t == topic_id && c == id)) by {}
        assert(forall|t: TypeId, c: ConsumerId| #[trigger]
            self.subscribed(t, c) ==> c < self.next_id);
    }

    /// Unsubscribing keeps the registry well formed.
    pub proof fn law_unsubscribe_keeps_wf(self, topic_id: TypeId, consumer_id: ConsumerId)
        requires
            self.wf(),
        ensures
            self.unsubscribe(topic_id, consumer_id).wf(),
    {
        let after = self.unsubscribe(topic_id, consumer_id);
        assert forall|t: TypeId, c: ConsumerId| #[trigger] after.subscribed(t, c) implies
        self.subscribed(t, c) by {}
    }

    /// A new consumer is registered under an id that nobody had, with its own listener, and
    /// everybody else stays as they were.
    pub proof fn law_subscribe_adds_one(self, topic_id: TypeId, listener: L)
        requires
            self.wf(),
            self.next_id <= ConsumerId::MAX,
        ensures
            ({
                let id = self.next_id as ConsumerId;
                let after = self.subscribe(topic_id, listener);
                &&& forall|other_id: TypeId| !#[trigger] self.subscribed(other_id, id)
                &&& after.subscribed(topic_id, id)
                &&& after.listeners[topic_id][id] == listener
                &&& forall|other_id: TypeId, consumer_id: ConsumerId|
                    consumer_id != id ==> #[trigger] after.subscribed(other_id, consumer_id)
                        == self.subscribed(other_id, consumer_id)
                &&& forall|other_id: TypeId, consumer_id: ConsumerId| #[trigger]
                    self.subscribed(other_id, consumer_id)
                        ==> after.listeners[other_id][consumer_id]
                        == self.listeners[other_id][consumer_id]
            }),
    {
    }

    /// A consumer that unsubscribed is registered nowhere, and everybody else stays as they were.
    pub proof fn law_unsubscribe_takes_one(self, topic_id: TypeId, consumer_id: ConsumerId)
        requires
            self.wf(),
            self.subscribed(topic_id, consumer_id),
        ensures
            ({
                let after = self.unsubscribe(topic_id, consumer_id);
                &&& forall|other_id: TypeId| !#[trigger] after.subscribed(other_id, consumer_id)
                &&& forall|other_id: TypeId, other: ConsumerId|
                    other != consumer_id ==> #[trigger] after.subscribed(other_id, other)
                        == self.subscribed(other_id, other)
                &&& forall|other_id: TypeId, other: ConsumerId| #[trigger]
                    after.subscribed(other_id, other) ==> after.listeners[other_id][other]
                        == self.listeners[other_id][other]
            }),
    {
        let after = self.unsubscribe(topic_id, consumer_id);
        let rest = self.topic_listeners(topic_id).remove(consumer_id);
        assert forall|t: TypeId, c: ConsumerId| c != consumer_id implies #[trigger] after.subscribed(
            t,
            c,
        ) == self.subscribed(t, c) by {
            if t == topic_id && self.subscribed(t, c) {
                assert(rest.dom().contains(c));
            }
        }
        assert forall|t: TypeId| !#[trigger] after.subscribed(t, consumer_id) by {
            if after.subscribed(t, consumer_id) {
                assert(self.subscribed(t, consumer_id));
            }
        }
    }

    /// Unsubscribing somebody who is not subscribed changes nothing.
    pub proof fn law_unsubscribe_unknown_is_a_no_op(
        self,
        topic_id: TypeId,
        consumer_id: ConsumerId,
    )
        requires
            self.wf(),
            !self.subscribed(topic_id, consumer_id),
        ensures
            self.unsubscribe(topic_id, consumer_id) == self,
    {
        let listeners = self.topic_listeners(topic_id);
        assert(listeners.remove(consumer_id) =~= listeners);
        assert(self.unsubscribe(topic_id, consumer_id).listeners =~= self.listeners);
    }

    /// Unsubscribing undoes subscribing, but for the id, which is not handed out again.
    pub proof fn law_unsubscribe_undoes_subscribe(self, topic_id: TypeId, listener: L)
        requires
            self.wf(),
            self.next_id <= ConsumerId::MAX,
        ensures
            ({
                let id = self.next_id as ConsumerId;
                let after = self.subscribe(topic_id, listener).unsubscribe(topic_id, id);
                &&& after.listeners == self.listeners
                &&& after.next_id == self.next_id + 1
            }),
    {
        let id = self.next_id as ConsumerId;
        let listeners = self.topic_listeners(topic_id);
        assert(!self.subscribed(topic_id, id));
        assert(listeners.insert(id, listener).remove(id) =~= listeners);
        let after = self.subscribe(topic_id, listener).unsubscribe(topic_id, id);
        assert(after.listeners =~= self.listeners);
    }

    /// A topic counts from its first consumer on.
    pub proof fn law_subscribe_counts_topics(self, topic_id: TypeId, listener: L)
        requires
            self.wf(),
        ensures
            self.subscribe(topic_id, listener).n_topics() == if self.listeners.contains_key(
                topic_id,
            ) {
                self.n_topics()
            } else {
                self.n_topics() + 1
            },
    {
        let after = self.subscribe(topic_id, listener);
        assert(after.listeners.dom() =~= self.listeners.dom().insert(topic_id));
    }

    /// The number of topics goes down by one when the last consumer of a topic is gone, and only
    /// then.
    pub proof fn law_unsubscribe_counts_topics(self, topic_id: TypeId, consumer_id: ConsumerId)
        requires
            self.wf(),
        ensures
            self.unsubscribe(topic_id, consumer_id).n_topics() == if self.listeners.contains_key(
                topic_id,
            ) && self.listeners[topic_id].dom() == set![consumer_id] {
                (self.n_topics() - 1) as nat
            } else {
                self.n_topics()
            },
    {
        let after = self.unsubscribe(topic_id, consumer_id);
        let listeners = self.topic_listeners(topic_id);
        let rest = listeners.remove(consumer_id);
        if rest.is_empty() {
            assert(after.listeners.dom() =~= self.listeners.dom().remove(topic_id));
            if self.listeners.contains_key(topic_id) {
                assert(rest.dom() =~= Set::empty());
                assert(listeners.dom() =~= set![consumer_id]) by {
                    if !listeners.contains_key(consumer_id) {
                        assert(listeners =~= rest);
                    }
                    assert forall|c: ConsumerId| listeners.dom().contains(c) implies c
                        == consumer_id by {
                        if c != consumer_id {
                            assert(rest.dom().contains(c));
                        }
                    }
                }
            } else {
                assert(after.listeners.dom() =~= self.listeners.dom());
            }
        } else {
            if !self.listeners.contains_key(topic_id) {
                assert(rest =~= Map::empty());
            }
            assert(after.listeners.dom() =~= self.listeners.dom());
            if self.listeners[topic_id].dom() == set![consumer_id] {
                assert(rest.dom() =~= Set::empty());
            }
        }
    }

    /// Every history keeps the registry well formed, as long as ids are left, and never takes an id
    /// back.
    pub proof fn law_history_keeps_wf(self, history: Seq<Change<L>>)
        requires
            self.wf(),
            self.after_all(history).next_id <= ConsumerId::MAX,
        ensures
            self.after_all(history).wf(),
            self.next_id <= self.after_all(history).next_id,
        decreases history.len(),
    {
        if history.len() > 0 {
            let before = self.after_all(history.drop_last());
            self.law_history_keeps_wf(history.drop_last());
            match history.last() {
                Change::Subscribe { topic_id, listener } => {
                    before.law_subscribe_keeps_wf(topic_id, listener);
                },
                Change::Unsubscribe { topic_id, consumer_id } => {
                    before.law_unsubscribe_keeps_wf(topic_id, consumer_id);
                },
            }
        }
    }

    /// A subscription lasts, with its listener, through every history in which the consumer does
    /// not unsubscribe.
    pub proof fn law_subscription_lasts(
        self,
        topic_id: TypeId,
        consumer_id: ConsumerId,
        history: Seq<Change<L>>,
    )
        requires
            self.wf(),
            self.after_all(history).next_id <= ConsumerId::MAX,
            self.subscribed(topic_id, consumer_id),
            !history.contains(Change::Unsubscribe { topic_id, consumer_id }),
        ensures
            self.after_all(history).subscribed(topic_id, consumer_id),
            self.after_all(history).listeners[topic_id][consumer_id]
                == self.listeners[topic_id][consumer_id],
        decreases history.len(),
    {
        if history.len() > 0 {
            let earlier = history.drop_last();
            let before = self.after_all(earlier);
            assert forall|i: int| 0 <= i < earlier.len() implies earlier[i] != (
            Change::<L>::Unsubscribe { topic_id, consumer_id }) by {
                assert(earlier[i] == history[i]);
            }
            self.law_history_keeps_wf(earlier);
            self.law_subscription_lasts(topic_id, consumer_id, earlier);
            assert(history[history.len() - 1] == history.last());
            match history.last() {
                Change::Subscribe { topic_id: t, listener } => {
                    before.law_subscribe_adds_one(t, listener);
                },
                Change::Unsubscribe { topic_id: t, consumer_id: c } => {
                    if before.subscribed(t, c) {
                        before.law_unsubscribe_takes_one(t, c);
                    } else {
                        before.law_unsubscribe_unknown_is_a_no_op(t, c);
                    }
                },
            }
        }
    }

    /// A consumer that is gone does not come back: no history hands its id out again.
    pub proof fn law_gone_is_gone(self, consumer_id: ConsumerId, history: Seq<Change<L>>)
        requires
            self.wf(),
            self.after_all(history).next_id <= ConsumerId::MAX,
            consumer_id < self.next_id,
            forall|topic_id: TypeId| !#[trigger] self.subscribed(topic_id, consumer_id),
        ensures
            forall|topic_id: TypeId|
                !#[trigger] self.after_all(history).subscribed(topic_id, consumer_id),
        decreases history.len(),
    {
        if history.len() > 0 {
            let before = self.after_all(history.drop_last());
            self.law_history_keeps_wf(history.drop_last());
            self.law_gone_is_gone(consumer_id, history.drop_last());
            match history.last() {
                Change::Subscribe { topic_id, listener } => {
                    before.law_subscribe_adds_one(topic_id, listener);
                },
                Change::Unsubscribe { topic_id, consumer_id: c } => {
                    if before.subscribed(topic_id, c) {
                        before.law_unsubscribe_takes_one(topic_id, c);
                    } else {
                        before.law_unsubscribe_unknown_is_a_no_op(topic_id, c);
                    }
                },
            }
        }
    }
}

} // verus!
