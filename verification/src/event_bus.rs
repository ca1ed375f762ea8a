//! The bus: its state, and what it does with every message and signal.

use std::any::TypeId;
use std::collections::hash_map::Entry;
use std::collections::HashMap;
use tokio::sync::mpsc;
use tokio::sync::mpsc::error::TryRecvError;
use vstd::pervasive::unreached;
use vstd::prelude::*;

use crate::actor::{next_turn, ActorSignal, Turn};
use crate::any_value::{type_held, AnyValue};
use crate::channel::{open_channel, Outcome};
use crate::consumer::ConsumerReceiver;
use crate::event::{
    delivered, ends_gone, lemma_no_offers, lemma_one_more_offer, mentions, offered_in_turn,
    offered_to, selection, Delivery, Event, EventBusStats, EventMessage, EventSender, Listener,
};
use crate::filter::OptionalBoxedFilter;
use crate::notices::{notice_ends, open_notices, DropChannel, Notice, NoticeUse};
use crate::outside::{channel_ends, replied};
use crate::registry::{ConsumerId, Registry};

verus! {

broadcast use vstd::std_specs::hash::group_hash_axioms;

/// The consumers of one topic.
struct TopicListeners {
    topic_id: TypeId,
    consumers: HashMap<ConsumerId, EventSender>,
}

impl TopicListeners {
    /// The consumers, each with what is known of it.
    spec fn listeners(self) -> Map<ConsumerId, Listener> {
        self.consumers@.map_values(|sender: EventSender| sender@)
    }

    /// The ids of the consumers, each once.
    fn consumer_ids(&self) -> (ids: Vec<ConsumerId>)
        ensures
            ids@.no_duplicates(),
            forall|id: ConsumerId| #[trigger]
                ids@.contains(id) <==> self.consumers@.contains_key(id),
    {
        let consumers = &self.consumers;
        let mut ids: Vec<ConsumerId> = Vec::new();
        for entry in entries: consumers.iter()
            invariant
                entries.seq().no_duplicates(),
                forall|i: int|
                    0 <= i < entries.seq().len() ==> consumers@.contains_key(
                        *(#[trigger] entries.seq()[i]).0,
                    ) && consumers@[*entries.seq()[i].0] == *entries.seq()[i].1,
                forall|id: ConsumerId| #[trigger]
                    consumers@.contains_key(id) ==> entries.seq().contains((&id, &consumers@[id])),
                ids@.len() == entries.index(),
                forall|j: int|
                    #![trigger ids@[j]]
                    #![trigger entries.seq()[j]]
                    0 <= j < ids@.len() ==> ids@[j] == *entries.seq()[j].0,
                ids@.no_duplicates(),
        {
            let (id, _) = entry;
            let ghost earlier = ids@;
            proof {
                if earlier.contains(*id) {
                    let j = earlier.index_of(*id);
                    assert(entries.seq()[j] == entries.seq()[earlier.len() as int]);
                }
            }
            ids.push(*id);
        }
        proof {
            assert forall|id: ConsumerId| #[trigger] consumers@.contains_key(
                id,
            ) implies ids@.contains(id) by {}
        }
        ids
    }

    /// Offers `event`, once, to one of the consumers, if it hears it.
    fn offer_if_heard(&mut self, consumer_id: ConsumerId, event: &Event) -> (ended: Option<Outcome>)
        requires
            old(self).listeners().contains_key(consumer_id),
            old(self).listeners()[consumer_id].fits(event.topic_id()),
        ensures
            final(self).topic_id == old(self).topic_id,
            match ended {
                Some(ended) => {
                    &&& old(self).listeners()[consumer_id].accepts(event.topic)
                    &&& final(self).listeners() == old(self).listeners().insert(
                        consumer_id,
                        old(self).listeners()[consumer_id].having_offered(seq![(*event, ended)]),
                    )
                },
                None => {
                    &&& old(self).listeners()[consumer_id].rejects(event.topic)
                    &&& final(self).listeners() == old(self).listeners()
                },
            },
    {
        let ended = match self.consumers.entry(consumer_id) {
            Entry::Occupied(entry) => entry.into_mut().offer_if_heard(event),
            Entry::Vacant(_) => unreached(),
        };
        proof {
            let before = old(self).listeners();
            match ended {
                Some(outcome) => {
                    assert(self.listeners() =~= before.insert(
                        consumer_id,
                        before[consumer_id].having_offered(seq![(*event, outcome)]),
                    ));
                },
                None => {
                    assert(self.listeners() =~= before);
                },
            }
        }
        ended
    }
}

/// The state of a bus: who is subscribed to what.
///
/// The topics are in a list, in which no topic occurs twice: nothing is known of hash maps whose
/// keys are type ids.
pub struct EventSinkState {
    listeners: Vec<TopicListeners>,
    consumer_id_seed: ConsumerId,
    drop_consumer_channel: DropChannel,
}

/// `index` is the place of `topic_id` in `topics`.
spec fn place_of(
    topics: Seq<TopicListeners>,
    topic_id: TypeId,
    index: int,
) -> bool {
    0 <= index < topics.len() && topics[index].topic_id == topic_id
}

/// `topics` by topic.
spec fn by_topic(topics: Seq<TopicListeners>) -> Map<
    TypeId,
    Map<ConsumerId, Listener>,
> {
    Map::new(
        |topic_id: TypeId| exists|index: int| place_of(topics, topic_id, index),
        |topic_id: TypeId|
            topics[choose|index: int| place_of(topics, topic_id, index)].listeners(),
    )
}

/// No topic is listed twice.
spec fn distinct(topics: Seq<TopicListeners>) -> bool {
    forall|i: int, j: int|
        0 <= i < j < topics.len() ==> (#[trigger] topics[i]).topic_id != (
        #[trigger] topics[j]).topic_id
}

/// A listed topic has the consumers that are listed with it.
proof fn lemma_by_topic(topics: Seq<TopicListeners>)
    requires
        distinct(topics),
    ensures
        forall|i: int|
            0 <= i < topics.len() ==> by_topic(topics).contains_key(
                (#[trigger] topics[i]).topic_id,
            ) && by_topic(topics)[topics[i].topic_id] == topics[i].listeners(),
        forall|topic_id: TypeId|
            (forall|i: int| 0 <= i < topics.len() ==> (#[trigger] topics[i]).topic_id != topic_id)
                ==> !#[trigger] by_topic(topics).contains_key(topic_id),
{
    assert forall|i: int| 0 <= i < topics.len() implies by_topic(topics).contains_key(
        (#[trigger] topics[i]).topic_id,
    ) && by_topic(topics)[topics[i].topic_id] == topics[i].listeners() by {
        let topic_id = topics[i].topic_id;
        assert(place_of(topics, topic_id, i));
        let index = choose|index: int| place_of(topics, topic_id, index);
        assert(index == i);
    }
}

/// There are as many topics as are listed.
proof fn lemma_topic_count(topics: Seq<TopicListeners>)
    requires
        distinct(topics),
    ensures
        by_topic(topics).dom().finite(),
        by_topic(topics).dom().len() == topics.len(),
{
    let ids = topics.map_values(|topic: TopicListeners| topic.topic_id);
    assert(ids.no_duplicates());
    ids.unique_seq_to_set();
    assert(ids.to_set() =~= by_topic(topics).dom()) by {
        assert forall|topic_id: TypeId| ids.contains(topic_id) implies by_topic(
            topics,
        ).contains_key(topic_id) by {
            let index = ids.index_of(topic_id);
            assert(place_of(topics, topic_id, index));
        }
        assert forall|topic_id: TypeId| by_topic(topics).contains_key(
            topic_id,
        ) implies ids.contains(topic_id) by {
            let index = choose|index: int| place_of(topics, topic_id, index);
            assert(ids[index] == topic_id);
        }
    }
}

impl View for EventSinkState {
    type V = Registry<Listener>;

    closed spec fn view(&self) -> Registry<Listener> {
        Registry { listeners: by_topic(self.listeners@), next_id: self.consumer_id_seed as nat }
    }
}

impl Default for EventSinkState {
    /// A bus without consumers.
    fn default() -> (state: Self)
        ensures
            state.wf(),
            state@ == Registry::<Listener>::empty(),
            notice_ends(state.drop_channel().0.sender(), state.drop_channel().1),
            state.drop_channel().0.uses() == Seq::<NoticeUse>::empty(),
    {
        Self::new()
    }
}

/// Every filter is one for the topic that its consumer is subscribed to.
pub open spec fn filters_fit(registry: Registry<Listener>) -> bool {
    forall|topic_id: TypeId, consumer_id: ConsumerId| #[trigger]
        registry.subscribed(topic_id, consumer_id)
            ==> registry.listeners[topic_id][consumer_id].fits(topic_id)
}

impl EventSinkState {
    /// The state represents a registry, and a well-formed one, in which every filter can be asked
    /// about the events of its topic.
    pub closed spec fn wf(self) -> bool {
        distinct(self.listeners@) && self@.wf() && filters_fit(self@)
    }

    /// The channel of drop notices.
    pub closed spec fn drop_channel(self) -> DropChannel {
        self.drop_consumer_channel
    }

    /// In every state of a bus a topic is listed only while it has consumers, a consumer belongs
    /// to one topic, every id in use was handed out before, and every filter can be asked about
    /// the events of the topic that its consumer is subscribed to.
    pub proof fn law_wf(self)
        requires
            self.wf(),
        ensures
            self@.wf(),
            self@.next_id <= ConsumerId::MAX,
            filters_fit(self@),
    {
    }

    /// A bus without consumers.
    pub fn new() -> (state: Self)
        ensures
            state.wf(),
            state@ == Registry::<Listener>::empty(),
            notice_ends(state.drop_channel().0.sender(), state.drop_channel().1),
            state.drop_channel().0.uses() == Seq::<NoticeUse>::empty(),
    {
        let state = EventSinkState {
            listeners: Vec::new(),
            consumer_id_seed: 0,
            drop_consumer_channel: open_notices(),
        };
        assert(state@.listeners =~= Map::empty());
        state
    }

    /// Lends the receiving end of the channel of drop notices, for those who wait for one.
    pub fn drop_notices(&mut self) -> (receiver: &mut mpsc::UnboundedReceiver<Notice>)
        requires
            old(self).wf(),
        ensures
            *receiver == old(self).drop_channel().1,
            final(self).wf(),
            final(self)@ == old(self)@,
            final(self).drop_channel() == (old(self).drop_channel().0, *final(receiver)),
    {
        &mut self.drop_consumer_channel.1
    }

    /// The place of `topic_id` among the listed topics.
    fn find(&self, topic_id: TypeId) -> (found: Option<usize>)
        requires
            self.wf(),
        ensures
            match found {
                Some(index) => {
                    &&& index < self.listeners@.len()
                    &&& self.listeners@[index as int].topic_id == topic_id
                    &&& self@.listeners.contains_key(topic_id)
                    &&& self@.listeners[topic_id] == self.listeners@[index as int].listeners()
                },
                None => !self@.listeners.contains_key(topic_id),
            },
    {
        proof {
            lemma_by_topic(self.listeners@);
        }
        let mut index: usize = 0;
        while index < self.listeners.len()
            invariant
                index <= self.listeners@.len(),
                forall|i: int|
                    0 <= i < self.listeners@.len() ==> by_topic(self.listeners@).contains_key(
                        (#[trigger] self.listeners@[i]).topic_id,
                    ) && by_topic(self.listeners@)[self.listeners@[i].topic_id]
                        == self.listeners@[i].listeners(),
                forall|i: int|
                    0 <= i < index ==> (#[trigger] self.listeners@[i]).topic_id != topic_id,
            decreases self.listeners@.len() - index,
        {
            if self.listeners[index].topic_id == topic_id {
                return Some(index);
            }
            index = index + 1;
        }
        None
    }

    /// Remove a consumer from the bus. No more messages will be sent to the consumer, and the
    /// topic goes with its last consumer.
    pub fn remove_consumer(&mut self, topic_id: TypeId, consumer_id: ConsumerId)
        requires
            old(self).wf(),
        ensures
            final(self).wf(),
            final(self)@ == old(self)@.unsubscribe(topic_id, consumer_id),
            final(self).drop_channel() == old(self).drop_channel(),
    {
        let ghost before = self.listeners@;
        let ghost registry = self@;
        proof {
            registry.law_unsubscribe_keeps_wf(topic_id, consumer_id);
        }
        match self.find(topic_id) {
            Some(index) => {
                let _ = self.listeners[index].consumers.remove(&consumer_id);
                let ghost rest = self.listeners@;
                proof {
                    assert(rest[index as int].listeners() =~= before[index as int].listeners().remove(
                        consumer_id,
                    ));
                }
                if self.listeners[index].consumers.is_empty() {
                    let _ = self.listeners.remove(index);
                    proof {
                        assert(rest[index as int].listeners() =~= Map::empty());
                        lemma_by_topic_remove(before, index as int);
                        assert(self.listeners@ =~= before.remove(index as int));
                    }
                } else {
                    proof {
                        lemma_by_topic_update(before, index as int, rest[index as int]);
                        assert(rest =~= before.update(index as int, rest[index as int]));
                        assert(!rest[index as int].listeners().is_empty()) by {
                            let id = choose|id: ConsumerId|
                                rest[index as int].consumers@.contains_key(id);
                            assert(rest[index as int].listeners().contains_key(id));
                        }
                    }
                }
            },
            None => {
                proof {
                    self@.law_unsubscribe_unknown_is_a_no_op(topic_id, consumer_id);
                }
            },
        }
        assert(self@ == registry.unsubscribe(topic_id, consumer_id));
        assert forall|t: TypeId, c: ConsumerId| #[trigger]
            self@.subscribed(t, c) implies self@.listeners[t][c].fits(t) by {
            assert(registry.subscribed(t, c));
        }
    }
}

/// A map that has what is listed, and nothing else, is the listed topics by topic.
proof fn lemma_is_by_topic(
    topics: Seq<TopicListeners>,
    map: Map<TypeId, Map<ConsumerId, Listener>>,
)
    requires
        distinct(topics),
        forall|i: int|
            0 <= i < topics.len() ==> map.contains_key((#[trigger] topics[i]).topic_id)
                && map[topics[i].topic_id] == topics[i].listeners(),
        forall|topic_id: TypeId| #[trigger]
            map.contains_key(topic_id) ==> exists|index: int| place_of(topics, topic_id, index),
    ensures
        by_topic(topics) == map,
{
    lemma_by_topic(topics);
    assert(by_topic(topics).dom() =~= map.dom());
    assert forall|topic_id: TypeId| by_topic(topics).dom().contains(
        topic_id,
    ) implies #[trigger] by_topic(topics)[topic_id] == map[topic_id] by {
        let index = choose|index: int| place_of(topics, topic_id, index);
        assert(topics[index].topic_id == topic_id);
    }
    assert(by_topic(topics) =~= map);
}

/// Unlisting a topic takes it away and leaves the others as they were.
proof fn lemma_by_topic_remove(topics: Seq<TopicListeners>, index: int)
    requires
        distinct(topics),
        0 <= index < topics.len(),
    ensures
        distinct(topics.remove(index)),
        by_topic(topics.remove(index)) == by_topic(topics).remove(topics[index].topic_id),
{
    let after = topics.remove(index);
    let gone = topics[index].topic_id;
    let expected = by_topic(topics).remove(gone);
    lemma_by_topic(topics);
    assert forall|topic_id: TypeId| #[trigger] expected.contains_key(topic_id) implies exists|
        i: int,
    | place_of(after, topic_id, i) by {
        let i = choose|i: int| place_of(topics, topic_id, i);
        assert(i != index);
        let j = if i < index {
            i
        } else {
            i - 1
        };
        assert(place_of(after, topic_id, j));
    }
    lemma_is_by_topic(after, expected);
}

/// Changing the consumers of one listed topic changes that topic only.
proof fn lemma_by_topic_update(
    topics: Seq<TopicListeners>,
    index: int,
    topic: TopicListeners,
)
    requires
        distinct(topics),
        0 <= index < topics.len(),
        topic.topic_id == topics[index].topic_id,
    ensures
        distinct(topics.update(index, topic)),
        by_topic(topics.update(index, topic)) == by_topic(topics).insert(
            topic.topic_id,
            topic.listeners(),
        ),
{
    let after = topics.update(index, topic);
    let expected = by_topic(topics).insert(topic.topic_id, topic.listeners());
    lemma_by_topic(topics);
    assert forall|i: int, j: int| 0 <= i < j < after.len() implies (
    #[trigger] after[i]).topic_id != (#[trigger] after[j]).topic_id by {
        assert(topics[i].topic_id != topics[j].topic_id);
    }
    assert forall|i: int| 0 <= i < after.len() implies expected.contains_key(
        (#[trigger] after[i]).topic_id,
    ) && expected[after[i].topic_id] == after[i].listeners() by {
        assert(by_topic(topics).contains_key(topics[i].topic_id));
        if i != index {
            assert(topics[i].topic_id != topics[index].topic_id);
        }
    }
    assert forall|topic_id: TypeId| #[trigger] expected.contains_key(topic_id) implies exists|
        i: int,
    | place_of(after, topic_id, i) by {
        if topic_id == topic.topic_id {
            assert(place_of(after, topic_id, index));
        } else {
            let i = choose|i: int| place_of(topics, topic_id, i);
            assert(place_of(after, topic_id, i));
        }
    }
    lemma_is_by_topic(after, expected);
}

/// Listing a new topic adds it and leaves the others as they were.
proof fn lemma_by_topic_push(
    topics: Seq<TopicListeners>,
    topic: TopicListeners,
)
    requires
        distinct(topics),
        !by_topic(topics).contains_key(topic.topic_id),
    ensures
        distinct(topics.push(topic)),
        by_topic(topics.push(topic)) == by_topic(topics).insert(
            topic.topic_id,
            topic.listeners(),
        ),
{
    let after = topics.push(topic);
    let expected = by_topic(topics).insert(topic.topic_id, topic.listeners());
    lemma_by_topic(topics);
    assert forall|i: int, j: int| 0 <= i < j < after.len() implies (
    #[trigger] after[i]).topic_id != (#[trigger] after[j]).topic_id by {
        assert(after[i] == topics[i]);
        if j < topics.len() {
            assert(after[j] == topics[j]);
        }
    }
    assert forall|i: int| 0 <= i < after.len() implies expected.contains_key(
        (#[trigger] after[i]).topic_id,
    ) && expected[after[i].topic_id] == after[i].listeners() by {
        if i < topics.len() {
            assert(after[i] == topics[i]);
        }
    }
    assert forall|topic_id: TypeId| #[trigger] expected.contains_key(topic_id) implies exists|
        i: int,
    | place_of(after, topic_id, i) by {
        if topic_id == topic.topic_id {
            assert(place_of(after, topic_id, topics.len() as int));
        } else {
            let i = choose|i: int| place_of(topics, topic_id, i);
            assert(place_of(after, topic_id, i));
        }
    }
    lemma_is_by_topic(after, expected);
}

/// `registry`, after `event` was offered to the consumers of its topic as `report` tells, and
/// nothing else.
pub open spec fn having_published(
    registry: Registry<Listener>,
    event: Event,
    report: Seq<Delivery>,
) -> Registry<Listener> {
    let topic_id = event.topic_id();
    Registry {
        listeners: if registry.listeners.contains_key(topic_id) {
            registry.listeners.insert(
                topic_id,
                offered_to(registry.listeners[topic_id], event, report),
            )
        } else {
            registry.listeners
        },
        next_id: registry.next_id,
    }
}

/// `event` was offered, as `report` tells, to the consumers in `before` that hear its topic, to
/// each of them once, and to nobody else; `after` is what became of the consumers.
pub open spec fn published(
    before: Registry<Listener>,
    after: Registry<Listener>,
    event: Event,
    report: Seq<Delivery>,
) -> bool {
    &&& delivered(before.topic_listeners(event.topic_id()), event, report)
    &&& after == having_published(before, event, report)
}

/// Publishing subscribes nobody and unsubscribes nobody.
proof fn lemma_publishing_keeps_wf(
    registry: Registry<Listener>,
    event: Event,
    report: Seq<Delivery>,
)
    requires
        registry.wf(),
        filters_fit(registry),
    ensures
        having_published(registry, event, report).wf(),
        filters_fit(having_published(registry, event, report)),
{
    let after = having_published(registry, event, report);
    let topic_id = event.topic_id();
    if registry.listeners.contains_key(topic_id) {
        assert(after.listeners.dom() =~= registry.listeners.dom());
        assert(after.listeners[topic_id].dom() =~= registry.listeners[topic_id].dom());
        assert(!after.listeners[topic_id].is_empty());
    }
    assert forall|t: TypeId, c: ConsumerId| #[trigger]
        after.subscribed(t, c) implies registry.subscribed(t, c) && after.listeners[t][c].filter
        == registry.listeners[t][c].filter by {}
}

impl EventSinkState {
    /// The consumers of a topic that hear `topic`, or nothing where the topic has no consumer. The
    /// topic is the type of the value.
    pub fn get_topic_listeners(&self, topic: &AnyValue) -> (listed: Option<Vec<ConsumerId>>)
        requires
            self.wf(),
        ensures
            listed is Some <==> self@.listeners.contains_key(type_held(*topic)),
            listed matches Some(chosen) ==> selection(
                self@.listeners[type_held(*topic)],
                *topic,
                chosen@,
            ),
    {
        let topic_id = topic.type_id();
        let index = match self.find(topic_id) {
            Some(index) => index,
            None => {
                return None;
            },
        };
        let topic_listeners = &self.listeners[index];
        let ghost all = self@.listeners[topic_id];
        let ids = topic_listeners.consumer_ids();
        let mut chosen: Vec<ConsumerId> = Vec::new();
        proof {
            assert forall|id: ConsumerId| #[trigger] all.contains_key(id) implies all[id].fits(
                topic_id,
            ) by {
                assert(self@.subscribed(topic_id, id));
            }
            assert(forall|id: ConsumerId| #[trigger] ids@.contains(id) <==> all.contains_key(id));
        }
        let mut index: usize = 0;
        while index < ids.len()
            invariant
                topic_id == type_held(*topic),
                all == topic_listeners.listeners(),
                forall|id: ConsumerId| #[trigger] all.contains_key(id) ==> all[id].fits(topic_id),
                forall|id: ConsumerId| #[trigger] ids@.contains(id) <==> all.contains_key(id),
                ids@.no_duplicates(),
                index <= ids@.len(),
                chosen@.no_duplicates(),
                forall|i: int|
                    0 <= i < chosen@.len() ==> all.contains_key(#[trigger] chosen@[i])
                        && all[chosen@[i]].accepts(*topic) && ids@.take(index as int).contains(
                        chosen@[i],
                    ),
                forall|i: int|
                    0 <= i < index ==> all[#[trigger] ids@[i]].rejects(*topic) || chosen@.contains(
                        ids@[i],
                    ),
            decreases ids@.len() - index,
        {
            let id = ids[index];
            let ghost earlier = chosen@;
            let ghost before = ids@.take(index as int);
            let ghost seen = ids@.take(index as int + 1);
            proof {
                assert(ids@.contains(id));
                assert(seen[index as int] == id);
                assert forall|other: ConsumerId| before.contains(other) implies seen.contains(
                    other,
                ) by {
                    assert(seen[before.index_of(other)] == other);
                }
                assert(!before.contains(id));
            }
            if topic_listeners.consumers.get(&id).unwrap().hears(topic) {
                chosen.push(id);
                proof {
                    assert(chosen@[earlier.len() as int] == id);
                    assert forall|other: ConsumerId| earlier.contains(
                        other,
                    ) implies chosen@.contains(other) by {
                        assert(chosen@[earlier.index_of(other)] == other);
                    }
                }
            }
            index = index + 1;
        }
        proof {
            assert forall|id: ConsumerId| #[trigger] all.contains_key(id) && !chosen@.contains(
                id,
            ) implies all[id].rejects(*topic) by {
                assert(ids@.contains(id));
                assert(ids@[ids@.index_of(id)] == id);
            }
        }
        Some(chosen)
    }
}

/// `receiver` belongs to the consumer that `after` has and `before` has not: a new consumer of
/// `topic_id` that hears what `filter` accepts, through a channel of its own that buffers up to
/// `capacity` events and to which nothing was offered yet. The receiver can tell the bus that it is
/// gone, and has not done so; the bus made one sending end of its channel of drop notices for it.
pub open spec fn registered(
    capacity: usize,
    before: EventSinkState,
    after: EventSinkState,
    topic_id: TypeId,
    filter: OptionalBoxedFilter,
    receiver: ConsumerReceiver,
) -> bool {
    let added = after@.listeners[topic_id][receiver.consumer_id];
    let (ours, notices) = before.drop_channel();
    &&& receiver.consumer_id == before@.next_id
    &&& receiver.topic_id == topic_id
    &&& after@ == before@.subscribe(topic_id, added)
    &&& added.filter == filter
    &&& added.offers == Seq::<(Event, Outcome)>::empty()
    &&& receiver.receiver.takes() == Seq::<Result<Event, TryRecvError>>::empty()
    &&& channel_ends(capacity, added.channel, receiver.receiver.receiver())
    &&& receiver.drop_sender.sender() == ours.sender()
    &&& receiver.drop_sender.uses() == Seq::<NoticeUse>::empty()
    &&& after.drop_channel().0.sender() == ours.sender()
    &&& after.drop_channel().0.uses() == ours.uses().push(NoticeUse::Shared)
    &&& after.drop_channel().1 == notices
}

impl EventSinkState {
    /// Offers `event`, once, to each of the consumers of its topic that hear it, one after the other,
    /// up to the first whose receiver is gone, and reports what became of it at each of them. A
    /// filter is asked when its consumer's turn comes.
    pub fn publish(&mut self, event: &Event) -> (report: Vec<Delivery>)
        requires
            old(self).wf(),
        ensures
            final(self).wf(),
            published(old(self)@, final(self)@, *event, report@),
            final(self).drop_channel() == old(self).drop_channel(),
    {
        let ghost registry = self@;
        let ghost topics = self.listeners@;
        let ghost topic_id = event.topic_id();
        let ghost all = registry.topic_listeners(topic_id);
        let mut report: Vec<Delivery> = Vec::new();
        let at = match self.find(event.topic.type_id()) {
            Some(at) => at,
            None => {
                assert(offered_in_turn(all, *event, Seq::empty(), report@));
                return report;
            },
        };
        let ids = self.listeners[at].consumer_ids();
        proof {
            lemma_no_offers(all, *event);
            assert(topics.update(at as int, topics[at as int]) =~= topics);
            assert(ids@.take(0) =~= Seq::empty());
            assert forall|id: ConsumerId| #[trigger] all.contains_key(id) implies all[id].fits(
                topic_id,
            ) by {
                assert(registry.subscribed(topic_id, id));
            }
            assert(forall|id: ConsumerId| #[trigger] ids@.contains(id) <==> all.contains_key(id));
        }
        let mut index: usize = 0;
        let mut gone = false;
        while !gone && index < ids.len()
            invariant
                0 <= at < topics.len(),
                topic_id == event.topic_id(),
                topics[at as int].topic_id == topic_id,
                topics[at as int].listeners() == all,
                self.listeners@.len() == topics.len(),
                self.listeners@ == topics.update(at as int, self.listeners@[at as int]),
                self.listeners@[at as int].topic_id == topic_id,
                self.listeners@[at as int].listeners() == offered_to(all, *event, report@),
                self.consumer_id_seed == registry.next_id,
                self.drop_consumer_channel == old(self).drop_consumer_channel,
                forall|id: ConsumerId| #[trigger] all.contains_key(id) ==> all[id].fits(topic_id),
                forall|id: ConsumerId| #[trigger] ids@.contains(id) <==> all.contains_key(id),
                ids@.no_duplicates(),
                index <= ids@.len(),
                forall|i: int|
                    0 <= i < index && !mentions(report@, #[trigger] ids@[i])
                        ==> all[ids@[i]].rejects(event.topic),
                forall|i: int|
                    0 <= i < report@.len() ==> ids@.take(index as int).contains(
                        (#[trigger] report@[i]).consumer_id,
                    ) && all[report@[i].consumer_id].accepts(event.topic),
                forall|i: int, j: int|
                    0 <= i < j < report@.len() ==> (#[trigger] report@[i]).consumer_id != (
                    #[trigger] report@[j]).consumer_id,
                forall|i: int|
                    0 <= i < report@.len() - 1 ==> (#[trigger] report@[i]).outcome
                        != Outcome::Closed,
                gone == ends_gone(report@),
                gone ==> index > 0 && ids@[index - 1] == report@.last().consumer_id,
            decreases ids@.len() - index,
        {
            let consumer_id = ids[index];
            let ghost earlier = report@;
            let ghost before = ids@.take(index as int);
            let ghost asked = ids@.take(index as int + 1);
            proof {
                assert(ids@.contains(consumer_id));
                assert(all.contains_key(consumer_id));
                assert(!before.contains(consumer_id));
                assert(asked[index as int] == consumer_id);
                assert forall|other: ConsumerId| before.contains(other) implies asked.contains(
                    other,
                ) by {
                    assert(asked[before.index_of(other)] == other);
                }
                assert(!mentions(earlier, consumer_id));
            }
            match self.listeners[at].offer_if_heard(consumer_id, event) {
                Some(outcome) => {
                    let delivery = Delivery { consumer_id, outcome };
                    report.push(delivery);
                    proof {
                        lemma_one_more_offer(all, *event, earlier, delivery);
                        assert(report@[earlier.len() as int] == delivery);
                        assert forall|id: ConsumerId| mentions(earlier, id) implies mentions(
                            report@,
                            id,
                        ) by {
                            let i = choose|i: int|
                                0 <= i < earlier.len() && (#[trigger] earlier[i]).consumer_id
                                    == id;
                            assert(report@[i].consumer_id == id);
                        }
                    }
                    if let Outcome::Closed = outcome {
                        gone = true;
                    }
                },
                None => {},
            }
            assert(self.listeners@ =~= topics.update(at as int, self.listeners@[at as int]));
            index = index + 1;
        }
        proof {
            let asked = ids@.take(index as int);
            assert forall|i: int| 0 <= i < asked.len() implies all.contains_key(
                #[trigger] asked[i],
            ) by {
                assert(ids@.contains(ids@[i]));
            }
            assert forall|i: int|
                0 <= i < asked.len() && !mentions(report@, #[trigger] asked[i]) implies
                all[asked[i]].rejects(event.topic) by {
                assert(asked[i] == ids@[i]);
            }
            if !gone {
                assert(asked =~= ids@);
            }
            assert(offered_in_turn(all, *event, asked, report@));
            lemma_by_topic_update(topics, at as int, self.listeners@[at as int]);
            lemma_publishing_keeps_wf(registry, *event, report@);
            assert(self@ == having_published(registry, *event, report@));
        }
        report
    }

    /// Registers a new consumer of a topic, with a channel of its own.
    pub fn add_consumer(
        &mut self,
        capacity: usize,
        topic_id: TypeId,
        filter: OptionalBoxedFilter,
    ) -> (receiver: ConsumerReceiver)
        requires
            old(self).wf(),
            old(self)@.next_id < ConsumerId::MAX,
            0 < capacity <= usize::MAX / 8,
            filter.fits(topic_id),
        ensures
            final(self).wf(),
            registered(capacity, *old(self), *final(self), topic_id, filter, receiver),
    {
        let ghost before = self.listeners@;
        let ghost registry = self@;
        let consumer_id = self.consumer_id_seed;
        let (sender, receiver) = open_channel(capacity);
        let listener = EventSender::new(sender, filter);
        let ghost added = listener@;
        proof {
            registry.law_subscribe_keeps_wf(topic_id, added);
            registry.law_subscribe_adds_one(topic_id, added);
        }
        match self.find(topic_id) {
            Some(index) => {
                let _ = self.listeners[index].consumers.insert(consumer_id, listener);
                proof {
                    let after = self.listeners@;
                    lemma_by_topic_update(before, index as int, after[index as int]);
                    assert(after =~= before.update(index as int, after[index as int]));
                    assert(after[index as int].listeners() =~= before[index as int].listeners().insert(
                        consumer_id,
                        added,
                    ));
                }
            },
            None => {
                let mut consumers: HashMap<ConsumerId, EventSender> = HashMap::new();
                let _ = consumers.insert(consumer_id, listener);
                self.listeners.push(TopicListeners { topic_id, consumers });
                proof {
                    lemma_by_topic_push(before, self.listeners@.last());
                    assert(self.listeners@ =~= before.push(self.listeners@.last()));
                    assert(self.listeners@.last().listeners() =~= Map::empty().insert(
                        consumer_id,
                        added,
                    ));
                }
            },
        }
        self.consumer_id_seed = consumer_id + 1;
        proof {
            assert(self@ == registry.subscribe(topic_id, added));
            assert forall|t: TypeId, c: ConsumerId| #[trigger]
                self@.subscribed(t, c) implies self@.listeners[t][c].fits(t) by {
                if c != consumer_id {
                    assert(registry.subscribed(t, c));
                }
            }
        }
        let drop_sender = self.drop_consumer_channel.0.share();
        ConsumerReceiver { receiver, consumer_id, drop_sender, topic_id }
    }

    /// The statistics of the bus.
    pub fn stats(&self) -> (stats: EventBusStats)
        requires
            self.wf(),
        ensures
            stats.n_topics == self@.n_topics(),
    {
        proof {
            lemma_topic_count(self.listeners@);
        }
        EventBusStats { n_topics: self.listeners.len() }
    }
}

/// What the bus did with a message.
#[derive(Debug)]
pub enum Handled {
    /// Offered an event to the consumers that hear it, with these outcomes.
    Published(Vec<Delivery>),
    /// Registered a consumer and answered with its receiver.
    Subscribed(ConsumerId),
    /// Registered a consumer that did not wait for the answer. This is its receiver, which tells the
    /// bus that the consumer is gone when it is dropped.
    SubscriberGone(ConsumerReceiver),
    /// Answered with the statistics.
    StatsSent,
    /// Had statistics for somebody who did not wait for the answer.
    StatsRefused(EventBusStats),
}

impl Handled {
    /// Somebody was gone whom the bus counted on: a consumer that had an event coming, or whoever
    /// asked for statistics. A bus does not outlive that.
    pub open spec fn fatal(self) -> bool {
        match self {
            Handled::Published(report) => exists|i: int|
                0 <= i < report@.len() && (#[trigger] report@[i]).outcome == Outcome::Closed,
            Handled::StatsRefused(_) => true,
            _ => false,
        }
    }

    /// Whether somebody was gone whom the bus counted on.
    pub fn is_fatal(&self) -> (fatal: bool)
        ensures
            fatal == self.fatal(),
    {
        match self {
            Handled::Published(report) => {
                let mut index: usize = 0;
                while index < report.len()
                    invariant
                        *self == Handled::Published(*report),
                        index <= report@.len(),
                        forall|i: int|
                            0 <= i < index ==> (#[trigger] report@[i]).outcome != Outcome::Closed,
                    decreases report@.len() - index,
                {
                    if report[index].outcome == Outcome::Closed {
                        return true;
                    }
                    index = index + 1;
                }
                false
            },
            Handled::StatsRefused(_) => true,
            _ => false,
        }
    }

    /// What the bus did for a subscriber: `result` is how the answer with the receiver of the new
    /// consumer ended.
    pub fn subscription(consumer_id: ConsumerId, result: Result<(), ConsumerReceiver>) -> (handled:
        Self)
        ensures
            handled == match result {
                Ok(()) => Handled::Subscribed(consumer_id),
                Err(refused) => Handled::SubscriberGone(refused),
            },
    {
        match result {
            Ok(()) => Handled::Subscribed(consumer_id),
            Err(refused) => Handled::SubscriberGone(refused),
        }
    }

    /// What the bus did for somebody who asked for statistics: `result` is how the answer ended.
    pub fn statistics(result: Result<(), EventBusStats>) -> (handled: Self)
        ensures
            handled == match result {
                Ok(()) => Handled::StatsSent,
                Err(refused) => Handled::StatsRefused(refused),
            },
    {
        match result {
            Ok(()) => Handled::StatsSent,
            Err(refused) => Handled::StatsRefused(refused),
        }
    }
}

/// An EventBus Actor.
///
/// The EventBus is a pub/sub system where actors can subscribe to a topic and receive messages
/// sent to that topic. A topic can have multiple consumers and multiple producers.
pub struct EventBus {
    channel_capacity: usize,
}

/// What can wake up a bus.
pub enum Signal {
    /// What wakes up every actor.
    Actor(ActorSignal<EventMessage>),
    /// A consumer was dropped.
    ConsumerDropped { topic_id: TypeId, consumer_id: ConsumerId },
}

/// What a bus did when it woke up.
#[derive(Debug)]
pub enum Step {
    /// Handled a message.
    Handled(Handled),
    /// Removed a consumer.
    Removed(ConsumerId),
    /// Nothing more: the bus stops.
    Stop,
}

impl EventBus {
    /// The most events that a consumer's channel buffers.
    pub closed spec fn capacity(self) -> usize {
        self.channel_capacity
    }

    /// The bus can do with `message` what it asks for: there is a channel and an id left for a new
    /// consumer, and its filter is one for its topic.
    pub open spec fn handleable(self, message: EventMessage, state: EventSinkState) -> bool {
        match message {
            EventMessage::Subscribe { topic_id, filter, .. } => {
                &&& 0 < self.capacity() <= usize::MAX / 8
                &&& state@.next_id < ConsumerId::MAX
                &&& filter.fits(topic_id)
            },
            _ => true,
        }
    }

    /// `handled` and the change from `before` to `after` are what the bus does with `message`.
    pub open spec fn handles(
        self,
        message: EventMessage,
        before: EventSinkState,
        after: EventSinkState,
        handled: Handled,
    ) -> bool {
        match message {
            EventMessage::Event(event) => {
                &&& handled matches Handled::Published(report)
                &&& published(before@, after@, event, report@)
                &&& after.drop_channel() == before.drop_channel()
            },
            EventMessage::Subscribe { topic_id, sender, filter } => exists|
                receiver: ConsumerReceiver,
                result: Result<(), ConsumerReceiver>,
            | #[trigger]
                replied(sender, receiver, result) && registered(
                    self.capacity(),
                    before,
                    after,
                    topic_id,
                    filter,
                    receiver,
                ) && (result matches Err(refused) ==> refused == receiver)
                    && handled == match result {
                    Ok(()) => Handled::Subscribed(receiver.consumer_id),
                    Err(refused) => Handled::SubscriberGone(refused),
                },
            EventMessage::Stats(sender) => exists|
                stats: EventBusStats,
                result: Result<(), EventBusStats>,
            | #[trigger]
                replied(sender, stats, result) && after == before && stats.n_topics
                    == before@.n_topics() && (result matches Err(refused) ==> refused == stats)
                    && handled == match result {
                    Ok(()) => Handled::StatsSent,
                    Err(refused) => Handled::StatsRefused(refused),
                },
        }
    }

    /// `step` and the change from `before` to `after` are what the bus does on `signal`.
    pub open spec fn steps(
        self,
        signal: Signal,
        before: EventSinkState,
        after: EventSinkState,
        step: Step,
    ) -> bool {
        match signal {
            Signal::Actor(ActorSignal::Message(Some(message))) => step matches Step::Handled(
                handled,
            ) && self.handles(message, before, after, handled),
            Signal::Actor(ActorSignal::Message(None)) => step is Stop && after == before,
            Signal::Actor(ActorSignal::Cancelled) => step is Stop && after == before,
            Signal::ConsumerDropped { topic_id, consumer_id } => {
                &&& step == Step::Removed(consumer_id)
                &&& after@ == before@.unsubscribe(topic_id, consumer_id)
                &&& after.drop_channel() == before.drop_channel()
            },
        }
    }

    /// A bus whose consumers' channels buffer up to `channel_capacity` events.
    pub fn new(channel_capacity: usize) -> (bus: Self)
        ensures
            bus.capacity() == channel_capacity,
    {
        EventBus { channel_capacity }
    }

    /// Whether the bus can do with `message` what it asks for.
    pub fn can_handle(&self, message: &EventMessage, state: &EventSinkState) -> (possible: bool)
        ensures
            possible == self.handleable(*message, *state),
    {
        match message {
            EventMessage::Subscribe { topic_id, filter, .. } => 0 < self.channel_capacity
                && self.channel_capacity <= usize::MAX / 8 && state.consumer_id_seed
                < ConsumerId::MAX && filter.suits(*topic_id),
            _ => true,
        }
    }

    /// Handle a message sent to the bus.
    pub fn handle(&self, message: EventMessage, state: &mut EventSinkState) -> (handled: Handled)
        requires
            old(state).wf(),
            self.handleable(message, *old(state)),
        ensures
            final(state).wf(),
            self.handles(message, *old(state), *final(state), handled),
    {
        match message {
            EventMessage::Event(event) => Handled::Published(state.publish(&event)),
            EventMessage::Subscribe { topic_id, sender, filter } => {
                let receiver = state.add_consumer(self.channel_capacity, topic_id, filter);
                let consumer_id = receiver.consumer_id;
                let ghost answer = receiver;
                let result = sender.send(receiver);
                assert(replied(sender, answer, result));
                Handled::subscription(consumer_id, result)
            },
            EventMessage::Stats(sender) => {
                let stats = state.stats();
                let ghost answer = stats;
                let result = sender.send(stats);
                assert(replied(sender, answer, result));
                Handled::statistics(result)
            },
        }
    }

    /// One turn of the bus's event loop: handle a message, remove a consumer that was dropped, or
    /// stop.
    pub fn step(&self, signal: Signal, state: &mut EventSinkState) -> (step: Step)
        requires
            old(state).wf(),
            signal matches Signal::Actor(ActorSignal::Message(Some(message))) ==> self.handleable(
                message,
                *old(state),
            ),
        ensures
            final(state).wf(),
            self.steps(signal, *old(state), *final(state), step),
    {
        match signal {
            Signal::Actor(signal) => match next_turn(signal) {
                Turn::Handle(message) => Step::Handled(self.handle(message, state)),
                Turn::Stop => Step::Stop,
            },
            Signal::ConsumerDropped { topic_id, consumer_id } => {
                state.remove_consumer(topic_id, consumer_id);
                Step::Removed(consumer_id)
            },
        }
    }
}

} // verus!
