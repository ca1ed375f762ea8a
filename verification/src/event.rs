//! Topics, events, and the listeners that events are offered to.

use std::any::TypeId;
use tokio::sync::{mpsc, oneshot};
use vstd::prelude::*;

use crate::any_value::{holds, type_held, AnyValue};
use crate::channel::{Outbox, Outcome};
use crate::consumer::ConsumerReceiver;
use crate::filter::OptionalBoxedFilter;
use crate::outside::type_id_of;
use crate::registry::ConsumerId;

verus! {

/// A [Topic] is a type which defines a topic that producers can send messages to and consumers
/// can receive messages from.
pub trait Topic: 'static + Send + Sync {
    /// The type of message that can be sent and received for the topic.
    type MessageType: Send + Sync;
}

/// A message on its way to the consumers of a topic.
#[derive(Debug)]
pub struct Event {
    /// The message.
    pub payload: AnyValue,
    /// The topic: its type is the topic, its fields tell the subtopics apart.
    pub topic: AnyValue,
}

impl Event {
    /// The topic that the event belongs to.
    pub open spec fn topic_id(self) -> TypeId {
        type_held(self.topic)
    }

    /// The event brings `message` to the subtopic `topic` of the topic `T`.
    pub open spec fn brings<T: Topic>(self, topic: T, message: T::MessageType) -> bool {
        &&& self.topic_id() == type_id_of::<T>()
        &&& holds(self.topic, topic)
        &&& type_held(self.payload) == type_id_of::<T::MessageType>()
        &&& holds(self.payload, message)
    }
}

impl Clone for Event {
    /// The same event: topic and message are shared.
    fn clone(&self) -> (same: Self)
        ensures
            same == *self,
    {
        Event { payload: self.payload.clone(), topic: self.topic.clone() }
    }
}

/// What can be sent to a bus.
pub enum EventMessage {
    /// Offer an event to the consumers of its topic.
    Event(Event),
    /// Register a consumer of a topic, which hears what `filter` accepts, and answer with the
    /// receiving end of its channel.
    Subscribe {
        topic_id: TypeId,
        sender: oneshot::Sender<ConsumerReceiver>,
        filter: OptionalBoxedFilter,
    },
    /// Answer with the statistics of the bus.
    Stats(oneshot::Sender<EventBusStats>),
}

impl EventMessage {
    /// The name that the message goes by in logs.
    pub fn name(&self) -> (name: &'static str)
        ensures
            name@ == match *self {
                EventMessage::Event(_) => "Event"@,
                EventMessage::Subscribe { .. } => "Subscribe"@,
                EventMessage::Stats(_) => "Request stats"@,
            },
    {
        match self {
            EventMessage::Event(_) => "Event",
            EventMessage::Subscribe { .. } => "Subscribe",
            EventMessage::Stats(_) => "Request stats",
        }
    }
}

/// Statistics of a bus.
#[derive(Debug)]
pub struct EventBusStats {
    /// Number of registered topics. Decrements when all listeners for a topic are dropped.
    pub n_topics: usize,
}

/// The bus's end of a consumer's channel, with the filter that decides what goes into it.
pub struct EventSender {
    /// Sends into the consumer's channel.
    pub sender: Outbox<Event>,
    /// Decides by the topic whether the consumer hears an event; without one it hears all.
    pub filter: OptionalBoxedFilter,
}

/// What a bus knows of a consumer, and what it did for it.
#[verifier::ext_equal]
pub struct Listener {
    /// The consumer's channel.
    pub channel: mpsc::Sender<Event>,
    /// Decides by the topic whether the consumer hears an event; without one it hears all.
    pub filter: OptionalBoxedFilter,
    /// The events that were offered to the channel, the first one first, and how each offer ended.
    pub offers: Seq<(Event, Outcome)>,
}

impl Listener {
    /// The filter is one for the topic `topic_id`.
    pub open spec fn fits(self, topic_id: TypeId) -> bool {
        self.filter.fits(topic_id)
    }

    /// The consumer may hear an event of `topic`.
    pub open spec fn accepts(self, topic: AnyValue) -> bool {
        self.filter.may_answer(topic, true)
    }

    /// The filter may keep an event of `topic` from the consumer.
    pub open spec fn rejects(self, topic: AnyValue) -> bool {
        self.filter.may_answer(topic, false)
    }

    /// The filter has one answer to `topic`, the same whenever it is asked.
    pub open spec fn decided(self, topic: AnyValue) -> bool {
        !(self.accepts(topic) && self.rejects(topic))
    }

    /// The listener after more events were offered to its channel.
    pub open spec fn having_offered(self, offers: Seq<(Event, Outcome)>) -> Self {
        Listener { channel: self.channel, filter: self.filter, offers: self.offers + offers }
    }
}

impl View for EventSender {
    type V = Listener;

    open spec fn view(&self) -> Listener {
        Listener {
            channel: self.sender.sender(),
            filter: self.filter,
            offers: self.sender.offers(),
        }
    }
}

impl EventSender {
    /// Pairs the sending end of a channel with a filter.
    pub fn new(sender: Outbox<Event>, filter: OptionalBoxedFilter) -> (event_sender: Self)
        ensures
            event_sender.sender == sender,
            event_sender.filter == filter,
    {
        EventSender { sender, filter }
    }

    /// Asks the filter whether the consumer hears an event of `topic`.
    pub fn hears(&self, topic: &AnyValue) -> (heard: bool)
        requires
            self@.fits(type_held(*topic)),
        ensures
            if heard {
                self@.accepts(*topic)
            } else {
                self@.rejects(*topic)
            },
    {
        self.filter.hears(topic)
    }

    /// Offers `event` to the consumer's channel, once. A consumer that does not keep up misses the
    /// event: where the channel is full, the event is dropped.
    pub fn offer(&mut self, event: Event) -> (ended: Outcome)
        ensures
            final(self)@ == old(self)@.having_offered(seq![(event, ended)]),
    {
        let ended = self.sender.offer(event);
        assert(self@.offers =~= old(self)@.offers + seq![(event, ended)]);
        ended
    }

    /// Asks the filter about the topic of `event`, and offers the event to the consumer's channel,
    /// once, if the consumer hears it.
    pub fn offer_if_heard(&mut self, event: &Event) -> (ended: Option<Outcome>)
        requires
            old(self)@.fits(event.topic_id()),
        ensures
            match ended {
                Some(ended) => {
                    &&& old(self)@.accepts(event.topic)
                    &&& final(self)@ == old(self)@.having_offered(seq![(*event, ended)])
                },
                None => old(self)@.rejects(event.topic) && final(self)@ == old(self)@,
            },
    {
        if self.hears(&event.topic) {
            Some(self.offer(event.clone()))
        } else {
            None
        }
    }
}

/// What became of an event at one consumer.
#[derive(Debug, Clone, Copy, PartialEq, Eq, Structural)]
pub struct Delivery {
    /// The consumer.
    pub consumer_id: ConsumerId,
    /// How the offer ended.
    pub outcome: Outcome,
}

/// `chosen` lists, each once, the consumers among `listeners` whose filter let `topic` through.
pub open spec fn selection(
    listeners: Map<ConsumerId, Listener>,
    topic: AnyValue,
    chosen: Seq<ConsumerId>,
) -> bool {
    &&& chosen.no_duplicates()
    &&& forall|i: int|
        0 <= i < chosen.len() ==> #[trigger] listeners.contains_key(chosen[i])
            && listeners[chosen[i]].accepts(topic)
    &&& forall|id: ConsumerId| #[trigger]
        listeners.contains_key(id) && !chosen.contains(id) ==> listeners[id].rejects(topic)
}

/// `consumer_id` has an entry in `report`.
pub open spec fn mentions(report: Seq<Delivery>, consumer_id: ConsumerId) -> bool {
    exists|i: int| 0 <= i < report.len() && (#[trigger] report[i]).consumer_id == consumer_id
}

/// The last consumer in `report` turned out to be gone.
pub open spec fn ends_gone(report: Seq<Delivery>) -> bool {
    report.len() > 0 && report.last().outcome == Outcome::Closed
}

/// The consumers in `asked`, each of them once, were asked about `event` in turn: it was offered to
/// those whose filter accepts its topic before the next one was asked, as `report` tells. The
/// first one that turned out to be gone ended it; otherwise all of `listeners` were asked.
pub open spec fn offered_in_turn(
    listeners: Map<ConsumerId, Listener>,
    event: Event,
    asked: Seq<ConsumerId>,
    report: Seq<Delivery>,
) -> bool {
    &&& asked.no_duplicates()
    &&& forall|i: int| 0 <= i < asked.len() ==> listeners.contains_key(#[trigger] asked[i])
    &&& forall|i: int|
        0 <= i < asked.len() && !mentions(report, #[trigger] asked[i])
            ==> listeners[asked[i]].rejects(event.topic)
    &&& forall|i: int|
        0 <= i < report.len() ==> asked.contains((#[trigger] report[i]).consumer_id)
            && listeners[report[i].consumer_id].accepts(event.topic)
    &&& forall|i: int, j: int|
        0 <= i < j < report.len() ==> (#[trigger] report[i]).consumer_id != (
        #[trigger] report[j]).consumer_id
    &&& forall|i: int|
        0 <= i < report.len() - 1 ==> (#[trigger] report[i]).outcome != Outcome::Closed
    &&& if ends_gone(report) {
        asked.len() > 0 && asked.last() == report.last().consumer_id
    } else {
        forall|id: ConsumerId| #[trigger] listeners.contains_key(id) ==> asked.contains(id)
    }
}

/// What `report` tells of the offers of `event` to the consumer `consumer_id`.
pub open spec fn offers_in(event: Event, report: Seq<Delivery>, consumer_id: ConsumerId) -> Seq<
    (Event, Outcome),
>
    decreases report.len(),
{
    if report.len() == 0 {
        Seq::empty()
    } else {
        let earlier = offers_in(event, report.drop_last(), consumer_id);
        if report.last().consumer_id == consumer_id {
            earlier.push((event, report.last().outcome))
        } else {
            earlier
        }
    }
}

/// `listeners`, after `event` was offered to them as `report` tells, and nothing else.
pub open spec fn offered_to(
    listeners: Map<ConsumerId, Listener>,
    event: Event,
    report: Seq<Delivery>,
) -> Map<ConsumerId, Listener> {
    Map::new(
        |id: ConsumerId| listeners.contains_key(id),
        |id: ConsumerId| listeners[id].having_offered(offers_in(event, report, id)),
    )
}

/// `event` was offered to the consumers among `listeners` that hear its topic, as `report` tells.
pub open spec fn delivered(
    listeners: Map<ConsumerId, Listener>,
    event: Event,
    report: Seq<Delivery>,
) -> bool {
    exists|asked: Seq<ConsumerId>| offered_in_turn(listeners, event, asked, report)
}

/// One more entry in the report is one more offer to one consumer.
pub(crate) proof fn lemma_one_more_offer(
    listeners: Map<ConsumerId, Listener>,
    event: Event,
    report: Seq<Delivery>,
    delivery: Delivery,
)
    requires
        listeners.contains_key(delivery.consumer_id),
    ensures
        ({
            let before = offered_to(listeners, event, report);
            offered_to(listeners, event, report.push(delivery)) == before.insert(
                delivery.consumer_id,
                before[delivery.consumer_id].having_offered(seq![(event, delivery.outcome)]),
            )
        }),
{
    let before = offered_to(listeners, event, report);
    let after = offered_to(listeners, event, report.push(delivery));
    assert(report.push(delivery).drop_last() =~= report);
    assert forall|id: ConsumerId| listeners.contains_key(id) implies #[trigger] after[id]
        == before.insert(
        delivery.consumer_id,
        before[delivery.consumer_id].having_offered(seq![(event, delivery.outcome)]),
    )[id] by {
        let offers = offers_in(event, report, id);
        if id == delivery.consumer_id {
            assert(listeners[id].offers + offers.push((event, delivery.outcome))
                =~= listeners[id].offers + offers + seq![(event, delivery.outcome)]);
        }
    }
    assert(after =~= before.insert(
        delivery.consumer_id,
        before[delivery.consumer_id].having_offered(seq![(event, delivery.outcome)]),
    ));
}

/// An empty report changes nothing.
pub(crate) proof fn lemma_no_offers(listeners: Map<ConsumerId, Listener>, event: Event)
    ensures
        offered_to(listeners, event, Seq::empty()) == listeners,
{
    let after = offered_to(listeners, event, Seq::empty());
    assert forall|id: ConsumerId| listeners.contains_key(id) implies #[trigger] after[id]
        == listeners[id] by {
        assert(listeners[id].offers + Seq::<(Event, Outcome)>::empty() =~= listeners[id].offers);
    }
    assert(after =~= listeners);
}

} // verus!
