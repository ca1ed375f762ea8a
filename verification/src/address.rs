//! The handles through which users reach a bus.

use std::sync::Arc;
use tokio::sync::oneshot;
use vstd::prelude::*;

use crate::actor::Addr;
use crate::any_value::AnyValue;
use crate::consumer::ConsumerReceiver;
use crate::event::{Event, EventBusStats, EventMessage, Topic};
use crate::filter::{Filter, OptionalBoxedFilter};
use crate::outside::{reply_ends, share_arc, type_id, type_id_of};

verus! {

/// An EventBusAddr is a handle to an EventBus.
/// Use to create producers and consumers for topics.
pub struct EventBusAddr(pub Addr<EventMessage>);

/// A Producer for a topic.
pub struct Producer<T: Topic> {
    /// The bus.
    pub addr: Addr<EventMessage>,
    /// The topic, whose fields say which subtopic the messages go to.
    pub topic: Arc<T>,
}

/// A message to a bus that asks for an answer, and the place where the answer will arrive.
#[verifier::reject_recursive_types(A)]
pub struct Request<A> {
    /// What to send to the bus.
    pub message: EventMessage,
    /// Where the answer arrives.
    pub answer: oneshot::Receiver<A>,
}

impl Request<ConsumerReceiver> {
    /// The request asks the bus to register a consumer of the topic `T` that hears the subtopics
    /// that `rule` accepts.
    pub open spec fn subscribes<T: Topic, G: Fn(&T) -> bool>(self, rule: G) -> bool {
        &&& self.message matches EventMessage::Subscribe { topic_id, sender, filter }
        &&& topic_id == type_id_of::<T>()
        &&& filter.asks::<T, G>(rule)
        &&& reply_ends(sender, self.answer)
    }
}

/// The handle to the bus at an address.
impl From<Addr<EventMessage>> for EventBusAddr {
    fn from(addr: Addr<EventMessage>) -> (bus: Self) {
        EventBusAddr(addr)
    }
}

impl vstd::std_specs::convert::FromSpecImpl<Addr<EventMessage>> for EventBusAddr {
    open spec fn obeys_from_spec() -> bool {
        true
    }

    open spec fn from_spec(addr: Addr<EventMessage>) -> Self {
        EventBusAddr(addr)
    }
}

impl EventBusAddr {
    /// The request for a new consumer of a topic, which hears all of it.
    pub fn consumer<T: Topic>(&self) -> (request: Request<ConsumerReceiver>)
        ensures
            request.subscribes::<T, _>(Filter::none::<T>),
    {
        self.consumer_with_filter::<T, _>(Filter::none::<T>)
    }

    /// The request for a new consumer of a topic, which hears the subtopics that the filter
    /// accepts.
    pub fn consumer_with_filter<T: Topic, F>(&self, f: F) -> (request: Request<ConsumerReceiver>)
        where F: Fn(&T) -> bool + Send + Sync + 'static
        requires
            forall|topic: &T| #[trigger] call_requires(f, (topic,)),
        ensures
            request.subscribes::<T, F>(f),
    {
        let (sender, answer) = oneshot::channel();
        let topic_id = type_id::<T>();
        let filter = OptionalBoxedFilter::new::<T, F>(f);
        Request { message: EventMessage::Subscribe { topic_id, sender, filter }, answer }
    }

    /// Create a new producer for a topic.
    pub fn producer<T: Topic>(&self, topic: T) -> (producer: Producer<T>)
        ensures
            producer.addr == self.0,
            *producer.topic == topic,
    {
        Producer { addr: self.0.clone(), topic: Arc::new(topic) }
    }

    /// The request for the statistics of the bus.
    pub fn stats(&self) -> (request: Request<EventBusStats>)
        ensures
            request.message matches EventMessage::Stats(sender) && reply_ends(
                sender,
                request.answer,
            ),
    {
        let (sender, answer) = oneshot::channel();
        Request { message: EventMessage::Stats(sender), answer }
    }
}

impl<T: Topic> Producer<T> {
    /// What to send to the bus so that `message` goes to the topic.
    pub fn send(&self, message: T::MessageType) -> (sent: EventMessage)
        ensures
            sent matches EventMessage::Event(event) && event.brings::<T>(*self.topic, message),
    {
        let topic = AnyValue::new(share_arc(&self.topic));
        EventMessage::Event(Event { payload: AnyValue::new(Arc::new(message)), topic })
    }
}

} // verus!
