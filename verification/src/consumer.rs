//! The consumer's side of a subscription.

use std::any::TypeId;
use std::marker::PhantomData;
use tokio::sync::mpsc::error::TryRecvError;
use vstd::prelude::*;

use crate::any_value::{reveals, type_held, AnyValue};
use crate::channel::Inbox;
use crate::event::{Event, Topic};
use crate::notices::{Notice, NoticeSender, NoticeUse};
use crate::outside::type_id_of;
use crate::registry::ConsumerId;

verus! {

/// The receiving end of a consumer's channel. When it is dropped, it tells the bus that the consumer
/// is gone, so that the bus can remove it from its listeners.
#[derive(Debug)]
pub struct ConsumerReceiver {
    /// Reads the consumer's channel.
    pub receiver: Inbox<Event>,
    /// The consumer.
    pub consumer_id: ConsumerId,
    /// Tells the bus that the consumer is gone.
    pub drop_sender: NoticeSender,
    /// The topic that the consumer is subscribed to.
    pub topic_id: TypeId,
}

impl ConsumerReceiver {
    /// The notice that the consumer is gone.
    pub open spec fn notice(self) -> Notice {
        (self.topic_id, self.consumer_id)
    }

    /// `told` is this receiver, after it told the bus, once more than before, that the consumer is
    /// gone, and nothing else.
    pub open spec fn told_once(self, told: Self) -> bool {
        &&& told.receiver == self.receiver
        &&& told.consumer_id == self.consumer_id
        &&& told.topic_id == self.topic_id
        &&& told.drop_sender.sender() == self.drop_sender.sender()
        &&& told.drop_sender.uses() == self.drop_sender.uses().push(NoticeUse::Sent(self.notice()))
    }
}

impl Drop for ConsumerReceiver {
    /// Tells the bus, once, that the consumer is gone. Where the bus is gone before, nothing is left
    /// to do.
    fn drop(&mut self)
        ensures
            old(self).told_once(*final(self)),
        opens_invariants none
        no_unwind
    {
        self.drop_sender.notify((self.topic_id, self.consumer_id));
    }
}

/// A message received from the topic `T`.
#[derive(Debug)]
pub struct RecoveredEvent<T: Topic> {
    /// Carries the message.
    pub payload: AnyValue,
    /// The topic.
    pub phantom: PhantomData<T>,
}

impl<T: Topic> Clone for RecoveredEvent<T> {
    /// The same message, shared.
    fn clone(&self) -> (same: Self)
        ensures
            same.payload == self.payload,
    {
        RecoveredEvent { payload: self.payload.clone(), phantom: PhantomData }
    }
}

impl<T: Topic> RecoveredEvent<T> {
    /// The event carries a message of the topic's type, and this is it.
    pub open spec fn reads(self, message: T::MessageType) -> bool {
        &&& type_held(self.payload) == type_id_of::<T::MessageType>()
        &&& reveals(self.payload, message)
    }

    /// Takes the message out of an event of the topic.
    pub fn new(event: Event) -> (recovered: Self)
        ensures
            recovered.payload == event.payload,
    {
        RecoveredEvent { payload: event.payload, phantom: PhantomData }
    }

    /// The message, if the event carries one of the topic's type.
    pub fn message(&self) -> (message: Option<&T::MessageType>)
        ensures
            message is Some <==> type_held(self.payload) == type_id_of::<T::MessageType>(),
            message matches Some(message) ==> self.reads(*message),
    {
        self.payload.downcast_ref::<T::MessageType>()
    }

    /// The message of an event that carries one of the topic's type, as every event that a
    /// producer of the topic made does.
    pub fn as_ref(&self) -> (message: &T::MessageType)
        requires
            type_held(self.payload) == type_id_of::<T::MessageType>(),
        ensures
            self.reads(*message),
    {
        self.payload.downcast_ref::<T::MessageType>().unwrap()
    }
}

/// A Consumer for a topic.
pub struct Consumer<T: Topic> {
    /// The consumer's end of its subscription.
    pub receiver: ConsumerReceiver,
    /// The topic.
    pub phantom: PhantomData<T>,
}

/// What a consumer gets for what its channel gave.
pub open spec fn recovered_from<T: Topic>(
    result: Result<Event, TryRecvError>,
    recovered: Result<RecoveredEvent<T>, TryRecvError>,
) -> bool {
    match result {
        Ok(event) => recovered matches Ok(message) && message.payload == event.payload,
        Err(error) => recovered == Err::<RecoveredEvent<T>, TryRecvError>(error),
    }
}

impl<T: Topic> Consumer<T> {
    /// The consumer of the subscription that `receiver` belongs to.
    pub fn new(receiver: ConsumerReceiver) -> (consumer: Self)
        ensures
            consumer.receiver == receiver,
    {
        Consumer { receiver, phantom: PhantomData }
    }

    /// Turns what the channel gave into what the consumer gets.
    pub fn recover(result: Result<Event, TryRecvError>) -> (recovered: Result<
        RecoveredEvent<T>,
        TryRecvError,
    >)
        ensures
            recovered_from(result, recovered),
    {
        match result {
            Ok(event) => Ok(RecoveredEvent::new(event)),
            Err(error) => Err(error),
        }
    }

    /// Receive a message from the topic, if one is there. One event is taken from the channel, or
    /// none, and what comes out is what the channel gave.
    pub fn try_recv(&mut self) -> (recovered: Result<RecoveredEvent<T>, TryRecvError>)
        ensures
            final(self).receiver.consumer_id == old(self).receiver.consumer_id,
            final(self).receiver.topic_id == old(self).receiver.topic_id,
            final(self).receiver.drop_sender == old(self).receiver.drop_sender,
            final(self).receiver.receiver.receiver() == old(self).receiver.receiver.receiver(),
            ({
                let takes = final(self).receiver.receiver.takes();
                &&& takes == old(self).receiver.receiver.takes().push(takes.last())
                &&& recovered_from(takes.last(), recovered)
            }),
    {
        let result = self.receiver.receiver.try_take();
        Self::recover(result)
    }
}

} // verus!
