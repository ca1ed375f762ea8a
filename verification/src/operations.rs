//! What every operation is for: laws on what a call takes and gives, in terms of who is listed, what
//! is in the logs, and what the users' own rules answer.

use std::any::TypeId;
use tokio::sync::mpsc::error::{SendError, TryRecvError, TrySendError};
use tokio::sync::{mpsc, oneshot};
use tokio::task::JoinHandle;
use tokio_util::sync::CancellationToken;
use vstd::prelude::*;

use crate::actor::{
    next_turn, ActorHandle, ActorSignal, Addr, AddrError, Mailbox, Turn, MAILBOX_CAPACITY,
};
use crate::address::{EventBusAddr, Producer, Request};
use crate::any_value::{holds, reveals, type_held, AnyValue};
use crate::channel::{open_channel, outcome, Inbox, Outbox, Outcome};
use crate::consumer::{Consumer, ConsumerReceiver, RecoveredEvent};
use crate::event::{
    mentions, offered_in_turn, Delivery, Event, EventBusStats, EventMessage, EventSender, Listener,
    Topic,
};
use crate::event_bus::{
    published, registered, EventBus, EventSinkState, Handled, Signal, Step,
};
use crate::filter::{Filter, OptionalBoxedFilter};
use crate::laws::{
    decided_on, events_of, law_consumer_hears_from_now_on, law_one_offer_each,
    law_only_listeners_are_offered, law_run_keeps_consumers, law_run_keeps_gone_consumers_out,
    meant_for, nobody_gone_in, runs,
};
use crate::notices::{open_notices, DropChannel, Notice, NoticeSender, NoticeUse};
use crate::outside::type_id_of;
use crate::registry::{ConsumerId, Registry};
use crate::task::{Task, TaskRequest};

verus! {

// ---------------------------------------------------------------------------------------------
// Calls of the bus
// ---------------------------------------------------------------------------------------------

/// Whatever a call of [`EventBus::handle`] does is what `handles` says, and every message but a
/// subscription can be handled in every state; a subscription can where there is room for a
/// channel, an id is left and the filter is one for the topic.
pub proof fn law_call_of_handle(
    bus: EventBus,
    message: EventMessage,
    before: EventSinkState,
    after: EventSinkState,
    handled: Handled,
)
    requires
        exists|state: &mut EventSinkState| #[trigger]
            call_ensures(EventBus::handle, (&bus, message, state), handled) && *state == before
                && *final(state) == after,
    ensures
        after.wf(),
        bus.handles(message, before, after, handled),
        forall|state: &mut EventSinkState|
            state.wf() && (message is Subscribe ==> 0 < bus.capacity() <= usize::MAX / 8
                && state@.next_id < ConsumerId::MAX && message->filter.fits(message->topic_id))
                ==> #[trigger] call_requires(EventBus::handle, (&bus, message, state)),
{
}

/// Whatever a call of [`EventBus::step`] does is what `steps` says.
pub proof fn law_call_of_step(
    bus: EventBus,
    signal: Signal,
    before: EventSinkState,
    after: EventSinkState,
    step: Step,
)
    requires
        exists|state: &mut EventSinkState| #[trigger]
            call_ensures(EventBus::step, (&bus, signal, state), step) && *state == before
                && *final(state) == after,
    ensures
        after.wf(),
        bus.steps(signal, before, after, step),
{
}

/// A bus that wakes up to a message handles that message.
pub proof fn law_message_is_handled(
    bus: EventBus,
    message: EventMessage,
    before: EventSinkState,
    after: EventSinkState,
    step: Step,
)
    requires
        bus.steps(Signal::Actor(ActorSignal::Message(Some(message))), before, after, step),
    ensures
        step matches Step::Handled(handled) && bus.handles(message, before, after, handled),
{
}

/// A bus stops when it is asked to shut down and when nobody can send it a message any more, and on
/// nothing else; stopping changes nothing.
pub proof fn law_when_a_bus_stops(
    bus: EventBus,
    signal: Signal,
    before: EventSinkState,
    after: EventSinkState,
    step: Step,
)
    requires
        bus.steps(signal, before, after, step),
    ensures
        step is Stop <==> (signal == Signal::Actor(ActorSignal::Cancelled) || signal
            == Signal::Actor(ActorSignal::Message(None))),
        step is Stop ==> after == before,
{
}

/// What a bus was made with is what its consumers' channels buffer.
pub proof fn law_capacity_is_what_was_asked_for(channel_capacity: usize, bus: EventBus)
    requires
        call_ensures(EventBus::new, (channel_capacity,), bus),
    ensures
        bus.capacity() == channel_capacity,
{
}

// ---------------------------------------------------------------------------------------------
// Subscribing
// ---------------------------------------------------------------------------------------------

/// Registering lists one more consumer, under an id that nobody had, with the filter that it came
/// with and a channel of its own that nothing was offered to; everybody else stays listed as they
/// were, and nobody else comes.
pub proof fn law_registered_lists_one_more(
    capacity: usize,
    before: EventSinkState,
    after: EventSinkState,
    topic_id: TypeId,
    filter: OptionalBoxedFilter,
    receiver: ConsumerReceiver,
    other_topic: TypeId,
    other: ConsumerId,
)
    requires
        before.wf(),
        registered(capacity, before, after, topic_id, filter, receiver),
    ensures
        receiver.consumer_id == before@.next_id,
        receiver.topic_id == topic_id,
        after@.next_id == before@.next_id + 1,
        before@.listeners.contains_key(other_topic) ==> !before@.listeners[other_topic].contains_key(
            receiver.consumer_id,
        ),
        after@.listeners.contains_key(topic_id),
        after@.listeners[topic_id].contains_key(receiver.consumer_id),
        after@.listeners[topic_id][receiver.consumer_id].filter == filter,
        after@.listeners[topic_id][receiver.consumer_id].offers.len() == 0,
        call_ensures(
            mpsc::channel::<Event>,
            (capacity,),
            (
                after@.listeners[topic_id][receiver.consumer_id].channel,
                receiver.receiver.receiver(),
            ),
        ),
        other_topic != topic_id ==> after@.listeners.contains_key(other_topic)
            == before@.listeners.contains_key(other_topic),
        (other_topic != topic_id || other != receiver.consumer_id) ==> (
        after@.listeners.contains_key(other_topic) && after@.listeners[other_topic].contains_key(
            other,
        )) == (before@.listeners.contains_key(other_topic)
            && before@.listeners[other_topic].contains_key(other)),
        before@.listeners.contains_key(other_topic) && before@.listeners[other_topic].contains_key(
            other,
        ) ==> after@.listeners[other_topic][other] == before@.listeners[other_topic][other],
        receiver.receiver.takes().len() == 0,
        receiver.drop_sender.uses().len() == 0,
        receiver.drop_sender.sender() == before.drop_channel().0.sender(),
        after.drop_channel().0.sender() == before.drop_channel().0.sender(),
        after.drop_channel().0.uses() == before.drop_channel().0.uses().push(NoticeUse::Shared),
        after.drop_channel().1 == before.drop_channel().1,
{
    before.law_wf();
    let id = before@.next_id as ConsumerId;
    assert(!before@.subscribed(other_topic, id));
}

/// A bus that handles a subscription lists the one who asked, under the next id, for the topic and
/// with the filter of the message, whatever they are; it answers with the receiving end of the new
/// consumer's channel, once, and tells how the answer ended.
pub proof fn law_subscription_is_what_was_asked_for(
    bus: EventBus,
    topic_id: TypeId,
    sender: oneshot::Sender<ConsumerReceiver>,
    filter: OptionalBoxedFilter,
    before: EventSinkState,
    after: EventSinkState,
    handled: Handled,
)
    requires
        before.wf(),
        bus.handles(
            EventMessage::Subscribe { topic_id, sender, filter },
            before,
            after,
            handled,
        ),
    ensures
        after@.next_id == before@.next_id + 1,
        after@.listeners.contains_key(topic_id),
        after@.listeners[topic_id].contains_key(before@.next_id as ConsumerId),
        after@.listeners[topic_id][before@.next_id as ConsumerId].filter == filter,
        after@.listeners[topic_id][before@.next_id as ConsumerId].offers.len() == 0,
        exists|receiver: ConsumerReceiver, result: Result<(), ConsumerReceiver>| #[trigger]
            call_ensures(
                oneshot::Sender::<ConsumerReceiver>::send,
                (sender, receiver),
                result,
            ) && registered(bus.capacity(), before, after, topic_id, filter, receiver) && handled
                == match result {
                Ok(_) => Handled::Subscribed(before@.next_id as ConsumerId),
                Err(_) => Handled::SubscriberGone(receiver),
            },
{
    before.law_wf();
}

/// A call of [`EventSinkState::add_consumer`] registers a consumer.
pub proof fn law_call_of_add_consumer(
    capacity: usize,
    topic_id: TypeId,
    filter: OptionalBoxedFilter,
    before: EventSinkState,
    after: EventSinkState,
    receiver: ConsumerReceiver,
)
    requires
        exists|state: &mut EventSinkState| #[trigger]
            call_ensures(
                EventSinkState::add_consumer,
                (state, capacity, topic_id, filter),
                receiver,
            ) && *state == before && *final(state) == after,
    ensures
        after.wf(),
        registered(capacity, before, after, topic_id, filter, receiver),
{
}

// ---------------------------------------------------------------------------------------------
// Publishing
// ---------------------------------------------------------------------------------------------

/// Publishing leaves everybody listed, with their channel and filter. A consumer of another topic is
/// offered nothing. A consumer of the event's topic is offered the event once or not at all: once
/// only if its filter can say yes, and not at all, as long as nobody turns out to be gone, only if
/// its filter can say no. The report names those whom the event was offered to, with the outcome
/// that their log has, each of them once.
pub proof fn law_published_offers_by_filter(
    before: Registry<Listener>,
    after: Registry<Listener>,
    event: Event,
    report: Seq<Delivery>,
    topic_id: TypeId,
    consumer_id: ConsumerId,
)
    requires
        before.wf(),
        published(before, after, event, report),
    ensures
        after.next_id == before.next_id,
        after.listeners.contains_key(topic_id) == before.listeners.contains_key(topic_id),
        before.listeners.contains_key(topic_id) ==> after.listeners[topic_id].contains_key(
            consumer_id,
        ) == before.listeners[topic_id].contains_key(consumer_id),
        before.listeners.contains_key(topic_id) && before.listeners[topic_id].contains_key(
            consumer_id,
        ) ==> {
            let old_one = before.listeners[topic_id][consumer_id];
            let new_one = after.listeners[topic_id][consumer_id];
            &&& new_one.channel == old_one.channel
            &&& new_one.filter == old_one.filter
            &&& topic_id != type_held(event.topic) ==> new_one.offers == old_one.offers
            &&& new_one.offers == old_one.offers || (exists|i: int|
                0 <= i < report.len() && (#[trigger] report[i]).consumer_id == consumer_id
                    && new_one.offers == old_one.offers.push((event, report[i].outcome))
                    && old_one.filter.may_answer(event.topic, true))
            &&& (topic_id == type_held(event.topic) && new_one.offers == old_one.offers && (forall|
                i: int,
            |
                0 <= i < report.len() ==> (#[trigger] report[i]).outcome != Outcome::Closed))
                ==> old_one.filter.may_answer(event.topic, false)
        },
        forall|i: int|
            0 <= i < report.len() ==> {
                let id = (#[trigger] report[i]).consumer_id;
                let id_topic = type_held(event.topic);
                &&& before.listeners.contains_key(id_topic)
                &&& before.listeners[id_topic].contains_key(id)
                &&& after.listeners[id_topic][id].offers
                    == before.listeners[id_topic][id].offers.push((event, report[i].outcome))
            },
        forall|i: int, j: int|
            0 <= i < j < report.len() ==> (#[trigger] report[i]).consumer_id != (
            #[trigger] report[j]).consumer_id && report[i].outcome != Outcome::Closed,
{
    let event_topic = type_held(event.topic);
    let listeners = before.topic_listeners(event_topic);
    law_one_offer_each(before, after, event, report, topic_id, consumer_id);
    law_only_listeners_are_offered(listeners, event, report);
    assert(before.subscribed(topic_id, consumer_id) == after.subscribed(topic_id, consumer_id));
    let asked = choose|asked: Seq<ConsumerId>| offered_in_turn(listeners, event, asked, report);
    assert forall|i: int| 0 <= i < report.len() implies {
        let id = (#[trigger] report[i]).consumer_id;
        &&& before.listeners.contains_key(event_topic)
        &&& before.listeners[event_topic].contains_key(id)
        &&& after.listeners[event_topic][id].offers
            == before.listeners[event_topic][id].offers.push((event, report[i].outcome))
    } by {
        let id = report[i].consumer_id;
        assert(listeners.contains_key(id));
        assert(before.subscribed(event_topic, id));
        assert(mentions(report, id));
        law_one_offer_each(before, after, event, report, event_topic, id);
        let j = choose|j: int|
            0 <= j < report.len() && (#[trigger] report[j]).consumer_id == id
                && after.listeners[event_topic][id]
                == before.listeners[event_topic][id].having_offered(
                seq![(event, report[j].outcome)],
            );
        assert(i == j) by {
            if i < j {
                assert(report[i].consumer_id != report[j].consumer_id);
            } else if j < i {
                assert(report[j].consumer_id != report[i].consumer_id);
            }
        }
        assert(before.listeners[event_topic][id].offers + seq![(event, report[j].outcome)]
            =~= before.listeners[event_topic][id].offers.push((event, report[j].outcome)));
    }
    if before.subscribed(topic_id, consumer_id) {
        let old_one = before.listeners[topic_id][consumer_id];
        let new_one = after.listeners[topic_id][consumer_id];
        if mentions(report, consumer_id) {
            let i = choose|i: int|
                0 <= i < report.len() && (#[trigger] report[i]).consumer_id == consumer_id
                    && new_one == old_one.having_offered(seq![(event, report[i].outcome)]);
            assert(new_one.offers =~= old_one.offers.push((event, report[i].outcome)));
            assert(new_one.offers.len() == old_one.offers.len() + 1);
        } else if topic_id == event_topic {
            assert(listeners.contains_key(consumer_id));
            if forall|i: int|
                0 <= i < report.len() ==> (#[trigger] report[i]).outcome != Outcome::Closed {
                assert(asked.contains(consumer_id));
                let k = asked.index_of(consumer_id);
                assert(asked[k] == consumer_id);
            }
        }
    }
}

/// A bus that handles an event publishes that event, and does nothing else.
pub proof fn law_event_is_published(
    bus: EventBus,
    event: Event,
    before: EventSinkState,
    after: EventSinkState,
    handled: Handled,
)
    requires
        bus.handles(EventMessage::Event(event), before, after, handled),
    ensures
        handled matches Handled::Published(report) && published(before@, after@, event, report@),
        after.drop_channel() == before.drop_channel(),
{
}

/// A call of [`EventSinkState::publish`] publishes the event, and every event can be published.
pub proof fn law_call_of_publish(
    event: Event,
    before: EventSinkState,
    after: EventSinkState,
    report: Vec<Delivery>,
)
    requires
        exists|state: &mut EventSinkState| #[trigger]
            call_ensures(EventSinkState::publish, (state, &event), report) && *state == before
                && *final(state) == after,
    ensures
        after.wf(),
        published(before@, after@, event, report@),
        after.drop_channel() == before.drop_channel(),
        forall|state: &mut EventSinkState|
            state.wf() ==> #[trigger] call_requires(EventSinkState::publish, (state, &event)),
{
}

/// The consumers found for a topic value are consumers of its type: some are looked for exactly
/// where the type has a consumer, each is found once, those found can be said yes to and those not
/// found can be said no to.
pub proof fn law_call_of_get_topic_listeners(
    state: EventSinkState,
    topic: AnyValue,
    listed: Option<Vec<ConsumerId>>,
    consumer_id: ConsumerId,
)
    requires
        call_ensures(EventSinkState::get_topic_listeners, (&state, &topic), listed),
    ensures
        listed is Some <==> state@.listeners.contains_key(type_held(topic)),
        listed matches Some(found) ==> {
            let all = state@.listeners[type_held(topic)];
            &&& found@.no_duplicates()
            &&& found@.contains(consumer_id) ==> all.contains_key(consumer_id)
                && all[consumer_id].filter.may_answer(topic, true)
            &&& all.contains_key(consumer_id) && !found@.contains(consumer_id)
                ==> all[consumer_id].filter.may_answer(topic, false)
        },
{
    if listed is Some {
        let found = listed->0@;
        let all = state@.listeners[type_held(topic)];
        if found.contains(consumer_id) {
            assert(all.contains_key(found[found.index_of(consumer_id)]));
        }
    }
}

// ---------------------------------------------------------------------------------------------
// Dropping
// ---------------------------------------------------------------------------------------------

/// A bus that acts on a drop notice unlists that consumer of that topic, whoever it is and however
/// long it has been there, and nobody else; a topic stays listed exactly as long as it has another
/// consumer. No id is handed out, no log changes.
pub proof fn law_dropped_consumer_is_unlisted(
    bus: EventBus,
    topic_id: TypeId,
    consumer_id: ConsumerId,
    before: EventSinkState,
    after: EventSinkState,
    step: Step,
    other_topic: TypeId,
    other: ConsumerId,
)
    requires
        before.wf(),
        bus.steps(Signal::ConsumerDropped { topic_id, consumer_id }, before, after, step),
    ensures
        step == Step::Removed(consumer_id),
        after@.next_id == before@.next_id,
        after.drop_channel() == before.drop_channel(),
        !(after@.listeners.contains_key(topic_id) && after@.listeners[topic_id].contains_key(
            consumer_id,
        )),
        before@.listeners.contains_key(topic_id) && before@.listeners[topic_id].contains_key(
            consumer_id,
        ) ==> !(after@.listeners.contains_key(other_topic)
            && after@.listeners[other_topic].contains_key(consumer_id)),
        (other_topic != topic_id || other != consumer_id) ==> (after@.listeners.contains_key(
            other_topic,
        ) && after@.listeners[other_topic].contains_key(other)) == (
        before@.listeners.contains_key(other_topic) && before@.listeners[other_topic].contains_key(
            other,
        )),
        after@.listeners.contains_key(other_topic) && after@.listeners[other_topic].contains_key(
            other,
        ) ==> after@.listeners[other_topic][other] == before@.listeners[other_topic][other],
        other_topic != topic_id ==> after@.listeners.contains_key(other_topic)
            == before@.listeners.contains_key(other_topic),
        after@.listeners.contains_key(topic_id) <==> before@.listeners.contains_key(topic_id)
            && exists|another: ConsumerId|
            another != consumer_id && #[trigger] before@.listeners[topic_id].contains_key(another),
{
    lemma_unlisted(before, after, topic_id, consumer_id, other_topic, other);
}

/// A call of [`EventSinkState::remove_consumer`] unlists that consumer of that topic, and nobody
/// else; a topic stays listed exactly as long as it has another consumer.
pub proof fn law_call_of_remove_consumer(
    topic_id: TypeId,
    consumer_id: ConsumerId,
    before: EventSinkState,
    after: EventSinkState,
    other_topic: TypeId,
    other: ConsumerId,
)
    requires
        before.wf(),
        exists|state: &mut EventSinkState| #[trigger]
            call_ensures(EventSinkState::remove_consumer, (state, topic_id, consumer_id), ())
                && *state == before && *final(state) == after,
    ensures
        after.wf(),
        after@.next_id == before@.next_id,
        after.drop_channel() == before.drop_channel(),
        !(after@.listeners.contains_key(topic_id) && after@.listeners[topic_id].contains_key(
            consumer_id,
        )),
        (other_topic != topic_id || other != consumer_id) ==> (after@.listeners.contains_key(
            other_topic,
        ) && after@.listeners[other_topic].contains_key(other)) == (
        before@.listeners.contains_key(other_topic) && before@.listeners[other_topic].contains_key(
            other,
        )),
        after@.listeners.contains_key(other_topic) && after@.listeners[other_topic].contains_key(
            other,
        ) ==> after@.listeners[other_topic][other] == before@.listeners[other_topic][other],
        other_topic != topic_id ==> after@.listeners.contains_key(other_topic)
            == before@.listeners.contains_key(other_topic),
        after@.listeners.contains_key(topic_id) <==> before@.listeners.contains_key(topic_id)
            && exists|another: ConsumerId|
            another != consumer_id && #[trigger] before@.listeners[topic_id].contains_key(another),
{
    lemma_unlisted(before, after, topic_id, consumer_id, other_topic, other);
}

/// Unsubscribing takes one consumer away, and its topic with the last one.
proof fn lemma_unlisted(
    before: EventSinkState,
    after: EventSinkState,
    topic_id: TypeId,
    consumer_id: ConsumerId,
    other_topic: TypeId,
    other: ConsumerId,
)
    requires
        before.wf(),
        after@ == before@.unsubscribe(topic_id, consumer_id),
    ensures
        after@.next_id == before@.next_id,
        !(after@.listeners.contains_key(topic_id) && after@.listeners[topic_id].contains_key(
            consumer_id,
        )),
        before@.listeners.contains_key(topic_id) && before@.listeners[topic_id].contains_key(
            consumer_id,
        ) ==> !(after@.listeners.contains_key(other_topic)
            && after@.listeners[other_topic].contains_key(consumer_id)),
        (other_topic != topic_id || other != consumer_id) ==> (after@.listeners.contains_key(
            other_topic,
        ) && after@.listeners[other_topic].contains_key(other)) == (
        before@.listeners.contains_key(other_topic) && before@.listeners[other_topic].contains_key(
            other,
        )),
        after@.listeners.contains_key(other_topic) && after@.listeners[other_topic].contains_key(
            other,
        ) ==> after@.listeners[other_topic][other] == before@.listeners[other_topic][other],
        other_topic != topic_id ==> after@.listeners.contains_key(other_topic)
            == before@.listeners.contains_key(other_topic),
        after@.listeners.contains_key(topic_id) <==> before@.listeners.contains_key(topic_id)
            && exists|another: ConsumerId|
            another != consumer_id && #[trigger] before@.listeners[topic_id].contains_key(another),
{
    before.law_wf();
    let listeners = before@.topic_listeners(topic_id);
    let rest = listeners.remove(consumer_id);
    if other_topic != topic_id && before@.subscribed(topic_id, consumer_id) {
        assert(!before@.subscribed(other_topic, consumer_id));
    }
    if other_topic == topic_id && other != consumer_id && before@.subscribed(topic_id, other) {
        assert(rest.dom().contains(other));
    }
    if rest.is_empty() {
        assert forall|another: ConsumerId| another != consumer_id implies !(
        #[trigger] before@.listeners[topic_id].contains_key(another)
            && before@.listeners.contains_key(topic_id)) by {
            if before@.listeners.contains_key(topic_id)
                && before@.listeners[topic_id].contains_key(another) {
                assert(rest.dom().contains(another));
            }
        }
    } else {
        let another = choose|another: ConsumerId| rest.dom().contains(another);
        assert(rest.dom().contains(another)) by {
            if forall|id: ConsumerId| !rest.dom().contains(id) {
                assert(rest =~= Map::empty());
            }
        }
        assert(before@.listeners[topic_id].contains_key(another));
    }
}

/// A consumer whose drop notice the bus acted on at some turn of a run is listed nowhere when the run
/// ends, whatever else happened before and after that turn.
pub proof fn law_run_forgets_dropped_consumers(
    bus: EventBus,
    signals: Seq<Signal>,
    states: Seq<EventSinkState>,
    steps: Seq<Step>,
    turn: int,
    topic_id: TypeId,
    consumer_id: ConsumerId,
    other_topic: TypeId,
)
    requires
        runs(bus, signals, states, steps),
        0 <= turn < signals.len(),
        signals[turn] == (Signal::ConsumerDropped { topic_id, consumer_id }),
        states[turn]@.listeners.contains_key(topic_id),
        states[turn]@.listeners[topic_id].contains_key(consumer_id),
    ensures
        !(states.last()@.listeners.contains_key(other_topic)
            && states.last()@.listeners[other_topic].contains_key(consumer_id)),
{
    let before = states[turn];
    let after = states[turn + 1];
    assert(bus.steps(signals[turn], before, after, steps[turn]));
    before.law_wf();
    assert(before@.subscribed(topic_id, consumer_id));
    assert forall|t: TypeId| !#[trigger] after@.subscribed(t, consumer_id) by {
        law_dropped_consumer_is_unlisted(
            bus,
            topic_id,
            consumer_id,
            before,
            after,
            steps[turn],
            t,
            consumer_id,
        );
    }
    law_dropped_consumer_is_unlisted(
        bus,
        topic_id,
        consumer_id,
        before,
        after,
        steps[turn],
        topic_id,
        consumer_id,
    );
    let later_signals = signals.skip(turn + 1);
    let later_states = states.skip(turn + 1);
    let later_steps = steps.skip(turn + 1);
    assert forall|i: int| 0 <= i < later_signals.len() implies bus.steps(
        #[trigger] later_signals[i],
        later_states[i],
        later_states[i + 1],
        later_steps[i],
    ) by {
        assert(later_signals[i] == signals[turn + 1 + i]);
        assert(later_states[i + 1] == states[turn + 1 + i + 1]);
    }
    assert(runs(bus, later_signals, later_states, later_steps));
    law_run_keeps_gone_consumers_out(bus, later_signals, later_states, later_steps, consumer_id);
    assert(!later_states.last()@.subscribed(other_topic, consumer_id));
    assert(later_states.last() == states.last());
}

/// A receiver that is dropped tells the bus that this consumer of this topic is gone: it sends that
/// one notice more than before, and no other, through its own sending end.
pub proof fn law_dropped_receiver_tells_once(before: ConsumerReceiver, after: ConsumerReceiver)
    requires
        before.told_once(after),
    ensures
        after.drop_sender.sender() == before.drop_sender.sender(),
        after.drop_sender.uses() == before.drop_sender.uses().push(
            NoticeUse::Sent((before.topic_id, before.consumer_id)),
        ),
        after.receiver.takes() == before.receiver.takes(),
        after.receiver.receiver() == before.receiver.receiver(),
{
}

// ---------------------------------------------------------------------------------------------
// Statistics
// ---------------------------------------------------------------------------------------------

/// A bus that is asked for statistics answers, once, with the number of topics that are listed,
/// however many there are, and changes nothing.
pub proof fn law_statistics_count_the_listed_topics(
    bus: EventBus,
    sender: oneshot::Sender<EventBusStats>,
    before: EventSinkState,
    after: EventSinkState,
    handled: Handled,
)
    requires
        before.wf(),
        bus.handles(EventMessage::Stats(sender), before, after, handled),
    ensures
        after == before,
        before@.listeners.dom().finite(),
        exists|stats: EventBusStats, result: Result<(), EventBusStats>| #[trigger]
            call_ensures(oneshot::Sender::<EventBusStats>::send, (sender, stats), result)
                && stats.n_topics == before@.listeners.dom().len() && handled == match result {
                Ok(_) => Handled::StatsSent,
                Err(_) => Handled::StatsRefused(stats),
            },
{
    before.law_wf();
}

/// A call of [`EventSinkState::stats`] counts the listed topics.
pub proof fn law_call_of_stats(state: EventSinkState, stats: EventBusStats)
    requires
        call_ensures(EventSinkState::stats, (&state,), stats),
    ensures
        stats.n_topics == state@.listeners.dom().len(),
{
}

/// `topics` are the topics that `signals` subscribe to, one signal after the other.
proof fn lemma_topics_listed(
    bus: EventBus,
    signals: Seq<Signal>,
    states: Seq<EventSinkState>,
    steps: Seq<Step>,
    topics: Seq<TypeId>,
)
    requires
        runs(bus, signals, states, steps),
        states[0]@.listeners.dom().len() == 0,
        topics.len() == signals.len(),
        forall|i: int|
            0 <= i < signals.len() ==> (#[trigger] signals[i] matches Signal::Actor(
                ActorSignal::Message(Some(EventMessage::Subscribe { topic_id, .. })),
            ) && topic_id == topics[i]),
    ensures
        states.last()@.listeners.dom() == topics.to_set(),
    decreases signals.len(),
{
    states[0].law_wf();
    if signals.len() == 0 {
        assert(states.last()@.listeners.dom() =~= topics.to_set());
    } else {
        let last = signals.len() - 1;
        let before = states[last];
        let after = states.last();
        assert(bus.steps(signals[last], states[last], states[last + 1], steps[last]));
        let earlier = signals.drop_last();
        let fewer = topics.drop_last();
        assert forall|i: int| 0 <= i < earlier.len() implies bus.steps(
            #[trigger] earlier[i],
            states.drop_last()[i],
            states.drop_last()[i + 1],
            steps.drop_last()[i],
        ) by {
            assert(earlier[i] == signals[i]);
        }
        assert forall|i: int| 0 <= i < earlier.len() implies (
        #[trigger] earlier[i] matches Signal::Actor(
            ActorSignal::Message(Some(EventMessage::Subscribe { topic_id, .. })),
        ) && topic_id == fewer[i]) by {
            assert(earlier[i] == signals[i]);
        }
        lemma_topics_listed(bus, earlier, states.drop_last(), steps.drop_last(), fewer);
        let message = signals[last]->Actor_0->Message_0->0;
        before.law_wf();
        law_subscription_is_what_was_asked_for(
            bus,
            message->topic_id,
            message->Subscribe_sender,
            message->filter,
            before,
            after,
            steps[last]->Handled_0,
        );
        assert(after@.listeners.dom() =~= before@.listeners.dom().insert(topics[last]));
        assert(topics =~= fewer.push(topics[last]));
        assert(topics.to_set() =~= fewer.to_set().insert(topics[last])) by {
            assert forall|t: TypeId| topics.contains(t) implies fewer.contains(t) || t
                == topics[last] by {
                let k = topics.index_of(t);
                if k < last {
                    assert(fewer[k] == t);
                }
            }
            assert forall|t: TypeId| fewer.contains(t) || t == topics[last] implies topics.contains(
                t,
            ) by {
                if fewer.contains(t) {
                    assert(topics[fewer.index_of(t)] == t);
                } else {
                    assert(topics[last] == t);
                }
            }
        }
    }
}

/// A bus that starts without consumers and is asked for one consumer of each of a number of
/// different topics answers that number when it is asked for statistics.
pub proof fn law_statistics_after_subscriptions(
    bus: EventBus,
    signals: Seq<Signal>,
    states: Seq<EventSinkState>,
    steps: Seq<Step>,
    topics: Seq<TypeId>,
    sender: oneshot::Sender<EventBusStats>,
    after: EventSinkState,
    handled: Handled,
)
    requires
        runs(bus, signals, states, steps),
        states[0]@.listeners.dom().len() == 0,
        topics.no_duplicates(),
        topics.len() == signals.len(),
        forall|i: int|
            0 <= i < signals.len() ==> (#[trigger] signals[i] matches Signal::Actor(
                ActorSignal::Message(Some(EventMessage::Subscribe { topic_id, .. })),
            ) && topic_id == topics[i]),
        bus.handles(EventMessage::Stats(sender), states.last(), after, handled),
    ensures
        exists|stats: EventBusStats, result: Result<(), EventBusStats>| #[trigger]
            call_ensures(oneshot::Sender::<EventBusStats>::send, (sender, stats), result)
                && stats.n_topics == signals.len(),
{
    lemma_topics_listed(bus, signals, states, steps, topics);
    topics.unique_seq_to_set();
    law_statistics_count_the_listed_topics(bus, sender, states.last(), after, handled);
}

// ---------------------------------------------------------------------------------------------
// What a bus does not outlive
// ---------------------------------------------------------------------------------------------

/// A bus outlives every subscription, also of somebody who did not wait. It outlives a request for
/// statistics exactly if the answer was taken, and an event exactly if no consumer that it was
/// offered to turned out to be gone.
pub proof fn law_what_a_bus_does_not_outlive(
    bus: EventBus,
    message: EventMessage,
    before: EventSinkState,
    after: EventSinkState,
    handled: Handled,
    fatal: bool,
)
    requires
        before.wf(),
        bus.handles(message, before, after, handled),
        call_ensures(Handled::is_fatal, (&handled,), fatal),
    ensures
        message is Subscribe ==> !fatal,
        message matches EventMessage::Stats(sender) ==> exists|
            stats: EventBusStats,
            result: Result<(), EventBusStats>,
        | #[trigger]
            call_ensures(oneshot::Sender::<EventBusStats>::send, (sender, stats), result) && (fatal
                <==> result is Err),
        message matches EventMessage::Event(event) ==> (fatal <==> exists|id: ConsumerId|
            before@.listeners.contains_key(type_held(event.topic))
                && #[trigger] before@.listeners[type_held(event.topic)].contains_key(id)
                && after@.listeners[type_held(event.topic)][id].offers
                == before@.listeners[type_held(event.topic)][id].offers.push(
                (event, Outcome::Closed),
            )),
{
    before.law_wf();
    match message {
        EventMessage::Event(event) => {
            let report = handled->Published_0@;
            let topic_id = type_held(event.topic);
            law_published_offers_by_filter(before@, after@, event, report, topic_id, 0);
            if fatal {
                let i = choose|i: int|
                    0 <= i < report.len() && (#[trigger] report[i]).outcome == Outcome::Closed;
                let id = report[i].consumer_id;
                assert(before@.listeners[topic_id].contains_key(id));
            }
            assert forall|id: ConsumerId|
                before@.listeners.contains_key(topic_id)
                    && #[trigger] before@.listeners[topic_id].contains_key(id)
                    && after@.listeners[topic_id][id].offers
                    == before@.listeners[topic_id][id].offers.push(
                    (event, Outcome::Closed),
                ) implies fatal by {
                law_published_offers_by_filter(before@, after@, event, report, topic_id, id);
                let old_offers = before@.listeners[topic_id][id].offers;
                let new_offers = after@.listeners[topic_id][id].offers;
                assert(new_offers.len() == old_offers.len() + 1);
                let i = choose|i: int|
                    0 <= i < report.len() && (#[trigger] report[i]).consumer_id == id && new_offers
                        == old_offers.push((event, report[i].outcome));
                assert(new_offers.last() == (event, Outcome::Closed));
                assert(report[i].outcome == Outcome::Closed);
            }
        },
        EventMessage::Stats(sender) => {
            law_statistics_count_the_listed_topics(bus, sender, before, after, handled);
        },
        EventMessage::Subscribe { topic_id, sender, filter } => {
            law_subscription_is_what_was_asked_for(
                bus,
                topic_id,
                sender,
                filter,
                before,
                after,
                handled,
            );
        },
    }
}

// ---------------------------------------------------------------------------------------------
// Reading
// ---------------------------------------------------------------------------------------------

/// Whatever event the channel gives, the consumer gets it, with its message; where the channel gives
/// none, the consumer gets the channel's reason.
pub proof fn law_received_event_is_given<T: Topic>(
    result: Result<Event, TryRecvError>,
    recovered: Result<RecoveredEvent<T>, TryRecvError>,
)
    requires
        call_ensures(Consumer::<T>::recover, (result,), recovered),
    ensures
        recovered is Ok <==> result is Ok,
        result is Ok ==> recovered->Ok_0.payload == result->Ok_0.payload,
        result is Err ==> recovered->Err_0 == result->Err_0,
{
}

/// Receiving without waiting takes once from the channel and gives what came out of it; it sends
/// nothing, and the consumer goes on reading the same channel.
pub proof fn law_call_of_try_recv<T: Topic>(
    before: Consumer<T>,
    after: Consumer<T>,
    recovered: Result<RecoveredEvent<T>, TryRecvError>,
)
    requires
        exists|consumer: &mut Consumer<T>| #[trigger]
            call_ensures(Consumer::<T>::try_recv, (consumer,), recovered) && *consumer == before
                && *final(consumer) == after,
    ensures
        ({
            let old_takes = before.receiver.receiver.takes();
            let new_takes = after.receiver.receiver.takes();
            &&& new_takes.len() == old_takes.len() + 1
            &&& forall|i: int|
                0 <= i < old_takes.len() ==> #[trigger] new_takes[i] == old_takes[i]
            &&& recovered is Ok <==> new_takes[old_takes.len() as int] is Ok
            &&& recovered is Ok ==> recovered->Ok_0.payload == new_takes[old_takes.len() as int]->Ok_0.payload
            &&& recovered is Err ==> recovered->Err_0 == new_takes[old_takes.len() as int]->Err_0
        }),
        after.receiver.receiver.receiver() == before.receiver.receiver.receiver(),
        after.receiver.drop_sender == before.receiver.drop_sender,
        after.receiver.consumer_id == before.receiver.consumer_id,
        after.receiver.topic_id == before.receiver.topic_id,
{
}

/// A consumer is the consumer of the subscription that it was made from.
pub proof fn law_call_of_consumer_new<T: Topic>(receiver: ConsumerReceiver, consumer: Consumer<T>)
    requires
        call_ensures(Consumer::<T>::new, (receiver,), consumer),
    ensures
        consumer.receiver == receiver,
{
}

/// The message that a producer sent is the message that a consumer reads: the event that brings it
/// is given to the consumer, can be read, and whatever is read from it, or from a copy of it, is
/// that message.
pub proof fn law_sent_message_is_read<T: Topic>(
    producer: Producer<T>,
    message: T::MessageType,
    event: Event,
    copy: Event,
    recovered: Result<RecoveredEvent<T>, TryRecvError>,
    read: RecoveredEvent<T>,
    found: Option<&T::MessageType>,
    got: &T::MessageType,
)
    requires
        call_ensures(Producer::<T>::send, (&producer, message), EventMessage::Event(event)),
        call_ensures(<Event as Clone>::clone, (&event,), copy),
        call_ensures(Consumer::<T>::recover, (Ok::<Event, TryRecvError>(copy),), recovered),
        recovered == Ok::<RecoveredEvent<T>, TryRecvError>(read) || call_ensures(
            RecoveredEvent::<T>::new,
            (copy,),
            read,
        ) || call_ensures(<RecoveredEvent<T> as Clone>::clone, (&recovered->Ok_0,), read),
        call_ensures(RecoveredEvent::<T>::message, (&read,), found),
    ensures
        recovered is Ok,
        found is Some,
        *(found->0) == message,
        call_requires(RecoveredEvent::<T>::as_ref, (&read,)),
        call_ensures(RecoveredEvent::<T>::as_ref, (&read,), got) ==> *got == message,
{
    assert(holds(event.payload, message));
    assert(holds(read.payload, message));
    assert(reveals(read.payload, *(found->0)));
}

// ---------------------------------------------------------------------------------------------
// Rules and topics
// ---------------------------------------------------------------------------------------------

/// [`Filter::none`] says yes to everything.
pub proof fn law_filter_none_says_yes<T: Topic>(topic: T, accepted: bool)
    requires
        call_ensures(Filter::none::<T>, (&topic,), accepted),
    ensures
        accepted,
{
}

/// A filter made of a rule can be asked about every value of the rule's topic, and of no other; its
/// answer to a value is the answer of the rule to that value.
pub proof fn law_filter_answers_as_its_rule<T: Topic, G: Fn(&T) -> bool + Send + Sync + 'static>(
    rule: G,
    filter: OptionalBoxedFilter,
    topic: AnyValue,
    value: T,
    heard: bool,
    topic_id: TypeId,
    suits: bool,
)
    requires
        call_ensures(OptionalBoxedFilter::new::<T, G>, (rule,), filter),
        holds(topic, value),
        type_held(topic) == type_id_of::<T>(),
        call_ensures(OptionalBoxedFilter::hears, (&filter, &topic), heard),
        call_ensures(OptionalBoxedFilter::suits, (&filter, topic_id), suits),
    ensures
        call_requires(OptionalBoxedFilter::hears, (&filter, &topic)),
        call_ensures(rule, (&value,), heard),
        suits <==> topic_id == type_id_of::<T>(),
{
}

/// Without a filter everything is heard, of every topic.
pub proof fn law_no_filter_hears_all(
    filter: OptionalBoxedFilter,
    topic: AnyValue,
    heard: bool,
    topic_id: TypeId,
    suits: bool,
)
    requires
        call_ensures(OptionalBoxedFilter::none, (), filter),
        call_ensures(OptionalBoxedFilter::hears, (&filter, &topic), heard),
        call_ensures(OptionalBoxedFilter::suits, (&filter, topic_id), suits),
    ensures
        call_requires(OptionalBoxedFilter::hears, (&filter, &topic)),
        heard,
        suits,
{
}

/// A producer made for a topic value sends events of that value's type, with that value, and with
/// the message that it is given; it belongs to the bus that it was asked of.
pub proof fn law_producer_sends_its_topic<T: Topic>(
    addr: EventBusAddr,
    topic: T,
    producer: Producer<T>,
    message: T::MessageType,
    sent: EventMessage,
)
    requires
        call_ensures(EventBusAddr::producer::<T>, (&addr, topic), producer),
        call_ensures(Producer::<T>::send, (&producer, message), sent),
    ensures
        producer.addr == addr.0,
        sent matches EventMessage::Event(event) && {
            &&& type_held(event.topic) == type_id_of::<T>()
            &&& holds(event.topic, topic)
            &&& type_held(event.payload) == type_id_of::<T::MessageType>()
            &&& holds(event.payload, message)
        },
{
}

/// A request for a consumer with a rule asks for the rule's topic, with a filter that can be asked
/// about every value of the topic and that answers as the rule does; the answer arrives where the
/// one who asked looks for it.
pub proof fn law_request_carries_the_rule<T: Topic, F: Fn(&T) -> bool + Send + Sync + 'static>(
    addr: EventBusAddr,
    f: F,
    request: Request<ConsumerReceiver>,
    topic: AnyValue,
    value: T,
    accepted: bool,
)
    requires
        call_ensures(EventBusAddr::consumer_with_filter::<T, F>, (&addr, f), request),
        holds(topic, value),
    ensures
        request.message is Subscribe,
        request.message->topic_id == type_id_of::<T>(),
        request.message->filter.fits(type_id_of::<T>()),
        request.message->filter.may_answer(topic, accepted) ==> call_ensures(
            f,
            (&value,),
            accepted,
        ),
        call_ensures(
            oneshot::channel::<ConsumerReceiver>,
            (),
            (request.message->Subscribe_sender, request.answer),
        ),
{
}

/// A request for a consumer without a rule asks for the topic with a filter that says no to
/// nothing.
pub proof fn law_request_without_rule_hears_all<T: Topic>(
    addr: EventBusAddr,
    request: Request<ConsumerReceiver>,
    topic: AnyValue,
)
    requires
        call_ensures(EventBusAddr::consumer::<T>, (&addr,), request),
    ensures
        request.message is Subscribe,
        request.message->topic_id == type_id_of::<T>(),
        request.message->filter.fits(type_id_of::<T>()),
        !request.message->filter.may_answer(topic, false),
        call_ensures(
            oneshot::channel::<ConsumerReceiver>,
            (),
            (request.message->Subscribe_sender, request.answer),
        ),
{
}

/// A request for statistics asks for statistics, and the answer arrives where the one who asked
/// looks for it.
pub proof fn law_request_for_statistics(addr: EventBusAddr, request: Request<EventBusStats>)
    requires
        call_ensures(EventBusAddr::stats, (&addr,), request),
    ensures
        request.message is Stats,
        call_ensures(
            oneshot::channel::<EventBusStats>,
            (),
            (request.message->Stats_0, request.answer),
        ),
{
}

/// Every request that users can make is one that a bus with room for a channel can handle while ids
/// are left, and one without room or ids can handle no subscription; events and requests for
/// statistics can always be handled.
pub proof fn law_call_of_can_handle<T: Topic, F: Fn(&T) -> bool + Send + Sync + 'static>(
    channel_capacity: usize,
    bus: EventBus,
    addr: EventBusAddr,
    f: F,
    request: Request<ConsumerReceiver>,
    message: EventMessage,
    state: EventSinkState,
    possible: bool,
)
    requires
        call_ensures(EventBus::new, (channel_capacity,), bus),
        call_ensures(EventBusAddr::consumer_with_filter::<T, F>, (&addr, f), request)
            || call_ensures(EventBusAddr::consumer::<T>, (&addr,), request),
        call_ensures(EventBus::can_handle, (&bus, &message, &state), possible),
    ensures
        message == request.message ==> (possible <==> 0 < channel_capacity <= usize::MAX / 8
            && state@.next_id < ConsumerId::MAX),
        !(message is Subscribe) ==> possible,
{
}

/// Of a consumer that subscribed with a rule, and that has not been dropped since: when the bus
/// handles what a producer of the topic sends, and nobody turns out to be gone, the consumer is
/// offered the event, once, only if the rule can say yes to the producer's topic value, and is not
/// offered it only if the rule can say no to that value. This holds from the subscription on,
/// whatever else the bus did in between, and whatever its capacity.
pub proof fn law_rule_decides_what_is_heard<T: Topic, F: Fn(&T) -> bool + Send + Sync + 'static>(
    addr: EventBusAddr,
    f: F,
    request: Request<ConsumerReceiver>,
    bus: EventBus,
    before: EventSinkState,
    subscribed: Handled,
    signals: Seq<Signal>,
    states: Seq<EventSinkState>,
    steps: Seq<Step>,
    topic: T,
    producer: Producer<T>,
    message: T::MessageType,
    event: Event,
    after: EventSinkState,
    report: Vec<Delivery>,
)
    requires
        before.wf(),
        call_ensures(EventBusAddr::consumer_with_filter::<T, F>, (&addr, f), request),
        bus.handles(request.message, before, states[0], subscribed),
        runs(bus, signals, states, steps),
        !signals.contains(
            Signal::ConsumerDropped {
                topic_id: type_id_of::<T>(),
                consumer_id: before@.next_id as ConsumerId,
            },
        ),
        call_ensures(EventBusAddr::producer::<T>, (&addr, topic), producer),
        call_ensures(Producer::<T>::send, (&producer, message), EventMessage::Event(event)),
        bus.handles(
            EventMessage::Event(event),
            states.last(),
            after,
            Handled::Published(report),
        ),
        forall|i: int|
            0 <= i < report@.len() ==> (#[trigger] report@[i]).outcome != Outcome::Closed,
    ensures
        ({
            let topic_id = type_id_of::<T>();
            let id = before@.next_id as ConsumerId;
            let then = states.last()@.listeners[topic_id][id].offers;
            let now = after@.listeners[topic_id][id].offers;
            &&& states.last()@.listeners.contains_key(topic_id)
            &&& states.last()@.listeners[topic_id].contains_key(id)
            &&& after@.listeners.contains_key(topic_id)
            &&& after@.listeners[topic_id].contains_key(id)
            &&& now == then || exists|ended: Outcome| now == #[trigger] then.push((event, ended))
            &&& now == then ==> call_ensures(f, (&topic,), false)
            &&& now != then ==> call_ensures(f, (&topic,), true)
        }),
{
    let topic_id = type_id_of::<T>();
    let id = before@.next_id as ConsumerId;
    let filter = request.message->filter;
    law_subscription_is_what_was_asked_for(
        bus,
        topic_id,
        request.message->Subscribe_sender,
        filter,
        before,
        states[0],
        subscribed,
    );
    assert(states[0]@.subscribed(topic_id, id));
    law_run_keeps_consumers(bus, signals, states, steps, topic_id, id);
    states.last().law_wf();
    law_published_offers_by_filter(
        states.last()@,
        after@,
        event,
        report@,
        topic_id,
        id,
    );
    law_producer_sends_its_topic(addr, topic, producer, message, EventMessage::Event(event));
    law_request_carries_the_rule(addr, f, request, event.topic, topic, true);
    law_request_carries_the_rule(addr, f, request, event.topic, topic, false);
}

/// Of a consumer that subscribed without a rule, and that has not been dropped since: whatever a
/// producer of the topic sends is offered to it, once, when the bus handles it, as long as nobody
/// turns out to be gone.
pub proof fn law_without_rule_all_is_heard<T: Topic>(
    addr: EventBusAddr,
    request: Request<ConsumerReceiver>,
    bus: EventBus,
    before: EventSinkState,
    subscribed: Handled,
    signals: Seq<Signal>,
    states: Seq<EventSinkState>,
    steps: Seq<Step>,
    topic: T,
    producer: Producer<T>,
    message: T::MessageType,
    event: Event,
    after: EventSinkState,
    report: Vec<Delivery>,
)
    requires
        before.wf(),
        call_ensures(EventBusAddr::consumer::<T>, (&addr,), request),
        bus.handles(request.message, before, states[0], subscribed),
        runs(bus, signals, states, steps),
        !signals.contains(
            Signal::ConsumerDropped {
                topic_id: type_id_of::<T>(),
                consumer_id: before@.next_id as ConsumerId,
            },
        ),
        call_ensures(EventBusAddr::producer::<T>, (&addr, topic), producer),
        call_ensures(Producer::<T>::send, (&producer, message), EventMessage::Event(event)),
        bus.handles(
            EventMessage::Event(event),
            states.last(),
            after,
            Handled::Published(report),
        ),
        forall|i: int|
            0 <= i < report@.len() ==> (#[trigger] report@[i]).outcome != Outcome::Closed,
    ensures
        ({
            let topic_id = type_id_of::<T>();
            let id = before@.next_id as ConsumerId;
            let then = states.last()@.listeners[topic_id][id].offers;
            let now = after@.listeners[topic_id][id].offers;
            &&& states.last()@.listeners.contains_key(topic_id)
            &&& states.last()@.listeners[topic_id].contains_key(id)
            &&& exists|ended: Outcome| now == #[trigger] then.push((event, ended))
        }),
{
    let topic_id = type_id_of::<T>();
    let id = before@.next_id as ConsumerId;
    let filter = request.message->filter;
    law_subscription_is_what_was_asked_for(
        bus,
        topic_id,
        request.message->Subscribe_sender,
        filter,
        before,
        states[0],
        subscribed,
    );
    assert(states[0]@.subscribed(topic_id, id));
    law_run_keeps_consumers(bus, signals, states, steps, topic_id, id);
    states.last().law_wf();
    law_published_offers_by_filter(
        states.last()@,
        after@,
        event,
        report@,
        topic_id,
        id,
    );
    law_producer_sends_its_topic(addr, topic, producer, message, EventMessage::Event(event));
    law_request_without_rule_hears_all::<T>(addr, request, event.topic);
}

/// Of a consumer that subscribed and has not been dropped since: what it was offered, one offer after
/// the other, are events of its topic that the bus handled after the subscription, in the turns in
/// which it handled them: the turn on an event adds that event once or not at all, and no other
/// turn adds anything.
pub proof fn law_offers_come_from_turns(
    bus: EventBus,
    topic_id: TypeId,
    sender: oneshot::Sender<ConsumerReceiver>,
    filter: OptionalBoxedFilter,
    before: EventSinkState,
    subscribed: Handled,
    signals: Seq<Signal>,
    states: Seq<EventSinkState>,
    steps: Seq<Step>,
    turn: int,
)
    requires
        before.wf(),
        bus.handles(
            EventMessage::Subscribe { topic_id, sender, filter },
            before,
            states[0],
            subscribed,
        ),
        runs(bus, signals, states, steps),
        !signals.contains(
            Signal::ConsumerDropped { topic_id, consumer_id: before@.next_id as ConsumerId },
        ),
        0 <= turn < signals.len(),
    ensures
        ({
            let id = before@.next_id as ConsumerId;
            let then = states[turn]@.listeners[topic_id][id];
            let now = states[turn + 1]@.listeners[topic_id][id];
            &&& states[0]@.listeners[topic_id][id].offers.len() == 0
            &&& states[turn]@.listeners.contains_key(topic_id)
            &&& states[turn]@.listeners[topic_id].contains_key(id)
            &&& states[turn + 1]@.listeners.contains_key(topic_id)
            &&& states[turn + 1]@.listeners[topic_id].contains_key(id)
            &&& then.filter == filter
            &&& now.filter == filter
            &&& now.channel == then.channel
            &&& now.offers != then.offers ==> (signals[turn] matches Signal::Actor(
                ActorSignal::Message(Some(EventMessage::Event(event))),
            ) && type_held(event.topic) == topic_id && exists|ended: Outcome|
                now.offers == #[trigger] then.offers.push((event, ended)))
        }),
{
    let id = before@.next_id as ConsumerId;
    law_subscription_is_what_was_asked_for(
        bus,
        topic_id,
        sender,
        filter,
        before,
        states[0],
        subscribed,
    );
    assert(states[0]@.subscribed(topic_id, id));
    lemma_listed_until(bus, signals, states, steps, turn, topic_id, id);
    lemma_listed_until(bus, signals, states, steps, turn + 1, topic_id, id);
    let here = states[turn];
    here.law_wf();
    assert(bus.steps(signals[turn], states[turn], states[turn + 1], steps[turn]));
    assert(signals[turn] != (Signal::ConsumerDropped { topic_id, consumer_id: id }));
    match signals[turn] {
        Signal::Actor(ActorSignal::Message(Some(EventMessage::Event(event)))) => {
            let report = steps[turn]->Handled_0->Published_0@;
            law_published_offers_by_filter(
                here@,
                states[turn + 1]@,
                event,
                report,
                topic_id,
                id,
            );
        },
        Signal::Actor(
            ActorSignal::Message(Some(EventMessage::Subscribe { topic_id: t, sender: s, filter: f })),
        ) => {
            let handled = steps[turn]->Handled_0;
            law_subscription_is_what_was_asked_for(
                bus,
                t,
                s,
                f,
                here,
                states[turn + 1],
                handled,
            );
            let (receiver, result) = choose|
                receiver: ConsumerReceiver,
                result: Result<(), ConsumerReceiver>,
            | #[trigger]
                call_ensures(oneshot::Sender::<ConsumerReceiver>::send, (s, receiver), result)
                    && registered(bus.capacity(), here, states[turn + 1], t, f, receiver);
            law_registered_lists_one_more(
                bus.capacity(),
                here,
                states[turn + 1],
                t,
                f,
                receiver,
                topic_id,
                id,
            );
        },
        Signal::ConsumerDropped { topic_id: t, consumer_id: c } => {
            law_dropped_consumer_is_unlisted(
                bus,
                t,
                c,
                here,
                states[turn + 1],
                steps[turn],
                topic_id,
                id,
            );
        },
        _ => {},
    }
}

/// A consumer that is not dropped in a run is listed in every state of the run, with its channel and
/// filter.
proof fn lemma_listed_until(
    bus: EventBus,
    signals: Seq<Signal>,
    states: Seq<EventSinkState>,
    steps: Seq<Step>,
    turn: int,
    topic_id: TypeId,
    consumer_id: ConsumerId,
)
    requires
        runs(bus, signals, states, steps),
        states[0]@.subscribed(topic_id, consumer_id),
        !signals.contains(Signal::ConsumerDropped { topic_id, consumer_id }),
        0 <= turn <= signals.len(),
    ensures
        states[turn]@.subscribed(topic_id, consumer_id),
        states[turn]@.listeners[topic_id][consumer_id].filter
            == states[0]@.listeners[topic_id][consumer_id].filter,
        states[turn]@.listeners[topic_id][consumer_id].channel
            == states[0]@.listeners[topic_id][consumer_id].channel,
{
    let first_signals = signals.take(turn);
    let first_states = states.take(turn + 1);
    let first_steps = steps.take(turn);
    assert forall|i: int| 0 <= i < first_signals.len() implies bus.steps(
        #[trigger] first_signals[i],
        first_states[i],
        first_states[i + 1],
        first_steps[i],
    ) by {
        assert(first_signals[i] == signals[i]);
        assert(first_states[i + 1] == states[i + 1]);
    }
    assert(runs(bus, first_signals, first_states, first_steps));
    assert forall|i: int| 0 <= i < first_signals.len() implies first_signals[i] != (
    Signal::ConsumerDropped { topic_id, consumer_id }) by {
        assert(first_signals[i] == signals[i]);
    }
    law_run_keeps_consumers(bus, first_signals, first_states, first_steps, topic_id, consumer_id);
    assert(first_states.last() == states[turn]);
}

/// A bus that handles a subscription offers the new consumer, from then on, exactly the events of its
/// topic that the filter of the message accepts, each once and in order, as long as the consumer is
/// not dropped and nobody turns out to be gone. They go into the channel that the consumer was
/// answered with.
pub proof fn law_subscriber_hears_from_now_on(
    bus: EventBus,
    topic_id: TypeId,
    sender: oneshot::Sender<ConsumerReceiver>,
    filter: OptionalBoxedFilter,
    before: EventSinkState,
    subscribed: Handled,
    signals: Seq<Signal>,
    states: Seq<EventSinkState>,
    steps: Seq<Step>,
)
    requires
        before.wf(),
        bus.handles(
            EventMessage::Subscribe { topic_id, sender, filter },
            before,
            states[0],
            subscribed,
        ),
        runs(bus, signals, states, steps),
        !signals.contains(
            Signal::ConsumerDropped { topic_id, consumer_id: before@.next_id as ConsumerId },
        ),
        decided_on(filter, topic_id, signals),
        nobody_gone_in(steps),
    ensures
        ({
            let id = before@.next_id as ConsumerId;
            let listener = states.last()@.listeners[topic_id][id];
            &&& states.last()@.listeners.contains_key(topic_id)
            &&& states.last()@.listeners[topic_id].contains_key(id)
            &&& listener.filter == filter
            &&& events_of(listener.offers) == meant_for(signals, topic_id, filter)
            &&& exists|receiver: ConsumerReceiver, result: Result<(), ConsumerReceiver>| #[trigger]
                call_ensures(
                    oneshot::Sender::<ConsumerReceiver>::send,
                    (sender, receiver),
                    result,
                ) && call_ensures(
                    mpsc::channel::<Event>,
                    (bus.capacity(),),
                    (listener.channel, receiver.receiver.receiver()),
                )
        }),
{
    let id = before@.next_id as ConsumerId;
    law_subscription_is_what_was_asked_for(
        bus,
        topic_id,
        sender,
        filter,
        before,
        states[0],
        subscribed,
    );
    let (receiver, result) = choose|
        receiver: ConsumerReceiver,
        result: Result<(), ConsumerReceiver>,
    | #[trigger]
        call_ensures(oneshot::Sender::<ConsumerReceiver>::send, (sender, receiver), result)
            && registered(bus.capacity(), before, states[0], topic_id, filter, receiver);
    law_consumer_hears_from_now_on(bus, before, receiver, filter, signals, states, steps);
    assert(states[0]@.subscribed(topic_id, id));
    lemma_listed_until(bus, signals, states, steps, signals.len() as int, topic_id, id);
}

// ---------------------------------------------------------------------------------------------
// Channels, notices and tasks
// ---------------------------------------------------------------------------------------------

/// The outcome of an offer says what the channel answered.
pub proof fn law_call_of_outcome<T>(result: Result<(), TrySendError<T>>, ended: Outcome)
    requires
        call_ensures(outcome::<T>, (result,), ended),
    ensures
        result is Ok <==> ended == Outcome::Sent,
        (result is Err && result->Err_0 is Full) <==> ended == Outcome::Dropped,
        (result is Err && result->Err_0 is Closed) <==> ended == Outcome::Closed,
{
}

/// A channel is one that tokio made for that many messages, and nothing went through it yet.
pub proof fn law_call_of_open_channel<T>(capacity: usize, ends: (Outbox<T>, Inbox<T>))
    requires
        call_ensures(open_channel::<T>, (capacity,), ends),
    ensures
        call_ensures(mpsc::channel::<T>, (capacity,), (ends.0.sender(), ends.1.receiver())),
        ends.0.offers().len() == 0,
        ends.1.takes().len() == 0,
{
}

/// Offering a message makes one offer more, of that message, with the outcome that is given back.
pub proof fn law_call_of_offer<T>(
    before: Outbox<T>,
    after: Outbox<T>,
    message: T,
    ended: Outcome,
)
    requires
        exists|outbox: &mut Outbox<T>| #[trigger]
            call_ensures(Outbox::<T>::offer, (outbox, message), ended) && *outbox == before
                && *final(outbox) == after,
    ensures
        after.sender() == before.sender(),
        after.offers() == before.offers().push((message, ended)),
{
}

/// Taking a message makes one take more, with the result that is given back.
pub proof fn law_call_of_try_take<T>(
    before: Inbox<T>,
    after: Inbox<T>,
    result: Result<T, TryRecvError>,
)
    requires
        exists|inbox: &mut Inbox<T>| #[trigger]
            call_ensures(Inbox::<T>::try_take, (inbox,), result) && *inbox == before
                && *final(inbox) == after,
    ensures
        after.receiver() == before.receiver(),
        after.takes() == before.takes().push(result),
{
}

/// What a listener shows is what its sender has: the channel, the filter, and the offers made.
pub proof fn law_listener_shows_its_sender(
    outbox: Outbox<Event>,
    filter: OptionalBoxedFilter,
    made: EventSender,
    sender: EventSender,
)
    requires
        call_ensures(EventSender::new, (outbox, filter), made),
    ensures
        made@.channel == outbox.sender(),
        made@.offers == outbox.offers(),
        made@.filter == filter,
        sender@.channel == sender.sender.sender(),
        sender@.offers == sender.sender.offers(),
        sender@.filter == sender.filter,
{
}

/// Offering an event to a consumer makes one offer more; a consumer whose filter is asked first is
/// offered the event only if the filter can say yes, and otherwise the filter can say no and
/// nothing is offered.
pub proof fn law_calls_of_event_sender(
    before: EventSender,
    after: EventSender,
    asked: EventSender,
    event: Event,
    ended: Outcome,
    answer: Option<Outcome>,
    heard: bool,
)
    requires
        exists|sender: &mut EventSender| #[trigger]
            call_ensures(EventSender::offer, (sender, event), ended) && *sender == before
                && *final(sender) == after,
        exists|sender: &mut EventSender| #[trigger]
            call_ensures(EventSender::offer_if_heard, (sender, &event), answer) && *sender == before
                && *final(sender) == asked,
        call_ensures(EventSender::hears, (&before, &event.topic), heard),
    ensures
        after.sender.sender() == before.sender.sender(),
        after.filter == before.filter,
        after.sender.offers() == before.sender.offers().push((event, ended)),
        asked.sender.sender() == before.sender.sender(),
        asked.filter == before.filter,
        match answer {
            Some(outcome) => asked.sender.offers() == before.sender.offers().push((event, outcome))
                && before.filter.may_answer(event.topic, true),
            None => asked.sender.offers() == before.sender.offers() && before.filter.may_answer(
                event.topic,
                false,
            ),
        },
        before.filter.may_answer(event.topic, heard),
{
    assert(before@.offers + seq![(event, ended)] =~= before@.offers.push((event, ended)));
    if answer is Some {
        assert(before@.offers + seq![(event, answer->0)] =~= before@.offers.push(
            (event, answer->0),
        ));
    }
    assert(before@.filter == before.filter);
    assert(after@.filter == after.filter);
    assert(asked@.filter == asked.filter);
}

/// A channel of notices is one that tokio made, and nothing was done with it yet.
pub proof fn law_call_of_open_notices(channel: DropChannel)
    requires
        call_ensures(open_notices, (), channel),
    ensures
        channel.0.uses().len() == 0,
{
}

/// Notifying sends that one notice, and nothing else; sharing makes one more sending end of the same
/// channel, which has done nothing yet, and sends nothing.
pub proof fn law_calls_of_notice_sender(
    before: NoticeSender,
    told: NoticeSender,
    notice: Notice,
    lent: NoticeSender,
    shared: NoticeSender,
)
    requires
        exists|end: &mut NoticeSender| #[trigger]
            call_ensures(NoticeSender::notify, (end, notice), ()) && *end == before && *final(end)
                == told,
        exists|end: &mut NoticeSender| #[trigger]
            call_ensures(NoticeSender::share, (end,), shared) && *end == before && *final(end)
                == lent,
    ensures
        told.sender() == before.sender(),
        told.uses() == before.uses().push(NoticeUse::Sent(notice)),
        lent.sender() == before.sender(),
        lent.uses() == before.uses().push(NoticeUse::Shared),
        shared.sender() == before.sender(),
        shared.uses().len() == 0,
{
}

/// Aborting an actor asks its task to end at once; shutting it down asks its task, once, to shut
/// down, and not to end at once, and hands out that task.
pub proof fn law_calls_of_actor_handle(
    task_handle: JoinHandle<()>,
    token: CancellationToken,
    made: ActorHandle,
    before: ActorHandle,
    aborted: ActorHandle,
    stopping: Task,
)
    requires
        call_ensures(ActorHandle::new, (task_handle, token), made),
        exists|handle: &mut ActorHandle| #[trigger]
            call_ensures(ActorHandle::abort, (handle,), ()) && *handle == before && *final(handle)
                == aborted,
        call_ensures(ActorHandle::graceful_shutdown, (before,), stopping),
    ensures
        made.task.handle() == task_handle,
        made.task.token() == token,
        made.task.requests().len() == 0,
        aborted.task.handle() == before.task.handle(),
        aborted.task.token() == before.task.token(),
        aborted.task.requests() == before.task.requests().push(TaskRequest::Abort),
        stopping.handle() == before.task.handle(),
        stopping.token() == before.task.token(),
        stopping.requests() == before.task.requests().push(TaskRequest::Cancel),
{
}

/// Asking a task to shut down, or to end at once, asks that of it, once, and nothing else.
pub proof fn law_calls_of_task(
    handle: JoinHandle<()>,
    token: CancellationToken,
    made: Task,
    before: Task,
    cancelled: Task,
    aborted: Task,
)
    requires
        call_ensures(Task::new, (handle, token), made),
        exists|task: &mut Task| #[trigger]
            call_ensures(Task::cancel, (task,), ()) && *task == before && *final(task) == cancelled,
        exists|task: &mut Task| #[trigger]
            call_ensures(Task::abort, (task,), ()) && *task == before && *final(task) == aborted,
    ensures
        made.handle() == handle,
        made.token() == token,
        made.requests().len() == 0,
        cancelled.handle() == before.handle(),
        cancelled.token() == before.token(),
        cancelled.requests() == before.requests().push(TaskRequest::Cancel),
        aborted.handle() == before.handle(),
        aborted.token() == before.token(),
        aborted.requests() == before.requests().push(TaskRequest::Abort),
{
}

// ---------------------------------------------------------------------------------------------
// Actors and messages
// ---------------------------------------------------------------------------------------------

/// A mailbox holds up to a thousand messages; what asks the actor to shut down is what the actor
/// watches.
pub proof fn law_call_of_mailbox_new<M>(mailbox: Mailbox<M>)
    requires
        call_ensures(Mailbox::<M>::new, (), mailbox),
    ensures
        call_ensures(mpsc::channel::<M>, (1000,), (mailbox.addr.sender, mailbox.receiver)),
        call_ensures(CancellationToken::new, (), mailbox.cancellation_token),
        mailbox.actors_cancel_token == mailbox.cancellation_token,
{
    assert(MAILBOX_CAPACITY == 1000);
}

/// An address and its clone lead to the actor whose mailbox they were made for, and so does the
/// handle to a bus. A message that was not taken comes back to the one who sent it.
pub proof fn law_calls_of_addr<M>(
    sender: mpsc::Sender<M>,
    addr: Addr<M>,
    clone: Addr<M>,
    result: Result<(), SendError<M>>,
    sent: Result<(), AddrError<M>>,
)
    requires
        call_ensures(Addr::<M>::new, (sender,), addr),
        call_ensures(<Addr<M> as Clone>::clone, (&addr,), clone),
        call_ensures(Addr::<M>::send_result, (result,), sent),
    ensures
        addr.sender == sender,
        clone.sender == sender,
        sent is Ok <==> result is Ok,
        result is Err ==> sent->Err_0.0 == result->Err_0,
{
}

/// An actor that wakes up to a message handles that message; on anything else it stops.
pub proof fn law_call_of_next_turn<M>(signal: ActorSignal<M>, turn: Turn<M>)
    requires
        call_ensures(next_turn::<M>, (signal,), turn),
    ensures
        turn is Stop <==> (signal is Cancelled || signal == ActorSignal::<M>::Message(None)),
        signal matches ActorSignal::Message(Some(message)) ==> turn == Turn::Handle(message),
{
}

/// What the bus tells of an answer is how the answer ended.
pub proof fn law_calls_of_handled(
    consumer_id: ConsumerId,
    taken: Result<(), ConsumerReceiver>,
    subscription: Handled,
    read: Result<(), EventBusStats>,
    statistics: Handled,
)
    requires
        call_ensures(Handled::subscription, (consumer_id, taken), subscription),
        call_ensures(Handled::statistics, (read,), statistics),
    ensures
        taken is Ok ==> subscription == Handled::Subscribed(consumer_id),
        taken is Err ==> subscription == Handled::SubscriberGone(taken->Err_0),
        read is Ok ==> statistics == Handled::StatsSent,
        read is Err ==> statistics == Handled::StatsRefused(read->Err_0),
{
}

/// A bus starts without consumers, with all ids left, and having told nobody anything.
pub proof fn law_new_bus_has_no_consumers(state: EventSinkState, topic_id: TypeId)
    requires
        call_ensures(EventSinkState::new, (), state) || call_ensures(
            <EventSinkState as Default>::default,
            (),
            state,
        ),
    ensures
        state.wf(),
        state@.next_id == 0,
        !state@.listeners.contains_key(topic_id),
        state@.listeners.dom().len() == 0,
        state.drop_channel().0.uses().len() == 0,
{
}

/// Every message goes by the name of its kind.
pub proof fn law_call_of_name(message: EventMessage, name: &'static str)
    requires
        call_ensures(EventMessage::name, (&message,), name),
    ensures
        message is Event ==> name@ == "Event"@,
        message is Subscribe ==> name@ == "Subscribe"@,
        message is Stats ==> name@ == "Request stats"@,
{
}

/// What went wrong with a message is always told in the same words.
pub proof fn law_call_of_describe<M>(error: AddrError<M>, text: &'static str)
    requires
        call_ensures(AddrError::<M>::describe, (&error,), text),
    ensures
        text@ == "Failed to send message to actor"@,
{
}

/// The handle to a bus leads to the bus at the address that it was made from.
pub proof fn law_handle_leads_to_its_bus(addr: Addr<EventMessage>, bus: EventBusAddr)
    requires
        call_ensures(<EventBusAddr as From<Addr<EventMessage>>>::from, (addr,), bus),
    ensures
        bus.0.sender == addr.sender,
{
}

/// What is lent to those who wait is the end itself, and nothing else changes while it is lent: who
/// is listed, what is in the logs, and which task is asked.
pub proof fn law_lent_ends()
    ensures
        forall|state: &mut EventSinkState, notices: &mut mpsc::UnboundedReceiver<Notice>| #[trigger]
            call_ensures(EventSinkState::drop_notices, (state,), notices) ==> {
                &&& *notices == state.drop_channel().1
                &&& final(state)@ == state@
                &&& final(state).wf()
                &&& final(state).drop_channel().0 == state.drop_channel().0
                &&& final(state).drop_channel().1 == *final(notices)
            },
        forall|inbox: &mut Inbox<Event>, events: &mut mpsc::Receiver<Event>| #[trigger]
            call_ensures(Inbox::<Event>::waiting, (inbox,), events) ==> {
                &&& *events == inbox.receiver()
                &&& final(inbox).receiver() == *final(events)
                &&& final(inbox).takes() == inbox.takes()
            },
        forall|task: &mut Task, handle: &mut JoinHandle<()>| #[trigger]
            call_ensures(Task::waiting, (task,), handle) ==> {
                &&& *handle == task.handle()
                &&& final(task).handle() == *final(handle)
                &&& final(task).token() == task.token()
                &&& final(task).requests() == task.requests()
            },
{
}

} // verus!
