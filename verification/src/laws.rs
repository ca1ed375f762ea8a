//! What holds of the bus as a whole: who hears an event, what they read, and what lasts from one
//! turn of the bus to the next.

use std::any::TypeId;
use tokio::sync::mpsc::error::TryRecvError;
use vstd::prelude::*;

use crate::actor::ActorSignal;
use crate::address::Request;
use crate::any_value::{holds, reveals, type_held, AnyValue};
use crate::channel::Outcome;
use crate::consumer::{recovered_from, ConsumerReceiver, RecoveredEvent};
use crate::event::{
    delivered, mentions, offered_in_turn, offers_in, selection, Delivery, Event, EventMessage,
    Listener, Topic,
};
use crate::event_bus::{
    published, registered, EventBus, EventSinkState, Handled, Signal, Step,
};
use crate::filter::{Filter, OptionalBoxedFilter};
use crate::notices::NoticeUse;
use crate::outside::{channel_ends, type_id_of};
use crate::registry::{ConsumerId, Registry};

verus! {

/// No consumer turned out to be gone.
pub open spec fn nobody_gone(report: Seq<Delivery>) -> bool {
    forall|i: int| 0 <= i < report.len() ==> (#[trigger] report[i]).outcome != Outcome::Closed
}

/// An event is offered to every consumer of its topic that its filter does not keep it from, as
/// long as nobody turns out to be gone.
pub proof fn law_every_listener_is_offered(
    listeners: Map<ConsumerId, Listener>,
    event: Event,
    report: Seq<Delivery>,
    consumer_id: ConsumerId,
)
    requires
        delivered(listeners, event, report),
        nobody_gone(report),
        listeners.contains_key(consumer_id),
        !listeners[consumer_id].rejects(event.topic),
    ensures
        mentions(report, consumer_id),
{
    let asked = choose|asked: Seq<ConsumerId>| offered_in_turn(listeners, event, asked, report);
    let i = asked.index_of(consumer_id);
    assert(asked[i] == consumer_id);
}

/// An event is offered only to consumers of its topic that its filter lets it through to, and to
/// each of them once.
pub proof fn law_only_listeners_are_offered(
    listeners: Map<ConsumerId, Listener>,
    event: Event,
    report: Seq<Delivery>,
)
    requires
        delivered(listeners, event, report),
    ensures
        forall|i: int|
            0 <= i < report.len() ==> listeners.contains_key((#[trigger] report[i]).consumer_id)
                && listeners[report[i].consumer_id].accepts(event.topic),
        forall|i: int, j: int|
            0 <= i < j < report.len() ==> (#[trigger] report[i]).consumer_id != (
            #[trigger] report[j]).consumer_id,
{
    let asked = choose|asked: Seq<ConsumerId>| offered_in_turn(listeners, event, asked, report);
    assert forall|i: int| 0 <= i < report.len() implies listeners.contains_key(
        (#[trigger] report[i]).consumer_id,
    ) && listeners[report[i].consumer_id].accepts(event.topic) by {
        let j = asked.index_of(report[i].consumer_id);
        assert(listeners.contains_key(asked[j]));
    }
}

/// Where every filter has one answer to a topic, the consumers that an event is offered to are
/// exactly those whose filter accepts its topic, as long as nobody turns out to be gone.
pub proof fn law_filters_decide(
    listeners: Map<ConsumerId, Listener>,
    event: Event,
    report: Seq<Delivery>,
)
    requires
        delivered(listeners, event, report),
        nobody_gone(report),
        forall|id: ConsumerId| #[trigger]
            listeners.contains_key(id) ==> listeners[id].decided(event.topic),
    ensures
        forall|id: ConsumerId| #[trigger]
            mentions(report, id) <==> listeners.contains_key(id) && listeners[id].accepts(
                event.topic,
            ),
{
    law_only_listeners_are_offered(listeners, event, report);
    assert forall|id: ConsumerId| #[trigger] mentions(report, id) <==> listeners.contains_key(id)
        && listeners[id].accepts(event.topic) by {
        if listeners.contains_key(id) && listeners[id].accepts(event.topic) {
            law_every_listener_is_offered(listeners, event, report, id);
        }
    }
}

/// Two values of one topic have the same consumers to choose from: either both find some or
/// neither does, and those without a filter are chosen for both.
pub proof fn law_topic_is_a_type(
    registry: Registry<Listener>,
    topic: AnyValue,
    other: AnyValue,
    chosen: Seq<ConsumerId>,
    other_chosen: Seq<ConsumerId>,
    consumer_id: ConsumerId,
)
    requires
        type_held(topic) == type_held(other),
        selection(registry.topic_listeners(type_held(topic)), topic, chosen),
        selection(registry.topic_listeners(type_held(other)), other, other_chosen),
    ensures
        registry.listeners.contains_key(type_held(topic)) == registry.listeners.contains_key(
            type_held(other),
        ),
        chosen.contains(consumer_id) ==> registry.subscribed(type_held(topic), consumer_id),
        other_chosen.contains(consumer_id) ==> registry.subscribed(type_held(topic), consumer_id),
        registry.subscribed(type_held(topic), consumer_id)
            && registry.listeners[type_held(topic)][consumer_id].filter.is_none()
            ==> chosen.contains(consumer_id) && other_chosen.contains(consumer_id),
{
    let listeners = registry.topic_listeners(type_held(topic));
    if chosen.contains(consumer_id) {
        assert(listeners.contains_key(chosen[chosen.index_of(consumer_id)]));
    }
    if other_chosen.contains(consumer_id) {
        assert(listeners.contains_key(other_chosen[other_chosen.index_of(consumer_id)]));
    }
    if registry.subscribed(type_held(topic), consumer_id)
        && registry.listeners[type_held(topic)][consumer_id].filter.is_none() {
        assert(listeners.contains_key(consumer_id));
        assert(!listeners[consumer_id].rejects(topic));
        assert(!listeners[consumer_id].rejects(other));
    }
}

/// Where each consumer has at most one entry, an entry is all that a report tells of a consumer.
proof fn lemma_offers_in(event: Event, report: Seq<Delivery>, consumer_id: ConsumerId)
    requires
        forall|i: int, j: int|
            0 <= i < j < report.len() ==> (#[trigger] report[i]).consumer_id != (
            #[trigger] report[j]).consumer_id,
    ensures
        !mentions(report, consumer_id) ==> offers_in(event, report, consumer_id) == Seq::<
            (Event, Outcome),
        >::empty(),
        forall|i: int|
            0 <= i < report.len() && (#[trigger] report[i]).consumer_id == consumer_id
                ==> offers_in(event, report, consumer_id) == seq![(event, report[i].outcome)],
    decreases report.len(),
{
    if report.len() > 0 {
        let earlier = report.drop_last();
        let last = report.len() - 1;
        assert forall|i: int, j: int| 0 <= i < j < earlier.len() implies (
        #[trigger] earlier[i]).consumer_id != (#[trigger] earlier[j]).consumer_id by {
            assert(earlier[i] == report[i] && earlier[j] == report[j]);
        }
        lemma_offers_in(event, earlier, consumer_id);
        if mentions(earlier, consumer_id) {
            let i = choose|i: int|
                0 <= i < earlier.len() && (#[trigger] earlier[i]).consumer_id == consumer_id;
            assert(report[i].consumer_id == consumer_id);
            assert(report[last].consumer_id != consumer_id);
        }
        assert(!mentions(report, consumer_id) ==> report[last].consumer_id != consumer_id);
        assert forall|i: int|
            0 <= i < report.len() && (#[trigger] report[i]).consumer_id == consumer_id
            implies offers_in(event, report, consumer_id) == seq![(event, report[i].outcome)] by {
            if i < last {
                assert(earlier[i].consumer_id == consumer_id);
            } else {
                if mentions(earlier, consumer_id) {
                    let j = choose|j: int|
                        0 <= j < earlier.len() && (#[trigger] earlier[j]).consumer_id
                            == consumer_id;
                    assert(report[j].consumer_id != report[i].consumer_id);
                }
                assert(offers_in(event, earlier, consumer_id).push((event, report[i].outcome))
                    =~= seq![(event, report[i].outcome)]);
            }
        }
        if !mentions(report, consumer_id) {
            if mentions(earlier, consumer_id) {
                let j = choose|j: int|
                    0 <= j < earlier.len() && (#[trigger] earlier[j]).consumer_id == consumer_id;
                assert(report[j].consumer_id == consumer_id);
            }
        }
    }
}

/// Publishing offers the event, once, to the consumers that the report names, and does nothing to
/// anybody else: nobody comes, nobody goes, and no channel or filter changes.
pub proof fn law_one_offer_each(
    before: Registry<Listener>,
    after: Registry<Listener>,
    event: Event,
    report: Seq<Delivery>,
    topic_id: TypeId,
    consumer_id: ConsumerId,
)
    requires
        before.wf(),
        published(before, after, event, report),
    ensures
        after.next_id == before.next_id,
        after.subscribed(topic_id, consumer_id) == before.subscribed(topic_id, consumer_id),
        before.subscribed(topic_id, consumer_id) && !mentions(report, consumer_id)
            ==> after.listeners[topic_id][consumer_id] == before.listeners[topic_id][consumer_id],
        before.subscribed(topic_id, consumer_id) && mentions(report, consumer_id) ==> {
            &&& event.topic_id() == topic_id
            &&& exists|i: int|
                0 <= i < report.len() && (#[trigger] report[i]).consumer_id == consumer_id
                    && after.listeners[topic_id][consumer_id]
                    == before.listeners[topic_id][consumer_id].having_offered(
                    seq![(event, report[i].outcome)],
                )
        },
{
    let listeners = before.topic_listeners(event.topic_id());
    law_only_listeners_are_offered(listeners, event, report);
    lemma_offers_in(event, report, consumer_id);
    if before.subscribed(topic_id, consumer_id) {
        let listener = before.listeners[topic_id][consumer_id];
        if mentions(report, consumer_id) {
            let i = choose|i: int|
                0 <= i < report.len() && (#[trigger] report[i]).consumer_id == consumer_id;
            assert(before.subscribed(event.topic_id(), report[i].consumer_id));
            assert(report[i].consumer_id == consumer_id);
        } else {
            assert(listener.offers + Seq::<(Event, Outcome)>::empty() =~= listener.offers);
        }
    }
}

/// An event of a topic without consumers is offered to nobody, and changes nothing.
pub proof fn law_no_consumers_no_offers(
    before: Registry<Listener>,
    after: Registry<Listener>,
    event: Event,
    report: Seq<Delivery>,
)
    requires
        !before.listeners.contains_key(event.topic_id()),
        published(before, after, event, report),
    ensures
        report.len() == 0,
        after == before,
{
    law_only_listeners_are_offered(before.topic_listeners(event.topic_id()), event, report);
    if report.len() > 0 {
        assert(Map::<ConsumerId, Listener>::empty().contains_key(report[0].consumer_id));
    }
}

/// A consumer hears nothing of other topics.
pub proof fn law_topics_do_not_mix(
    before: Registry<Listener>,
    after: Registry<Listener>,
    event: Event,
    report: Seq<Delivery>,
    topic_id: TypeId,
    consumer_id: ConsumerId,
)
    requires
        before.wf(),
        before.subscribed(topic_id, consumer_id),
        event.topic_id() != topic_id,
        published(before, after, event, report),
    ensures
        !mentions(report, consumer_id),
        after.subscribed(topic_id, consumer_id),
        after.listeners[topic_id][consumer_id] == before.listeners[topic_id][consumer_id],
{
    law_one_offer_each(before, after, event, report, topic_id, consumer_id);
}

/// No more events are offered to a consumer that was removed.
pub proof fn law_removed_hears_nothing(
    registry: Registry<Listener>,
    topic_id: TypeId,
    consumer_id: ConsumerId,
    after: Registry<Listener>,
    event: Event,
    report: Seq<Delivery>,
)
    requires
        registry.wf(),
        registry.subscribed(topic_id, consumer_id),
        published(registry.unsubscribe(topic_id, consumer_id), after, event, report),
    ensures
        !mentions(report, consumer_id),
{
    let rest = registry.unsubscribe(topic_id, consumer_id);
    registry.law_unsubscribe_takes_one(topic_id, consumer_id);
    law_only_listeners_are_offered(rest.topic_listeners(event.topic_id()), event, report);
    if mentions(report, consumer_id) {
        assert(rest.subscribed(event.topic_id(), consumer_id));
    }
}

/// A consumer without a filter is kept from nothing, and one with the filter [`Filter::none`] is
/// kept from nothing either.
pub proof fn law_unfiltered_hears_all<T: Topic>(listener: Listener, topic: AnyValue)
    requires
        listener.filter.is_none() || listener.filter.asks::<T, _>(Filter::none::<T>),
    ensures
        !listener.rejects(topic),
{
}

/// In a well-formed bus every filter that an event meets can be asked about its topic: no filter
/// is ever shown a topic of another type.
pub proof fn law_filters_see_their_own_topic(
    state: EventSinkState,
    event: Event,
    consumer_id: ConsumerId,
)
    requires
        state.wf(),
        state@.topic_listeners(event.topic_id()).contains_key(consumer_id),
    ensures
        state@.topic_listeners(event.topic_id())[consumer_id].fits(type_held(event.topic)),
{
    state.law_wf();
    assert(state@.subscribed(event.topic_id(), consumer_id));
}

/// A message goes to the consumers of the type that it was sent for: a producer and a consumer of
/// one topic type name the same topic to the bus, and the consumer's filter is one for that topic.
pub proof fn law_producer_meets_consumer<T: Topic, F: Fn(&T) -> bool>(
    request: Request<ConsumerReceiver>,
    rule: F,
    event: Event,
    topic: T,
    message: T::MessageType,
)
    requires
        request.subscribes::<T, F>(rule),
        event.brings::<T>(topic, message),
    ensures
        request.message matches EventMessage::Subscribe { topic_id, filter, .. } && topic_id
            == event.topic_id() && filter.fits(topic_id),
{
}

/// What a consumer reads from an event is the message that the producer sent: the event can be
/// read, and whatever is read from it is that message.
pub proof fn law_read_what_was_sent<T: Topic>(
    event: Event,
    topic: T,
    message: T::MessageType,
    recovered: RecoveredEvent<T>,
    read: T::MessageType,
)
    requires
        event.brings::<T>(topic, message),
        recovered_from::<T>(Ok(event), Ok(recovered)),
    ensures
        type_held(recovered.payload) == type_id_of::<T::MessageType>(),
        recovered.reads(read) ==> read == message,
{
    assert(holds(recovered.payload, message));
}

/// A filter is asked about the value that the producer's topic has, and its answer is what the rule
/// says of it.
pub proof fn law_filter_sees_the_subtopic<T: Topic, F: Fn(&T) -> bool>(
    filter: OptionalBoxedFilter,
    rule: F,
    event: Event,
    topic: T,
    message: T::MessageType,
    accepted: bool,
)
    requires
        filter.asks::<T, F>(rule),
        event.brings::<T>(topic, message),
        filter.may_answer(event.topic, accepted),
    ensures
        call_ensures(rule, (&topic,), accepted),
{
    let value = choose|value: T|
        reveals(event.topic, value) && #[trigger] call_ensures(rule, (&value,), accepted);
    assert(holds(event.topic, topic));
}

/// What a turn of the bus offered to the consumer `consumer_id` of `topic_id`.
pub open spec fn heard_in_turn(
    signal: Signal,
    step: Step,
    topic_id: TypeId,
    consumer_id: ConsumerId,
) -> Seq<(Event, Outcome)> {
    match (signal, step) {
        (
            Signal::Actor(ActorSignal::Message(Some(EventMessage::Event(event)))),
            Step::Handled(Handled::Published(report)),
        ) => if event.topic_id() == topic_id {
            offers_in(event, report@, consumer_id)
        } else {
            Seq::empty()
        },
        _ => Seq::empty(),
    }
}

/// What the turns of a run offered to the consumer `consumer_id` of `topic_id`, the first turn
/// first.
pub open spec fn heard(
    signals: Seq<Signal>,
    steps: Seq<Step>,
    topic_id: TypeId,
    consumer_id: ConsumerId,
) -> Seq<(Event, Outcome)>
    decreases signals.len(),
{
    if signals.len() == 0 {
        Seq::empty()
    } else {
        heard(signals.drop_last(), steps.drop_last(), topic_id, consumer_id) + heard_in_turn(
            signals.last(),
            steps.last(),
            topic_id,
            consumer_id,
        )
    }
}

/// A turn of the bus keeps every consumer subscribed that is not dropped in it, with its channel
/// and its filter, and offers it what the report of an event says, and nothing on any other signal:
/// on subscriptions, on requests for statistics, on drop notices, and when the bus stops.
pub proof fn law_turn_keeps_consumers(
    bus: EventBus,
    signal: Signal,
    before: EventSinkState,
    after: EventSinkState,
    step: Step,
    topic_id: TypeId,
    consumer_id: ConsumerId,
)
    requires
        before.wf(),
        bus.steps(signal, before, after, step),
        before@.subscribed(topic_id, consumer_id),
        signal != (Signal::ConsumerDropped { topic_id, consumer_id }),
    ensures
        after@.subscribed(topic_id, consumer_id),
        after@.listeners[topic_id][consumer_id]
            == before@.listeners[topic_id][consumer_id].having_offered(
            heard_in_turn(signal, step, topic_id, consumer_id),
        ),
{
    before.law_wf();
    let listener = before@.listeners[topic_id][consumer_id];
    assert(listener.offers + Seq::<(Event, Outcome)>::empty() =~= listener.offers);
    match signal {
        Signal::Actor(ActorSignal::Message(Some(EventMessage::Subscribe { topic_id: t, .. }))) => {
            let added = after@.listeners[t][before@.next_id as ConsumerId];
            before@.law_subscribe_adds_one(t, added);
        },
        Signal::ConsumerDropped { topic_id: t, consumer_id: c } => {
            if before@.subscribed(t, c) {
                before@.law_unsubscribe_takes_one(t, c);
            } else {
                before@.law_unsubscribe_unknown_is_a_no_op(t, c);
            }
        },
        _ => {},
    }
}

/// A turn of the bus never takes an id back, and brings nobody back who is gone.
pub proof fn law_turn_keeps_gone_consumers_out(
    bus: EventBus,
    signal: Signal,
    before: EventSinkState,
    after: EventSinkState,
    step: Step,
    consumer_id: ConsumerId,
)
    requires
        before.wf(),
        bus.steps(signal, before, after, step),
        consumer_id < before@.next_id,
        forall|topic_id: TypeId| !#[trigger] before@.subscribed(topic_id, consumer_id),
    ensures
        before@.next_id <= after@.next_id,
        forall|topic_id: TypeId| !#[trigger] after@.subscribed(topic_id, consumer_id),
{
    before.law_wf();
    assert forall|topic_id: TypeId| !#[trigger] after@.subscribed(topic_id, consumer_id) by {
        assert(!before@.subscribed(topic_id, consumer_id));
        match signal {
            Signal::Actor(
                ActorSignal::Message(Some(EventMessage::Subscribe { topic_id: t, .. })),
            ) => {
                let added = after@.listeners[t][before@.next_id as ConsumerId];
                before@.law_subscribe_adds_one(t, added);
            },
            Signal::ConsumerDropped { topic_id: t, consumer_id: c } => {
                if before@.subscribed(t, c) {
                    before@.law_unsubscribe_takes_one(t, c);
                } else {
                    before@.law_unsubscribe_unknown_is_a_no_op(t, c);
                }
            },
            _ => {},
        }
    }
}

/// The bus sends no drop notice through its own end of the channel: it only makes one more sending
/// end for every new consumer. The end at which notices arrive stays the same.
pub proof fn law_turn_sends_no_notice(
    bus: EventBus,
    signal: Signal,
    before: EventSinkState,
    after: EventSinkState,
    step: Step,
)
    requires
        bus.steps(signal, before, after, step),
    ensures
        after.drop_channel().0.sender() == before.drop_channel().0.sender(),
        after.drop_channel().1 == before.drop_channel().1,
        after.drop_channel().0.uses() == if signal matches Signal::Actor(
            ActorSignal::Message(Some(EventMessage::Subscribe { .. })),
        ) {
            before.drop_channel().0.uses().push(NoticeUse::Shared)
        } else {
            before.drop_channel().0.uses()
        },
{
}

/// `states` are the states of a bus that woke up to `signals`, one after the other, and did
/// `steps`. A bus that stopped does not wake up again.
pub open spec fn runs(
    bus: EventBus,
    signals: Seq<Signal>,
    states: Seq<EventSinkState>,
    steps: Seq<Step>,
) -> bool {
    &&& states.len() == signals.len() + 1
    &&& steps.len() == signals.len()
    &&& forall|i: int| 0 <= i < states.len() ==> (#[trigger] states[i]).wf()
    &&& forall|i: int|
        0 <= i < signals.len() ==> bus.steps(
            #[trigger] signals[i],
            states[i],
            states[i + 1],
            steps[i],
        )
    &&& forall|i: int| 0 <= i < steps.len() - 1 ==> !(#[trigger] steps[i] is Stop)
}

/// A run without its last turn is a run.
proof fn lemma_shorter_run(
    bus: EventBus,
    signals: Seq<Signal>,
    states: Seq<EventSinkState>,
    steps: Seq<Step>,
)
    requires
        runs(bus, signals, states, steps),
        signals.len() > 0,
    ensures
        runs(bus, signals.drop_last(), states.drop_last(), steps.drop_last()),
        forall|i: int|
            0 <= i < signals.len() - 1 ==> #[trigger] signals.drop_last()[i] == signals[i],
        states.drop_last().last() == states[signals.len() - 1],
        states.drop_last()[0] == states[0],
        ({
            let last = signals.len() - 1;
            bus.steps(signals.last(), states[last], states.last(), steps.last())
        }),
{
    let earlier = signals.drop_last();
    let last = signals.len() - 1;
    assert forall|i: int| 0 <= i < earlier.len() implies bus.steps(
        #[trigger] earlier[i],
        states.drop_last()[i],
        states.drop_last()[i + 1],
        steps.drop_last()[i],
    ) by {
        assert(earlier[i] == signals[i]);
    }
    assert(bus.steps(signals[last], states[last], states[last + 1], steps[last]));
}

/// A consumer stays subscribed, with its filter and its channel, through every run of the bus in
/// which it is not dropped. What is offered to its channel over the run is what the turns offered
/// it, in the order of the turns, and nothing else.
pub proof fn law_run_keeps_consumers(
    bus: EventBus,
    signals: Seq<Signal>,
    states: Seq<EventSinkState>,
    steps: Seq<Step>,
    topic_id: TypeId,
    consumer_id: ConsumerId,
)
    requires
        runs(bus, signals, states, steps),
        states[0]@.subscribed(topic_id, consumer_id),
        !signals.contains(Signal::ConsumerDropped { topic_id, consumer_id }),
    ensures
        states.last()@.subscribed(topic_id, consumer_id),
        states.last()@.listeners[topic_id][consumer_id]
            == states[0]@.listeners[topic_id][consumer_id].having_offered(
            heard(signals, steps, topic_id, consumer_id),
        ),
    decreases signals.len(),
{
    let first = states[0]@.listeners[topic_id][consumer_id];
    if signals.len() > 0 {
        let last = signals.len() - 1;
        let earlier = signals.drop_last();
        lemma_shorter_run(bus, signals, states, steps);
        assert(signals[last] == signals.last());
        assert forall|i: int| 0 <= i < earlier.len() implies earlier[i] != (
        Signal::ConsumerDropped { topic_id, consumer_id }) by {
            assert(earlier[i] == signals[i]);
        }
        law_run_keeps_consumers(
            bus,
            earlier,
            states.drop_last(),
            steps.drop_last(),
            topic_id,
            consumer_id,
        );
        law_turn_keeps_consumers(
            bus,
            signals.last(),
            states[last],
            states.last(),
            steps.last(),
            topic_id,
            consumer_id,
        );
        let now = heard_in_turn(signals.last(), steps.last(), topic_id, consumer_id);
        let then = heard(earlier, steps.drop_last(), topic_id, consumer_id);
        assert(first.offers + then + now =~= first.offers + (then + now));
    } else {
        assert(first.offers + Seq::<(Event, Outcome)>::empty() =~= first.offers);
    }
}

/// A consumer that is gone stays gone, and its id is not used again, through every run of the
/// bus.
pub proof fn law_run_keeps_gone_consumers_out(
    bus: EventBus,
    signals: Seq<Signal>,
    states: Seq<EventSinkState>,
    steps: Seq<Step>,
    consumer_id: ConsumerId,
)
    requires
        runs(bus, signals, states, steps),
        consumer_id < states[0]@.next_id,
        forall|topic_id: TypeId| !#[trigger] states[0]@.subscribed(topic_id, consumer_id),
    ensures
        consumer_id < states.last()@.next_id,
        forall|topic_id: TypeId| !#[trigger] states.last()@.subscribed(topic_id, consumer_id),
    decreases signals.len(),
{
    if signals.len() > 0 {
        let last = signals.len() - 1;
        lemma_shorter_run(bus, signals, states, steps);
        law_run_keeps_gone_consumers_out(
            bus,
            signals.drop_last(),
            states.drop_last(),
            steps.drop_last(),
            consumer_id,
        );
        law_turn_keeps_gone_consumers_out(
            bus,
            signals.last(),
            states[last],
            states.last(),
            steps.last(),
            consumer_id,
        );
    }
}

/// `signal` asks the bus to stop, or says that nobody can send it a message any more.
pub open spec fn ends_run(signal: Signal) -> bool {
    signal matches Signal::Actor(actor_signal) && (actor_signal is Cancelled
        || actor_signal == ActorSignal::<EventMessage>::Message(None))
}

/// A bus stops when it is asked to or when nobody can send it a message any more, and on nothing
/// else. It stops at most once, after everything else that it did, and changes nothing then. Until
/// then it handles every message that it wakes up to, in the turn of the message, and in no other
/// turn: messages are handled in the order in which they come, none of them twice.
pub proof fn law_run_handles_all_until_it_stops(
    bus: EventBus,
    signals: Seq<Signal>,
    states: Seq<EventSinkState>,
    steps: Seq<Step>,
    turn: int,
)
    requires
        runs(bus, signals, states, steps),
        0 <= turn < signals.len(),
    ensures
        steps[turn] is Stop <==> ends_run(signals[turn]),
        steps[turn] is Stop ==> turn == signals.len() - 1 && states[turn + 1] == states[turn],
        match signals[turn] {
            Signal::Actor(ActorSignal::Message(Some(message))) => steps[turn] matches Step::Handled(
                handled,
            ) && bus.handles(message, states[turn], states[turn + 1], handled),
            Signal::ConsumerDropped { consumer_id, .. } => steps[turn] == Step::Removed(
                consumer_id,
            ),
            _ => steps[turn] is Stop,
        },
{
    assert(bus.steps(signals[turn], states[turn], states[turn + 1], steps[turn]));
}

/// The events of the topic `topic_id` among `signals` that `filter` accepts, the first one first.
pub open spec fn meant_for(
    signals: Seq<Signal>,
    topic_id: TypeId,
    filter: OptionalBoxedFilter,
) -> Seq<Event>
    decreases signals.len(),
{
    if signals.len() == 0 {
        Seq::empty()
    } else {
        let earlier = meant_for(signals.drop_last(), topic_id, filter);
        match signals.last() {
            Signal::Actor(ActorSignal::Message(Some(EventMessage::Event(event)))) => {
                if event.topic_id() == topic_id && filter.may_answer(event.topic, true) {
                    earlier.push(event)
                } else {
                    earlier
                }
            },
            _ => earlier,
        }
    }
}

/// The events that offers were made of.
pub open spec fn events_of(offers: Seq<(Event, Outcome)>) -> Seq<Event> {
    offers.map_values(|offer: (Event, Outcome)| offer.0)
}

/// The filter has one answer, the same whenever it is asked, to every event of the topic
/// `topic_id` among `signals`.
pub open spec fn decided_on(
    filter: OptionalBoxedFilter,
    topic_id: TypeId,
    signals: Seq<Signal>,
) -> bool {
    forall|i: int|
        0 <= i < signals.len() ==> (#[trigger] signals[i] matches Signal::Actor(
            ActorSignal::Message(Some(EventMessage::Event(event))),
        ) ==> (event.topic_id() == topic_id ==> !(filter.may_answer(event.topic, true)
            && filter.may_answer(event.topic, false))))
}

/// No consumer turned out to be gone in any of the turns.
pub open spec fn nobody_gone_in(steps: Seq<Step>) -> bool {
    forall|i: int|
        0 <= i < steps.len() ==> (#[trigger] steps[i] matches Step::Handled(
            Handled::Published(report),
        ) ==> nobody_gone(report@))
}

/// What a consumer is offered over a run in which it is not dropped, and in which nobody turns out
/// to be gone, are the events of its topic that its filter accepts: all of them, each of them once,
/// in the order in which they come, and no others.
pub proof fn law_run_offers_what_is_meant(
    bus: EventBus,
    signals: Seq<Signal>,
    states: Seq<EventSinkState>,
    steps: Seq<Step>,
    topic_id: TypeId,
    consumer_id: ConsumerId,
    filter: OptionalBoxedFilter,
)
    requires
        runs(bus, signals, states, steps),
        states[0]@.subscribed(topic_id, consumer_id),
        states[0]@.listeners[topic_id][consumer_id].filter == filter,
        !signals.contains(Signal::ConsumerDropped { topic_id, consumer_id }),
        decided_on(filter, topic_id, signals),
        nobody_gone_in(steps),
    ensures
        events_of(heard(signals, steps, topic_id, consumer_id)) == meant_for(
            signals,
            topic_id,
            filter,
        ),
    decreases signals.len(),
{
    if signals.len() > 0 {
        let last = signals.len() - 1;
        let earlier = signals.drop_last();
        let earlier_steps = steps.drop_last();
        lemma_shorter_run(bus, signals, states, steps);
        assert forall|i: int| 0 <= i < earlier.len() implies earlier[i] != (
        Signal::ConsumerDropped { topic_id, consumer_id }) by {
            assert(earlier[i] == signals[i]);
        }
        assert forall|i: int| 0 <= i < earlier_steps.len() implies (
        #[trigger] earlier_steps[i] matches Step::Handled(Handled::Published(report))
            ==> nobody_gone(report@)) by {
            assert(earlier_steps[i] == steps[i]);
        }
        law_run_offers_what_is_meant(
            bus,
            earlier,
            states.drop_last(),
            earlier_steps,
            topic_id,
            consumer_id,
            filter,
        );
        law_run_keeps_consumers(
            bus,
            earlier,
            states.drop_last(),
            earlier_steps,
            topic_id,
            consumer_id,
        );
        let before = states[last];
        before.law_wf();
        let then = heard(earlier, earlier_steps, topic_id, consumer_id);
        let now = heard_in_turn(signals.last(), steps.last(), topic_id, consumer_id);
        assert(events_of(then + now) =~= events_of(then) + events_of(now));
        match signals.last() {
            Signal::Actor(ActorSignal::Message(Some(EventMessage::Event(event)))) => {
                assert(signals[last] == signals.last());
                assert(steps[last] == steps.last());
                let report = steps.last()->Handled_0->Published_0@;
                let listeners = before@.topic_listeners(event.topic_id());
                law_only_listeners_are_offered(listeners, event, report);
                lemma_offers_in(event, report, consumer_id);
                if event.topic_id() == topic_id {
                    assert(listeners[consumer_id].filter == filter);
                    if filter.may_answer(event.topic, true) {
                        law_every_listener_is_offered(listeners, event, report, consumer_id);
                        let i = choose|i: int|
                            0 <= i < report.len() && (#[trigger] report[i]).consumer_id
                                == consumer_id;
                        assert(now == seq![(event, report[i].outcome)]);
                        assert(events_of(then) + events_of(now) =~= events_of(then).push(event));
                    } else {
                        assert(!mentions(report, consumer_id));
                        assert(events_of(then) + events_of(now) =~= events_of(then));
                    }
                } else {
                    assert(events_of(then) + events_of(now) =~= events_of(then));
                }
            },
            _ => {
                assert(events_of(then) + events_of(now) =~= events_of(then));
            },
        }
    } else {
        assert(events_of(heard(signals, steps, topic_id, consumer_id)) =~= Seq::empty());
    }
}

/// A rule that has one answer to every value makes a filter that has one answer to every topic.
pub proof fn law_pure_rules_decide<T: Topic, F: Fn(&T) -> bool>(
    filter: OptionalBoxedFilter,
    rule: F,
    signals: Seq<Signal>,
)
    requires
        filter.asks::<T, F>(rule),
        forall|topic: &T|
            !(#[trigger] call_ensures(rule, (topic,), true) && call_ensures(rule, (topic,), false)),
    ensures
        decided_on(filter, type_id_of::<T>(), signals),
{
    assert forall|topic: AnyValue|
        !(#[trigger] filter.may_answer(topic, true) && filter.may_answer(topic, false)) by {
        if filter.may_answer(topic, true) && filter.may_answer(topic, false) {
            let yes = choose|value: T|
                reveals(topic, value) && #[trigger] call_ensures(rule, (&value,), true);
            let no = choose|value: T|
                reveals(topic, value) && #[trigger] call_ensures(rule, (&value,), false);
            assert(holds(topic, yes));
            assert(yes == no);
        }
    }
}

/// A new consumer hears from its subscription on: nothing that came before it, and of what comes
/// after it, as long as it is not dropped and nobody turns out to be gone, exactly the events of
/// its topic that its filter accepts, each once and in order.
pub proof fn law_consumer_hears_from_now_on(
    bus: EventBus,
    before: EventSinkState,
    receiver: ConsumerReceiver,
    filter: OptionalBoxedFilter,
    signals: Seq<Signal>,
    states: Seq<EventSinkState>,
    steps: Seq<Step>,
)
    requires
        registered(bus.capacity(), before, states[0], receiver.topic_id, filter, receiver),
        runs(bus, signals, states, steps),
        !signals.contains(
            Signal::ConsumerDropped {
                topic_id: receiver.topic_id,
                consumer_id: receiver.consumer_id,
            },
        ),
        decided_on(filter, receiver.topic_id, signals),
        nobody_gone_in(steps),
    ensures
        states.last()@.subscribed(receiver.topic_id, receiver.consumer_id),
        ({
            let listener = states.last()@.listeners[receiver.topic_id][receiver.consumer_id];
            &&& channel_ends(bus.capacity(), listener.channel, receiver.receiver.receiver())
            &&& events_of(listener.offers) == meant_for(signals, receiver.topic_id, filter)
        }),
{
    let topic_id = receiver.topic_id;
    let consumer_id = receiver.consumer_id;
    assert(states[0]@.subscribed(topic_id, consumer_id));
    law_run_keeps_consumers(bus, signals, states, steps, topic_id, consumer_id);
    law_run_offers_what_is_meant(bus, signals, states, steps, topic_id, consumer_id, filter);
    let offers = heard(signals, steps, topic_id, consumer_id);
    assert(Seq::<(Event, Outcome)>::empty() + offers =~= offers);
}

/// The events that are in a channel after `offers`, if nothing was taken out of it, the first one
/// first.
pub open spec fn put_in(offers: Seq<(Event, Outcome)>) -> Seq<Event>
    decreases offers.len(),
{
    if offers.len() == 0 {
        Seq::empty()
    } else {
        let earlier = put_in(offers.drop_last());
        if offers.last().1 == Outcome::Sent {
            earlier.push(offers.last().0)
        } else {
            earlier
        }
    }
}

/// The events that `takes` took out of a channel, the first one first.
pub open spec fn taken_out(takes: Seq<Result<Event, TryRecvError>>) -> Seq<Event>
    decreases takes.len(),
{
    if takes.len() == 0 {
        Seq::empty()
    } else {
        let earlier = taken_out(takes.drop_last());
        match takes.last() {
            Ok(event) => earlier.push(event),
            Err(_) => earlier,
        }
    }
}

/// Where the channel had room for every event, all of them were put into it.
proof fn lemma_all_put_in(offers: Seq<(Event, Outcome)>)
    requires
        forall|i: int| 0 <= i < offers.len() ==> (#[trigger] offers[i]).1 == Outcome::Sent,
    ensures
        put_in(offers) == events_of(offers),
    decreases offers.len(),
{
    if offers.len() > 0 {
        let earlier = offers.drop_last();
        assert forall|i: int| 0 <= i < earlier.len() implies (#[trigger] earlier[i]).1
            == Outcome::Sent by {
            assert(earlier[i] == offers[i]);
        }
        lemma_all_put_in(earlier);
        assert(offers[offers.len() - 1].1 == Outcome::Sent);
        assert(events_of(offers) =~= events_of(earlier).push(offers.last().0));
    } else {
        assert(events_of(offers) =~= Seq::empty());
    }
}

/// A consumer reads what was meant for it: where its channel has room for every event, and gives
/// back what was put into it in the order in which it was put in, what the consumer takes out are
/// the events since its subscription that are of its topic and that its filter accepts, from the
/// first one on, in order, with none left out in between, and all of them once the channel is empty.
pub proof fn law_consumer_reads_what_is_meant(
    bus: EventBus,
    before: EventSinkState,
    receiver: ConsumerReceiver,
    filter: OptionalBoxedFilter,
    signals: Seq<Signal>,
    states: Seq<EventSinkState>,
    steps: Seq<Step>,
    takes: Seq<Result<Event, TryRecvError>>,
)
    requires
        registered(bus.capacity(), before, states[0], receiver.topic_id, filter, receiver),
        runs(bus, signals, states, steps),
        !signals.contains(
            Signal::ConsumerDropped {
                topic_id: receiver.topic_id,
                consumer_id: receiver.consumer_id,
            },
        ),
        decided_on(filter, receiver.topic_id, signals),
        nobody_gone_in(steps),
        ({
            let offers =
                states.last()@.listeners[receiver.topic_id][receiver.consumer_id].offers;
            &&& forall|i: int| 0 <= i < offers.len() ==> (#[trigger] offers[i]).1 == Outcome::Sent
            &&& taken_out(takes).is_prefix_of(put_in(offers))
        }),
    ensures
        taken_out(takes).is_prefix_of(meant_for(signals, receiver.topic_id, filter)),
        ({
            let offers =
                states.last()@.listeners[receiver.topic_id][receiver.consumer_id].offers;
            taken_out(takes).len() == put_in(offers).len() ==> taken_out(takes) == meant_for(
                signals,
                receiver.topic_id,
                filter,
            )
        }),
{
    law_consumer_hears_from_now_on(bus, before, receiver, filter, signals, states, steps);
    lemma_all_put_in(states.last()@.listeners[receiver.topic_id][receiver.consumer_id].offers);
}

/// Subscribing takes nothing from the consumers that are there: each keeps its channel, its filter
/// and what it was offered.
pub proof fn law_subscribing_leaves_others_alone(
    capacity: usize,
    before: EventSinkState,
    after: EventSinkState,
    filter: OptionalBoxedFilter,
    receiver: ConsumerReceiver,
    topic_id: TypeId,
    consumer_id: ConsumerId,
)
    requires
        before.wf(),
        registered(capacity, before, after, receiver.topic_id, filter, receiver),
        before@.subscribed(topic_id, consumer_id),
    ensures
        after@.subscribed(topic_id, consumer_id),
        after@.listeners[topic_id][consumer_id] == before@.listeners[topic_id][consumer_id],
{
    before.law_wf();
    let added = after@.listeners[receiver.topic_id][receiver.consumer_id];
    before@.law_subscribe_adds_one(receiver.topic_id, added);
}

/// A subscription whose receiver is dropped leaves no trace but its id: when the bus acts on the
/// notice, everybody is subscribed to what they were subscribed to before.
pub proof fn law_dropping_undoes_subscribing(
    bus: EventBus,
    before: EventSinkState,
    between: EventSinkState,
    after: EventSinkState,
    filter: OptionalBoxedFilter,
    receiver: ConsumerReceiver,
    step: Step,
)
    requires
        before.wf(),
        registered(bus.capacity(), before, between, receiver.topic_id, filter, receiver),
        bus.steps(
            Signal::ConsumerDropped {
                topic_id: receiver.topic_id,
                consumer_id: receiver.consumer_id,
            },
            between,
            after,
            step,
        ),
    ensures
        after@.listeners == before@.listeners,
        after@.next_id == before@.next_id + 1,
{
    before.law_wf();
    let added = between@.listeners[receiver.topic_id][receiver.consumer_id];
    before@.law_unsubscribe_undoes_subscribe(receiver.topic_id, added);
}

/// A subscriber that did not wait for the answer leaves no trace but an id: its receiver comes back
/// and has told the bus nothing; dropped, it tells the bus once, through the bus's channel of drop
/// notices, and when the bus acts on that notice everybody is subscribed to what they were
/// subscribed to before.
pub proof fn law_lost_subscriber_leaves_no_trace(
    bus: EventBus,
    message: EventMessage,
    before: EventSinkState,
    between: EventSinkState,
    after: EventSinkState,
    refused: ConsumerReceiver,
    dropped: ConsumerReceiver,
    step: Step,
)
    requires
        before.wf(),
        message is Subscribe,
        bus.handles(message, before, between, Handled::SubscriberGone(refused)),
        refused.told_once(dropped),
        bus.steps(
            Signal::ConsumerDropped {
                topic_id: refused.topic_id,
                consumer_id: refused.consumer_id,
            },
            between,
            after,
            step,
        ),
    ensures
        refused.topic_id == message->topic_id,
        refused.consumer_id == before@.next_id,
        dropped.drop_sender.sender() == before.drop_channel().0.sender(),
        dropped.drop_sender.uses() == seq![
            NoticeUse::Sent((refused.topic_id, refused.consumer_id)),
        ],
        after@.listeners == before@.listeners,
        after@.next_id == before@.next_id + 1,
{
    let filter = message->filter;
    assert(registered(bus.capacity(), before, between, refused.topic_id, filter, refused));
    assert(Seq::<NoticeUse>::empty().push(NoticeUse::Sent(refused.notice())) =~= seq![
        NoticeUse::Sent(refused.notice()),
    ]);
    law_dropping_undoes_subscribing(bus, before, between, after, filter, refused, step);
}

/// A message reaches the consumers of its topic: as long as a consumer has not been dropped, and
/// its rule does not keep the message's subtopic from it, the turn in which the bus handles the
/// message offers the event that brings it, once, to the channel that the consumer reads.
pub proof fn law_message_reaches_consumer<T: Topic, F: Fn(&T) -> bool>(
    bus: EventBus,
    before: EventSinkState,
    receiver: ConsumerReceiver,
    filter: OptionalBoxedFilter,
    rule: F,
    signals: Seq<Signal>,
    states: Seq<EventSinkState>,
    steps: Seq<Step>,
    event: Event,
    topic: T,
    message: T::MessageType,
    after: EventSinkState,
    report: Seq<Delivery>,
)
    requires
        registered(bus.capacity(), before, states[0], type_id_of::<T>(), filter, receiver),
        filter.asks::<T, F>(rule),
        runs(bus, signals, states, steps),
        !signals.contains(
            Signal::ConsumerDropped {
                topic_id: receiver.topic_id,
                consumer_id: receiver.consumer_id,
            },
        ),
        event.brings::<T>(topic, message),
        !call_ensures(rule, (&topic,), false),
        published(states.last()@, after@, event, report),
        nobody_gone(report),
    ensures
        ({
            let then = states.last()@.listeners[receiver.topic_id][receiver.consumer_id];
            let now = after@.listeners[receiver.topic_id][receiver.consumer_id];
            &&& channel_ends(bus.capacity(), now.channel, receiver.receiver.receiver())
            &&& exists|outcome: Outcome|
                now == #[trigger] then.having_offered(seq![(event, outcome)])
        }),
{
    let topic_id = receiver.topic_id;
    let consumer_id = receiver.consumer_id;
    assert(states[0]@.subscribed(topic_id, consumer_id));
    law_run_keeps_consumers(bus, signals, states, steps, topic_id, consumer_id);
    states.last().law_wf();
    let listeners = states.last()@.topic_listeners(topic_id);
    law_every_listener_is_offered(listeners, event, report, consumer_id);
    law_only_listeners_are_offered(listeners, event, report);
    law_one_offer_each(states.last()@, after@, event, report, topic_id, consumer_id);
}

} // verus!
