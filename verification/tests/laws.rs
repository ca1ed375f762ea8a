use std::any::TypeId;
use std::sync::atomic::{AtomicUsize, Ordering};
use std::sync::Arc;

use lug::{
    next_turn, outcome, ActorHandle, ActorSignal, Addr, AnyValue, Consumer, Delivery, EventBus,
    EventBusAddr, EventMessage, EventSinkState, Handled, Mailbox, OptionalBoxedFilter, Outcome,
    Producer, RecoveredEvent, Signal, Step, Topic, Turn, MAILBOX_CAPACITY,
};
use tokio::sync::mpsc::error::TrySendError;

/// A bus that is driven by hand, one message at a time.
struct Bench {
    bus: EventBus,
    state: EventSinkState,
    addr: EventBusAddr,
    _mailbox: tokio::sync::mpsc::Receiver<EventMessage>,
}

impl Bench {
    fn new(capacity: usize) -> Self {
        let mailbox: Mailbox<EventMessage> = Mailbox::new();
        Bench {
            bus: EventBus::new(capacity),
            state: EventSinkState::new(),
            addr: EventBusAddr::from(mailbox.addr),
            _mailbox: mailbox.receiver,
        }
    }

    fn consumer<T: Topic>(&mut self) -> Consumer<T> {
        let mut request = self.addr.consumer::<T>();
        assert!(self.bus.can_handle(&request.message, &self.state));
        let handled = self.bus.handle(request.message, &mut self.state);
        let receiver = request.answer.try_recv().unwrap();
        assert!(matches!(handled, Handled::Subscribed(id) if id == receiver.consumer_id));
        Consumer::new(receiver)
    }

    fn consumer_with_filter<T: Topic, G>(&mut self, filter: G) -> Consumer<T>
    where
        G: Fn(&T) -> bool + Send + Sync + 'static,
    {
        let mut request = self.addr.consumer_with_filter::<T, G>(filter);
        assert!(self.bus.can_handle(&request.message, &self.state));
        let handled = self.bus.handle(request.message, &mut self.state);
        assert!(matches!(handled, Handled::Subscribed(_)));
        Consumer::new(request.answer.try_recv().unwrap())
    }

    fn producer<T: Topic>(&self, topic: T) -> Producer<T> {
        self.addr.producer(topic)
    }

    fn send<T: Topic>(&mut self, producer: &Producer<T>, message: T::MessageType) -> Vec<Delivery> {
        match self.bus.handle(producer.send(message), &mut self.state) {
            Handled::Published(report) => report,
            _ => panic!("an event is published"),
        }
    }

    fn n_topics(&mut self) -> usize {
        let mut request = self.addr.stats();
        let handled = self.bus.handle(request.message, &mut self.state);
        assert!(matches!(handled, Handled::StatsSent));
        request.answer.try_recv().unwrap().n_topics
    }

    /// Handles the drop notices that have arrived, and tells whose they were.
    fn sweep(&mut self) -> Vec<u64> {
        let mut removed = vec![];
        while let Ok((topic_id, consumer_id)) = self.state.drop_notices().try_recv() {
            self.state.remove_consumer(topic_id, consumer_id);
            removed.push(consumer_id);
        }
        removed
    }
}

struct Numbers;

impl Topic for Numbers {
    type MessageType = u64;
}

struct Words;

impl Topic for Words {
    type MessageType = String;
}

#[test]
fn topics_do_not_mix() {
    let mut bench = Bench::new(10);
    let mut numbers = bench.consumer::<Numbers>();
    let mut words = bench.consumer::<Words>();
    let to_numbers = bench.producer(Numbers);
    let report = bench.send(&to_numbers, 5);
    assert_eq!(report, vec![Delivery { consumer_id: 0, outcome: Outcome::Sent }]);
    assert_eq!(*numbers.try_recv().unwrap().as_ref(), 5);
    assert!(words.try_recv().is_err());
}

#[test]
fn every_listener_is_offered_once() {
    let mut bench = Bench::new(10);
    let mut consumers = vec![
        bench.consumer::<Numbers>(),
        bench.consumer::<Numbers>(),
        bench.consumer::<Numbers>(),
    ];
    let producer = bench.producer(Numbers);
    let report = bench.send(&producer, 8);
    let mut ids: Vec<u64> = report.iter().map(|d| d.consumer_id).collect();
    ids.sort();
    assert_eq!(ids, vec![0, 1, 2]);
    assert!(report.iter().all(|d| d.outcome == Outcome::Sent));
    for consumer in consumers.iter_mut() {
        assert_eq!(*consumer.try_recv().unwrap().as_ref(), 8);
        assert!(consumer.try_recv().is_err());
    }
}

#[test]
fn a_topic_without_consumers_is_offered_to_nobody() {
    let mut bench = Bench::new(10);
    let _words = bench.consumer::<Words>();
    let producer = bench.producer(Numbers);
    assert_eq!(bench.send(&producer, 1), vec![]);
}

#[test]
fn a_slow_consumer_misses_messages() {
    let mut bench = Bench::new(2);
    let mut consumer = bench.consumer::<Numbers>();
    let producer = bench.producer(Numbers);
    let sent = vec![Delivery { consumer_id: 0, outcome: Outcome::Sent }];
    let dropped = vec![Delivery { consumer_id: 0, outcome: Outcome::Dropped }];
    assert_eq!(bench.send(&producer, 1), sent);
    assert_eq!(bench.send(&producer, 2), sent);
    assert_eq!(bench.send(&producer, 3), dropped);
    assert_eq!(*consumer.try_recv().unwrap().as_ref(), 1);
    assert_eq!(bench.send(&producer, 4), sent);
    assert_eq!(*consumer.try_recv().unwrap().as_ref(), 2);
    assert_eq!(*consumer.try_recv().unwrap().as_ref(), 4);
    assert!(consumer.try_recv().is_err());
}

#[test]
fn a_gone_receiver_is_reported() {
    let mut bench = Bench::new(2);
    let consumer = bench.consumer::<Numbers>();
    drop(consumer);
    let producer = bench.producer(Numbers);
    let report = bench.send(&producer, 1);
    assert_eq!(report, vec![Delivery { consumer_id: 0, outcome: Outcome::Closed }]);
}

#[test]
fn ids_are_handed_out_once() {
    let mut bench = Bench::new(2);
    let first = bench.consumer::<Numbers>();
    assert_eq!(first.receiver.consumer_id, 0);
    drop(first);
    assert_eq!(bench.sweep(), vec![0]);
    let second = bench.consumer::<Numbers>();
    assert_eq!(second.receiver.consumer_id, 1);
    let third = bench.consumer::<Words>();
    assert_eq!(third.receiver.consumer_id, 2);
    assert_eq!(third.receiver.topic_id, TypeId::of::<Words>());
}

#[test]
fn removed_consumers_hear_nothing() {
    let mut bench = Bench::new(2);
    let mut gone = bench.consumer::<Numbers>();
    let mut stays = bench.consumer::<Numbers>();
    bench.state.remove_consumer(TypeId::of::<Numbers>(), 0);
    let producer = bench.producer(Numbers);
    let report = bench.send(&producer, 4);
    assert_eq!(report, vec![Delivery { consumer_id: 1, outcome: Outcome::Sent }]);
    assert_eq!(*stays.try_recv().unwrap().as_ref(), 4);
    assert!(matches!(
        gone.try_recv(),
        Err(tokio::sync::mpsc::error::TryRecvError::Disconnected)
    ));
}

#[test]
fn an_empty_channel_is_not_a_closed_one() {
    let mut bench = Bench::new(2);
    let mut consumer = bench.consumer::<Numbers>();
    assert!(matches!(
        consumer.try_recv(),
        Err(tokio::sync::mpsc::error::TryRecvError::Empty)
    ));
}

#[test]
fn topics_count_while_they_have_consumers() {
    let mut bench = Bench::new(2);
    assert_eq!(bench.n_topics(), 0);
    let a = bench.consumer::<Numbers>();
    assert_eq!(bench.n_topics(), 1);
    let b = bench.consumer::<Numbers>();
    assert_eq!(bench.n_topics(), 1);
    let c = bench.consumer::<Words>();
    assert_eq!(bench.n_topics(), 2);
    drop(a);
    assert_eq!(bench.sweep(), vec![0]);
    assert_eq!(bench.n_topics(), 2);
    drop(b);
    assert_eq!(bench.sweep(), vec![1]);
    assert_eq!(bench.n_topics(), 1);
    drop(c);
    assert_eq!(bench.sweep(), vec![2]);
    assert_eq!(bench.n_topics(), 0);
}

#[test]
fn removing_a_stranger_changes_nothing() {
    let mut bench = Bench::new(2);
    let _a = bench.consumer::<Numbers>();
    bench.state.remove_consumer(TypeId::of::<Numbers>(), 7);
    bench.state.remove_consumer(TypeId::of::<Words>(), 0);
    assert_eq!(bench.n_topics(), 1);
    let producer = bench.producer(Numbers);
    assert_eq!(bench.send(&producer, 1).len(), 1);
}

#[test]
fn listeners_of_a_topic() {
    let mut bench = Bench::new(2);
    let _low = bench.consumer_with_filter(|n: &Level| n.0 < 5);
    let _high = bench.consumer_with_filter(|n: &Level| n.0 >= 5);
    let seven = AnyValue::new(Arc::new(Level(7)));
    assert_eq!(bench.state.get_topic_listeners(&seven), Some(vec![1]));
    let two = AnyValue::new(Arc::new(Level(2)));
    assert_eq!(bench.state.get_topic_listeners(&two), Some(vec![0]));
    let words = AnyValue::new(Arc::new(Words));
    assert_eq!(bench.state.get_topic_listeners(&words), None);
}

#[test]
fn a_topic_is_a_type() {
    let mut bench = Bench::new(2);
    let _all = bench.consumer::<Level>();
    for n in 0..4 {
        let level = AnyValue::new(Arc::new(Level(n)));
        assert_eq!(bench.state.get_topic_listeners(&level), Some(vec![0]));
    }
}

#[test]
fn filters_answer_for_their_topic() {
    let filter = OptionalBoxedFilter::new(|level: &Level| level.0 == 3);
    assert!(filter.suits(TypeId::of::<Level>()));
    assert!(!filter.suits(TypeId::of::<Words>()));
    assert!(filter.hears(&AnyValue::new(Arc::new(Level(3)))));
    assert!(!filter.hears(&AnyValue::new(Arc::new(Level(4)))));
    let none = OptionalBoxedFilter::none();
    assert!(none.suits(TypeId::of::<Words>()));
    assert!(none.hears(&AnyValue::new(Arc::new(Level(4)))));
}

struct Level(u32);

impl Topic for Level {
    type MessageType = ();
}

#[test]
fn a_subscriber_that_does_not_wait_is_removed_again() {
    let mut bench = Bench::new(2);
    let request = bench.addr.consumer::<Numbers>();
    drop(request.answer);
    let receiver = match bench.bus.handle(request.message, &mut bench.state) {
        Handled::SubscriberGone(receiver) => receiver,
        _ => panic!("nobody waits for the answer"),
    };
    assert_eq!(receiver.consumer_id, 0);
    assert_eq!(receiver.topic_id, TypeId::of::<Numbers>());
    assert_eq!(bench.n_topics(), 1);
    assert_eq!(bench.sweep(), vec![]);
    drop(receiver);
    assert_eq!(bench.sweep(), vec![0]);
    assert_eq!(bench.n_topics(), 0);
}

#[test]
fn statistics_that_nobody_waits_for_come_back() {
    let mut bench = Bench::new(2);
    let _a = bench.consumer::<Numbers>();
    let request = bench.addr.stats();
    drop(request.answer);
    match bench.bus.handle(request.message, &mut bench.state) {
        Handled::StatsRefused(stats) => assert_eq!(stats.n_topics, 1),
        _ => panic!("nobody waits for the answer"),
    }
}

#[test]
fn what_a_bus_does_not_outlive() {
    let mut bench = Bench::new(1);
    let consumer = bench.consumer::<Numbers>();
    let producer = bench.producer(Numbers);
    let handled = bench.bus.handle(producer.send(1), &mut bench.state);
    assert!(!handled.is_fatal());
    let handled = bench.bus.handle(producer.send(2), &mut bench.state);
    assert!(!handled.is_fatal());
    drop(consumer);
    let handled = bench.bus.handle(producer.send(3), &mut bench.state);
    assert!(handled.is_fatal());
    let request = bench.addr.stats();
    drop(request.answer);
    assert!(bench.bus.handle(request.message, &mut bench.state).is_fatal());
    let request = bench.addr.consumer::<Words>();
    drop(request.answer);
    assert!(!bench.bus.handle(request.message, &mut bench.state).is_fatal());
}

#[test]
fn turns_of_the_loop() {
    let mut bench = Bench::new(2);
    let request = bench.addr.consumer::<Numbers>();
    let signal = Signal::Actor(ActorSignal::Message(Some(request.message)));
    let step = bench.bus.step(signal, &mut bench.state);
    assert!(matches!(step, Step::Handled(Handled::Subscribed(0))));

    let topic_id = TypeId::of::<Numbers>();
    let signal = Signal::ConsumerDropped { topic_id, consumer_id: 0 };
    let step = bench.bus.step(signal, &mut bench.state);
    assert!(matches!(step, Step::Removed(0)));
    assert_eq!(bench.n_topics(), 0);

    let step = bench.bus.step(Signal::Actor(ActorSignal::Message(None)), &mut bench.state);
    assert!(matches!(step, Step::Stop));
    let step = bench.bus.step(Signal::Actor(ActorSignal::Cancelled), &mut bench.state);
    assert!(matches!(step, Step::Stop));

    assert!(matches!(next_turn(ActorSignal::Message(Some(4))), Turn::Handle(4)));
    assert!(matches!(next_turn::<u8>(ActorSignal::Message(None)), Turn::Stop));
    assert!(matches!(next_turn::<u8>(ActorSignal::Cancelled), Turn::Stop));
}

#[test]
fn there_must_be_room_for_a_consumer() {
    let bench = Bench::new(1);
    let message = bench.addr.consumer::<Numbers>().message;
    assert!(bench.bus.can_handle(&message, &bench.state));
    assert!(!EventBus::new(0).can_handle(&message, &bench.state));
    assert!(EventBus::new(usize::MAX / 8).can_handle(&message, &bench.state));
    assert!(!EventBus::new(usize::MAX / 8 + 1).can_handle(&message, &bench.state));
    assert!(EventBus::new(0).can_handle(&bench.producer(Numbers).send(1), &bench.state));
    assert!(EventBus::new(0).can_handle(&bench.addr.stats().message, &bench.state));
}

#[test]
fn a_filter_must_suit_its_topic() {
    let bench = Bench::new(1);
    let (sender, _answer) = tokio::sync::oneshot::channel();
    let message = EventMessage::Subscribe {
        topic_id: TypeId::of::<Words>(),
        sender,
        filter: OptionalBoxedFilter::new(|level: &Level| level.0 == 3),
    };
    assert!(!bench.bus.can_handle(&message, &bench.state));
}

#[test]
fn a_consumer_without_a_filter_hears_all() {
    let mut bench = Bench::new(4);
    let (sender, mut answer) = tokio::sync::oneshot::channel();
    let message = EventMessage::Subscribe {
        topic_id: TypeId::of::<Level>(),
        sender,
        filter: OptionalBoxedFilter::none(),
    };
    assert!(bench.bus.can_handle(&message, &bench.state));
    bench.bus.handle(message, &mut bench.state);
    let mut consumer: Consumer<Level> = Consumer::new(answer.try_recv().unwrap());
    let producer = bench.producer(Level(9));
    assert_eq!(bench.send(&producer, ()).len(), 1);
    assert!(consumer.try_recv().is_ok());
}

#[test]
fn names_of_messages() {
    let bench = Bench::new(1);
    assert_eq!(bench.producer(Numbers).send(3).name(), "Event");
    assert_eq!(bench.addr.consumer::<Numbers>().message.name(), "Subscribe");
    assert_eq!(bench.addr.stats().message.name(), "Request stats");
}

#[test]
fn an_event_carries_topic_and_message() {
    let bench = Bench::new(1);
    let event = match bench.producer(Level(6)).send(()) {
        EventMessage::Event(event) => event,
        _ => panic!("a producer sends events"),
    };
    assert!(OptionalBoxedFilter::new(|level: &Level| level.0 == 6).hears(&event.topic));
    let read: RecoveredEvent<Level> = RecoveredEvent::new(event.clone());
    assert_eq!(read.message(), Some(&()));
    let misread: RecoveredEvent<Words> = RecoveredEvent::new(event);
    assert_eq!(misread.message(), None);
}

#[test]
fn events_print_alike() {
    let bench = Bench::new(1);
    let texts: Vec<String> = vec![
        bench.producer(Level(6)).send(()),
        bench.producer(Numbers).send(5),
        bench.producer(Words).send("word".to_string()),
    ]
    .iter()
    .map(|message| match message {
        EventMessage::Event(event) => format!("{:?}", event),
        _ => panic!("a producer sends events"),
    })
    .collect();
    for text in texts {
        assert_eq!(text, "Event { payload: Any { .. }, topic: Any { .. } }");
    }
}

#[derive(Debug)]
struct Shown;

impl Topic for Shown {
    type MessageType = u8;
}

#[test]
fn what_is_received_can_be_shown() {
    let mut bench = Bench::new(1);
    let mut consumer = bench.consumer::<Shown>();
    let text = format!("{:?}", consumer.receiver);
    assert!(text.starts_with("ConsumerReceiver { receiver: Receiver {"));
    assert!(text.contains("consumer_id: 0, drop_sender: UnboundedSender {"));
    assert!(text.contains("topic_id: TypeId("));
    let producer = bench.producer(Shown);
    bench.send(&producer, 7);
    let text = format!("{:?}", consumer.try_recv().unwrap());
    assert!(text.starts_with("RecoveredEvent { payload: Any { .. }, phantom: PhantomData<"));
}

#[test]
fn filters_are_asked_when_their_turn_comes() {
    let asked = Arc::new(AtomicUsize::new(0));
    let mut bench = Bench::new(1);
    let mut consumers = vec![];
    for _ in 0..5 {
        let count = asked.clone();
        consumers.push(bench.consumer_with_filter(move |_: &Level| {
            count.fetch_add(1, Ordering::SeqCst);
            true
        }));
    }
    let producer = bench.producer(Level(1));
    assert_eq!(bench.send(&producer, ()).len(), 5);
    assert_eq!(asked.load(Ordering::SeqCst), 5);
    drop(consumers);
    assert_eq!(bench.send(&producer, ()).len(), 1);
    assert_eq!(asked.load(Ordering::SeqCst), 6);
}

#[test]
fn a_gone_consumer_that_does_not_hear_does_no_harm() {
    let mut bench = Bench::new(1);
    let gone = bench.consumer_with_filter(|level: &Level| level.0 == 1);
    let mut stays = bench.consumer_with_filter(|level: &Level| level.0 == 2);
    drop(gone);
    let producer = bench.producer(Level(2));
    let report = bench.send(&producer, ());
    assert_eq!(report, vec![Delivery { consumer_id: 1, outcome: Outcome::Sent }]);
    assert!(stays.try_recv().is_ok());
}

#[test]
fn an_abandoned_answer_is_a_dropped_consumer() {
    let mut bench = Bench::new(1);
    let request = bench.addr.consumer::<Numbers>();
    let handled = bench.bus.handle(request.message, &mut bench.state);
    assert!(matches!(handled, Handled::Subscribed(0)));
    drop(request.answer);
    assert_eq!(bench.sweep(), vec![0]);
    assert_eq!(bench.n_topics(), 0);
}

#[test]
fn answers_of_a_channel() {
    assert_eq!(outcome::<u8>(Ok(())), Outcome::Sent);
    assert_eq!(outcome(Err(TrySendError::Full(1))), Outcome::Dropped);
    assert_eq!(outcome(Err(TrySendError::Closed(1))), Outcome::Closed);
}

#[test]
fn a_consumer_hears_from_its_subscription_on() {
    let mut bench = Bench::new(10);
    let mut early = bench.consumer::<Level>();
    let one = bench.producer(Level(1));
    let two = bench.producer(Level(2));
    bench.send(&one, ());
    let mut late = bench.consumer_with_filter(|level: &Level| level.0 == 2);
    bench.send(&one, ());
    bench.send(&two, ());
    for _ in 0..3 {
        assert!(early.try_recv().is_ok());
    }
    assert!(early.try_recv().is_err());
    assert!(late.try_recv().is_ok());
    assert!(late.try_recv().is_err());
}

#[test]
fn the_bus_sends_no_notice_by_itself() {
    let mut bench = Bench::new(10);
    let consumer = bench.consumer::<Numbers>();
    let producer = bench.producer(Numbers);
    bench.send(&producer, 1);
    bench.n_topics();
    assert_eq!(bench.sweep(), vec![]);
    drop(consumer);
    assert_eq!(bench.sweep(), vec![0]);
    assert_eq!(bench.sweep(), vec![]);
}

#[test]
fn a_mailbox_has_its_capacity() {
    let mailbox: Mailbox<u32> = Mailbox::new();
    assert_eq!(mailbox.addr.sender.max_capacity(), 1000);
    assert_eq!(MAILBOX_CAPACITY, 1000);
    mailbox.addr.sender.try_send(9).unwrap();
    let mut receiver = mailbox.receiver;
    assert_eq!(receiver.try_recv(), Ok(9));
    assert!(!mailbox.actors_cancel_token.is_cancelled());
    mailbox.cancellation_token.cancel();
    assert!(mailbox.actors_cancel_token.is_cancelled());
}

#[test]
fn a_message_to_nobody_comes_back() {
    let mailbox: Mailbox<u32> = Mailbox::new();
    let addr: Addr<u32> = mailbox.addr.clone();
    assert!(addr.sender.same_channel(&mailbox.addr.sender));
    drop(mailbox.receiver);
    let result = tokio_test::block_on(addr.sender.send(12));
    let error = Addr::send_result(result).err().unwrap();
    assert_eq!((error.0).0, 12);
    assert_eq!(error.describe(), "Failed to send message to actor");
    assert!(Addr::<u32>::send_result(Ok(())).is_ok());
}

#[test]
fn actors_can_be_shut_down_and_aborted() {
    tokio_test::block_on(async {
        let mailbox: Mailbox<u32> = Mailbox::new();
        let token = mailbox.actors_cancel_token;
        let task = tokio::spawn(async move { token.cancelled().await });
        let handle = ActorHandle::new(task, mailbox.cancellation_token);
        assert!(handle.graceful_shutdown().waiting().await.is_ok());

        let mailbox: Mailbox<u32> = Mailbox::new();
        let task = tokio::spawn(std::future::pending::<()>());
        let mut handle = ActorHandle::new(task, mailbox.cancellation_token);
        handle.abort();
        assert!(handle.task.waiting().await.unwrap_err().is_cancelled());
    });
}

#[test]
fn a_default_state_is_a_new_one() {
    let state = EventSinkState::default();
    assert_eq!(state.stats().n_topics, 0);
}

#[test]
fn dropping_undoes_subscribing() {
    let mut bench = Bench::new(2);
    let mut stays = bench.consumer::<Numbers>();
    let comes_and_goes = bench.consumer::<Numbers>();
    drop(comes_and_goes);
    assert_eq!(bench.sweep(), vec![1]);
    assert_eq!(bench.n_topics(), 1);
    let producer = bench.producer(Numbers);
    let report = bench.send(&producer, 2);
    assert_eq!(report, vec![Delivery { consumer_id: 0, outcome: Outcome::Sent }]);
    assert_eq!(*stays.try_recv().unwrap().as_ref(), 2);
}

#[test]
fn a_subscription_lasts_through_what_others_do() {
    let mut bench = Bench::new(4);
    let mut stays = bench.consumer_with_filter(|level: &Level| level.0 == 1);
    let others = vec![bench.consumer::<Level>(), bench.consumer::<Level>()];
    let _words = bench.consumer::<Words>();
    drop(others);
    assert_eq!(bench.sweep(), vec![1, 2]);
    bench.n_topics();
    let one = bench.producer(Level(1));
    let two = bench.producer(Level(2));
    assert_eq!(bench.send(&two, ()), vec![]);
    let report = bench.send(&one, ());
    assert_eq!(report, vec![Delivery { consumer_id: 0, outcome: Outcome::Sent }]);
    assert!(stays.try_recv().is_ok());
    assert!(stays.try_recv().is_err());
}
