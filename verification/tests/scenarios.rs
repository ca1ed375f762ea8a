use lug::{
    Consumer, Delivery, EventBus, EventBusAddr, EventMessage, EventSinkState, Filter, Handled,
    Mailbox, Producer, Topic,
};

/// A bus that is driven by hand, one message at a time.
struct Bench {
    bus: EventBus,
    state: EventSinkState,
    addr: EventBusAddr,
    _mailbox: tokio::sync::mpsc::Receiver<EventMessage>,
}

impl Bench {
    fn new(capacity: usize) -> Self {
        let mailbox: Mailbox<EventMessage> = Mailbox::new();
        Bench {
            bus: EventBus::new(capacity),
            state: EventSinkState::new(),
            addr: EventBusAddr::from(mailbox.addr),
            _mailbox: mailbox.receiver,
        }
    }

    fn consumer<T: Topic>(&mut self) -> Consumer<T> {
        let mut request = self.addr.consumer::<T>();
        assert!(self.bus.can_handle(&request.message, &self.state));
        let handled = self.bus.handle(request.message, &mut self.state);
        let receiver = request.answer.try_recv().unwrap();
        assert!(matches!(handled, Handled::Subscribed(id) if id == receiver.consumer_id));
        Consumer::new(receiver)
    }

    fn consumer_with_filter<T: Topic, G>(&mut self, filter: G) -> Consumer<T>
    where
        G: Fn(&T) -> bool + Send + Sync + 'static,
    {
        let mut request = self.addr.consumer_with_filter::<T, G>(filter);
        assert!(self.bus.can_handle(&request.message, &self.state));
        let handled = self.bus.handle(request.message, &mut self.state);
        assert!(matches!(handled, Handled::Subscribed(_)));
        Consumer::new(request.answer.try_recv().unwrap())
    }

    fn producer<T: Topic>(&self, topic: T) -> Producer<T> {
        self.addr.producer(topic)
    }

    fn send<T: Topic>(&mut self, producer: &Producer<T>, message: T::MessageType) -> Vec<Delivery> {
        match self.bus.handle(producer.send(message), &mut self.state) {
            Handled::Published(report) => report,
            _ => panic!("an event is published"),
        }
    }
}

struct HelloTopic;

impl Topic for HelloTopic {
    type MessageType = String;
}

#[test]
fn hello_topic() {
    let mut bench = Bench::new(100);
    let mut consumer = bench.consumer::<HelloTopic>();
    let producer = bench.producer(HelloTopic);
    bench.send(&producer, "Hello from topic a".to_string());

    let res = consumer.try_recv().unwrap();
    let value = res.as_ref();
    assert_eq!(value, &"Hello from topic a".to_string());
    assert_eq!(res.clone().message(), Some(&"Hello from topic a".to_string()));
}

struct SubTopics {
    a: u32,
    b: u32,
}

impl Topic for SubTopics {
    type MessageType = &'static str;
}

#[test]
fn subtopics() {
    let mut bench = Bench::new(100);
    let producer_1 = bench.producer(SubTopics { a: 1, b: 1 });
    let producer_2 = bench.producer(SubTopics { a: 1, b: 2 });

    let mut consumer_a = bench.consumer::<SubTopics>();
    let mut consumer_b = bench.consumer_with_filter(|t: &SubTopics| t.b == 2);
    let mut consumer_c = bench.consumer_with_filter(|t: &SubTopics| t.a == 1);

    bench.send(&producer_1, "This is subtopic_a");
    bench.send(&producer_2, "This is subtopic_b");

    assert_eq!(*consumer_a.try_recv().unwrap().as_ref(), "This is subtopic_a");
    assert_eq!(*consumer_a.try_recv().unwrap().as_ref(), "This is subtopic_b");
    assert_eq!(*consumer_b.try_recv().unwrap().as_ref(), "This is subtopic_b");
    assert!(consumer_b.try_recv().is_err());
    assert_eq!(*consumer_c.try_recv().unwrap().as_ref(), "This is subtopic_a");
    assert_eq!(*consumer_c.try_recv().unwrap().as_ref(), "This is subtopic_b");
}

enum EnumSubTopic {
    A,
    B { a: &'static str },
}

impl Topic for EnumSubTopic {
    type MessageType = u32;
}

#[test]
fn enum_subtopics() {
    let mut bench = Bench::new(100);
    let producer_a = bench.producer(EnumSubTopic::B { a: "subtopic of subtopic B" });
    let mut consumer_topic_b = bench.consumer_with_filter(
        |t: &EnumSubTopic| matches!(t, EnumSubTopic::B { a } if a == &"subtopic of subtopic B"),
    );
    let mut consumer_topic_a =
        bench.consumer_with_filter(|t: &EnumSubTopic| matches!(t, EnumSubTopic::A));

    bench.send(&producer_a, 3);
    let event = consumer_topic_b.try_recv().unwrap();
    assert_eq!(*event.as_ref(), 3);
    assert!(consumer_topic_a.try_recv().is_err());
}

#[test]
fn messages_come_in_the_order_they_were_sent() {
    let expected_values = vec!["First Message", "Second Message"];
    let mut bench = Bench::new(100);
    let mut consumer = bench.consumer::<HelloTopic>();
    let producer = bench.producer(HelloTopic);
    bench.send(&producer, "First Message".to_string());
    bench.send(&producer, "Second Message".to_string());

    let mut recovered_values = vec![];
    while let Ok(value) = consumer.try_recv() {
        recovered_values.push(value.as_ref().to_owned());
    }
    assert_eq!(recovered_values, expected_values);
}

#[test]
fn filter_none_hears_everything() {
    let mut bench = Bench::new(100);
    let mut consumer = bench.consumer_with_filter(Filter::none::<SubTopics>);
    let producer_1 = bench.producer(SubTopics { a: 1, b: 1 });
    let producer_2 = bench.producer(SubTopics { a: 7, b: 9 });
    bench.send(&producer_1, "one");
    bench.send(&producer_2, "two");
    assert_eq!(*consumer.try_recv().unwrap().as_ref(), "one");
    assert_eq!(*consumer.try_recv().unwrap().as_ref(), "two");
    assert!(Filter::none(&SubTopics { a: 0, b: 0 }));
}

#[test]
fn example_of_two_subscriptions() {
    let mut bench = Bench::new(100);
    let mut all = bench.consumer::<SubTopics>();
    let mut some = bench.consumer_with_filter(|t: &SubTopics| t.b == 2);
    assert_eq!(all.receiver.consumer_id, 0);
    assert_eq!(some.receiver.consumer_id, 1);
    let a = bench.producer(SubTopics { a: 1, b: 1 });
    let b = bench.producer(SubTopics { a: 1, b: 2 });
    assert_eq!(bench.send(&a, "a").len(), 1);
    assert_eq!(bench.send(&b, "b").len(), 2);
    assert_eq!(*all.try_recv().unwrap().as_ref(), "a");
    assert_eq!(*all.try_recv().unwrap().as_ref(), "b");
    assert!(all.try_recv().is_err());
    assert_eq!(*some.try_recv().unwrap().as_ref(), "b");
    assert!(some.try_recv().is_err());
    assert_eq!(bench.state.stats().n_topics, 1);
}
