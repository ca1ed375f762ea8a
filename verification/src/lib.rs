//! lug is an in-process type safe event bus that uses Rust types to define topics and subtopics.
//!
//! ## Topics
//! The [Topic] trait can be implemented to define a topic. A [Producer] of the topic makes the
//! messages that bring values of [`Topic::MessageType`] to the bus; a [Consumer] of the topic
//! reads them. A bus offers an event only to the consumers of its topic, to each of them once, and
//! what a consumer reads is what the producer sent.
//!
//! ## Subtopics
//! Types that implement [Topic] can have fields or variants. Their values define subtopics. A
//! consumer either hears all of a topic, or what a rule on the topic's value accepts: see
//! [`EventBusAddr::consumer_with_filter`].
//!
//! ## How the bus works
//! [EventSinkState] knows who is subscribed to what; [`EventBus::step`] is one turn of the bus's
//! event loop, from a signal to the next state. Every consumer has a bounded channel of its own.
//! A consumer that does not receive an event in time, so that its channel is full, misses it.
//! The bus does not know the types of topics and messages: it holds them as [AnyValue]s, and reads
//! off a topic which type it is.
//!
//! The crate does not wait for anything. It makes the messages, decides and answers; whoever runs
//! a bus waits for signals, for room in the mailbox and for answers.
//!
//! The functions that offer an event, take one, send a drop notice or ask something of a task keep
//! logs that exist in proofs only: see [channel], [notices] and [task]. A log holds the calls made
//! through these functions, one entry for each call. Contracts speak of the logs, and so say what is
//! done and how often.
//!
//! What every operation does is stated and proved in [operations], what holds of the bus as a whole
//! in [laws], and of subscribing alone in [registry]. What is relied on of other crates stands in
//! [outside], and beside the logs in [channel], [notices], [task] and [any_value].

pub mod actor;
pub mod address;
pub mod any_value;
pub mod channel;
pub mod consumer;
pub mod event;
pub mod event_bus;
pub mod filter;
pub mod laws;
pub mod notices;
pub mod operations;
pub mod outside;
pub mod registry;
pub mod task;

pub use actor::{
    next_turn, ActorHandle, ActorSignal, Addr, AddrError, Mailbox, Turn, MAILBOX_CAPACITY,
};
pub use address::{EventBusAddr, Producer, Request};
pub use any_value::AnyValue;
pub use channel::{outcome, Inbox, Outbox, Outcome};
pub use consumer::{Consumer, ConsumerReceiver, RecoveredEvent};
pub use event::{Delivery, Event, EventBusStats, EventMessage, EventSender, Listener, Topic};
pub use event_bus::{EventBus, EventSinkState, Handled, Signal, Step};
pub use filter::{Filter, OptionalBoxedFilter};
pub use notices::{DropChannel, Notice, NoticeSender, NoticeUse};
pub use registry::{Change, ConsumerId, Registry};
pub use task::{Task, TaskRequest};
