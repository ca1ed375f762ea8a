# lug

An in-process, type safe event bus. Rust types define topics, their values define subtopics.

- `src/` is the verified library: who is subscribed to what, which consumers an event is offered
  to, what the bus does on every signal, and how typed messages go in and come out. The contracts
  are written for [Verus](https://github.com/verus-lang/verus).
  - `registry.rs`: the mathematical model of the subscriptions, and its laws
  - `event.rs`: topics, events, listeners, and what it means that an event was delivered
  - `filter.rs`: rules on the values of a topic
  - `event_bus.rs`: the state of a bus and its event loop, one turn at a time
  - `address.rs`, `consumer.rs`: the users' side, typed by topic
  - `any_value.rs`: values of types that the bus does not know
  - `channel.rs`, `notices.rs`, `task.rs`: channels and tasks, each with a log, for proofs only, of
    what was done with it
  - `actor.rs`: mailboxes, addresses and shutdown, for actors in general
  - `laws.rs`: what holds of the bus as a whole
  - `outside.rs`: what is relied on of tokio, tokio-util and std; the calls that leave an entry in a
    log stand beside their logs
- `app/` runs a bus in a tokio task and gives its users asynchronous handles to it.
- `tests/` drives a bus by hand, with real channels.
