//! Rules on the values of a topic, by which consumers choose what they hear.

use std::any::TypeId;
use std::marker::PhantomData;
use vstd::prelude::*;

use crate::any_value::{reveals, type_held, AnyValue};
use crate::event::Topic;
use crate::outside::{type_id, type_id_of};

verus! {

/// Ready-made filters.
pub struct Filter;

impl Filter {
    /// Accepts every subtopic.
    pub fn none<T: Topic>(_topic: &T) -> (accepted: bool)
        ensures
            accepted,
    {
        true
    }
}

/// A rule on the values of one topic, whose type it keeps to itself.
trait TopicFilter: Send + Sync {
    /// The topic whose values the filter can be asked about.
    spec fn of_topic(&self) -> TypeId;

    /// The filter can answer `accepted` to `topic`.
    spec fn may_answer(&self, topic: AnyValue, accepted: bool) -> bool;

    /// The topic whose values the filter can be asked about.
    fn topic_id(&self) -> (id: TypeId)
        ensures
            id == self.of_topic(),
    ;

    /// The filter's answer to a value of its topic.
    fn accepts(&self, topic: &AnyValue) -> (accepted: bool)
        requires
            type_held(*topic) == self.of_topic(),
        ensures
            self.may_answer(*topic, accepted),
    ;
}

/// The rule `rule` on values of the topic `T`.
struct OnTopic<T: Topic, G: Fn(&T) -> bool> {
    rule: G,
    phantom: PhantomData<T>,
}

impl<T: Topic, G: Fn(&T) -> bool> OnTopic<T, G> {
    /// The rule can be asked about every value of the topic.
    #[verifier::type_invariant]
    spec fn total(self) -> bool {
        forall|topic: &T| #[trigger] call_requires(self.rule, (topic,))
    }
}

impl<T: Topic, G: Fn(&T) -> bool + Send + Sync> TopicFilter for OnTopic<T, G> {
    spec fn of_topic(&self) -> TypeId {
        type_id_of::<T>()
    }

    spec fn may_answer(&self, topic: AnyValue, accepted: bool) -> bool {
        rule_answers::<T, G>(self.rule, topic, accepted)
    }

    fn topic_id(&self) -> (id: TypeId) {
        type_id::<T>()
    }

    fn accepts(&self, topic: &AnyValue) -> (accepted: bool) {
        proof {
            use_type_invariant(self);
        }
        let value = topic.downcast_ref::<T>().unwrap();
        assert(reveals(*topic, *value));
        (self.rule)(value)
    }
}

/// `rule` can answer `accepted` to the value of the topic `T` that `topic` holds.
pub open spec fn rule_answers<T: Topic, G: Fn(&T) -> bool>(
    rule: G,
    topic: AnyValue,
    accepted: bool,
) -> bool {
    exists|value: T| reveals(topic, value) && #[trigger] call_ensures(rule, (&value,), accepted)
}

/// The filter of a consumer of a topic whose type is not known, if it has one: a consumer without a
/// filter hears all of its topic.
pub struct OptionalBoxedFilter(Option<Box<dyn TopicFilter>>);

impl OptionalBoxedFilter {
    /// The topic whose values the filter can be asked about; without a filter, any topic.
    pub closed spec fn of_topic(self) -> Option<TypeId> {
        if self.0 is Some {
            Some(self.0->0.of_topic())
        } else {
            None
        }
    }

    /// The filter can answer `accepted` to `topic`.
    pub closed spec fn may_answer(self, topic: AnyValue, accepted: bool) -> bool {
        if self.0 is Some {
            self.0->0.may_answer(topic, accepted)
        } else {
            accepted
        }
    }

    /// There is no filter.
    pub open spec fn is_none(self) -> bool {
        &&& self.of_topic() is None
        &&& forall|topic: AnyValue, accepted: bool| #[trigger]
            self.may_answer(topic, accepted) <==> accepted
    }

    /// The filter asks `rule` about values of the topic `T`.
    pub open spec fn asks<T: Topic, G: Fn(&T) -> bool>(self, rule: G) -> bool {
        &&& self.of_topic() == Some(type_id_of::<T>())
        &&& forall|topic: AnyValue, accepted: bool| #[trigger]
            self.may_answer(topic, accepted) <==> rule_answers::<T, G>(rule, topic, accepted)
    }

    /// The filter can be asked about values of the topic `topic_id`.
    pub open spec fn fits(self, topic_id: TypeId) -> bool {
        self.of_topic() is Some ==> self.of_topic() == Some(topic_id)
    }

    /// No filter.
    pub fn none() -> (filter: Self)
        ensures
            filter.is_none(),
    {
        OptionalBoxedFilter(None)
    }

    /// The filter that asks `rule` about values of the topic `T`.
    pub fn new<T: Topic, G: Fn(&T) -> bool + Send + Sync + 'static>(rule: G) -> (filter: Self)
        requires
            forall|topic: &T| #[trigger] call_requires(rule, (topic,)),
        ensures
            filter.asks::<T, G>(rule),
    {
        let on_topic = OnTopic { rule, phantom: PhantomData };
        let ghost known = on_topic;
        let boxed: Box<dyn TopicFilter> = Box::new(on_topic);
        let ghost unknown = boxed;
        assert(unknown.of_topic() == known.of_topic());
        let some = Some(boxed);
        assert(some->0 == unknown);
        let filter = OptionalBoxedFilter(some);
        proof {
            assert(filter.0->0 == unknown);
            assert forall|topic: AnyValue, accepted: bool| #[trigger]
                filter.may_answer(topic, accepted) <==> rule_answers::<T, G>(
                    rule,
                    topic,
                    accepted,
                ) by {
                assert(unknown.may_answer(topic, accepted) == known.may_answer(topic, accepted));
            }
        }
        filter
    }

    /// Whether the filter can be asked about values of the topic `topic_id`.
    pub fn suits(&self, topic_id: TypeId) -> (suits: bool)
        ensures
            suits == self.fits(topic_id),
    {
        match &self.0 {
            Some(filter) => filter.topic_id() == topic_id,
            None => true,
        }
    }

    /// Asks the filter whether a consumer hears an event of `topic`.
    pub fn hears(&self, topic: &AnyValue) -> (heard: bool)
        requires
            self.fits(type_held(*topic)),
        ensures
            self.may_answer(*topic, heard),
    {
        match &self.0 {
            Some(filter) => filter.accepts(topic),
            None => true,
        }
    }
}

} // verus!
