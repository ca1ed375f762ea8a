//! Values of a type that the bus does not know.

use std::any::{Any, TypeId};
use std::fmt;
use std::fmt::{Debug, Formatter};
use std::sync::Arc;
use vstd::prelude::*;

use crate::outside::type_id_of;

verus! {

/// A shared value whose type is known only to those who ask for it.
#[verifier::external_body]
pub struct AnyValue(Arc<dyn Any + Send + Sync>);

/// The id of the type of the value behind `value`: what [`Any::type_id`] returns for it.
pub uninterp spec fn type_held(value: AnyValue) -> TypeId;

/// Forgets the type of a value, by the coercion from `Arc<M>` to `Arc<dyn Any + Send + Sync>`. The
/// contract claims that the type of the value stays what it was; that the value does is what
/// [`holds`] says of the result.
#[verifier::external_body]
fn erase<M: 'static + Send + Sync>(inner: Arc<M>) -> (value: AnyValue)
    ensures
        type_held(value) == type_id_of::<M>(),
{
    AnyValue(inner)
}

/// `value` is `inner`, erased.
pub closed spec fn holds<M: 'static + Send + Sync>(value: AnyValue, inner: M) -> bool {
    call_ensures(erase::<M>, (Arc::new(inner),), value)
}

/// `inner` is the one value of its type that `value` holds.
pub open spec fn reveals<M: 'static + Send + Sync>(value: AnyValue, inner: M) -> bool {
    forall|other: M| #[trigger] holds(value, other) <==> other == inner
}

impl AnyValue {
    /// Forgets the type of a value.
    pub fn new<M: 'static + Send + Sync>(inner: Arc<M>) -> (value: Self)
        ensures
            type_held(value) == type_id_of::<M>(),
            holds(value, *inner),
    {
        let value = erase(inner);
        assert(holds(value, *inner));
        value
    }

    /// Calls [`Any::type_id`] on the value, not on the pointer to it.
    #[verifier::external_body]
    pub(crate) fn type_id(&self) -> (id: TypeId)
        ensures
            id == type_held(*self),
    {
        (*self.0).type_id()
    }

    /// Calls `<dyn Any>::downcast_ref`. The contract claims that it succeeds exactly when `M` is
    /// the type of the value, and that what it then gives is the value that was erased; a value of
    /// another type was not made from any `M`.
    #[verifier::external_body]
    pub(crate) fn downcast_ref<M: 'static + Send + Sync>(&self) -> (inner: Option<&M>)
        ensures
            inner is Some <==> type_held(*self) == type_id_of::<M>(),
            match inner {
                Some(inner) => reveals(*self, *inner),
                None => forall|other: M| !#[trigger] holds(*self, other),
            },
    {
        self.0.downcast_ref::<M>()
    }
}

impl Debug for AnyValue {
    /// Shows what [`Debug`] shows of the pointer to the value; nothing is claimed of the text.
    #[verifier::external_body]
    fn fmt(&self, f: &mut Formatter<'_>) -> fmt::Result {
        self.0.fmt(f)
    }
}

impl Clone for AnyValue {
    /// Calls [`Arc::clone`]: the clone shares the value.
    #[verifier::external_body]
    fn clone(&self) -> (same: Self)
        ensures
            same == *self,
    {
        AnyValue(self.0.clone())
    }
}

} // verus!
