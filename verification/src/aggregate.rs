//! The aggregate model: business entities evolved by events.

use vstd::prelude::*;
use vstd::std_specs::cmp::PartialEqSpec;
use vstd::std_specs::cmp::PartialOrdSpec;

use crate::event::Event;

verus! {

/// An aggregate represents a business entity that can evolve during the
/// system's execution.
///
/// It is identified by a unique id. An aggregate is constructed exactly once,
/// from its creation event, and is subsequently mutated only by applying
/// update events in arrival order. Deletion is not represented here: it is
/// modelled purely as an event, handled by whatever external collaborator
/// removes the aggregate from its store.
///
/// `apply` must be total over the update events it is legally given; supplying
/// an update event that belongs to a different aggregate instance is a caller
/// contract violation, not a runtime-checked error.
///
/// # Associated types
///
/// * [`Id`](Self::Id) - the underlying type for the id that identifies a unique aggregate
/// * [`CreationEvent`](Self::CreationEvent) - the aggregate event when creating a new aggregate
/// * [`UpdateEvent`](Self::UpdateEvent) - the aggregate event when updating an existing aggregate
/// * [`DeletionEvent`](Self::DeletionEvent) - the aggregate event when deleting an existing aggregate
pub trait Aggregate: Sized {
    /// The type of the aggregate id.
    type Id;

    /// The aggregate event that creates a new aggregate. Should additionally
    /// implement [`AggregateEvent`](crate::AggregateEvent) with this aggregate
    /// as its [`Aggregate`](crate::AggregateEvent::Aggregate).
    type CreationEvent: Event;

    /// The aggregate event that updates an existing aggregate. Should
    /// additionally implement [`AggregateEvent`](crate::AggregateEvent) with
    /// this aggregate as its [`Aggregate`](crate::AggregateEvent::Aggregate).
    type UpdateEvent: Event;

    /// The aggregate event that deletes an existing aggregate. Should
    /// additionally implement [`AggregateEvent`](crate::AggregateEvent) with
    /// this aggregate as its [`Aggregate`](crate::AggregateEvent::Aggregate).
    type DeletionEvent: Event;

    /// The id of the aggregate.
    open spec fn spec_id(&self) -> Id<Self> {
        arbitrary()
    }

    /// Getter for the aggregate id.
    fn id(&self) -> (r: Id<Self>)
        ensures
            r == self.spec_id(),
    ;

    /// Creates a new aggregate given the appropriate event.
    fn new(event: Self::CreationEvent) -> Self;

    /// Applies an update event to the aggregate.
    fn apply(&mut self, event: Self::UpdateEvent);
}

/// Wrapper type for the id of an aggregate.
///
/// Binding the raw id value to the aggregate type it names allows compile-time
/// checking of references between aggregates — two identifiers of different
/// aggregate types are never comparable — and makes it easier to change the
/// wrapped type should the need arise.
pub struct Id<A: Aggregate>(
    /// The wrapped id.
    pub A::Id,
);

impl<A: Aggregate> Clone for Id<A> where A::Id: Clone {
    /// Clones the wrapped id.
    fn clone(&self) -> (r: Self)
        ensures
            vstd::pervasive::cloned::<A::Id>(self.0, r.0),
    {
        Id(self.0.clone())
    }
}

impl<A: Aggregate> Copy for Id<A> where A::Id: Copy {

}

impl<A: Aggregate> PartialEq for Id<A> where A::Id: PartialEq {
    /// Two ids are equal when the wrapped values are.
    fn eq(&self, other: &Self) -> (r: bool) {
        self.0 == other.0
    }
}

impl<A: Aggregate> vstd::std_specs::cmp::PartialEqSpecImpl for Id<A> where A::Id: PartialEq {
    open spec fn obeys_eq_spec() -> bool {
        <A::Id as vstd::std_specs::cmp::PartialEqSpec>::obeys_eq_spec()
    }

    open spec fn eq_spec(&self, other: &Self) -> bool {
        self.0.eq_spec(&other.0)
    }
}

impl<A: Aggregate> Eq for Id<A> where A::Id: Eq {

}

impl<A: Aggregate> PartialOrd for Id<A> where A::Id: PartialOrd {
    /// Ids order as the wrapped values do.
    fn partial_cmp(&self, other: &Self) -> (r: Option<std::cmp::Ordering>) {
        self.0.partial_cmp(&other.0)
    }
}

impl<A: Aggregate> vstd::std_specs::cmp::PartialOrdSpecImpl for Id<A> where A::Id: PartialOrd {
    open spec fn obeys_partial_cmp_spec() -> bool {
        <A::Id as vstd::std_specs::cmp::PartialOrdSpec>::obeys_partial_cmp_spec()
    }

    open spec fn partial_cmp_spec(&self, other: &Self) -> Option<std::cmp::Ordering> {
        self.0.partial_cmp_spec(&other.0)
    }
}

impl<A: Aggregate> Default for Id<A> where A::Id: Default {
    /// The id wrapping the wrapped type's default value.
    fn default() -> (r: Self)
        ensures
            call_ensures(<A::Id as Default>::default, (), r.0),
    {
        Id(A::Id::default())
    }
}

} // verus!
