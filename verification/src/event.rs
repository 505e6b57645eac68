//! The event model: named, serializable records of things that happened.

use vstd::prelude::*;

use crate::command::Commands;
use crate::command::BoxedCommand;
use crate::error::Error;
use crate::value::Value;

verus! {

/// An event represents something that happened in the past.
///
/// When dispatched it is serialized into a [`SerializedEvent`] — a pair of the
/// event's static name and a self-describing [`Value`] — so it can be shared
/// between independent parts of the system. Each event type supplies its own
/// encoding to and from [`Value`].
///
/// Decoding must invert encoding: decoding the value an event was encoded
/// into yields that event back. A verified implementation declares this by
/// overriding [`obeys_codec`](Self::obeys_codec) to be true and proving
/// [`lemma_round_trip`](Self::lemma_round_trip); an unverified one leaves the
/// ghost members at their defaults, which promise nothing.
pub trait Event: Sized {
    /// The name of the event. Must be unique among all events.
    open spec fn spec_name() -> Seq<char> {
        arbitrary()
    }

    /// The structured value this event encodes to, or the error raised when
    /// the payload cannot be encoded.
    open spec fn spec_to_value(&self) -> Result<Value, Error> {
        arbitrary()
    }

    /// The event decoded from a structured value, or the error raised when
    /// the value's shape does not match this event type.
    open spec fn spec_from_value(value: Value) -> Result<Self, Error> {
        arbitrary()
    }

    /// Whether decoding inverts encoding for this event type.
    open spec fn obeys_codec() -> bool {
        false
    }

    /// Decoding the value an event encodes to yields the original event, for
    /// an event type that obeys its codec.
    proof fn lemma_round_trip(&self)
        ensures
            Self::obeys_codec() ==> (self.spec_to_value() matches Ok(value)
                ==> Self::spec_from_value(value) == Ok::<Self, Error>(*self)),
    ;

    /// The name of the event.
    fn name() -> (r: &'static str)
        ensures
            r@ == Self::spec_name(),
    ;

    /// Encodes the event into a structured value. Fails only if the payload
    /// cannot be encoded.
    fn to_value(&self) -> (r: Result<Value, Error>)
        ensures
            r == self.spec_to_value(),
    ;

    /// Decodes an event of this type from a structured value. Fails if the
    /// value's shape does not match.
    fn from_value(value: Value) -> (r: Result<Self, Error>)
        ensures
            r == Self::spec_from_value(value),
    ;

    /// Serializes an event into a [`SerializedEvent`], capturing its static
    /// name. Fails only if the payload cannot be encoded.
    fn serialize(self) -> (r: Result<SerializedEvent, Error>)
        ensures
            match r {
                Ok(event) => ({
                    &&& event.spec_name() == Self::spec_name()
                    &&& Ok::<Value, Error>(event.spec_value()) == self.spec_to_value()
                }),
                Err(e) => self.spec_to_value() == Err::<Value, Error>(e),
            },
    {
        match self.to_value() {
            Ok(value) => Ok(SerializedEvent { name: Self::name(), value }),
            Err(e) => Err(e),
        }
    }
}

/// An [`Event`] that creates, updates, or deletes an
/// [`Aggregate`](crate::Aggregate).
///
/// The id of the affected aggregate is a pure projection of the event's own
/// fields: [`id`](Self::id) must return [`spec_id`](Self::spec_id), which
/// depends on no external state.
///
/// # Associated type
///
/// * [`Aggregate`](Self::Aggregate) - the type of the affected aggregate
pub trait AggregateEvent: Event {
    /// The [`Aggregate`](crate::Aggregate) associated with the event.
    type Aggregate: crate::aggregate::Aggregate;

    /// The id of the affected aggregate.
    open spec fn spec_id(&self) -> crate::aggregate::Id<Self::Aggregate> {
        arbitrary()
    }

    /// The id of the affected aggregate.
    fn id(&self) -> (r: crate::aggregate::Id<Self::Aggregate>)
        ensures
            r == self.spec_id(),
    ;
}

/// An event that has been serialized to be dispatched: the type-erased runtime
/// form of an [`Event`], carrying the event's static name and its encoded
/// payload. Immutable once created.
///
/// Can be created from an [`Event`] with [`Event::serialize`].
#[derive(Debug)]
pub struct SerializedEvent {
    name: &'static str,
    value: Value,
}

impl SerializedEvent {
    /// The name of the serialized event.
    pub closed spec fn spec_name(&self) -> Seq<char> {
        self.name@
    }

    /// The name of the serialized event, as the stored slice.
    pub closed spec fn spec_name_ref(&self) -> &'static str {
        self.name
    }

    /// The encoded payload of the serialized event.
    pub closed spec fn spec_value(&self) -> Value {
        self.value
    }

    /// Tries to deserialize to a concrete [`Event`], consuming the serialized
    /// form. Fails if the stored value's shape does not match the requested
    /// event type.
    pub fn deserialize<T: Event>(self) -> (r: Result<T, Error>)
        ensures
            r == T::spec_from_value(self.spec_value()),
    {
        T::from_value(self.value)
    }

    /// The name of the serialized event.
    pub fn name(&self) -> (r: &'static str)
        ensures
            r@ == self.spec_name(),
            r == self.spec_name_ref(),
    {
        self.name
    }

    /// The encoded payload of the serialized event.
    pub fn value(&self) -> (r: &Value)
        ensures
            *r == self.spec_value(),
    {
        &self.value
    }
}

impl Clone for SerializedEvent {
    /// Builds a copy with the same name and a deeply equal payload.
    fn clone(&self) -> (r: Self)
        ensures
            r.spec_name() == self.spec_name(),
            r.spec_value().deep_eq(self.spec_value()),
    {
        SerializedEvent { name: self.name, value: self.value.clone() }
    }
}

impl PartialEq for SerializedEvent {
    /// Two serialized events compare equal when their names are equal and
    /// their encoded payloads are deeply equal.
    fn eq(&self, other: &Self) -> (r: bool) {
        crate::names::str_eq(self.name, other.name) && crate::value::value_eq(
            &self.value,
            &other.value,
        )
    }
}

impl vstd::std_specs::cmp::PartialEqSpecImpl for SerializedEvent {
    open spec fn obeys_eq_spec() -> bool {
        true
    }

    open spec fn eq_spec(&self, other: &Self) -> bool {
        self.spec_name() == other.spec_name() && self.spec_value().deep_eq(other.spec_value())
    }
}

impl Eq for SerializedEvent {

}

/// Deserializing a serialized event as the type it was serialized from yields
/// the original event, for an event type that obeys its codec.
pub proof fn lemma_serialize_round_trip<T: Event>(event: T, value: Value)
    requires
        T::obeys_codec(),
        event.spec_to_value() == Ok::<Value, Error>(value),
    ensures
        T::spec_from_value(value) == Ok::<T, Error>(event),
{
    event.lemma_round_trip();
}

/// Wrapper for a [`Vec`] of [serialized events](SerializedEvent).
///
/// The order is meaningful: it is the order in which the events are persisted
/// and fanned out by the engine.
#[derive(Debug, Clone)]
pub struct Events(pub Vec<SerializedEvent>);

impl Events {
    /// Creates a new empty `Events`.
    pub fn new() -> (r: Self)
        ensures
            r.0@.len() == 0,
    {
        Events(Vec::new())
    }

    /// Serializes an event and appends it to the wrapped [`Vec`],
    /// short-circuiting on a serialization error.
    pub fn add<T: Event>(&mut self, event: T) -> (r: Result<(), Error>)
        ensures
            match r {
                Ok(()) => ({
                    &&& final(self).0@ == old(self).0@.push(final(self).0@.last())
                    &&& final(self).0@.last().spec_name() == T::spec_name()
                    &&& Ok::<Value, Error>(final(self).0@.last().spec_value())
                        == event.spec_to_value()
                }),
                Err(e) => ({
                    &&& final(self).0@ == old(self).0@
                    &&& event.spec_to_value() == Err::<Value, Error>(e)
                }),
            },
    {
        match event.serialize() {
            Ok(serialized) => {
                self.0.push(serialized);
                Ok(())
            },
            Err(e) => Err(e),
        }
    }
}

impl PartialEq for Events {
    /// Two event batches compare equal when they hold equal serialized events
    /// in the same order.
    fn eq(&self, other: &Self) -> (r: bool) {
        if self.0.len() != other.0.len() {
            return false;
        }
        let mut i: usize = 0;
        while i != self.0.len()
            invariant
                i <= self.0@.len(),
                self.0@.len() == other.0@.len(),
                forall|j: int|
                    0 <= j < i ==> ((#[trigger] self.0@[j]).spec_name() == other.0@[j].spec_name()
                        && self.0@[j].spec_value().deep_eq(other.0@[j].spec_value())),
            decreases self.0@.len() - i,
        {
            if !self.0[i].eq(&other.0[i]) {
                return false;
            }
            i = i + 1;
        }
        true
    }
}

impl vstd::std_specs::cmp::PartialEqSpecImpl for Events {
    open spec fn obeys_eq_spec() -> bool {
        true
    }

    open spec fn eq_spec(&self, other: &Self) -> bool {
        self.0@.len() == other.0@.len() && (forall|j: int|
            0 <= j < self.0@.len() ==> ((#[trigger] self.0@[j]).spec_name()
                == other.0@[j].spec_name() && self.0@[j].spec_value().deep_eq(
                other.0@[j].spec_value(),
            )))
    }
}

impl Eq for Events {

}

impl Default for Events {
    /// Creates a new empty `Events`.
    fn default() -> (r: Self)
        ensures
            r.0@.len() == 0,
    {
        Events(Vec::new())
    }
}

/// Reacts to dispatched [`Event`]s; can emit new [`Commands`].
///
/// Several event handlers may be registered under one event name; the engine
/// invokes them in registration order.
///
/// # Type arguments
///
/// * `C` - the context for this handler
/// * `E` - the type of errors returned if the handler fails
/// * `K` - the application-wide command payload type
///
/// A handler whose effect on the context and emitted commands is a function of
/// the context and the event alone may expose that function as
/// [`spec_handle`](Self::spec_handle) and declare it by making
/// [`obeys`](Self::obeys) true; the engine's contracts describe the whole
/// cascade exactly when every registered handler and writer does so. A handler
/// that touches the outside world leaves `obeys` false and promises nothing.
pub trait EventHandler<C, E, K>: Sized {
    /// The names of the handled events.
    open spec fn spec_event_names(&self) -> Seq<Seq<char>> {
        arbitrary()
    }

    /// Whether `handle` behaves as `spec_handle` describes.
    open spec fn obeys(&self) -> bool {
        false
    }

    /// The context and result that `handle` produces, when the handler obeys.
    open spec fn spec_handle(&self, context: C, event: SerializedEvent) -> (C, Result<
        Seq<BoxedCommand<K>>,
        E,
    >) {
        arbitrary()
    }

    /// The names of the handled events.
    fn event_names(&self) -> (r: &[&'static str])
        ensures
            crate::names::name_views(r@) == self.spec_event_names(),
    ;

    /// Handles an event with the given context.
    fn handle(&self, context: &mut C, event: &SerializedEvent) -> (r: Result<Commands<K>, E>)
        ensures
            self.obeys() ==> ({
                let (c2, r2) = self.spec_handle(*old(context), *event);
                &&& *final(context) == c2
                &&& match (r, r2) {
                    (Ok(commands), Ok(spec_commands)) => commands.0@ == spec_commands,
                    (Err(e), Err(e2)) => e == e2,
                    _ => false,
                }
            }),
    ;
}

} // verus!
