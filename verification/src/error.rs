//! Errors raised by the engine itself while executing a command.

use vstd::prelude::*;

verus! {

/// Errors that can occur during the execution of a command by a
/// [`CommandBus`](crate::CommandBus).
///
/// Domain-specific failures are not represented here: handlers and writers
/// return their own error type, which must be convertible from this one.
#[derive(Debug)]
pub enum Error {
    /// A command handler failed to downcast a
    /// [`BoxedCommand`](crate::BoxedCommand); the payload was boxed from a
    /// different command type. Carries the name of the requested command.
    CommandDowncastError(&'static str),
    /// An event payload could not be encoded to its structured value form.
    SerializationError(String),
    /// A stored structured value could not be decoded into the event type
    /// requested by a handler or writer.
    DeserializationError(String),
    /// A command was dispatched but no handler is registered under its name.
    /// Carries the name of the command.
    MissingCommandHandler(&'static str),
    /// A bounded execution dispatched as many commands as its budget allowed
    /// without the pending queue draining: either the budget was too small, or
    /// the registrations form a command/event feedback loop, which the engine
    /// makes no attempt to detect.
    BudgetExhausted,
}

impl Error {
    /// A human-readable description of the error.
    pub fn message(&self) -> (r: String)
        ensures
            match self {
                Error::CommandDowncastError(name) => r@ == "could not downcast command to type "@
                    + name@,
                Error::SerializationError(msg) => r@ == "serialization error: "@ + msg@,
                Error::DeserializationError(msg) => r@ == "deserialization error: "@ + msg@,
                Error::MissingCommandHandler(name) => r@
                    == "missing command handler for command "@ + name@,
                Error::BudgetExhausted => r@ == "command budget exhausted before the pending "@
                    + "queue drained"@,
            },
    {
        match self {
            Error::CommandDowncastError(name) => join_msg("could not downcast command to type ", name),
            Error::SerializationError(msg) => join_msg("serialization error: ", msg.as_str()),
            Error::DeserializationError(msg) => join_msg("deserialization error: ", msg.as_str()),
            Error::MissingCommandHandler(name) => join_msg("missing command handler for command ", name),
            Error::BudgetExhausted => join_msg("command budget exhausted before the pending ", "queue drained"),
        }
    }
}

/// Concatenates a fixed prefix with a detail string.
fn join_msg(prefix: &str, detail: &str) -> (r: String)
    ensures
        r@ == prefix@ + detail@,
{
    let mut s = prefix.to_owned();
    s.append(detail);
    s
}

} // verus!
