//! The command model: requests to modify the system.

use vstd::prelude::*;

use crate::error::Error;
use crate::event::Events;

verus! {

/// A request to modify the system.
///
/// A corresponding [`CommandHandler`] must be registered under the command's
/// name. Commands are ephemeral and in-process only, so they carry no
/// serialization requirement; instead, each command type is erased into the
/// application-wide payload type `K` (typically an enum with one variant per
/// command type) when it is dispatched, and recovered from it by the handler.
///
/// Erasure must lose nothing: recovering the payload a command was erased
/// into yields that command back. A verified implementation declares this by
/// overriding [`obeys_erasure`](Self::obeys_erasure) to be true and proving
/// [`lemma_erase_recover`](Self::lemma_erase_recover); an unverified one
/// leaves the ghost members at their defaults, which promise nothing.
pub trait Command<K>: Sized {
    /// The name of the command. Must be unique among all commands.
    open spec fn spec_name() -> Seq<char> {
        arbitrary()
    }

    /// The payload this command is erased into.
    open spec fn spec_erased(self) -> K {
        arbitrary()
    }

    /// The command recovered from a payload, if the payload was erased from
    /// this command type.
    open spec fn spec_recovered(payload: K) -> Option<Self> {
        arbitrary()
    }

    /// Whether erasing and recovering this command type loses nothing.
    open spec fn obeys_erasure() -> bool {
        false
    }

    /// Erasing a command and recovering it yields the original command, for a
    /// command type that obeys erasure.
    proof fn lemma_erase_recover(self)
        ensures
            Self::obeys_erasure() ==> Self::spec_recovered(self.spec_erased()) == Some(self),
    ;

    /// The name of the command.
    fn name() -> (r: &'static str)
        ensures
            r@ == Self::spec_name(),
    ;

    /// Erases the command into the payload type.
    fn erase(self) -> (r: K)
        ensures
            r == self.spec_erased(),
    ;

    /// Tries to recover a command of this type from a payload.
    fn recover(payload: K) -> (r: Option<Self>)
        ensures
            r == Self::spec_recovered(payload),
    ;
}

/// A command that has been boxed to be dispatched: the type-erased runtime
/// form of a [`Command`], carrying the command's static name and its payload.
///
/// Can be created from a [`Command`] with [`from_command`](Self::from_command).
#[derive(Debug)]
pub struct BoxedCommand<K> {
    name: &'static str,
    payload: K,
}

impl<K> BoxedCommand<K> {
    /// The name of the boxed command.
    pub closed spec fn spec_name(&self) -> Seq<char> {
        self.name@
    }

    /// The name of the boxed command, as the stored slice.
    pub closed spec fn spec_name_ref(&self) -> &'static str {
        self.name
    }

    /// The payload of the boxed command.
    pub closed spec fn spec_payload(&self) -> K {
        self.payload
    }

    /// Boxes a command, capturing its static name and erasing its type.
    pub fn from_command<T: Command<K>>(command: T) -> (r: Self)
        ensures
            r.spec_name() == T::spec_name(),
            r.spec_payload() == command.spec_erased(),
    {
        BoxedCommand { name: T::name(), payload: command.erase() }
    }

    /// Returns the name of the boxed command.
    pub fn name(&self) -> (r: &'static str)
        ensures
            r@ == self.spec_name(),
            r == self.spec_name_ref(),
    {
        self.name
    }

    /// Tries to downcast the boxed command to a concrete [`Command`]
    /// implementation. Fails cleanly, naming the requested command, when the
    /// payload was boxed from a different command type.
    pub fn downcast<T: Command<K>>(self) -> (r: Result<T, Error>)
        ensures
            match r {
                Ok(c) => T::spec_recovered(self.spec_payload()) == Some(c),
                Err(e) => ({
                    &&& T::spec_recovered(self.spec_payload()) is None
                    &&& e matches Error::CommandDowncastError(n) && n@ == T::spec_name()
                }),
            },
    {
        match T::recover(self.payload) {
            Some(command) => Ok(command),
            None => Err(Error::CommandDowncastError(T::name())),
        }
    }
}

/// Downcasting a boxed command to the type it was boxed from yields the
/// original command, for a command type that obeys erasure.
pub proof fn lemma_downcast_round_trip<K, T: Command<K>>(command: T)
    requires
        T::obeys_erasure(),
    ensures
        T::spec_recovered(command.spec_erased()) == Some(command),
{
    command.lemma_erase_recover();
}

/// Wrapper for a [`Vec`] of [boxed commands](BoxedCommand).
///
/// The order is meaningful: commands emitted by an event handler are appended
/// to the back of the pending queue in this order.
#[derive(Debug)]
pub struct Commands<K>(pub Vec<BoxedCommand<K>>);

impl<K> Commands<K> {
    /// Creates an empty `Commands`.
    pub fn new() -> (r: Self)
        ensures
            r.0@.len() == 0,
    {
        Commands(Vec::new())
    }

    /// Boxes a command and appends it to the wrapped [`Vec`].
    pub fn add<T: Command<K>>(&mut self, command: T)
        ensures
            final(self).0@ == old(self).0@.push(final(self).0@.last()),
            final(self).0@.last().spec_name() == T::spec_name(),
            final(self).0@.last().spec_payload() == command.spec_erased(),
    {
        self.0.push(BoxedCommand::from_command(command));
    }
}

impl<K> Default for Commands<K> {
    /// Creates an empty `Commands`.
    fn default() -> (r: Self)
        ensures
            r.0@.len() == 0,
    {
        Commands(Vec::new())
    }
}

/// Handles a command and produces [`Events`].
///
/// # Type arguments
///
/// * `C` - the context for this handler
/// * `E` - the type of errors returned if the handler fails
/// * `K` - the application-wide command payload type
///
/// A handler whose effect on the context and emitted events is a function of
/// the context and the command alone may expose that function as
/// [`spec_handle`](Self::spec_handle) and declare it by making
/// [`obeys`](Self::obeys) true; the engine's contracts describe the whole
/// cascade exactly when every registered handler and writer does so. A handler
/// that touches the outside world leaves `obeys` false and promises nothing.
pub trait CommandHandler<C, E, K>: Sized {
    /// The name of the handled command.
    open spec fn spec_command_name(&self) -> Seq<char> {
        arbitrary()
    }

    /// Whether `handle` behaves as `spec_handle` describes.
    open spec fn obeys(&self) -> bool {
        false
    }

    /// The context and result that `handle` produces, when the handler obeys.
    open spec fn spec_handle(&self, context: C, command: BoxedCommand<K>) -> (C, Result<
        Seq<crate::event::SerializedEvent>,
        E,
    >) {
        arbitrary()
    }

    /// The name of the handled command.
    fn command_name(&self) -> (r: &'static str)
        ensures
            r@ == self.spec_command_name(),
    ;

    /// Executes a command, with the given context.
    fn handle(&self, context: &mut C, command: BoxedCommand<K>) -> (r: Result<Events, E>)
        ensures
            self.obeys() ==> ({
                let (c2, r2) = self.spec_handle(*old(context), command);
                &&& *final(context) == c2
                &&& match (r, r2) {
                    (Ok(events), Ok(spec_events)) => events.0@ == spec_events,
                    (Err(e), Err(e2)) => e == e2,
                    _ => false,
                }
            }),
    ;
}

} // verus!
