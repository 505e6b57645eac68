//! Builder for the registrations handed to a command bus.

use vstd::prelude::*;

use crate::event::EventHandler;
use crate::names::contains_name;
use crate::registry::event_handlers_for;
use crate::registry::lemma_register_event_handler;

verus! {

/// A configuration for a [`CommandBus`](crate::CommandBus).
///
/// A configuration accumulates three registries: command handlers, keyed by
/// command name with at most one handler per name; event writers, keyed by
/// event name with at most one writer per name; and event handlers, an ordered
/// list per event name. Registrations are kept in registration order; what
/// each registry means as a mapping from names is defined in
/// [`registry`](crate::registry):
/// [`find_command_handler`](crate::registry::find_command_handler),
/// [`find_event_writer`](crate::registry::find_event_writer) and
/// [`event_handlers_for`](crate::registry::event_handlers_for).
///
/// Two configurations can be combined with [`merge`](Self::merge), so that
/// independently developed modules can each build a partial configuration and
/// have them merged before constructing the engine.
///
/// # Type arguments
///
/// * `CH` - the command handler type
/// * `EH` - the event handler type
/// * `W` - the event writer type
#[derive(Debug)]
pub struct Configuration<CH, EH, W> {
    pub(crate) command_handlers: Vec<CH>,
    pub(crate) event_handlers: Vec<EH>,
    pub(crate) event_writers: Vec<W>,
}

impl<CH, EH, W> Configuration<CH, EH, W> {
    /// The registered command handlers, in registration order.
    pub open(crate) spec fn spec_command_handlers(&self) -> Seq<CH> {
        self.command_handlers@
    }

    /// The registered event handlers, in registration order.
    pub open(crate) spec fn spec_event_handlers(&self) -> Seq<EH> {
        self.event_handlers@
    }

    /// The registered event writers, in registration order.
    pub open(crate) spec fn spec_event_writers(&self) -> Seq<W> {
        self.event_writers@
    }

    /// Creates a new empty `Configuration`.
    pub fn new() -> (r: Self)
        ensures
            r.spec_command_handlers() == Seq::<CH>::empty(),
            r.spec_event_handlers() == Seq::<EH>::empty(),
            r.spec_event_writers() == Seq::<W>::empty(),
    {
        Configuration {
            command_handlers: Vec::new(),
            event_handlers: Vec::new(),
            event_writers: Vec::new(),
        }
    }

    /// Adds a new event handler to the configuration: the handler is appended
    /// to the handler list of every event name it reacts to
    /// ([`lemma_register_event_handler`](crate::registry::lemma_register_event_handler)).
    /// Takes ownership and returns the configuration to allow chaining.
    pub fn event_handler(self, handler: EH) -> (r: Self)
        ensures
            r.spec_command_handlers() == self.spec_command_handlers(),
            r.spec_event_handlers() == self.spec_event_handlers().push(handler),
            r.spec_event_writers() == self.spec_event_writers(),
    {
        let mut this = self;
        this.event_handlers.push(handler);
        this
    }

    /// Adds a new command handler to the configuration: the handler is
    /// registered under its command name, overwriting any prior handler under
    /// that name
    /// ([`lemma_register_command_handler`](crate::registry::lemma_register_command_handler));
    /// no duplicate-registration error is raised. Takes ownership and returns
    /// the configuration to allow chaining.
    pub fn command_handler(self, handler: CH) -> (r: Self)
        ensures
            r.spec_command_handlers() == self.spec_command_handlers().push(handler),
            r.spec_event_handlers() == self.spec_event_handlers(),
            r.spec_event_writers() == self.spec_event_writers(),
    {
        let mut this = self;
        this.command_handlers.push(handler);
        this
    }

    /// Adds a new event writer to the configuration: the writer is registered
    /// under every event name it persists, overwriting any prior writer under
    /// those names
    /// ([`lemma_register_event_writer`](crate::registry::lemma_register_event_writer)).
    /// Takes ownership and returns the configuration to allow chaining.
    pub fn event_writer(self, writer: W) -> (r: Self)
        ensures
            r.spec_command_handlers() == self.spec_command_handlers(),
            r.spec_event_handlers() == self.spec_event_handlers(),
            r.spec_event_writers() == self.spec_event_writers().push(writer),
    {
        let mut this = self;
        this.event_writers.push(writer);
        this
    }

    /// The number of event handlers registered under `event_name`.
    #[verifier::loop_isolation(false)]
    pub fn event_handler_count<C, E, K>(&self, event_name: &str) -> (n: usize) where
        EH: EventHandler<C, E, K>,

        ensures
            n == event_handlers_for(self.spec_event_handlers(), event_name@).len(),
    {
        let mut n: usize = 0;
        let mut i: usize = 0;
        proof {
            assert(self.spec_event_handlers().take(0) =~= Seq::<EH>::empty());
        }
        while i != self.event_handlers.len()
            invariant
                i <= self.event_handlers@.len(),
                n <= i,
                n == event_handlers_for(
                    self.spec_event_handlers().take(i as int),
                    event_name@,
                ).len(),
            decreases self.event_handlers@.len() - i,
        {
            let handler = &self.event_handlers[i];
            proof {
                assert(self.spec_event_handlers().take(i as int + 1)
                    =~= self.spec_event_handlers().take(i as int).push(
                    self.spec_event_handlers()[i as int],
                ));
                lemma_register_event_handler::<C, E, K, EH>(
                    self.spec_event_handlers().take(i as int),
                    self.spec_event_handlers()[i as int],
                    event_name@,
                );
            }
            if contains_name(handler.event_names(), event_name) {
                n = n + 1;
            }
            i = i + 1;
        }
        proof {
            assert(self.spec_event_handlers().take(self.spec_event_handlers().len() as int)
                =~= self.spec_event_handlers());
        }
        n
    }

    /// Combines two configurations: command-handler and event-writer
    /// registrations of `other` win ties against those of `self`
    /// ([`lemma_find_command_handler_concat`](crate::registry::lemma_find_command_handler_concat),
    /// [`lemma_find_event_writer_concat`](crate::registry::lemma_find_event_writer_concat)),
    /// and the event-handler lists under each name are concatenated, `self`'s
    /// first
    /// ([`lemma_event_handlers_for_concat`](crate::registry::lemma_event_handlers_for_concat)).
    pub fn merge(self, other: Self) -> (r: Self)
        ensures
            r.spec_command_handlers() == self.spec_command_handlers()
                + other.spec_command_handlers(),
            r.spec_event_handlers() == self.spec_event_handlers() + other.spec_event_handlers(),
            r.spec_event_writers() == self.spec_event_writers() + other.spec_event_writers(),
    {
        let mut this = self;
        let mut that = other;
        this.command_handlers.append(&mut that.command_handlers);
        this.event_handlers.append(&mut that.event_handlers);
        this.event_writers.append(&mut that.event_writers);
        this
    }
}

impl<CH, EH, W> Default for Configuration<CH, EH, W> {
    /// Creates a new empty `Configuration`.
    fn default() -> (r: Self)
        ensures
            r.spec_command_handlers() == Seq::<CH>::empty(),
            r.spec_event_handlers() == Seq::<EH>::empty(),
            r.spec_event_writers() == Seq::<W>::empty(),
    {
        Configuration::new()
    }
}

/// Merging configurations is associative: however three configurations are
/// merged pairwise, the resulting registries are the same.
pub proof fn lemma_merge_associative<CH, EH, W>(
    first: &Configuration<CH, EH, W>,
    second: &Configuration<CH, EH, W>,
    third: &Configuration<CH, EH, W>,
)
    ensures
        (first.spec_command_handlers() + second.spec_command_handlers())
            + third.spec_command_handlers() == first.spec_command_handlers()
            + (second.spec_command_handlers() + third.spec_command_handlers()),
        (first.spec_event_handlers() + second.spec_event_handlers())
            + third.spec_event_handlers() == first.spec_event_handlers()
            + (second.spec_event_handlers() + third.spec_event_handlers()),
        (first.spec_event_writers() + second.spec_event_writers()) + third.spec_event_writers()
            == first.spec_event_writers() + (second.spec_event_writers()
            + third.spec_event_writers()),
{
    assert((first.spec_command_handlers() + second.spec_command_handlers())
        + third.spec_command_handlers() =~= first.spec_command_handlers()
        + (second.spec_command_handlers() + third.spec_command_handlers()));
    assert((first.spec_event_handlers() + second.spec_event_handlers())
        + third.spec_event_handlers() =~= first.spec_event_handlers()
        + (second.spec_event_handlers() + third.spec_event_handlers()));
    assert((first.spec_event_writers() + second.spec_event_writers())
        + third.spec_event_writers() =~= first.spec_event_writers() + (second.spec_event_writers()
        + third.spec_event_writers()));
}

} // verus!
