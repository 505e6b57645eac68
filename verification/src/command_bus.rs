//! The dispatch engine: executes commands and fans out the resulting events.

use vstd::prelude::*;
use vstd::std_specs::convert::FromSpec;

use std::collections::VecDeque;

use crate::command::BoxedCommand;
use crate::command::Command;
use crate::command::CommandHandler;
use crate::configuration::Configuration;
use crate::error::Error;
use crate::event::EventHandler;
use crate::event::SerializedEvent;
use crate::names::contains_name;
use crate::names::str_eq;
use crate::registry::event_handlers_for;
use crate::registry::find_command_handler;
use crate::registry::find_event_writer;

verus! {

/// Persists events.
///
/// A writer can persist the events themselves, persist the results of applying
/// the events, or mix both approaches. At most one writer is in effect per
/// event name; an event whose name has no registered writer is not persisted,
/// and that is a tolerated configuration state, not an error.
///
/// # Type arguments
///
/// * `C` - the context for this writer
/// * `E` - the type of errors returned if the writer fails
///
/// A writer whose effect on the context is a function of the context and the
/// event alone may expose that function as [`spec_write`](Self::spec_write)
/// and declare it by making [`obeys`](Self::obeys) true; the engine's
/// contracts describe the whole cascade exactly when every registered handler
/// and writer does so. A writer that touches the outside world leaves `obeys`
/// false and promises nothing.
pub trait EventWriter<C, E>: Sized {
    /// The names of the events this writer persists.
    open spec fn spec_event_names(&self) -> Seq<Seq<char>> {
        arbitrary()
    }

    /// Whether `write` behaves as `spec_write` describes.
    open spec fn obeys(&self) -> bool {
        false
    }

    /// The context and result that `write` produces, when the writer obeys.
    open spec fn spec_write(&self, context: C, event: SerializedEvent) -> (C, Result<(), E>) {
        arbitrary()
    }

    /// The names of the events this writer persists.
    fn event_names(&self) -> (r: &[&'static str])
        ensures
            crate::names::name_views(r@) == self.spec_event_names(),
    ;

    /// Writes an event.
    fn write(&self, context: &mut C, event: &SerializedEvent) -> (r: Result<(), E>)
        ensures
            self.obeys() ==> ({
                let (c2, r2) = self.spec_write(*old(context), *event);
                &&& *final(context) == c2
                &&& r == r2
            }),
    ;
}

/// Executes a command and handles the resulting events.
///
/// The bus takes a context and a command to execute. The command's handler
/// emits events; each event is persisted through the writer registered under
/// its name, then every event handler registered under that name runs in
/// registration order. Event handlers can emit new commands, which are
/// appended to the back of the pending queue and executed in turn. The process
/// continues as long as new commands are issued.
///
/// The registries are immutable once the bus is built: they are filled from
/// [`Configuration`]s with [`configure`](Self::configure) and only read
/// afterwards.
///
/// Can be created using [`new`](CommandBus::new) or the [`Default`]
/// implementation.
///
/// # Type arguments
///
/// * `CH` - the command handler type
/// * `EH` - the event handler type
/// * `W` - the event writer type
#[derive(Debug, Clone)]
pub struct CommandBus<CH, EH, W> {
    command_handlers: Vec<CH>,
    event_handlers: Vec<EH>,
    event_writers: Vec<W>,
}

impl<CH, EH, W> CommandBus<CH, EH, W> {
    /// The registered command handlers, in registration order.
    pub closed spec fn spec_command_handlers(&self) -> Seq<CH> {
        self.command_handlers@
    }

    /// The registered event handlers, in registration order.
    pub closed spec fn spec_event_handlers(&self) -> Seq<EH> {
        self.event_handlers@
    }

    /// The registered event writers, in registration order.
    pub closed spec fn spec_event_writers(&self) -> Seq<W> {
        self.event_writers@
    }

    /// Creates a new, empty, `CommandBus`.
    pub fn new() -> (r: Self)
        ensures
            r.spec_command_handlers() == Seq::<CH>::empty(),
            r.spec_event_handlers() == Seq::<EH>::empty(),
            r.spec_event_writers() == Seq::<W>::empty(),
    {
        CommandBus { command_handlers: Vec::new(), event_handlers: Vec::new(), event_writers: Vec::new() }
    }

    /// Configures the command bus using the specified configuration: the
    /// configuration's registrations are appended to the bus's, so they win
    /// ties against earlier registrations of command handlers and event
    /// writers, and their event handlers run after earlier ones registered
    /// under the same event name. Takes ownership of `self` and returns it to
    /// allow chaining.
    pub fn configure(self, configuration: Configuration<CH, EH, W>) -> (r: Self)
        ensures
            r.spec_command_handlers() == self.spec_command_handlers()
                + configuration.spec_command_handlers(),
            r.spec_event_handlers() == self.spec_event_handlers()
                + configuration.spec_event_handlers(),
            r.spec_event_writers() == self.spec_event_writers()
                + configuration.spec_event_writers(),
    {
        let mut this = self;
        let mut conf = configuration;
        this.command_handlers.append(&mut conf.command_handlers);
        this.event_handlers.append(&mut conf.event_handlers);
        this.event_writers.append(&mut conf.event_writers);
        this
    }

    /// Whether every registered handler and writer declares that it behaves as
    /// its specification function describes. Under this hypothesis the bus's
    /// contracts pin down the whole cascade.
    pub open spec fn all_obey<C, E, K>(&self) -> bool where
        CH: CommandHandler<C, E, K>,
        EH: EventHandler<C, E, K>,
        W: EventWriter<C, E>,
    {
        &&& forall|i: int|
            0 <= i < self.spec_command_handlers().len() ==> (
            #[trigger] self.spec_command_handlers()[i]).obeys()
        &&& forall|i: int|
            0 <= i < self.spec_event_handlers().len() ==> (
            #[trigger] self.spec_event_handlers()[i]).obeys()
        &&& forall|i: int|
            0 <= i < self.spec_event_writers().len() ==> (
            #[trigger] self.spec_event_writers()[i]).obeys()
    }

    /// The persistence step for one event: the writer registered under the
    /// event's name runs, and an event without a writer is passed over without
    /// failing.
    pub open spec fn spec_write_step<C, E>(&self, context: C, event: SerializedEvent) -> (C, Result<
        (),
        E,
    >) where W: EventWriter<C, E> {
        match find_event_writer(self.spec_event_writers(), event.spec_name()) {
            Some(writer) => writer.spec_write(context, event),
            None => (context, Ok(())),
        }
    }

    /// The full handling of one event: the persistence step, then the fan-out
    /// over the registered event handlers.
    pub open spec fn spec_handle_event<C, E, K>(&self, context: C, event: SerializedEvent) -> (C, Result<
        Seq<BoxedCommand<K>>,
        E,
    >) where EH: EventHandler<C, E, K>, W: EventWriter<C, E> {
        let (c1, r1) = self.spec_write_step(context, event);
        match r1 {
            Err(e) => (c1, Err(e)),
            Ok(_) => spec_fan_out(self.spec_event_handlers(), c1, event),
        }
    }

    /// The handling of a batch of events, in order, concatenating the commands
    /// their fan-outs emit and stopping at the first error.
    pub open spec fn spec_handle_events<C, E, K>(
        &self,
        context: C,
        events: Seq<SerializedEvent>,
    ) -> (C, Result<Seq<BoxedCommand<K>>, E>) where
        EH: EventHandler<C, E, K>,
        W: EventWriter<C, E>,

        decreases events.len(),
    {
        if events.len() == 0 {
            (context, Ok(Seq::empty()))
        } else {
            let (c1, r1) = self.spec_handle_event(context, events.first());
            match r1 {
                Err(e) => (c1, Err(e)),
                Ok(commands) => {
                    let (c2, r2) = self.spec_handle_events(c1, events.drop_first());
                    match r2 {
                        Err(e) => (c2, Err(e)),
                        Ok(rest) => (c2, Ok(commands + rest)),
                    }
                },
            }
        }
    }

    /// The dispatch of one command: the handler registered under the command's
    /// name runs and its event batch is handled; a command without a handler
    /// fails with [`Error::MissingCommandHandler`].
    pub open spec fn spec_dispatch<C, E, K>(&self, context: C, command: BoxedCommand<K>) -> (C, Result<
        Seq<BoxedCommand<K>>,
        E,
    >) where
        CH: CommandHandler<C, E, K>,
        EH: EventHandler<C, E, K>,
        W: EventWriter<C, E>,
        E: From<Error>,
    {
        match find_command_handler(self.spec_command_handlers(), command.spec_name()) {
            None => (
                context,
                Err(E::from_spec(Error::MissingCommandHandler(command.spec_name_ref()))),
            ),
            Some(handler) => {
                let (c1, r1) = handler.spec_handle(context, command);
                match r1 {
                    Err(e) => (c1, Err(e)),
                    Ok(events) => self.spec_handle_events(c1, events),
                }
            },
        }
    }

    /// The cascade from a queue of pending commands: the front command is
    /// dispatched, the commands its events emit are appended to the back of
    /// the queue, and the process repeats until the queue drains or an error
    /// aborts it. `fuel` bounds the number of commands dispatched; `None`
    /// means the fuel was exhausted first.
    pub open spec fn spec_run<C, E, K>(
        &self,
        context: C,
        queue: Seq<BoxedCommand<K>>,
        fuel: nat,
    ) -> (C, Option<Result<(), E>>) where
        CH: CommandHandler<C, E, K>,
        EH: EventHandler<C, E, K>,
        W: EventWriter<C, E>,
        E: From<Error>,

        decreases fuel,
    {
        if queue.len() == 0 {
            (context, Some(Ok(())))
        } else if fuel == 0 {
            (context, None)
        } else {
            let (c1, r1) = self.spec_dispatch(context, queue.first());
            match r1 {
                Err(e) => (c1, Some(Err(e))),
                Ok(commands) => self.spec_run(c1, queue.drop_first() + commands, (fuel - 1) as nat),
            }
        }
    }
}

impl<CH, EH, W> CommandBus<CH, EH, W> {
    /// Looks up the command handler registered under `command_name`, failing
    /// with [`Error::MissingCommandHandler`] when there is none.
    #[verifier::loop_isolation(false)]
    fn get_command_handler<C, E, K>(&self, command_name: &'static str) -> (r: Result<
        &CH,
        Error,
    >) where CH: CommandHandler<C, E, K>
        ensures
            match r {
                Ok(handler) => ({
                    &&& find_command_handler(self.spec_command_handlers(), command_name@)
                        == Some(*handler)
                    &&& self.spec_command_handlers().contains(*handler)
                }),
                Err(e) => ({
                    &&& find_command_handler(self.spec_command_handlers(), command_name@) is None
                    &&& e == Error::MissingCommandHandler(command_name)
                }),
            },
    {
        let mut i: usize = self.command_handlers.len();
        proof {
            assert(self.spec_command_handlers().take(i as int) =~= self.spec_command_handlers());
        }
        while i != 0
            invariant
                i <= self.command_handlers.len(),
                find_command_handler(self.spec_command_handlers(), command_name@)
                    == find_command_handler(
                    self.spec_command_handlers().take(i as int),
                    command_name@,
                ),
            decreases i,
        {
            i = i - 1;
            let handler = &self.command_handlers[i];
            proof {
                assert(self.spec_command_handlers().take(i as int + 1).last()
                    == self.spec_command_handlers()[i as int]);
                assert(self.spec_command_handlers().take(i as int + 1).drop_last()
                    =~= self.spec_command_handlers().take(i as int));
            }
            if str_eq(handler.command_name(), command_name) {
                return Ok(handler);
            }
        }
        Err(Error::MissingCommandHandler(command_name))
    }

    /// Looks up the event writer registered under `event_name`, if any.
    #[verifier::loop_isolation(false)]
    fn get_event_writer<C, E>(&self, event_name: &str) -> (r: Option<&W>) where
        W: EventWriter<C, E>,

        ensures
            match r {
                Some(writer) => ({
                    &&& find_event_writer(self.spec_event_writers(), event_name@) == Some(*writer)
                    &&& self.spec_event_writers().contains(*writer)
                }),
                None => find_event_writer(self.spec_event_writers(), event_name@) is None,
            },
    {
        let mut i: usize = self.event_writers.len();
        proof {
            assert(self.spec_event_writers().take(i as int) =~= self.spec_event_writers());
        }
        while i != 0
            invariant
                i <= self.event_writers.len(),
                find_event_writer(self.spec_event_writers(), event_name@) == find_event_writer(
                    self.spec_event_writers().take(i as int),
                    event_name@,
                ),
            decreases i,
        {
            i = i - 1;
            let writer = &self.event_writers[i];
            proof {
                assert(self.spec_event_writers().take(i as int + 1).last()
                    == self.spec_event_writers()[i as int]);
                assert(self.spec_event_writers().take(i as int + 1).drop_last()
                    =~= self.spec_event_writers().take(i as int));
            }
            if contains_name(writer.event_names(), event_name) {
                return Some(writer);
            }
        }
        None
    }

    /// Handles one event: persists it through the writer registered under its
    /// name — an event without a writer is passed over without failing — then
    /// runs every event handler registered under that name in registration
    /// order, collecting the commands they emit in order. The first failure
    /// aborts the handling and is returned.
    #[verifier::loop_isolation(false)]
    fn handle_event<C, E, K>(&self, context: &mut C, event: &SerializedEvent) -> (r: Result<
        Vec<BoxedCommand<K>>,
        E,
    >) where
        CH: CommandHandler<C, E, K>,
        EH: EventHandler<C, E, K>,
        W: EventWriter<C, E>,

        ensures
            self.all_obey::<C, E, K>() ==> ({
                let (c2, r2) = self.spec_handle_event::<C, E, K>(*old(context), *event);
                &&& *final(context) == c2
                &&& match (r, r2) {
                    (Ok(commands), Ok(spec_commands)) => commands@ == spec_commands,
                    (Err(e), Err(e2)) => e == e2,
                    _ => false,
                }
            }),
    {
        let event_name = event.name();
        match self.get_event_writer::<C, E>(event_name) {
            Some(writer) => {
                match writer.write(context, event) {
                    Ok(_) => {},
                    Err(e) => {
                        return Err(e);
                    },
                }
            },
            None => {},
        }
        let ghost mid_context = *context;
        let mut commands: Vec<BoxedCommand<K>> = Vec::new();
        let mut i: usize = 0;
        proof {
            assert(self.spec_event_handlers().skip(0) =~= self.spec_event_handlers());
        }
        while i != self.event_handlers.len()
            invariant
                i <= self.event_handlers.len(),
                self.all_obey::<C, E, K>() ==> ({
                    let full = spec_fan_out::<C, E, K, EH>(
                        self.spec_event_handlers(),
                        mid_context,
                        *event,
                    );
                    let rest = spec_fan_out::<C, E, K, EH>(
                        self.spec_event_handlers().skip(i as int),
                        *context,
                        *event,
                    );
                    full == match rest {
                        (cf, Ok(cs)) => (cf, Ok::<Seq<BoxedCommand<K>>, E>(commands@ + cs)),
                        (cf, Err(e)) => (cf, Err::<Seq<BoxedCommand<K>>, E>(e)),
                    }
                }),
            decreases self.event_handlers.len() - i,
        {
            let handler = &self.event_handlers[i];
            proof {
                assert(self.spec_event_handlers().skip(i as int).first()
                    == self.spec_event_handlers()[i as int]);
                assert(self.spec_event_handlers().skip(i as int).drop_first()
                    =~= self.spec_event_handlers().skip(i as int + 1));
            }
            if contains_name(handler.event_names(), event_name) {
                match handler.handle(context, event) {
                    Ok(new_commands) => {
                        let mut emitted = new_commands;
                        let ghost commands_before = commands@;
                        let ghost added = emitted.0@;
                        commands.append(&mut emitted.0);
                        proof {
                            if self.all_obey::<C, E, K>() {
                                let rest_next = spec_fan_out::<C, E, K, EH>(
                                    self.spec_event_handlers().skip(i as int + 1),
                                    *context,
                                    *event,
                                );
                                match rest_next {
                                    (c2, Ok(rest2)) => {
                                        assert((commands_before + added) + rest2
                                            =~= commands_before + (added + rest2));
                                    },
                                    (c2, Err(e)) => {},
                                }
                            }
                        }
                    },
                    Err(e) => {
                        return Err(e);
                    },
                }
            }
            i = i + 1;
        }
        proof {
            assert(self.spec_event_handlers().skip(self.spec_event_handlers().len() as int)
                =~= Seq::<EH>::empty());
            assert(commands@ + Seq::<BoxedCommand<K>>::empty() =~= commands@);
        }
        Ok(commands)
    }
}

impl<CH, EH, W> CommandBus<CH, EH, W> {
    /// Executes a [`Command`] with the provided context, dispatching at most
    /// `budget` commands.
    ///
    /// The pending queue is seeded with the submitted command. Commands are
    /// dispatched first-in-first-out: the handler registered under the front
    /// command's name runs, every event it emits is persisted and fanned out
    /// in order, and the follow-up commands the event handlers emit are
    /// appended to the back of the queue. The call returns success once the
    /// queue drains; the first error aborts the whole call immediately,
    /// leaving the context mutations already performed in place.
    ///
    /// Each dispatched command spends one unit of `budget`; when the budget is
    /// exhausted before the queue drains — the registrations form a feedback
    /// loop, or the budget was too small — the call fails with
    /// [`Error::BudgetExhausted`]. (A termination measure is required here,
    /// since a feedback loop can cascade without end; [`execute`](Self::execute)
    /// passes the largest budget there is.)
    #[verifier::loop_isolation(false)]
    pub fn execute_bounded<C, E, K, T>(&self, context: &mut C, command: T, budget: u64) -> (r:
        Result<(), E>) where
        CH: CommandHandler<C, E, K>,
        EH: EventHandler<C, E, K>,
        W: EventWriter<C, E>,
        T: Command<K>,
        E: From<Error>,

        ensures
            (budget >= 1 && find_command_handler(self.spec_command_handlers(), T::spec_name())
                is None) ==> ({
                &&& *final(context) == *old(context)
                &&& r is Err
            }),
            (budget >= 1 && find_command_handler(self.spec_command_handlers(), T::spec_name())
                is None && E::obeys_from_spec()) ==> (exists|n: &'static str|
                n@ == T::spec_name() && r == Err::<(), E>(E::from_spec(Error::MissingCommandHandler(n)))),
            (self.all_obey::<C, E, K>() && E::obeys_from_spec()) ==> (exists|b: BoxedCommand<K>|
                {
                    &&& b.spec_name() == T::spec_name()
                    &&& b.spec_payload() == command.spec_erased()
                    &&& ({
                        let (c2, r2) = self.spec_run::<C, E, K>(
                            *old(context),
                            seq![b],
                            budget as nat,
                        );
                        &&& *final(context) == c2
                        &&& match r2 {
                            Some(outcome) => r == outcome,
                            None => r == Err::<(), E>(E::from_spec(Error::BudgetExhausted)),
                        }
                    })
                }),
    {
        let boxed = BoxedCommand::from_command(command);
        let ghost first_boxed = boxed;
        let mut queue: VecDeque<BoxedCommand<K>> = VecDeque::new();
        queue.push_back(boxed);
        let ghost start_context = *context;
        let mut remaining: u64 = budget;
        proof {
            assert(queue@ =~= seq![first_boxed]);
        }
        loop
            invariant
                remaining <= budget,
                self.all_obey::<C, E, K>() && E::obeys_from_spec() ==> self.spec_run::<C, E, K>(
                    start_context,
                    seq![first_boxed],
                    budget as nat,
                ) == self.spec_run::<C, E, K>(*context, queue@, remaining as nat),
                (budget >= 1 && find_command_handler(self.spec_command_handlers(), T::spec_name())
                    is None) ==> ({
                    &&& *context == start_context
                    &&& queue@ == seq![first_boxed]
                    &&& remaining == budget
                }),
            decreases remaining,
        {
            let ghost queue_at_start = queue@;
            let front = queue.pop_front();
            match front {
                None => {
                    return Ok(());
                },
                Some(cmd) => {
                    proof {
                        assert(cmd == queue_at_start.first());
                        assert(queue@ =~= queue_at_start.drop_first());
                    }
                    if remaining == 0 {
                        return Err(E::from(Error::BudgetExhausted));
                    }
                    remaining = remaining - 1;
                    let command_name = cmd.name();
                    let handler = match self.get_command_handler::<C, E, K>(command_name) {
                        Ok(handler) => handler,
                        Err(e) => {
                            return Err(E::from(e));
                        },
                    };
                    let events = match handler.handle(context, cmd) {
                        Ok(events) => events,
                        Err(e) => {
                            return Err(e);
                        },
                    };
                    let ghost after_handler_context = *context;
                    let ghost queue_after_pop = queue@;
                    let ghost mut enqueued: Seq<BoxedCommand<K>> = Seq::empty();
                    let mut j: usize = 0;
                    proof {
                        assert(events.0@.skip(0) =~= events.0@);
                        assert(queue@ =~= queue_after_pop + enqueued);
                    }
                    while j != events.0.len()
                        invariant
                            j <= events.0.len(),
                            queue@ == queue_after_pop + enqueued,
                            self.all_obey::<C, E, K>() ==> ({
                                let total = self.spec_handle_events::<C, E, K>(
                                    after_handler_context,
                                    events.0@,
                                );
                                let rest = self.spec_handle_events::<C, E, K>(
                                    *context,
                                    events.0@.skip(j as int),
                                );
                                total == match rest {
                                    (cf, Ok(cs)) => (
                                        cf,
                                        Ok::<Seq<BoxedCommand<K>>, E>(enqueued + cs),
                                    ),
                                    (cf, Err(e)) => (cf, Err::<Seq<BoxedCommand<K>>, E>(e)),
                                }
                            }),
                        decreases events.0.len() - j,
                    {
                        proof {
                            assert(events.0@.skip(j as int).first() == events.0@[j as int]);
                            assert(events.0@.skip(j as int).drop_first() =~= events.0@.skip(
                                j as int + 1,
                            ));
                        }
                        let new_commands = match self.handle_event::<C, E, K>(
                            context,
                            &events.0[j],
                        ) {
                            Ok(new_commands) => new_commands,
                            Err(e) => {
                                return Err(e);
                            },
                        };
                        let ghost commands_added = new_commands@;
                        let ghost enqueued_before = enqueued;
                        let ghost queue_snapshot = queue@;
                        let mut pending = new_commands;
                        while pending.len() != 0
                            invariant
                                queue@ + pending@ == queue_snapshot + commands_added,
                            decreases pending.len(),
                        {
                            let ghost pending_before = pending@;
                            let ghost queue_before = queue@;
                            let next = pending.remove(0);
                            queue.push_back(next);
                            proof {
                                assert(pending_before.remove(0) =~= pending_before.drop_first());
                                assert(queue_before.push(next) + pending_before.drop_first()
                                    =~= queue_before + pending_before);
                            }
                        }
                        proof {
                            assert(pending@ =~= Seq::<BoxedCommand<K>>::empty());
                            assert(queue@ + pending@ =~= queue@);
                            assert(queue@ =~= queue_snapshot + commands_added);
                            enqueued = enqueued_before + commands_added;
                            assert(queue@ =~= queue_after_pop + enqueued);
                            if self.all_obey::<C, E, K>() {
                                let rest_next = self.spec_handle_events::<C, E, K>(
                                    *context,
                                    events.0@.skip(j as int + 1),
                                );
                                match rest_next {
                                    (c2, Ok(rest2)) => {
                                        assert((enqueued_before + commands_added) + rest2
                                            =~= enqueued_before + (commands_added + rest2));
                                    },
                                    (c2, Err(e)) => {},
                                }
                            }
                        }
                        j = j + 1;
                    }
                    proof {
                        assert(events.0@.skip(events.0@.len() as int)
                            =~= Seq::<SerializedEvent>::empty());
                        assert(enqueued + Seq::<BoxedCommand<K>>::empty() =~= enqueued);
                        assert(queue_at_start.drop_first() + enqueued =~= queue@);
                    }
                },
            }
        }
    }

    /// Executes a [`Command`] with the provided context. The command's handler
    /// runs and emits events; each event is persisted through the writer
    /// registered under its name, then the event handlers registered under
    /// that name run in registration order, and the commands they emit are
    /// executed in turn, first-in-first-out, until no command is pending.
    ///
    /// Equivalent to [`execute_bounded`](Self::execute_bounded) with the
    /// largest budget there is: a command/event feedback loop among the
    /// registrations is not detected and will in effect never return.
    pub fn execute<C, E, K, T>(&self, context: &mut C, command: T) -> (r: Result<(), E>) where
        CH: CommandHandler<C, E, K>,
        EH: EventHandler<C, E, K>,
        W: EventWriter<C, E>,
        T: Command<K>,
        E: From<Error>,

        ensures
            find_command_handler(self.spec_command_handlers(), T::spec_name()) is None ==> ({
                &&& *final(context) == *old(context)
                &&& r is Err
            }),
            (find_command_handler(self.spec_command_handlers(), T::spec_name()) is None
                && E::obeys_from_spec()) ==> (exists|n: &'static str|
                n@ == T::spec_name() && r == Err::<(), E>(E::from_spec(Error::MissingCommandHandler(n)))),
            (self.all_obey::<C, E, K>() && E::obeys_from_spec()) ==> (exists|b: BoxedCommand<K>|
                {
                    &&& b.spec_name() == T::spec_name()
                    &&& b.spec_payload() == command.spec_erased()
                    &&& ({
                        let (c2, r2) = self.spec_run::<C, E, K>(
                            *old(context),
                            seq![b],
                            u64::MAX as nat,
                        );
                        &&& *final(context) == c2
                        &&& match r2 {
                            Some(outcome) => r == outcome,
                            None => r == Err::<(), E>(E::from_spec(Error::BudgetExhausted)),
                        }
                    })
                }),
    {
        self.execute_bounded(context, command, u64::MAX)
    }
}

impl<CH, EH, W> Default for CommandBus<CH, EH, W> {
    /// Creates a new, empty, `CommandBus`.
    fn default() -> (r: Self)
        ensures
            r.spec_command_handlers() == Seq::<CH>::empty(),
            r.spec_event_handlers() == Seq::<EH>::empty(),
            r.spec_event_writers() == Seq::<W>::empty(),
    {
        CommandBus::new()
    }
}

impl<CH, EH, W> CommandBus<CH, EH, W> {
    /// No-writer tolerance: an event whose name has no registered writer is
    /// not persisted and causes no failure — its handling is exactly the
    /// fan-out over the registered event handlers, from the unchanged context.
    pub proof fn lemma_no_writer_tolerance<C, E, K>(&self, context: C, event: SerializedEvent) where
        CH: CommandHandler<C, E, K>,
        EH: EventHandler<C, E, K>,
        W: EventWriter<C, E>,

        requires
            find_event_writer(self.spec_event_writers(), event.spec_name()) is None,
        ensures
            self.spec_write_step::<C, E>(context, event) == (context, Ok::<(), E>(())),
            self.spec_handle_event::<C, E, K>(context, event) == spec_fan_out::<C, E, K, EH>(
                self.spec_event_handlers(),
                context,
                event,
            ),
    {
    }

    /// Ordering of event batches: handling a batch of events split into a
    /// front part and a back part handles the front part first, and every
    /// command its fan-outs emit precedes every command the back part's
    /// fan-outs emit; an error in the front part aborts before the back part
    /// is reached. Since the pending queue is first-in-first-out, the emitted
    /// commands are also dispatched in that order, before any command a later
    /// batch appends.
    pub proof fn lemma_handle_events_concat<C, E, K>(
        &self,
        context: C,
        front: Seq<SerializedEvent>,
        back: Seq<SerializedEvent>,
    ) where
        CH: CommandHandler<C, E, K>,
        EH: EventHandler<C, E, K>,
        W: EventWriter<C, E>,

        ensures
            self.spec_handle_events::<C, E, K>(context, front + back) == ({
                let (c1, r1) = self.spec_handle_events::<C, E, K>(context, front);
                match r1 {
                    Err(e) => (c1, Err::<Seq<BoxedCommand<K>>, E>(e)),
                    Ok(commands) => {
                        let (c2, r2) = self.spec_handle_events::<C, E, K>(c1, back);
                        match r2 {
                            Err(e) => (c2, Err::<Seq<BoxedCommand<K>>, E>(e)),
                            Ok(rest) => (c2, Ok::<Seq<BoxedCommand<K>>, E>(commands + rest)),
                        }
                    },
                }
            }),
        decreases front.len(),
    {
        if front.len() == 0 {
            assert(front + back =~= back);
            let (c2, r2) = self.spec_handle_events::<C, E, K>(context, back);
            match r2 {
                Ok(rest) => {
                    assert(Seq::<BoxedCommand<K>>::empty() + rest =~= rest);
                },
                Err(e) => {},
            }
        } else {
            assert((front + back).first() == front.first());
            assert((front + back).drop_first() =~= front.drop_first() + back);
            let (c1, r1) = self.spec_handle_event::<C, E, K>(context, front.first());
            match r1 {
                Err(e) => {},
                Ok(commands) => {
                    self.lemma_handle_events_concat::<C, E, K>(c1, front.drop_first(), back);
                    let (c2, r2) = self.spec_handle_events::<C, E, K>(c1, front.drop_first());
                    match r2 {
                        Err(e) => {},
                        Ok(middle) => {
                            let (c3, r3) = self.spec_handle_events::<C, E, K>(c2, back);
                            match r3 {
                                Err(e) => {},
                                Ok(rest) => {
                                    assert(commands + (middle + rest) =~= (commands + middle)
                                        + rest);
                                },
                            }
                        },
                    }
                },
            }
        }
    }
}

/// The fan-out of one event over a sequence of event handlers: every handler
/// registered under the event's name runs, in order, each against the context
/// the previous one left; the commands they emit are concatenated in the same
/// order, and the first error aborts the fan-out.
pub open spec fn spec_fan_out<C, E, K, EH: EventHandler<C, E, K>>(
    handlers: Seq<EH>,
    context: C,
    event: SerializedEvent,
) -> (C, Result<Seq<BoxedCommand<K>>, E>)
    decreases handlers.len(),
{
    if handlers.len() == 0 {
        (context, Ok(Seq::empty()))
    } else if !handlers.first().spec_event_names().contains(event.spec_name()) {
        spec_fan_out(handlers.drop_first(), context, event)
    } else {
        let (c1, r1) = handlers.first().spec_handle(context, event);
        match r1 {
            Err(e) => (c1, Err(e)),
            Ok(commands) => {
                let (c2, r2) = spec_fan_out(handlers.drop_first(), c1, event);
                match r2 {
                    Err(e) => (c2, Err(e)),
                    Ok(rest) => (c2, Ok(commands + rest)),
                }
            },
        }
    }
}

/// Fan-out reaches exactly the registered handlers: the fan-out of an event
/// over a registry equals its fan-out over the handlers registered under the
/// event's name, in registration order — handlers registered under other
/// names play no part.
pub proof fn lemma_fan_out_registration_order<C, E, K, EH: EventHandler<C, E, K>>(
    handlers: Seq<EH>,
    context: C,
    event: SerializedEvent,
)
    ensures
        spec_fan_out::<C, E, K, EH>(handlers, context, event) == spec_fan_out::<C, E, K, EH>(
            event_handlers_for(handlers, event.spec_name()),
            context,
            event,
        ),
    decreases handlers.len(),
{
    let name = event.spec_name();
    if handlers.len() == 0 {
        assert(event_handlers_for(handlers, name) =~= Seq::<EH>::empty());
    } else {
        let head = handlers.first();
        if head.spec_event_names().contains(name) {
            let registered = event_handlers_for(handlers, name);
            assert(registered == seq![head] + event_handlers_for(handlers.drop_first(), name));
            assert(registered.first() == head);
            assert(registered.drop_first() =~= event_handlers_for(handlers.drop_first(), name));
            let (c1, r1) = head.spec_handle(context, event);
            match r1 {
                Err(e) => {},
                Ok(commands) => {
                    lemma_fan_out_registration_order(handlers.drop_first(), c1, event);
                },
            }
        } else {
            assert(event_handlers_for(handlers, name) == event_handlers_for(
                handlers.drop_first(),
                name,
            ));
            lemma_fan_out_registration_order(handlers.drop_first(), context, event);
        }
    }
}

/// Fan-out over a concatenation of registrations: the front handlers run
/// first, against the incoming context; the back handlers run after them,
/// against the context the front ones left; the emitted commands are
/// concatenated in the same order; and an error among the front handlers
/// aborts before any back handler runs. Applied pointwise, this is the fan-out
/// law: each of the N handlers registered under an event's name runs once, in
/// registration order, and what gets enqueued is the concatenation, in that
/// order, of the commands they return.
pub proof fn lemma_fan_out_concat<C, E, K, EH: EventHandler<C, E, K>>(
    front: Seq<EH>,
    back: Seq<EH>,
    context: C,
    event: SerializedEvent,
)
    ensures
        spec_fan_out::<C, E, K, EH>(front + back, context, event) == ({
            let (c1, r1) = spec_fan_out::<C, E, K, EH>(front, context, event);
            match r1 {
                Err(e) => (c1, Err::<Seq<BoxedCommand<K>>, E>(e)),
                Ok(commands) => {
                    let (c2, r2) = spec_fan_out::<C, E, K, EH>(back, c1, event);
                    match r2 {
                        Err(e) => (c2, Err::<Seq<BoxedCommand<K>>, E>(e)),
                        Ok(rest) => (c2, Ok::<Seq<BoxedCommand<K>>, E>(commands + rest)),
                    }
                },
            }
        }),
    decreases front.len(),
{
    if front.len() == 0 {
        assert(front + back =~= back);
        let (c2, r2) = spec_fan_out::<C, E, K, EH>(back, context, event);
        match r2 {
            Ok(rest) => {
                assert(Seq::<BoxedCommand<K>>::empty() + rest =~= rest);
            },
            Err(e) => {},
        }
    } else {
        assert((front + back).first() == front.first());
        assert((front + back).drop_first() =~= front.drop_first() + back);
        if front.first().spec_event_names().contains(event.spec_name()) {
            let (c1, r1) = front.first().spec_handle(context, event);
            match r1 {
                Err(e) => {},
                Ok(commands) => {
                    lemma_fan_out_concat(front.drop_first(), back, c1, event);
                    let (c2, r2) = spec_fan_out::<C, E, K, EH>(front.drop_first(), c1, event);
                    match r2 {
                        Err(e) => {},
                        Ok(middle) => {
                            let (c3, r3) = spec_fan_out::<C, E, K, EH>(back, c2, event);
                            match r3 {
                                Err(e) => {},
                                Ok(rest) => {
                                    assert(commands + (middle + rest) =~= (commands + middle)
                                        + rest);
                                },
                            }
                        },
                    }
                },
            }
        } else {
            lemma_fan_out_concat(front.drop_first(), back, context, event);
        }
    }
}

} // verus!
