//! The model of the three handler registries.
//!
//! Registrations are kept as flat, registration-ordered sequences. The
//! functions here define what each registry means as a mapping from names to
//! handlers: command-handler and event-writer registrations are keyed lookups
//! where the latest registration under a name wins, and event-handler
//! registrations form an ordered list per name. The lemmas state how the
//! mappings behave under registration and under merging of two registries.

use vstd::prelude::*;

use crate::command::CommandHandler;
use crate::command_bus::EventWriter;
use crate::event::EventHandler;

verus! {

/// The command handler registered under `name`: the last handler in
/// registration order whose command name is `name`, if any.
pub open spec fn find_command_handler<C, E, K, CH: CommandHandler<C, E, K>>(
    handlers: Seq<CH>,
    name: Seq<char>,
) -> Option<CH>
    decreases handlers.len(),
{
    if handlers.len() == 0 {
        None
    } else if handlers.last().spec_command_name() == name {
        Some(handlers.last())
    } else {
        find_command_handler(handlers.drop_last(), name)
    }
}

/// The event writer registered under `name`: the last writer in registration
/// order that persists events of that name, if any.
pub open spec fn find_event_writer<C, E, W: EventWriter<C, E>>(
    writers: Seq<W>,
    name: Seq<char>,
) -> Option<W>
    decreases writers.len(),
{
    if writers.len() == 0 {
        None
    } else if writers.last().spec_event_names().contains(name) {
        Some(writers.last())
    } else {
        find_event_writer(writers.drop_last(), name)
    }
}

/// The event handlers registered under `name`, in registration order.
pub open spec fn event_handlers_for<C, E, K, EH: EventHandler<C, E, K>>(
    handlers: Seq<EH>,
    name: Seq<char>,
) -> Seq<EH>
    decreases handlers.len(),
{
    if handlers.len() == 0 {
        Seq::empty()
    } else if handlers.first().spec_event_names().contains(name) {
        seq![handlers.first()] + event_handlers_for(handlers.drop_first(), name)
    } else {
        event_handlers_for(handlers.drop_first(), name)
    }
}

/// Registering a command handler overwrites any prior handler under its name
/// and leaves every other name untouched.
pub proof fn lemma_register_command_handler<C, E, K, CH: CommandHandler<C, E, K>>(
    handlers: Seq<CH>,
    handler: CH,
    name: Seq<char>,
)
    ensures
        find_command_handler(handlers.push(handler), handler.spec_command_name())
            == Some::<CH>(handler),
        name != handler.spec_command_name() ==> find_command_handler(handlers.push(handler), name)
            == find_command_handler(handlers, name),
{
    assert(handlers.push(handler).last() == handler);
    assert(handlers.push(handler).drop_last() =~= handlers);
}

/// In a concatenation of two command-handler registries, a registration in the
/// right-hand registry wins over one under the same name in the left-hand
/// registry; names the right-hand registry does not know keep the left-hand
/// handler.
pub proof fn lemma_find_command_handler_concat<C, E, K, CH: CommandHandler<C, E, K>>(
    left: Seq<CH>,
    right: Seq<CH>,
    name: Seq<char>,
)
    ensures
        find_command_handler(left + right, name) == if find_command_handler(right, name) is Some {
            find_command_handler(right, name)
        } else {
            find_command_handler(left, name)
        },
    decreases right.len(),
{
    if right.len() == 0 {
        assert(left + right =~= left);
    } else {
        assert((left + right).last() == right.last());
        assert((left + right).drop_last() =~= left + right.drop_last());
        lemma_find_command_handler_concat(left, right.drop_last(), name);
    }
}

/// Registering an event writer overwrites any prior writer under each of the
/// names it persists and leaves every other name untouched.
pub proof fn lemma_register_event_writer<C, E, W: EventWriter<C, E>>(
    writers: Seq<W>,
    writer: W,
    name: Seq<char>,
)
    ensures
        writer.spec_event_names().contains(name) ==> find_event_writer(writers.push(writer), name)
            == Some::<W>(writer),
        !writer.spec_event_names().contains(name) ==> find_event_writer(writers.push(writer), name)
            == find_event_writer(writers, name),
{
    assert(writers.push(writer).last() == writer);
    assert(writers.push(writer).drop_last() =~= writers);
}

/// In a concatenation of two event-writer registries, a registration in the
/// right-hand registry wins over one under the same name in the left-hand
/// registry; names the right-hand registry does not know keep the left-hand
/// writer.
pub proof fn lemma_find_event_writer_concat<C, E, W: EventWriter<C, E>>(
    left: Seq<W>,
    right: Seq<W>,
    name: Seq<char>,
)
    ensures
        find_event_writer(left + right, name) == if find_event_writer(right, name) is Some {
            find_event_writer(right, name)
        } else {
            find_event_writer(left, name)
        },
    decreases right.len(),
{
    if right.len() == 0 {
        assert(left + right =~= left);
    } else {
        assert((left + right).last() == right.last());
        assert((left + right).drop_last() =~= left + right.drop_last());
        lemma_find_event_writer_concat(left, right.drop_last(), name);
    }
}

/// Registering an event handler appends it to the handler list of every event
/// name it reacts to and leaves every other name's list untouched.
pub proof fn lemma_register_event_handler<C, E, K, EH: EventHandler<C, E, K>>(
    handlers: Seq<EH>,
    handler: EH,
    name: Seq<char>,
)
    ensures
        handler.spec_event_names().contains(name) ==> event_handlers_for(
            handlers.push(handler),
            name,
        ) == event_handlers_for(handlers, name).push(handler),
        !handler.spec_event_names().contains(name) ==> event_handlers_for(
            handlers.push(handler),
            name,
        ) == event_handlers_for(handlers, name),
{
    lemma_event_handlers_for_concat(handlers, seq![handler], name);
    assert(handlers.push(handler) =~= handlers + seq![handler]);
    assert(seq![handler].drop_first() =~= Seq::<EH>::empty());
    assert(event_handlers_for::<C, E, K, EH>(Seq::<EH>::empty(), name) == Seq::<EH>::empty());
    if handler.spec_event_names().contains(name) {
        assert(event_handlers_for(seq![handler], name) =~= seq![handler]);
        assert(event_handlers_for(handlers, name) + seq![handler] =~= event_handlers_for(
            handlers,
            name,
        ).push(handler));
    } else {
        assert(event_handlers_for(seq![handler], name) =~= Seq::<EH>::empty());
        assert(event_handlers_for(handlers, name) + Seq::<EH>::empty() =~= event_handlers_for(
            handlers,
            name,
        ));
    }
}

/// In a concatenation of two event-handler registries, the handler list under
/// each name is the left-hand list followed by the right-hand list, each in
/// its own registration order.
pub proof fn lemma_event_handlers_for_concat<C, E, K, EH: EventHandler<C, E, K>>(
    left: Seq<EH>,
    right: Seq<EH>,
    name: Seq<char>,
)
    ensures
        event_handlers_for(left + right, name) == event_handlers_for(left, name)
            + event_handlers_for(right, name),
    decreases left.len(),
{
    if left.len() == 0 {
        assert(left + right =~= right);
        assert(event_handlers_for(left, name) + event_handlers_for(right, name)
            =~= event_handlers_for(right, name));
    } else {
        assert((left + right).first() == left.first());
        assert((left + right).drop_first() =~= left.drop_first() + right);
        lemma_event_handlers_for_concat(left.drop_first(), right, name);
        if left.first().spec_event_names().contains(name) {
            assert(seq![left.first()] + (event_handlers_for(left.drop_first(), name)
                + event_handlers_for(right, name)) =~= (seq![left.first()] + event_handlers_for(
                left.drop_first(),
                name,
            )) + event_handlers_for(right, name));
        }
    }
}

} // verus!
