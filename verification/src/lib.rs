//! A lightweight, verified engine for designing event-based systems.
//!
//! Callers submit a [`Command`]; the matching [`CommandHandler`] validates it
//! against a caller-owned context and emits [`Events`]. Each event is recorded
//! through an [`EventWriter`] and then fanned out to the registered
//! [`EventHandler`]s, which may emit new commands. The [`CommandBus`] drives
//! this cascade until no command is left.
//!
//! Business entities are modelled as [`Aggregate`]s, atomically modified by
//! [`AggregateEvent`]s. The engine itself is domain-agnostic: it knows only
//! named commands, named events, and the registrations bound to those names.

mod aggregate;
mod command;
mod command_bus;
mod configuration;
mod error;
mod event;
pub mod names;
pub mod registry;
mod value;

pub use aggregate::Aggregate;
pub use aggregate::Id;
pub use command::BoxedCommand;
pub use command::Command;
pub use command::CommandHandler;
pub use command::Commands;
pub use command::lemma_downcast_round_trip;
pub use command_bus::CommandBus;
pub use command_bus::EventWriter;
pub use command_bus::lemma_fan_out_concat;
pub use command_bus::lemma_fan_out_registration_order;
pub use command_bus::spec_fan_out;
pub use configuration::Configuration;
pub use configuration::lemma_merge_associative;
pub use error::Error;
pub use event::AggregateEvent;
pub use event::Event;
pub use event::EventHandler;
pub use event::Events;
pub use event::SerializedEvent;
pub use event::lemma_serialize_round_trip;
pub use value::Value;
