//! Configuration tests: registration and merging of the three registries.

use presage::BoxedCommand;
use presage::Command;
use presage::CommandBus;
use presage::CommandHandler;
use presage::Commands;
use presage::Configuration;
use presage::Error;
use presage::Event;
use presage::EventHandler;
use presage::EventWriter;
use presage::Events;
use presage::SerializedEvent;
use presage::Value;

#[derive(Debug, Default)]
struct Trace {
    entries: Vec<String>,
}

#[derive(Debug)]
enum TestError {
    Engine(Error),
}

impl From<Error> for TestError {
    fn from(e: Error) -> Self {
        TestError::Engine(e)
    }
}

#[derive(Debug)]
struct Touch;

#[derive(Debug)]
enum Union {
    Touch(Touch),
}

impl Command<Union> for Touch {
    fn lemma_erase_recover(self) {}

    fn name() -> &'static str {
        "touch"
    }

    fn erase(self) -> Union {
        Union::Touch(self)
    }

    fn recover(payload: Union) -> Option<Self> {
        match payload {
            Union::Touch(c) => Some(c),
        }
    }
}

#[derive(Debug)]
struct Touched;

impl Event for Touched {
    fn lemma_round_trip(&self) {}

    fn name() -> &'static str {
        "test-event"
    }

    fn to_value(&self) -> Result<Value, Error> {
        Ok(Value::Null)
    }

    fn from_value(value: Value) -> Result<Self, Error> {
        match value {
            Value::Null => Ok(Touched),
            _ => Err(Error::DeserializationError("expected null".to_string())),
        }
    }
}

/// Command handlers tagged so the trace shows which registration ran.
#[derive(Debug)]
struct TouchHandler(&'static str);

impl CommandHandler<Trace, TestError, Union> for TouchHandler {
    fn command_name(&self) -> &'static str {
        "touch"
    }

    fn handle(&self, context: &mut Trace, _command: BoxedCommand<Union>) -> Result<
        Events,
        TestError,
    > {
        context.entries.push(format!("handle:{}", self.0));
        let mut events = Events::new();
        events.add(Touched)?;
        Ok(events)
    }
}

#[derive(Debug)]
struct TestEventHandler(&'static str);

impl EventHandler<Trace, TestError, Union> for TestEventHandler {
    fn event_names(&self) -> &[&'static str] {
        &["test-event"]
    }

    fn handle(
        &self,
        context: &mut Trace,
        _event: &SerializedEvent,
    ) -> Result<Commands<Union>, TestError> {
        context.entries.push(format!("react:{}", self.0));
        Ok(Commands::new())
    }
}

#[derive(Debug)]
struct TestWriter(&'static str);

impl EventWriter<Trace, TestError> for TestWriter {
    fn event_names(&self) -> &[&'static str] {
        &["test-event"]
    }

    fn write(&self, context: &mut Trace, _event: &SerializedEvent) -> Result<(), TestError> {
        context.entries.push(format!("write:{}", self.0));
        Ok(())
    }
}

type Cfg = Configuration<TouchHandler, TestEventHandler, TestWriter>;

/// Merging two configurations concatenates the event-handler lists per event
/// name, preserving each side's registration order.
#[test]
fn test_add_assign() {
    let mut configuration: Cfg = Configuration::default().event_handler(TestEventHandler("one"));

    configuration = configuration.merge(
        Configuration::default().event_handler(TestEventHandler("two")),
    );

    assert_eq!(configuration.event_handler_count("test-event"), 2);
}

/// Handlers registered under other event names do not count towards a name's
/// handler list.
#[test]
fn handler_count_is_per_event_name() {
    let configuration: Cfg = Configuration::new().event_handler(TestEventHandler("one"));
    assert_eq!(configuration.event_handler_count("test-event"), 1);
    assert_eq!(configuration.event_handler_count("other-event"), 0);
}

/// After a merge, the merged event handlers run left side first, in
/// registration order, and the right side's command handler wins the tie for
/// the shared command name.
#[test]
fn merge_keeps_order_and_overwrites_command_handlers() {
    let left: Cfg = Configuration::new()
        .command_handler(TouchHandler("left"))
        .event_handler(TestEventHandler("one"))
        .event_writer(TestWriter("left"));
    let right: Cfg = Configuration::new()
        .command_handler(TouchHandler("right"))
        .event_handler(TestEventHandler("two"))
        .event_writer(TestWriter("right"));
    let bus = CommandBus::new().configure(left.merge(right));
    let mut trace = Trace::default();
    bus.execute(&mut trace, Touch).unwrap();
    assert_eq!(
        trace.entries,
        vec![
            "handle:right".to_string(),
            "write:right".to_string(),
            "react:one".to_string(),
            "react:two".to_string(),
        ],
    );
}

/// Registering a second command handler under the same name overwrites the
/// first: the last registration wins, and no error is raised.
#[test]
fn later_command_handler_registration_wins() {
    let bus = CommandBus::new().configure(
        Configuration::<TouchHandler, TestEventHandler, TestWriter>::new()
            .command_handler(TouchHandler("early"))
            .command_handler(TouchHandler("late")),
    );
    let mut trace = Trace::default();
    bus.execute(&mut trace, Touch).unwrap();
    assert_eq!(trace.entries, vec!["handle:late".to_string()]);
}
