//! Round-trip and envelope tests: events through `Value`, commands through
//! `BoxedCommand`.

use presage::BoxedCommand;
use presage::Command;
use presage::Commands;
use presage::Error;
use presage::Event;
use presage::Events;
use presage::Value;

#[derive(Debug, PartialEq, Clone)]
struct TaskCreated {
    id: u64,
    name: String,
}

impl Event for TaskCreated {
    fn lemma_round_trip(&self) {}

    fn name() -> &'static str {
        "task-created"
    }

    fn to_value(&self) -> Result<Value, Error> {
        Ok(Value::Record(vec![
            ("id".to_string(), Value::UInt(self.id)),
            ("name".to_string(), Value::Text(self.name.clone())),
        ]))
    }

    fn from_value(value: Value) -> Result<Self, Error> {
        let fields = match value {
            Value::Record(fields) => fields,
            _ => return Err(Error::DeserializationError("expected a record".to_string())),
        };
        let mut id = None;
        let mut name = None;
        for (key, field) in fields {
            match (key.as_str(), field) {
                ("id", Value::UInt(n)) => id = Some(n),
                ("name", Value::Text(s)) => name = Some(s),
                _ => return Err(Error::DeserializationError("unexpected field".to_string())),
            }
        }
        match (id, name) {
            (Some(id), Some(name)) => Ok(TaskCreated { id, name }),
            _ => Err(Error::DeserializationError("missing field".to_string())),
        }
    }
}

/// An event whose payload can never be encoded.
#[derive(Debug)]
struct Unencodable;

impl Event for Unencodable {
    fn lemma_round_trip(&self) {}

    fn name() -> &'static str {
        "unencodable"
    }

    fn to_value(&self) -> Result<Value, Error> {
        Err(Error::SerializationError("payload cannot be encoded".to_string()))
    }

    fn from_value(_value: Value) -> Result<Self, Error> {
        Err(Error::DeserializationError("never encoded".to_string()))
    }
}

#[derive(Debug, PartialEq)]
struct CreateTask {
    id: u64,
    name: String,
}

#[derive(Debug, PartialEq)]
struct DeleteTask {
    id: u64,
}

#[derive(Debug, PartialEq)]
enum TaskCommand {
    Create(CreateTask),
    Delete(DeleteTask),
}

impl Command<TaskCommand> for CreateTask {
    fn lemma_erase_recover(self) {}

    fn name() -> &'static str {
        "create-task"
    }

    fn erase(self) -> TaskCommand {
        TaskCommand::Create(self)
    }

    fn recover(payload: TaskCommand) -> Option<Self> {
        match payload {
            TaskCommand::Create(command) => Some(command),
            _ => None,
        }
    }
}

impl Command<TaskCommand> for DeleteTask {
    fn lemma_erase_recover(self) {}

    fn name() -> &'static str {
        "delete-task"
    }

    fn erase(self) -> TaskCommand {
        TaskCommand::Delete(self)
    }

    fn recover(payload: TaskCommand) -> Option<Self> {
        match payload {
            TaskCommand::Delete(command) => Some(command),
            _ => None,
        }
    }
}

#[test]
fn event_round_trip() {
    let event = TaskCreated { id: 7, name: "write the report".to_string() };
    let serialized = event.clone().serialize().unwrap();
    assert_eq!(serialized.name(), "task-created");
    let back: TaskCreated = serialized.deserialize().unwrap();
    assert_eq!(back, event);
}

#[test]
fn event_round_trip_empty_name() {
    let event = TaskCreated { id: 0, name: String::new() };
    let back: TaskCreated = event.clone().serialize().unwrap().deserialize().unwrap();
    assert_eq!(back, event);
}

#[test]
fn serialized_events_compare_by_content() {
    let a = TaskCreated { id: 1, name: "a".to_string() }.serialize().unwrap();
    let b = TaskCreated { id: 1, name: "a".to_string() }.serialize().unwrap();
    let c = TaskCreated { id: 2, name: "a".to_string() }.serialize().unwrap();
    assert_eq!(a, b);
    assert_ne!(a, c);
}

#[test]
fn deserialize_shape_mismatch_fails() {
    let event = TaskCreated { id: 7, name: "x".to_string() };
    let serialized = event.serialize().unwrap();
    let result: Result<Unencodable, Error> = serialized.deserialize();
    assert!(matches!(result, Err(Error::DeserializationError(_))));
}

#[test]
fn serialize_failure_is_reported() {
    let result = Unencodable.serialize();
    assert!(matches!(result, Err(Error::SerializationError(_))));
}

#[test]
fn events_add_serializes_and_appends() {
    let mut events = Events::new();
    assert_eq!(events.0.len(), 0);
    events.add(TaskCreated { id: 1, name: "a".to_string() }).unwrap();
    events.add(TaskCreated { id: 2, name: "b".to_string() }).unwrap();
    assert_eq!(events.0.len(), 2);
    assert_eq!(events.0[0].name(), "task-created");
    let result = events.add(Unencodable);
    assert!(matches!(result, Err(Error::SerializationError(_))));
    assert_eq!(events.0.len(), 2);
}

#[test]
fn events_compare_by_content() {
    let mut left = Events::new();
    left.add(TaskCreated { id: 1, name: "a".to_string() }).unwrap();
    let mut right = Events::new();
    right.add(TaskCreated { id: 1, name: "a".to_string() }).unwrap();
    assert_eq!(left, right);
    right.add(TaskCreated { id: 2, name: "b".to_string() }).unwrap();
    assert_ne!(left, right);
}

#[test]
fn boxed_command_keeps_name() {
    let boxed = BoxedCommand::from_command(CreateTask { id: 3, name: "x".to_string() });
    assert_eq!(boxed.name(), "create-task");
}

#[test]
fn downcast_round_trip() {
    let boxed = BoxedCommand::from_command(CreateTask { id: 3, name: "x".to_string() });
    let back: CreateTask = boxed.downcast().unwrap();
    assert_eq!(back, CreateTask { id: 3, name: "x".to_string() });
}

#[test]
fn downcast_type_mismatch_fails_cleanly() {
    let boxed = BoxedCommand::from_command(CreateTask { id: 3, name: "x".to_string() });
    let result: Result<DeleteTask, Error> = boxed.downcast();
    match result {
        Err(Error::CommandDowncastError(requested)) => assert_eq!(requested, "delete-task"),
        other => panic!("expected a downcast error, got {:?}", other),
    }
}

#[test]
fn commands_add_boxes_and_appends() {
    let mut commands: Commands<TaskCommand> = Commands::new();
    assert_eq!(commands.0.len(), 0);
    commands.add(CreateTask { id: 1, name: "a".to_string() });
    commands.add(DeleteTask { id: 1 });
    assert_eq!(commands.0.len(), 2);
    assert_eq!(commands.0[0].name(), "create-task");
    assert_eq!(commands.0[1].name(), "delete-task");
}

#[test]
fn value_equality_is_deep() {
    let left = Value::List(vec![
        Value::Null,
        Value::Bool(true),
        Value::Int(-4),
        Value::Record(vec![("k".to_string(), Value::Text("v".to_string()))]),
    ]);
    let right = Value::List(vec![
        Value::Null,
        Value::Bool(true),
        Value::Int(-4),
        Value::Record(vec![("k".to_string(), Value::Text("v".to_string()))]),
    ]);
    assert_eq!(left, right);
    let different = Value::List(vec![
        Value::Null,
        Value::Bool(true),
        Value::Int(-4),
        Value::Record(vec![("k".to_string(), Value::Text("w".to_string()))]),
    ]);
    assert_ne!(left, different);
    assert_ne!(Value::Int(0), Value::UInt(0));
}

#[test]
fn cloned_values_and_events_are_deeply_equal() {
    let value = Value::Record(vec![
        ("items".to_string(), Value::List(vec![Value::Int(1), Value::Text("two".to_string())])),
        ("flag".to_string(), Value::Bool(false)),
    ]);
    assert_eq!(value.clone(), value);
    let event = TaskCreated { id: 11, name: "clone me".to_string() }.serialize().unwrap();
    assert_eq!(event.clone(), event);
    assert_eq!(event.clone().name(), "task-created");
}

#[test]
fn error_messages_name_the_failure() {
    assert_eq!(
        Error::MissingCommandHandler("create-task").message(),
        "missing command handler for command create-task",
    );
    assert_eq!(
        Error::CommandDowncastError("delete-task").message(),
        "could not downcast command to type delete-task",
    );
    assert_eq!(
        Error::SerializationError("bad".to_string()).message(),
        "serialization error: bad",
    );
    assert_eq!(
        Error::DeserializationError("bad".to_string()).message(),
        "deserialization error: bad",
    );
    assert_eq!(
        Error::BudgetExhausted.message(),
        "command budget exhausted before the pending queue drained",
    );
}
