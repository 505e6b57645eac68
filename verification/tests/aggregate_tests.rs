//! Aggregate and identifier tests.

use presage::Aggregate;
use presage::AggregateEvent;
use presage::Error;
use presage::Event;
use presage::Id;
use presage::Value;

struct Todo {
    id: Id<Todo>,
    name: String,
    done: bool,
}

struct TodoCreated {
    id: Id<Todo>,
    name: String,
}

enum TodoUpdated {
    Renamed { id: Id<Todo>, new_name: String },
    Done(Id<Todo>),
}

struct TodoDeleted(Id<Todo>);

impl Event for TodoCreated {
    fn lemma_round_trip(&self) {}

    fn name() -> &'static str {
        "todo-created"
    }

    fn to_value(&self) -> Result<Value, Error> {
        Ok(Value::Record(vec![
            ("id".to_string(), Value::UInt(self.id.0)),
            ("name".to_string(), Value::Text(self.name.clone())),
        ]))
    }

    fn from_value(value: Value) -> Result<Self, Error> {
        match value {
            Value::Record(fields) => match fields.as_slice() {
                [(id_key, Value::UInt(id)), (name_key, Value::Text(name))]
                    if id_key == "id" && name_key == "name" =>
                    Ok(TodoCreated { id: Id(*id), name: name.clone() }),
                _ => Err(Error::DeserializationError("unexpected fields".to_string())),
            },
            _ => Err(Error::DeserializationError("expected a record".to_string())),
        }
    }
}

impl AggregateEvent for TodoCreated {
    type Aggregate = Todo;

    fn id(&self) -> Id<Todo> {
        self.id
    }
}

impl Event for TodoUpdated {
    fn lemma_round_trip(&self) {}

    fn name() -> &'static str {
        "todo-updated"
    }

    fn to_value(&self) -> Result<Value, Error> {
        match self {
            TodoUpdated::Renamed { id, new_name } => Ok(Value::Record(vec![
                ("renamed".to_string(), Value::UInt(id.0)),
                ("new_name".to_string(), Value::Text(new_name.clone())),
            ])),
            TodoUpdated::Done(id) => Ok(Value::Record(vec![(
                "done".to_string(),
                Value::UInt(id.0),
            )])),
        }
    }

    fn from_value(value: Value) -> Result<Self, Error> {
        match value {
            Value::Record(fields) => match fields.as_slice() {
                [(key, Value::UInt(id)), (name_key, Value::Text(new_name))]
                    if key == "renamed" && name_key == "new_name" =>
                    Ok(TodoUpdated::Renamed { id: Id(*id), new_name: new_name.clone() }),
                [(key, Value::UInt(id))] if key == "done" => Ok(TodoUpdated::Done(Id(*id))),
                _ => Err(Error::DeserializationError("unexpected fields".to_string())),
            },
            _ => Err(Error::DeserializationError("expected a record".to_string())),
        }
    }
}

impl AggregateEvent for TodoUpdated {
    type Aggregate = Todo;

    fn id(&self) -> Id<Todo> {
        match self {
            TodoUpdated::Renamed { id, .. } => *id,
            TodoUpdated::Done(id) => *id,
        }
    }
}

impl Event for TodoDeleted {
    fn lemma_round_trip(&self) {}

    fn name() -> &'static str {
        "todo-deleted"
    }

    fn to_value(&self) -> Result<Value, Error> {
        Ok(Value::UInt(self.0.0))
    }

    fn from_value(value: Value) -> Result<Self, Error> {
        match value {
            Value::UInt(id) => Ok(TodoDeleted(Id(id))),
            _ => Err(Error::DeserializationError("expected an id".to_string())),
        }
    }
}

impl AggregateEvent for TodoDeleted {
    type Aggregate = Todo;

    fn id(&self) -> Id<Todo> {
        self.0
    }
}

impl Aggregate for Todo {
    type Id = u64;
    type CreationEvent = TodoCreated;
    type UpdateEvent = TodoUpdated;
    type DeletionEvent = TodoDeleted;

    fn id(&self) -> Id<Self> {
        self.id
    }

    fn new(event: TodoCreated) -> Self {
        Todo { id: event.id, name: event.name, done: false }
    }

    fn apply(&mut self, event: TodoUpdated) {
        match event {
            TodoUpdated::Renamed { new_name, .. } => self.name = new_name,
            TodoUpdated::Done(_) => self.done = true,
        }
    }
}

#[test]
fn aggregate_lifecycle() {
    let mut todo = Todo::new(TodoCreated { id: Id(4), name: "water the plants".to_string() });
    assert!(todo.id() == Id(4));
    assert_eq!(todo.name, "water the plants");
    assert!(!todo.done);
    todo.apply(TodoUpdated::Renamed { id: Id(4), new_name: "water the garden".to_string() });
    assert_eq!(todo.name, "water the garden");
    assert!(!todo.done);
    todo.apply(TodoUpdated::Done(Id(4)));
    assert!(todo.done);
    assert!(todo.id() == Id(4));
}

#[test]
fn aggregate_event_ids_project_from_fields() {
    let created = TodoCreated { id: Id(9), name: "n".to_string() };
    assert!(AggregateEvent::id(&created) == Id(9));
    let renamed = TodoUpdated::Renamed { id: Id(9), new_name: "m".to_string() };
    assert!(AggregateEvent::id(&renamed) == Id(9));
    let deleted = TodoDeleted(Id(9));
    assert!(AggregateEvent::id(&deleted) == Id(9));
}

#[test]
fn aggregate_events_round_trip() {
    let created = TodoCreated { id: Id(1), name: "x".to_string() };
    let back: TodoCreated = created.serialize().unwrap().deserialize().unwrap();
    assert!(back.id == Id(1));
    assert_eq!(back.name, "x");

    let renamed = TodoUpdated::Renamed { id: Id(2), new_name: "y".to_string() };
    let back: TodoUpdated = renamed.serialize().unwrap().deserialize().unwrap();
    assert!(matches!(back, TodoUpdated::Renamed { id: Id(2), ref new_name } if new_name == "y"));

    let done = TodoUpdated::Done(Id(3));
    let back: TodoUpdated = done.serialize().unwrap().deserialize().unwrap();
    assert!(matches!(back, TodoUpdated::Done(Id(3))));

    let deleted = TodoDeleted(Id(5));
    let back: TodoDeleted = deleted.serialize().unwrap().deserialize().unwrap();
    assert!(back.0 == Id(5));
}

#[test]
fn ids_compare_clone_and_order_by_wrapped_value() {
    let a: Id<Todo> = Id(1);
    let b: Id<Todo> = Id(1);
    let c: Id<Todo> = Id(2);
    assert!(a == b);
    assert!(a != c);
    assert!(a < c);
    assert!(c > b);
    let copied = a;
    assert!(copied == a.clone());
    let defaulted: Id<Todo> = Id::default();
    assert_eq!(defaulted.0, 0);
}
