//! The self-describing, tree-structured value that serialized events carry.

use vstd::prelude::*;

verus! {

/// A self-describing, tree-structured value.
///
/// This is the opaque payload of a [`SerializedEvent`](crate::SerializedEvent):
/// event types encode themselves into a `Value` when emitted and decode
/// themselves from one when handled. The engine never looks inside a `Value`;
/// it only carries it from the emitting handler to the writers and event
/// handlers registered under the event's name.
#[derive(Debug)]
pub enum Value {
    /// The absence of a value.
    Null,
    /// A boolean.
    Bool(bool),
    /// A signed integer.
    Int(i64),
    /// An unsigned integer.
    UInt(u64),
    /// A text string.
    Text(String),
    /// An ordered list of values.
    List(Vec<Value>),
    /// An ordered list of named fields.
    Record(Vec<(String, Value)>),
}

impl Value {
    /// Deep structural equality: two values are equal when they are the same
    /// kind of node and their contents are equal, child for child.
    pub open spec fn deep_eq(self, other: Value) -> bool
        decreases self,
    {
        match (self, other) {
            (Value::Null, Value::Null) => true,
            (Value::Bool(a), Value::Bool(b)) => a == b,
            (Value::Int(a), Value::Int(b)) => a == b,
            (Value::UInt(a), Value::UInt(b)) => a == b,
            (Value::Text(a), Value::Text(b)) => a@ == b@,
            (Value::List(a), Value::List(b)) => a@.len() == b@.len() && (forall|i: int|
                0 <= i < a@.len() ==> (#[trigger] a@[i]).deep_eq(b@[i])),
            (Value::Record(a), Value::Record(b)) => a@.len() == b@.len() && (forall|i: int|
                0 <= i < a@.len() ==> ((#[trigger] a@[i]).0@ == b@[i].0@ && a@[i].1.deep_eq(
                    b@[i].1,
                ))),
            _ => false,
        }
    }
}

impl Value {
    /// Deep equality is reflexive, as the [`Eq`] implementation claims.
    pub proof fn lemma_deep_eq_reflexive(self)
        ensures
            self.deep_eq(self),
        decreases self,
    {
        match self {
            Value::List(items) => {
                assert forall|i: int| 0 <= i < items@.len() implies (#[trigger] items@[i]).deep_eq(
                    items@[i],
                ) by {
                    assert(decreases_to!(self => items));
                    assert(decreases_to!(items => items@));
                    assert(decreases_to!(items@ => items@[i]));
                    items@[i].lemma_deep_eq_reflexive();
                }
            },
            Value::Record(fields) => {
                assert forall|i: int|
                    0 <= i < fields@.len() implies ((#[trigger] fields@[i]).0@ == fields@[i].0@
                    && fields@[i].1.deep_eq(fields@[i].1)) by {
                    assert(decreases_to!(self => fields));
                    assert(decreases_to!(fields => fields@));
                    assert(decreases_to!(fields@ => fields@[i]));
                    assert(decreases_to!(fields@[i] => fields@[i].1));
                    fields@[i].1.lemma_deep_eq_reflexive();
                }
            },
            _ => {},
        }
    }

    /// Deep equality is symmetric, as the [`PartialEq`] implementation claims.
    pub proof fn lemma_deep_eq_symmetric(self, other: Value)
        ensures
            self.deep_eq(other) == other.deep_eq(self),
        decreases self,
    {
        match (self, other) {
            (Value::List(left), Value::List(right)) => {
                if left@.len() == right@.len() {
                    assert forall|i: int| 0 <= i < left@.len() implies (#[trigger] left@[i]).deep_eq(
                        right@[i],
                    ) == right@[i].deep_eq(left@[i]) by {
                        assert(decreases_to!(self => left));
                        assert(decreases_to!(left => left@));
                        assert(decreases_to!(left@ => left@[i]));
                        left@[i].lemma_deep_eq_symmetric(right@[i]);
                    }
                    assert(right@.len() == left@.len());
                }
            },
            (Value::Record(left), Value::Record(right)) => {
                if left@.len() == right@.len() {
                    assert forall|i: int|
                        0 <= i < left@.len() implies (((#[trigger] left@[i]).0@ == right@[i].0@)
                        == (right@[i].0@ == left@[i].0@) && left@[i].1.deep_eq(right@[i].1)
                        == right@[i].1.deep_eq(left@[i].1)) by {
                        assert(decreases_to!(self => left));
                        assert(decreases_to!(left => left@));
                        assert(decreases_to!(left@ => left@[i]));
                        assert(decreases_to!(left@[i] => left@[i].1));
                        left@[i].1.lemma_deep_eq_symmetric(right@[i].1);
                    }
                }
            },
            _ => {},
        }
    }

    /// Deep equality is transitive, as the [`Eq`] implementation claims.
    pub proof fn lemma_deep_eq_transitive(self, mid: Value, other: Value)
        requires
            self.deep_eq(mid),
            mid.deep_eq(other),
        ensures
            self.deep_eq(other),
        decreases self,
    {
        match (self, mid, other) {
            (Value::List(left), Value::List(middle), Value::List(right)) => {
                assert forall|i: int| 0 <= i < left@.len() implies (#[trigger] left@[i]).deep_eq(
                    right@[i],
                ) by {
                    assert(decreases_to!(self => left));
                    assert(decreases_to!(left => left@));
                    assert(decreases_to!(left@ => left@[i]));
                    assert(left@[i].deep_eq(middle@[i]));
                    assert(middle@[i].deep_eq(right@[i]));
                    left@[i].lemma_deep_eq_transitive(middle@[i], right@[i]);
                }
            },
            (Value::Record(left), Value::Record(middle), Value::Record(right)) => {
                assert forall|i: int|
                    0 <= i < left@.len() implies ((#[trigger] left@[i]).0@ == right@[i].0@
                    && left@[i].1.deep_eq(right@[i].1)) by {
                    assert(decreases_to!(self => left));
                    assert(decreases_to!(left => left@));
                    assert(decreases_to!(left@ => left@[i]));
                    assert(decreases_to!(left@[i] => left@[i].1));
                    assert(left@[i].0@ == middle@[i].0@ && left@[i].1.deep_eq(middle@[i].1));
                    assert(middle@[i].0@ == right@[i].0@ && middle@[i].1.deep_eq(right@[i].1));
                    left@[i].1.lemma_deep_eq_transitive(middle@[i].1, right@[i].1);
                }
            },
            _ => {},
        }
    }
}

/// Decides deep structural equality of two values.
pub(crate) fn value_eq(a: &Value, b: &Value) -> (r: bool)
    ensures
        r == a.deep_eq(*b),
    decreases *a,
{
    match (a, b) {
        (Value::Null, Value::Null) => true,
        (Value::Bool(x), Value::Bool(y)) => *x == *y,
        (Value::Int(x), Value::Int(y)) => *x == *y,
        (Value::UInt(x), Value::UInt(y)) => *x == *y,
        (Value::Text(x), Value::Text(y)) => crate::names::str_eq(x.as_str(), y.as_str()),
        (Value::List(x), Value::List(y)) => {
            if x.len() != y.len() {
                return false;
            }
            let mut i: usize = 0;
            while i != x.len()
                invariant
                    i <= x@.len(),
                    x@.len() == y@.len(),
                    a == Value::List(*x),
                    b == Value::List(*y),
                    forall|j: int| 0 <= j < i ==> (#[trigger] x@[j]).deep_eq(y@[j]),
                decreases x@.len() - i,
            {
                proof {
                    assert(a->List_0 == *x);
                    assert(decreases_to!(*a => a->List_0));
                    assert(decreases_to!(*x => x@));
                    assert(decreases_to!(x@ => x@[i as int]));
                    assert(decreases_to!(*a => x@[i as int]));
                }
                if !value_eq(&x[i], &y[i]) {
                    return false;
                }
                i = i + 1;
            }
            true
        },
        (Value::Record(x), Value::Record(y)) => {
            if x.len() != y.len() {
                return false;
            }
            let mut i: usize = 0;
            while i != x.len()
                invariant
                    i <= x@.len(),
                    x@.len() == y@.len(),
                    a == Value::Record(*x),
                    b == Value::Record(*y),
                    forall|j: int|
                        0 <= j < i ==> ((#[trigger] x@[j]).0@ == y@[j].0@ && x@[j].1.deep_eq(
                            y@[j].1,
                        )),
                decreases x@.len() - i,
            {
                proof {
                    assert(a->Record_0 == *x);
                    assert(decreases_to!(*a => a->Record_0));
                    assert(decreases_to!(*x => x@));
                    assert(decreases_to!(x@ => x@[i as int]));
                    assert(decreases_to!(x@[i as int] => x@[i as int].1));
                    assert(decreases_to!(*a => x@[i as int].1));
                }
                let x_field = &x[i];
                let y_field = &y[i];
                if !crate::names::str_eq(x_field.0.as_str(), y_field.0.as_str()) {
                    return false;
                }
                if !value_eq(&x_field.1, &y_field.1) {
                    return false;
                }
                i = i + 1;
            }
            true
        },
        _ => false,
    }
}

/// Builds a deep copy of a value.
fn value_clone(a: &Value) -> (r: Value)
    ensures
        r.deep_eq(*a),
    decreases *a,
{
    match a {
        Value::Null => Value::Null,
        Value::Bool(x) => Value::Bool(*x),
        Value::Int(x) => Value::Int(*x),
        Value::UInt(x) => Value::UInt(*x),
        Value::Text(x) => Value::Text(x.clone()),
        Value::List(x) => {
            let mut out: Vec<Value> = Vec::new();
            let mut i: usize = 0;
            while i != x.len()
                invariant
                    i <= x@.len(),
                    out@.len() == i,
                    a == Value::List(*x),
                    forall|j: int| 0 <= j < i ==> (#[trigger] out@[j]).deep_eq(x@[j]),
                decreases x@.len() - i,
            {
                proof {
                    assert(a->List_0 == *x);
                    assert(decreases_to!(*a => a->List_0));
                    assert(decreases_to!(*x => x@));
                    assert(decreases_to!(x@ => x@[i as int]));
                    assert(decreases_to!(*a => x@[i as int]));
                }
                let child = value_clone(&x[i]);
                out.push(child);
                i = i + 1;
            }
            Value::List(out)
        },
        Value::Record(x) => {
            let mut out: Vec<(String, Value)> = Vec::new();
            let mut i: usize = 0;
            while i != x.len()
                invariant
                    i <= x@.len(),
                    out@.len() == i,
                    a == Value::Record(*x),
                    forall|j: int|
                        0 <= j < i ==> ((#[trigger] out@[j]).0@ == x@[j].0@ && out@[j].1.deep_eq(
                            x@[j].1,
                        )),
                decreases x@.len() - i,
            {
                proof {
                    assert(a->Record_0 == *x);
                    assert(decreases_to!(*a => a->Record_0));
                    assert(decreases_to!(*x => x@));
                    assert(decreases_to!(x@ => x@[i as int]));
                    assert(decreases_to!(x@[i as int] => x@[i as int].1));
                    assert(decreases_to!(*a => x@[i as int].1));
                }
                let field = &x[i];
                let child = value_clone(&field.1);
                out.push((field.0.clone(), child));
                i = i + 1;
            }
            Value::Record(out)
        },
    }
}

impl Clone for Value {
    /// Builds a deep copy: the copy is [`deep_eq`](Value::deep_eq) to the
    /// original.
    fn clone(&self) -> (r: Self)
        ensures
            r.deep_eq(*self),
    {
        value_clone(self)
    }
}

impl PartialEq for Value {
    /// Two values compare equal exactly when [`deep_eq`](Value::deep_eq) says
    /// so.
    fn eq(&self, other: &Self) -> (r: bool) {
        value_eq(self, other)
    }
}

impl vstd::std_specs::cmp::PartialEqSpecImpl for Value {
    open spec fn obeys_eq_spec() -> bool {
        true
    }

    open spec fn eq_spec(&self, other: &Self) -> bool {
        self.deep_eq(*other)
    }
}

impl Eq for Value {

}

} // verus!
