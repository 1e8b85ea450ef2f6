use vstd::prelude::*;

use crate::number::Number;

verus! {

/// A runtime value. `Void` marks a variable that was declared and never given a value.
#[derive(Clone, Debug)]
pub enum Value {
    Boolean(bool),
    String(String),
    Number(Number),
    Nil,
    Void,
}

/// The mathematical view of a [`Value`]: text as a sequence of characters.
pub enum ValueView {
    Boolean(bool),
    String(Seq<char>),
    Number(Number),
    Nil,
    Void,
}

impl View for Value {
    type V = ValueView;

    open spec fn view(&self) -> ValueView {
        match self {
            Value::Boolean(b) => ValueView::Boolean(*b),
            Value::String(s) => ValueView::String(s@),
            Value::Number(n) => ValueView::Number(*n),
            Value::Nil => ValueView::Nil,
            Value::Void => ValueView::Void,
        }
    }
}

impl ValueView {
    /// Only `false` and `nil` are falsy.
    pub open spec fn is_truthy(self) -> bool {
        !(self == ValueView::Boolean(false) || self == ValueView::Nil)
    }

    /// The language's `==`: values of different kinds are never equal.
    pub open spec fn equals(self, o: ValueView) -> bool {
        match (self, o) {
            (ValueView::Number(a), ValueView::Number(b)) => a.same_value(b),
            (ValueView::String(a), ValueView::String(b)) => a == b,
            (ValueView::Boolean(a), ValueView::Boolean(b)) => a == b,
            (ValueView::Nil, ValueView::Nil) => true,
            _ => false,
        }
    }
}

impl Value {
    /// A copy with the same view.
    pub fn copy(&self) -> (r: Value)
        ensures
            r == *self,
    {
        match self {
            Value::Boolean(b) => Value::Boolean(*b),
            Value::String(s) => Value::String(s.clone()),
            Value::Number(n) => Value::Number(*n),
            Value::Nil => Value::Nil,
            Value::Void => Value::Void,
        }
    }

    pub fn is_void(&self) -> (r: bool)
        ensures
            r == (self@ == ValueView::Void),
    {
        match self {
            Value::Void => true,
            _ => false,
        }
    }
}

} // verus!
