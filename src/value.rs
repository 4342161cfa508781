use vstd::prelude::*;

verus! {

/// A runtime value; `Unit` is the value of a statement.
#[derive(Clone, Debug, PartialEq)]
pub enum Value {
    Number(i32),
    Bool(bool),
    String(String),
    Unit,
}

impl Value {
    /// A copy of the value.
    pub fn duplicate(&self) -> (r: Value)
        ensures
            r == *self,
    {
        match self {
            Value::Number(n) => Value::Number(*n),
            Value::Bool(b) => Value::Bool(*b),
            Value::String(s) => Value::String(s.clone()),
            Value::Unit => Value::Unit,
        }
    }
}

} // verus!
