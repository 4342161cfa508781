use vstd::prelude::*;

use crate::types::LiteralType;
use crate::value::Value;

verus! {

/// A variable: its value, whether it may be assigned, and its declared type.
#[derive(Clone, Debug, PartialEq)]
pub struct Variable {
    pub value: Value,
    pub mutable: bool,
    pub typ: LiteralType,
}

impl Variable {
    pub fn new(val: Value, mutable: bool, typ: LiteralType) -> (r: Variable)
        ensures
            r == (Variable { value: val, mutable, typ }),
    {
        Variable { value: val, mutable, typ }
    }

    pub fn get_value(&self) -> (r: Value)
        ensures
            r == self.value,
    {
        self.value.duplicate()
    }

    pub fn get_type(&self) -> (r: LiteralType)
        ensures
            r == self.typ,
    {
        self.typ
    }

    /// Replaces the value; the declared type and mutability stay.
    pub fn update_value(&mut self, val: Value) -> (r: Value)
        ensures
            *final(self) == (Variable { value: val, ..*old(self) }),
            r == val,
    {
        self.value = val.duplicate();
        val
    }

    pub fn is_mut(&self) -> (r: bool)
        ensures
            r == self.mutable,
    {
        self.mutable
    }

    /// A copy of the variable.
    pub fn duplicate(&self) -> (r: Variable)
        ensures
            r == *self,
    {
        Variable { value: self.value.duplicate(), mutable: self.mutable, typ: self.typ }
    }
}

} // verus!
