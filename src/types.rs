use vstd::prelude::*;

verus! {

/// The types of the language.
#[derive(Clone, Copy, Debug, PartialEq, Eq, Structural)]
pub enum LiteralType {
    Bool,
    I32,
    Str,
    Void,
}

impl LiteralType {
    /// How the type is written in source text.
    pub open spec fn spec_name(&self) -> Seq<char> {
        match self {
            LiteralType::Bool => "bool"@,
            LiteralType::I32 => "i32"@,
            LiteralType::Str => "string"@,
            LiteralType::Void => "()"@,
        }
    }

    pub fn to_string(&self) -> (r: String)
        ensures
            r@ == self.spec_name(),
    {
        match self {
            LiteralType::Bool => String::from_str("bool"),
            LiteralType::I32 => String::from_str("i32"),
            LiteralType::Str => String::from_str("string"),
            LiteralType::Void => String::from_str("()"),
        }
    }
}

} // verus!
