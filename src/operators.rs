use vstd::prelude::*;

verus! {

/// The binary and unary operators of the language.
#[derive(Clone, Copy, Debug, PartialEq, Eq, Structural)]
pub enum Opcode {
    Mul,
    Div,
    Add,
    Sub,
    // Logical operations
    AND,
    OR,
    // Relational operations
    EQ,
    NEQ,
    GT,
    LT,
    LEQ,
    GEQ,
}

impl Opcode {
    /// `+ - * /`
    pub open spec fn is_arith(self) -> bool {
        self is Add || self is Sub || self is Mul || self is Div
    }

    /// `&& ||`
    pub open spec fn is_logical(self) -> bool {
        self is AND || self is OR
    }

    /// `== !=`
    pub open spec fn is_equality(self) -> bool {
        self is EQ || self is NEQ
    }

    /// `< > <= >=`
    pub open spec fn is_ordering(self) -> bool {
        self is GT || self is LT || self is LEQ || self is GEQ
    }

    /// How the operator is written in source text.
    pub open spec fn spec_symbol(self) -> Seq<char> {
        match self {
            Opcode::Mul => "*"@,
            Opcode::Div => "/"@,
            Opcode::Add => "+"@,
            Opcode::Sub => "-"@,
            Opcode::AND => "&&"@,
            Opcode::OR => "||"@,
            Opcode::EQ => "=="@,
            Opcode::NEQ => "!="@,
            Opcode::GT => ">"@,
            Opcode::LT => "<"@,
            Opcode::LEQ => "<="@,
            Opcode::GEQ => ">="@,
        }
    }

    pub fn to_string(&self) -> (r: String)
        ensures
            r@ == self.spec_symbol(),
    {
        match self {
            Opcode::Mul => String::from_str("*"),
            Opcode::Div => String::from_str("/"),
            Opcode::Add => String::from_str("+"),
            Opcode::Sub => String::from_str("-"),
            Opcode::AND => String::from_str("&&"),
            Opcode::OR => String::from_str("||"),
            Opcode::EQ => String::from_str("=="),
            Opcode::NEQ => String::from_str("!="),
            Opcode::GT => String::from_str(">"),
            Opcode::LT => String::from_str("<"),
            Opcode::LEQ => String::from_str("<="),
            Opcode::GEQ => String::from_str(">="),
        }
    }
}

} // verus!
