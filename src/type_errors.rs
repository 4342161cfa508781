use vstd::prelude::*;
use vstd::string::*;

use crate::operators::Opcode;
use crate::types::LiteralType;

verus! {

/// The errors the type checker found, in the order it found them.
#[derive(Debug, PartialEq)]
pub struct TypeErrors {
    pub errors: Vec<ErrorKind>,
}

/// One static error.
#[derive(Debug, PartialEq)]
pub enum ErrorKind {
    OpWrongType { op: Opcode, typ: LiteralType },
    UnaryOpWrongType { typ: LiteralType },
    MismatchedTypesVar { var: String, expected: LiteralType, found: LiteralType },
    MismatchedTypesOp { op: Opcode, expected: LiteralType, found: LiteralType },
    VarNotInScope { var: String },
    VarImmut { var: String },
    FnNotInScope { name: String },
    FnNumParamMismatch { name: String, takes: usize, supplied: usize },
    FnParamTypeMismatch { name: String, param: String, expected: LiteralType, found: LiteralType },
    FnReturnMismatch { name: String, expected: LiteralType, found: LiteralType },
    FnMissingReturn { name: String, r_type: LiteralType },
    Cond { found: LiteralType },
    /// A second function of a name already declared.
    FnAlreadyDefined { name: String },
    /// A node that has no meaning where it stands: `break`, `continue`, or a
    /// declaration form outside its place.
    NotSupported,
}

/// The decimal digits of `n`.
pub open spec fn decimal(n: nat) -> Seq<char>
    decreases n,
{
    if n < 10 {
        digit_text(n)
    } else {
        decimal(n / 10) + digit_text(n % 10)
    }
}

/// The text of one decimal digit.
pub open spec fn digit_text(d: nat) -> Seq<char> {
    if d == 0 {
        "0"@
    } else if d == 1 {
        "1"@
    } else if d == 2 {
        "2"@
    } else if d == 3 {
        "3"@
    } else if d == 4 {
        "4"@
    } else if d == 5 {
        "5"@
    } else if d == 6 {
        "6"@
    } else if d == 7 {
        "7"@
    } else if d == 8 {
        "8"@
    } else {
        "9"@
    }
}

fn digit_string(d: usize) -> (r: String)
    requires
        d < 10,
    ensures
        r@ == digit_text(d as nat),
{
    if d == 0 {
        String::from_str("0")
    } else if d == 1 {
        String::from_str("1")
    } else if d == 2 {
        String::from_str("2")
    } else if d == 3 {
        String::from_str("3")
    } else if d == 4 {
        String::from_str("4")
    } else if d == 5 {
        String::from_str("5")
    } else if d == 6 {
        String::from_str("6")
    } else if d == 7 {
        String::from_str("7")
    } else if d == 8 {
        String::from_str("8")
    } else {
        String::from_str("9")
    }
}

/// `n` in decimal.
pub fn decimal_string(n: usize) -> (r: String)
    ensures
        r@ == decimal(n as nat),
    decreases n,
{
    if n < 10 {
        digit_string(n)
    } else {
        let mut s = decimal_string(n / 10);
        let d = digit_string(n % 10);
        s.append(d.as_str());
        s
    }
}

/// The word for the family an operator belongs to.
pub open spec fn op_family(op: Opcode) -> Seq<char> {
    if op.is_arith() {
        "Binary"@
    } else if op.is_logical() {
        "Logical"@
    } else {
        "Relational"@
    }
}

/// "expected X, found Y" as the messages write it.
pub open spec fn expected_found(e: LiteralType, f: LiteralType) -> Seq<char> {
    "\nNote: expected "@ + e.spec_name() + ", found "@ + f.spec_name()
}

impl ErrorKind {
    /// The message that reports the error.
    pub open spec fn spec_message(&self) -> Seq<char> {
        match self {
            ErrorKind::OpWrongType { op, typ } => op_family(*op) + " operation '"@ + op.spec_symbol()
                + "' cannot be applied to type '"@ + typ.spec_name() + "'"@,
            ErrorKind::UnaryOpWrongType { typ } => "Unary operation '-' cannot be applied to type '"@
                + typ.spec_name() + "'"@,
            ErrorKind::MismatchedTypesVar { var, expected, found } => "Mismatched type for variable '"@ + var@ + "'"@
                + expected_found(*expected, *found),
            ErrorKind::MismatchedTypesOp { op, expected, found } => "Mismatched type for operation '"@
                + op.spec_symbol() + "'"@ + expected_found(*expected, *found),
            ErrorKind::VarNotInScope { var } => "Cannot find value '"@ + var@ + "' in this scope"@,
            ErrorKind::VarImmut { var } => "Cannot assign twice to immutable variable '"@ + var@ + "'"@,
            ErrorKind::FnNotInScope { name } => "Cannot find function '"@ + name@ + "' in scope"@,
            ErrorKind::FnNumParamMismatch { name, takes, supplied } => "Function '"@ + name@ + "' takes '"@
                + decimal(*takes as nat) + "' parameters but '"@ + decimal(*supplied as nat) + "' was supplied"@,
            ErrorKind::FnParamTypeMismatch { name, param, expected, found } => "Mismatched type of parameter '"@
                + param@ + "' when calling function '"@ + name@ + "'\nNote: expected '"@ + expected.spec_name()
                + "' but found '"@ + found.spec_name() + "'"@,
            ErrorKind::FnReturnMismatch { name, expected, found } => "Mismatched type of return statement in function '"@
                + name@ + "'\nNote: expected '"@ + expected.spec_name() + "' because of return type but found '"@
                + found.spec_name() + "'"@,
            ErrorKind::FnMissingReturn { name, r_type } => "Function '"@ + name@
                + "' implicitly returns '()' as its body has no tail or 'return' expression\nNote: expected type '"@
                + r_type.spec_name() + "' but found '()'"@,
            ErrorKind::Cond { found } => "Mismatched type in condition\nNote: expected type 'bool' but found type '"@
                + found.spec_name() + "'"@,
            ErrorKind::FnAlreadyDefined { name } => "Function '"@ + name@ + "' is already defined"@,
            ErrorKind::NotSupported => "This construct is not supported here"@,
        }
    }

    /// The message that reports the error.
    pub fn message(&self) -> (r: String)
        ensures
            r@ == self.spec_message(),
    {
        match self {
            ErrorKind::OpWrongType { op, typ } => {
                let mut s = match op {
                    Opcode::Add | Opcode::Sub | Opcode::Mul | Opcode::Div => String::from_str("Binary"),
                    Opcode::AND | Opcode::OR => String::from_str("Logical"),
                    _ => String::from_str("Relational"),
                };
                s.append(" operation '");
                s.append(op.to_string().as_str());
                s.append("' cannot be applied to type '");
                s.append(typ.to_string().as_str());
                s.append("'");
                s
            },
            ErrorKind::UnaryOpWrongType { typ } => {
                let mut s = String::from_str("Unary operation '-' cannot be applied to type '");
                s.append(typ.to_string().as_str());
                s.append("'");
                s
            },
            ErrorKind::MismatchedTypesVar { var, expected, found } => {
                let mut s = String::from_str("Mismatched type for variable '");
                s.append(var.as_str());
                s.append("'");
                s.append("\nNote: expected ");
                s.append(expected.to_string().as_str());
                s.append(", found ");
                s.append(found.to_string().as_str());
                s
            },
            ErrorKind::MismatchedTypesOp { op, expected, found } => {
                let mut s = String::from_str("Mismatched type for operation '");
                s.append(op.to_string().as_str());
                s.append("'");
                s.append("\nNote: expected ");
                s.append(expected.to_string().as_str());
                s.append(", found ");
                s.append(found.to_string().as_str());
                s
            },
            ErrorKind::VarNotInScope { var } => {
                let mut s = String::from_str("Cannot find value '");
                s.append(var.as_str());
                s.append("' in this scope");
                s
            },
            ErrorKind::VarImmut { var } => {
                let mut s = String::from_str("Cannot assign twice to immutable variable '");
                s.append(var.as_str());
                s.append("'");
                s
            },
            ErrorKind::FnNotInScope { name } => {
                let mut s = String::from_str("Cannot find function '");
                s.append(name.as_str());
                s.append("' in scope");
                s
            },
            ErrorKind::FnNumParamMismatch { name, takes, supplied } => {
                let mut s = String::from_str("Function '");
                s.append(name.as_str());
                s.append("' takes '");
                s.append(decimal_string(*takes).as_str());
                s.append("' parameters but '");
                s.append(decimal_string(*supplied).as_str());
                s.append("' was supplied");
                s
            },
            ErrorKind::FnParamTypeMismatch { name, param, expected, found } => {
                let mut s = String::from_str("Mismatched type of parameter '");
                s.append(param.as_str());
                s.append("' when calling function '");
                s.append(name.as_str());
                s.append("'\nNote: expected '");
                s.append(expected.to_string().as_str());
                s.append("' but found '");
                s.append(found.to_string().as_str());
                s.append("'");
                s
            },
            ErrorKind::FnReturnMismatch { name, expected, found } => {
                let mut s = String::from_str("Mismatched type of return statement in function '");
                s.append(name.as_str());
                s.append("'\nNote: expected '");
                s.append(expected.to_string().as_str());
                s.append("' because of return type but found '");
                s.append(found.to_string().as_str());
                s.append("'");
                s
            },
            ErrorKind::FnMissingReturn { name, r_type } => {
                let mut s = String::from_str("Function '");
                s.append(name.as_str());
                s.append("' implicitly returns '()' as its body has no tail or 'return' expression\nNote: expected type '");
                s.append(r_type.to_string().as_str());
                s.append("' but found '()'");
                s
            },
            ErrorKind::Cond { found } => {
                let mut s = String::from_str("Mismatched type in condition\nNote: expected type 'bool' but found type '");
                s.append(found.to_string().as_str());
                s.append("'");
                s
            },
            ErrorKind::FnAlreadyDefined { name } => {
                let mut s = String::from_str("Function '");
                s.append(name.as_str());
                s.append("' is already defined");
                s
            },
            ErrorKind::NotSupported => String::from_str("This construct is not supported here"),
        }
    }
}

impl TypeErrors {
    pub fn new() -> (r: TypeErrors)
        ensures
            r.errors@ == Seq::<ErrorKind>::empty(),
    {
        TypeErrors { errors: Vec::new() }
    }

    pub fn len(&self) -> (r: usize)
        ensures
            r == self.errors@.len(),
    {
        self.errors.len()
    }

    /// Appends an error.
    pub fn insert_err(&mut self, err: ErrorKind)
        ensures
            final(self).errors@ == old(self).errors@.push(err),
    {
        self.errors.push(err);
    }
}

} // verus!
