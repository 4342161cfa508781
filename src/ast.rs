use vstd::prelude::*;

use crate::operators::Opcode;
use crate::types::LiteralType;

verus! {

/// A node of the syntax tree.
///
/// Statements carry an optional `next` statement: a block is the chain of
/// statements reached from its first one through `next`.
#[derive(Debug, PartialEq)]
pub enum Node {
    Number(i32),
    Bool(bool),
    Str(String),
    Var(String),
    /// The left side of a `Let`: the variable, its declared type, whether it is mutable.
    VarBinding(Box<Node>, LiteralType, bool),
    Expr(Box<Node>, Opcode, Box<Node>),
    UnaryOp(Opcode, Box<Node>),
    /// A parameter of a function: the variable, its type, whether it is mutable.
    FuncParam(Box<Node>, LiteralType, bool),
    VarValue { var: Box<Node>, expr: Box<Node>, next: Option<Box<Node>> },
    Let { var: Box<Node>, expr: Box<Node>, next: Option<Box<Node>> },
    Print { expr: Box<Node>, next: Option<Box<Node>> },
    If { cond: Box<Node>, statement: Box<Node>, next: Option<Box<Node>> },
    IfElse {
        cond: Box<Node>,
        if_statement: Box<Node>,
        else_statement: Box<Node>,
        next: Option<Box<Node>>,
    },
    While { cond: Box<Node>, statement: Box<Node>, next: Option<Box<Node>> },
    Func { name: String, params: Vec<Box<Node>>, r_type: Option<LiteralType>, body: Box<Node> },
    FuncCall { name: String, args: Vec<Box<Node>>, next: Option<Box<Node>> },
    /// Reserved; no stage gives it a meaning.
    Break,
    /// Reserved; no stage gives it a meaning.
    Continue,
    Return { expr: Box<Node>, next: Option<Box<Node>> },
}

impl Node {
    /// Whether the node is a statement, that is, has a `next` slot.
    pub open spec fn has_next_slot(self) -> bool {
        match self {
            Node::VarValue { .. } | Node::Let { .. } | Node::Print { .. } | Node::If { .. }
            | Node::IfElse { .. } | Node::While { .. } | Node::FuncCall { .. }
            | Node::Return { .. } => true,
            _ => false,
        }
    }

    /// The statement that follows this one.
    pub open spec fn next_of(self) -> Option<Box<Node>> {
        match self {
            Node::VarValue { next, .. } => next,
            Node::Let { next, .. } => next,
            Node::Print { next, .. } => next,
            Node::If { next, .. } => next,
            Node::IfElse { next, .. } => next,
            Node::While { next, .. } => next,
            Node::FuncCall { next, .. } => next,
            Node::Return { next, .. } => next,
            _ => None,
        }
    }

    /// The node with its `next` slot set to `n`; every other field is kept.
    pub open spec fn with_next(self, n: Option<Box<Node>>) -> Node {
        match self {
            Node::VarValue { var, expr, .. } => Node::VarValue { var, expr, next: n },
            Node::Let { var, expr, .. } => Node::Let { var, expr, next: n },
            Node::Print { expr, .. } => Node::Print { expr, next: n },
            Node::If { cond, statement, .. } => Node::If { cond, statement, next: n },
            Node::IfElse { cond, if_statement, else_statement, .. } => Node::IfElse {
                cond,
                if_statement,
                else_statement,
                next: n,
            },
            Node::While { cond, statement, .. } => Node::While { cond, statement, next: n },
            Node::FuncCall { name, args, .. } => Node::FuncCall { name, args, next: n },
            Node::Return { expr, .. } => Node::Return { expr, next: n },
            _ => self,
        }
    }

    /// Whether the node can only stand as a statement: it has a `next` slot
    /// and is not a call without a statement after it, which is also an
    /// expression.
    pub open spec fn is_statement_form(self) -> bool {
        self.has_next_slot() && !(self is FuncCall && self.next_of() is None)
    }

    /// Whether the node can only stand as a statement.
    pub fn is_statement_node(&self) -> (r: bool)
        ensures
            r == self.is_statement_form(),
    {
        match self {
            Node::VarValue { .. } | Node::Let { .. } | Node::Print { .. } | Node::If { .. }
            | Node::IfElse { .. } | Node::While { .. } | Node::Return { .. } => true,
            Node::FuncCall { next, .. } => next.is_some(),
            _ => false,
        }
    }

    /// The statement that follows this one, if any.
    pub fn next_node(&self) -> (r: Option<&Node>)
        ensures
            r matches Some(n) ==> self.next_of() == Some(Box::new(*n)),
            r is None ==> self.next_of() is None,
    {
        match self {
            Node::VarValue { next, .. } | Node::Let { next, .. } | Node::Print { next, .. }
            | Node::If { next, .. } | Node::IfElse { next, .. } | Node::While { next, .. }
            | Node::FuncCall { next, .. } | Node::Return { next, .. } => match next {
                Some(n) => Some(&**n),
                None => None,
            },
            _ => None,
        }
    }

    /// Attaches `node` as the statement that follows this one.
    pub fn insert_next(&mut self, node: Box<Node>)
        requires
            old(self).has_next_slot(),
        ensures
            *final(self) == old(self).with_next(Some(node)),
            final(self).next_of() == Some(node),
    {
        match self {
            Node::VarValue { next, .. } => *next = Some(node),
            Node::Let { next, .. } => *next = Some(node),
            Node::Print { next, .. } => *next = Some(node),
            Node::If { next, .. } => *next = Some(node),
            Node::IfElse { next, .. } => *next = Some(node),
            Node::While { next, .. } => *next = Some(node),
            Node::FuncCall { next, .. } => *next = Some(node),
            Node::Return { next, .. } => *next = Some(node),
            _ => {},
        }
    }
}

} // verus!
