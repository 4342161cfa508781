use vstd::prelude::*;

use crate::ast::Node;
use crate::operators::Opcode;
use crate::types::LiteralType;

verus! {

/// A syntax tree with its names as characters and its lists as sequences:
/// what a `Node` is, independent of where its strings live.
pub enum NodeView {
    Number(i32),
    Bool(bool),
    Str(Seq<char>),
    Var(Seq<char>),
    VarBinding(Box<NodeView>, LiteralType, bool),
    Expr(Box<NodeView>, Opcode, Box<NodeView>),
    UnaryOp(Opcode, Box<NodeView>),
    FuncParam(Box<NodeView>, LiteralType, bool),
    VarValue { var: Box<NodeView>, expr: Box<NodeView>, next: Option<Box<NodeView>> },
    Let { var: Box<NodeView>, expr: Box<NodeView>, next: Option<Box<NodeView>> },
    Print { expr: Box<NodeView>, next: Option<Box<NodeView>> },
    If { cond: Box<NodeView>, statement: Box<NodeView>, next: Option<Box<NodeView>> },
    IfElse {
        cond: Box<NodeView>,
        if_statement: Box<NodeView>,
        else_statement: Box<NodeView>,
        next: Option<Box<NodeView>>,
    },
    While { cond: Box<NodeView>, statement: Box<NodeView>, next: Option<Box<NodeView>> },
    Func { name: Seq<char>, params: Seq<NodeView>, r_type: Option<LiteralType>, body: Box<NodeView> },
    FuncCall { name: Seq<char>, args: Seq<NodeView>, next: Option<Box<NodeView>> },
    Break,
    Continue,
    Return { expr: Box<NodeView>, next: Option<Box<NodeView>> },
}

pub open spec fn opt_view(n: Option<Box<Node>>) -> Option<Box<NodeView>>
    decreases n, 0nat,
{
    match n {
        Some(b) => Some(Box::new(node_view(*b))),
        None => None,
    }
}

/// The view of a node.
pub open spec fn node_view(n: Node) -> NodeView
    decreases n, 1nat,
{
    match n {
        Node::Number(v) => NodeView::Number(v),
        Node::Bool(b) => NodeView::Bool(b),
        Node::Str(s) => NodeView::Str(s@),
        Node::Var(s) => NodeView::Var(s@),
        Node::VarBinding(v, t, m) => NodeView::VarBinding(Box::new(node_view(*v)), t, m),
        Node::Expr(l, op, r) => NodeView::Expr(Box::new(node_view(*l)), op, Box::new(node_view(*r))),
        Node::UnaryOp(op, e) => NodeView::UnaryOp(op, Box::new(node_view(*e))),
        Node::FuncParam(v, t, m) => NodeView::FuncParam(Box::new(node_view(*v)), t, m),
        Node::VarValue { var, expr, next } => NodeView::VarValue {
            var: Box::new(node_view(*var)),
            expr: Box::new(node_view(*expr)),
            next: opt_view(next),
        },
        Node::Let { var, expr, next } => NodeView::Let {
            var: Box::new(node_view(*var)),
            expr: Box::new(node_view(*expr)),
            next: opt_view(next),
        },
        Node::Print { expr, next } => NodeView::Print { expr: Box::new(node_view(*expr)), next: opt_view(next) },
        Node::If { cond, statement, next } => NodeView::If {
            cond: Box::new(node_view(*cond)),
            statement: Box::new(node_view(*statement)),
            next: opt_view(next),
        },
        Node::IfElse { cond, if_statement, else_statement, next } => NodeView::IfElse {
            cond: Box::new(node_view(*cond)),
            if_statement: Box::new(node_view(*if_statement)),
            else_statement: Box::new(node_view(*else_statement)),
            next: opt_view(next),
        },
        Node::While { cond, statement, next } => NodeView::While {
            cond: Box::new(node_view(*cond)),
            statement: Box::new(node_view(*statement)),
            next: opt_view(next),
        },
        Node::Func { name, params, r_type, body } => NodeView::Func {
            name: name@,
            params: nodes_view(params@),
            r_type,
            body: Box::new(node_view(*body)),
        },
        Node::FuncCall { name, args, next } => NodeView::FuncCall { name: name@, args: nodes_view(args@), next: opt_view(next) },
        Node::Break => NodeView::Break,
        Node::Continue => NodeView::Continue,
        Node::Return { expr, next } => NodeView::Return { expr: Box::new(node_view(*expr)), next: opt_view(next) },
    }
}

/// The views of a sequence of nodes.
pub open spec fn nodes_view(s: Seq<Box<Node>>) -> Seq<NodeView>
    decreases s, 0nat,
{
    if s.len() == 0 {
        Seq::empty()
    } else {
        nodes_view(s.drop_last()).push(node_view(*s.last()))
    }
}

} // verus!
