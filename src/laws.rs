//! Properties that relate the stages of the language, proved over the
//! models that their contracts speak of.

use vstd::prelude::*;

use crate::ast::Node;
use crate::context::{ctx_assign, ctx_index, ctx_insert, ctx_lookup, lemma_ctx_index, ContextModel};
use crate::interpreter::{after_branch, call_fn, eval, eval_args, eval_next, eval_while, run_program};
use crate::function::{funcs_index, Func};
use crate::parse::program_parser::program_of;
use crate::scope::{param_types_scope, scope_index, ScopeModel};
use crate::type_checker::{
    body_errors, bodies_errors, declare, declare_one, lemma_then_next, program_errors, tc, tc_args, then_next,
};
use crate::type_errors::ErrorKind;
use crate::value::Value;
use crate::variable::Variable;

verus! {

/// Whether the statements reached from `next`, checked in `c`, assign to a
/// variable that is immutable where the assignment stands.
pub open spec fn next_assigns_immutable(next: Option<Box<Node>>, c: ContextModel, fs: Seq<Func>, cur: Func) -> bool
    decreases next, 0nat,
{
    match next {
        Some(n) => assigns_immutable(*n, c, fs, cur),
        None => false,
    }
}

/// Whether the statement `node`, the blocks nested in it or the statements
/// after it, checked in `c`, assign to a variable that is immutable where
/// the assignment stands.
pub open spec fn assigns_immutable(node: Node, c: ContextModel, fs: Seq<Func>, cur: Func) -> bool
    decreases node, 1nat,
{
    match node {
        Node::VarValue { var, expr, next } => {
            let c1 = tc(*expr, c, fs, cur).2;
            (match *var {
                Node::Var(name) => match ctx_lookup(c1, name@) {
                    Some(v) => !v.mutable,
                    None => false,
                },
                _ => false,
            }) || next_assigns_immutable(next, c1, fs, cur)
        },
        Node::Let { var, expr, next } => {
            let c1 = tc(*expr, c, fs, cur).2;
            let c2 = match *var {
                Node::VarBinding(v, typ, mutable) => match *v {
                    Node::Var(name) => ctx_insert(c1, name@, Variable { value: Value::Unit, mutable, typ }),
                    _ => c1,
                },
                _ => c1,
            };
            next_assigns_immutable(next, c2, fs, cur)
        },
        Node::Print { expr, next } => next_assigns_immutable(next, tc(*expr, c, fs, cur).2, fs, cur),
        Node::Return { expr, next } => next_assigns_immutable(next, tc(*expr, c, fs, cur).2, fs, cur),
        Node::FuncCall { name, args, next } => match funcs_index(fs, name@) {
            None => next_assigns_immutable(next, c, fs, cur),
            Some(_) => next_assigns_immutable(next, tc_args(args@, c, fs, cur).2, fs, cur),
        },
        Node::If { cond, statement, next } | Node::While { cond, statement, next } => {
            let c1 = tc(*statement, c.push(Seq::empty()), fs, cur).2;
            assigns_immutable(*statement, c.push(Seq::empty()), fs, cur) || next_assigns_immutable(
                next,
                tc(*cond, c1.drop_last(), fs, cur).2,
                fs,
                cur,
            )
        },
        Node::IfElse { cond, if_statement, else_statement, next } => {
            let c1 = tc(*if_statement, c.push(Seq::empty()), fs, cur).2;
            let c2 = tc(*else_statement, c1.drop_last().push(Seq::empty()), fs, cur).2;
            assigns_immutable(*if_statement, c.push(Seq::empty()), fs, cur) || assigns_immutable(
                *else_statement,
                c1.drop_last().push(Seq::empty()),
                fs,
                cur,
            ) || next_assigns_immutable(next, tc(*cond, c2.drop_last(), fs, cur).2, fs, cur)
        },
        _ => false,
    }
}

proof fn lemma_next_assigns_immutable(next: Option<Box<Node>>, r: crate::type_checker::TcResult, es: Seq<ErrorKind>, c: ContextModel, fs: Seq<Func>, cur: Func)
    requires
        next_assigns_immutable(next, c, fs, cur),
    ensures
        then_next(r, es, c, next, fs, cur).1.len() > 0,
    decreases next, 0nat,
{
    match next {
        Some(n) => {
            lemma_assign_immutable_reported(*n, c, fs, cur);
        },
        None => {},
    }
}

/// Checking a statement that assigns to an immutable variable, directly, in
/// a nested block or after it, reports an error.
pub proof fn lemma_assign_immutable_reported(node: Node, c: ContextModel, fs: Seq<Func>, cur: Func)
    requires
        assigns_immutable(node, c, fs, cur),
    ensures
        tc(node, c, fs, cur).1.len() > 0,
    decreases node, 1nat,
{
    match node {
        Node::VarValue { var, expr, next } => {
            let (rv, ev, c1) = tc(*expr, c, fs, cur);
            match *var {
                Node::Var(name) => match ctx_lookup(c1, name@) {
                    Some(v) => {
                        let (r, e) = crate::type_checker::assign_spec(name, v, rv);
                        lemma_then_next(r, c1, next, fs, cur);
                        assert(tc(node, c, fs, cur).1 == then_next(r, ev + e, c1, next, fs, cur).1);
                        if !v.mutable {
                            assert(e.len() > 0);
                            assert((ev + e).len() > 0);
                        } else {
                            lemma_next_assigns_immutable(next, r, Seq::empty(), c1, fs, cur);
                        }
                    },
                    None => {
                        lemma_then_next(Err(None), c1, next, fs, cur);
                        lemma_next_assigns_immutable(next, Err(None), Seq::empty(), c1, fs, cur);
                        assert(tc(node, c, fs, cur).1 == then_next(Err(None), ev.push(ErrorKind::VarNotInScope { var: name }), c1, next, fs, cur).1);
                    },
                },
                _ => {
                    lemma_then_next(Err(None), c1, next, fs, cur);
                    lemma_next_assigns_immutable(next, Err(None), Seq::empty(), c1, fs, cur);
                    assert(tc(node, c, fs, cur).1 == then_next(Err(None), ev, c1, next, fs, cur).1);
                },
            }
        },
        Node::Let { var, expr, next } => {
            let (rv, ev, c1) = tc(*expr, c, fs, cur);
            match *var {
                Node::VarBinding(v, typ, mutable) => match *v {
                    Node::Var(name) => {
                        let c2 = ctx_insert(c1, name@, Variable { value: Value::Unit, mutable, typ });
                        let (r, e) = crate::type_checker::let_spec(name, typ, rv);
                        lemma_then_next(r, c2, next, fs, cur);
                        lemma_next_assigns_immutable(next, r, Seq::empty(), c2, fs, cur);
                        assert(tc(node, c, fs, cur).1 == then_next(r, ev + e, c2, next, fs, cur).1);
                    },
                    _ => {
                        lemma_then_next(Err(None), c1, next, fs, cur);
                        lemma_next_assigns_immutable(next, Err(None), Seq::empty(), c1, fs, cur);
                        assert(tc(node, c, fs, cur).1 == then_next(Err(None), ev, c1, next, fs, cur).1);
                    },
                },
                _ => {
                    lemma_then_next(Err(None), c1, next, fs, cur);
                    lemma_next_assigns_immutable(next, Err(None), Seq::empty(), c1, fs, cur);
                    assert(tc(node, c, fs, cur).1 == then_next(Err(None), ev, c1, next, fs, cur).1);
                },
            }
        },
        Node::Print { expr, next } => {
            let (rv, ev, c1) = tc(*expr, c, fs, cur);
            lemma_then_next(Err(None), c1, next, fs, cur);
            lemma_next_assigns_immutable(next, Err(None), Seq::empty(), c1, fs, cur);
            assert(tc(node, c, fs, cur).1 == then_next(Err(None), ev, c1, next, fs, cur).1);
        },
        Node::Return { expr, next } => {
            let (rv, ev, c1) = tc(*expr, c, fs, cur);
            let (r, e) = crate::type_checker::return_spec(rv, cur);
            lemma_then_next(r, c1, next, fs, cur);
            lemma_next_assigns_immutable(next, r, Seq::empty(), c1, fs, cur);
            assert(tc(node, c, fs, cur).1 == then_next(r, ev + e, c1, next, fs, cur).1);
        },
        Node::FuncCall { name, args, next } => match funcs_index(fs, name@) {
            None => {
                lemma_then_next(Err(None), c, next, fs, cur);
                assert(tc(node, c, fs, cur).1 == then_next(Err(None), seq![ErrorKind::FnNotInScope { name }], c, next, fs, cur).1);
            },
            Some(k) => {
                let (ars, ea, c1) = tc_args(args@, c, fs, cur);
                let r = Ok(crate::function::ret_type(fs[k].r_type));
                lemma_then_next(r, c1, next, fs, cur);
                lemma_next_assigns_immutable(next, r, Seq::empty(), c1, fs, cur);
                assert(tc(node, c, fs, cur).1 == then_next(r, ea + crate::type_checker::call_spec(name, fs[k], ars), c1, next, fs, cur).1);
            },
        },
        Node::If { cond, statement, next } | Node::While { cond, statement, next } => {
            let (_, eb, c1) = tc(*statement, c.push(Seq::empty()), fs, cur);
            let (rc, ec, c2) = tc(*cond, c1.drop_last(), fs, cur);
            lemma_then_next(Err(None), c2, next, fs, cur);
            assert(tc(node, c, fs, cur).1 == then_next(Err(None), eb + ec + crate::type_checker::cond_spec(*cond, rc), c2, next, fs, cur).1);
            if assigns_immutable(*statement, c.push(Seq::empty()), fs, cur) {
                lemma_assign_immutable_reported(*statement, c.push(Seq::empty()), fs, cur);
            } else {
                lemma_next_assigns_immutable(next, Err(None), Seq::empty(), c2, fs, cur);
            }
        },
        Node::IfElse { cond, if_statement, else_statement, next } => {
            let (_, eb, c1) = tc(*if_statement, c.push(Seq::empty()), fs, cur);
            let (_, ee, c2) = tc(*else_statement, c1.drop_last().push(Seq::empty()), fs, cur);
            let (rc, ec, c3) = tc(*cond, c2.drop_last(), fs, cur);
            lemma_then_next(Err(None), c3, next, fs, cur);
            assert(tc(node, c, fs, cur).1 == then_next(Err(None), eb + ee + ec + crate::type_checker::cond_spec(*cond, rc), c3, next, fs, cur).1);
            if assigns_immutable(*if_statement, c.push(Seq::empty()), fs, cur) {
                lemma_assign_immutable_reported(*if_statement, c.push(Seq::empty()), fs, cur);
            } else if assigns_immutable(*else_statement, c1.drop_last().push(Seq::empty()), fs, cur) {
                lemma_assign_immutable_reported(*else_statement, c1.drop_last().push(Seq::empty()), fs, cur);
            } else {
                lemma_next_assigns_immutable(next, Err(None), Seq::empty(), c3, fs, cur);
            }
        },
        _ => {},
    }
}

proof fn lemma_bodies_errors_grow(fs: Seq<Func>, k: nat, n: nat)
    requires
        k < n <= fs.len(),
    ensures
        bodies_errors(fs, n).len() >= body_errors(fs, fs[k as int]).len(),
    decreases n,
{
    if k < n - 1 {
        lemma_bodies_errors_grow(fs, k, (n - 1) as nat);
    }
}

/// Immutability: a program in which some function's body assigns to a
/// variable that is immutable where the assignment stands does not type
/// check.
pub proof fn lemma_immutable_update_rejected(prog: Seq<Box<Node>>, k: int)
    requires
        0 <= k < declare(prog).0.len(),
        assigns_immutable(
            *declare(prog).0[k].body,
            seq![param_types_scope(declare(prog).0[k].params@)],
            declare(prog).0,
            declare(prog).0[k],
        ),
    ensures
        program_errors(prog).len() > 0,
{
    let fs = declare(prog).0;
    lemma_assign_immutable_reported(*fs[k].body, seq![param_types_scope(fs[k].params@)], fs, fs[k]);
    lemma_bodies_errors_grow(fs, k as nat, fs.len());
}

/// The binding at a position of `b` is the one at the same position of `a`:
/// the same name, declared with the same type and mutability.
pub open spec fn same_binding(a: (Seq<char>, Variable), b: (Seq<char>, Variable)) -> bool {
    a.0 == b.0 && a.1.typ == b.1.typ && a.1.mutable == b.1.mutable
}

/// `b` has the bindings of `a`, scope by scope, and perhaps more bindings in
/// its innermost scope; values may differ.
pub open spec fn keeps_bindings(a: ContextModel, b: ContextModel) -> bool {
    &&& a.len() == b.len()
    &&& forall|i: int| 0 <= i < a.len() ==> {
        &&& (#[trigger] b[i]).len() >= a[i].len()
        &&& i < a.len() - 1 ==> b[i].len() == a[i].len()
        &&& forall|j: int| 0 <= j < a[i].len() ==> same_binding(#[trigger] a[i][j], b[i][j])
    }
}

/// `a` and `b` have the same bindings, scope by scope; values may differ.
pub open spec fn same_bindings(a: ContextModel, b: ContextModel) -> bool {
    &&& a.len() == b.len()
    &&& forall|i: int| 0 <= i < a.len() ==> {
        &&& (#[trigger] b[i]).len() == a[i].len()
        &&& forall|j: int| 0 <= j < a[i].len() ==> same_binding(#[trigger] a[i][j], b[i][j])
    }
}

proof fn lemma_keeps_trans(a: ContextModel, b: ContextModel, c: ContextModel)
    requires
        keeps_bindings(a, b),
        keeps_bindings(b, c),
    ensures
        keeps_bindings(a, c),
{
    assert forall|i: int| 0 <= i < a.len() implies {
        &&& (#[trigger] c[i]).len() >= a[i].len()
        &&& i < a.len() - 1 ==> c[i].len() == a[i].len()
        &&& forall|j: int| 0 <= j < a[i].len() ==> same_binding(#[trigger] a[i][j], c[i][j])
    } by {
        assert(b[i].len() >= a[i].len());
        assert forall|j: int| 0 <= j < a[i].len() implies same_binding(#[trigger] a[i][j], c[i][j]) by {
            assert(same_binding(a[i][j], b[i][j]));
            assert(same_binding(b[i][j], c[i][j]));
        }
    }
}

proof fn lemma_keeps_insert(a: ContextModel, name: Seq<char>, v: Variable)
    requires
        a.len() > 0,
    ensures
        keeps_bindings(a, ctx_insert(a, name, v)),
{
    let b = ctx_insert(a, name, v);
    assert forall|i: int| 0 <= i < a.len() implies {
        &&& (#[trigger] b[i]).len() >= a[i].len()
        &&& i < a.len() - 1 ==> b[i].len() == a[i].len()
        &&& forall|j: int| 0 <= j < a[i].len() ==> same_binding(#[trigger] a[i][j], b[i][j])
    } by {
        if i == a.len() - 1 {
            assert forall|j: int| 0 <= j < a[i].len() implies same_binding(#[trigger] a[i][j], b[i][j]) by {
                assert(b[i] == a[i].push((name, v)));
                assert(b[i][j] == a[i][j]);
            }
        }
    }
}

proof fn lemma_keeps_assign(a: ContextModel, name: Seq<char>, val: Value)
    ensures
        keeps_bindings(a, ctx_assign(a, name, val)),
{
    lemma_ctx_index(a, name);
    let b = ctx_assign(a, name, val);
    assert forall|i: int| 0 <= i < a.len() implies {
        &&& (#[trigger] b[i]).len() >= a[i].len()
        &&& i < a.len() - 1 ==> b[i].len() == a[i].len()
        &&& forall|j: int| 0 <= j < a[i].len() ==> same_binding(#[trigger] a[i][j], b[i][j])
    } by {
        assert forall|j: int| 0 <= j < a[i].len() implies same_binding(#[trigger] a[i][j], b[i][j]) by {
            match ctx_index(a, name) {
                Some((p, q)) => {
                    if i == p && j == q {
                    } else if i == p {
                        assert(b[i][j] == a[i][j]);
                    }
                },
                None => {},
            }
        }
    }
}

/// Leaving a block: what the block kept of the scopes it was entered with,
/// its enclosing scopes have exactly.
proof fn lemma_keeps_pop(a: ContextModel, b: ContextModel)
    requires
        keeps_bindings(a.push(Seq::empty()), b),
    ensures
        same_bindings(a, b.drop_last()),
        keeps_bindings(a, b.drop_last()),
{
    let ap = a.push(Seq::empty());
    assert forall|i: int| 0 <= i < a.len() implies {
        &&& (#[trigger] b.drop_last()[i]).len() == a[i].len()
        &&& forall|j: int| 0 <= j < a[i].len() ==> same_binding(#[trigger] a[i][j], b.drop_last()[i][j])
    } by {
        assert(ap[i] == a[i]);
        assert(b.drop_last()[i] == b[i]);
        assert forall|j: int| 0 <= j < a[i].len() implies same_binding(#[trigger] a[i][j], b.drop_last()[i][j]) by {
            assert(same_binding(ap[i][j], b[i][j]));
        }
    }
}

proof fn lemma_next_keeps(next: Option<Box<Node>>, c: ContextModel, fs: Seq<Func>, fuel: nat)
    requires
        c.len() > 0,
    ensures
        keeps_bindings(c, eval_next(next, c, fs, fuel).1),
    decreases fuel, 1nat, 0nat,
{
    match next {
        Some(n) => lemma_eval_keeps(*n, c, fs, fuel),
        None => {},
    }
}

proof fn lemma_branch_keeps(r: crate::interpreter::Outcome, next: Option<Box<Node>>, c: ContextModel, fs: Seq<Func>, fuel: nat)
    requires
        c.len() > 0,
    ensures
        keeps_bindings(c, after_branch(r, next, c, fs, fuel).1),
    decreases fuel, 2nat, 0nat,
{
    match r {
        Ok(Value::Unit) => lemma_next_keeps(next, c, fs, fuel),
        _ => {},
    }
}

proof fn lemma_while_keeps(cond: Node, body: Node, next: Option<Box<Node>>, c: ContextModel, fs: Seq<Func>, fuel: nat)
    requires
        c.len() > 0,
    ensures
        keeps_bindings(c, eval_while(cond, body, next, c, fs, fuel).1),
    decreases fuel, 3nat, 0nat,
{
    let cp = c.push(Seq::empty());
    let (rc, c1) = eval(cond, cp, fs, fuel);
    lemma_eval_keeps(cond, cp, fs, fuel);
    lemma_keeps_pop(c, c1);
    match rc {
        Ok(Value::Bool(true)) => {
            let (rb, c2) = eval(body, c1, fs, fuel);
            lemma_eval_keeps(body, c1, fs, fuel);
            lemma_keeps_trans(cp, c1, c2);
            lemma_keeps_pop(c, c2);
            match rb {
                Ok(Value::Unit) => {
                    if fuel > 0 {
                        lemma_while_keeps(cond, body, next, c2.drop_last(), fs, (fuel - 1) as nat);
                        lemma_keeps_trans(c, c2.drop_last(), eval_while(cond, body, next, c2.drop_last(), fs, (fuel - 1) as nat).1);
                    }
                },
                _ => {},
            }
        },
        Ok(Value::Bool(false)) => {
            lemma_next_keeps(next, c1.drop_last(), fs, fuel);
            lemma_keeps_trans(c, c1.drop_last(), eval_next(next, c1.drop_last(), fs, fuel).1);
        },
        _ => {},
    }
}

proof fn lemma_args_keeps(args: Seq<Box<Node>>, c: ContextModel, fs: Seq<Func>, fuel: nat)
    requires
        c.len() > 0,
    ensures
        keeps_bindings(c, eval_args(args, c, fs, fuel).1),
    decreases fuel, 1nat, args.len(),
{
    if args.len() > 0 {
        let (rs, c1) = eval_args(args.drop_last(), c, fs, fuel);
        lemma_args_keeps(args.drop_last(), c, fs, fuel);
        if rs is Ok {
            lemma_eval_keeps(*args.last(), c1, fs, fuel);
            lemma_keeps_trans(c, c1, eval(*args.last(), c1, fs, fuel).1);
        }
    }
}

/// Evaluation keeps every binding of the scopes it starts in, and adds
/// bindings only to the innermost one.
pub proof fn lemma_eval_keeps(node: Node, c: ContextModel, fs: Seq<Func>, fuel: nat)
    requires
        c.len() > 0,
    ensures
        keeps_bindings(c, eval(node, c, fs, fuel).1),
    decreases fuel, 0nat, 0nat,
{
    if fuel > 0 {
        let f = (fuel - 1) as nat;
        match node {
            Node::UnaryOp(_, e) => lemma_eval_keeps(*e, c, fs, f),
            Node::Expr(l, _, r) => {
                let (rl, c1) = eval(*l, c, fs, f);
                lemma_eval_keeps(*l, c, fs, f);
                if rl is Ok {
                    lemma_eval_keeps(*r, c1, fs, f);
                    lemma_keeps_trans(c, c1, eval(*r, c1, fs, f).1);
                }
            },
            Node::Let { var, expr, next } => {
                let (rv, c1) = eval(*expr, c, fs, f);
                lemma_eval_keeps(*expr, c, fs, f);
                match rv {
                    Ok(v) => match *var {
                        Node::VarBinding(x, typ, mutable) => match *x {
                            Node::Var(name) => {
                                let c2 = ctx_insert(c1, name@, Variable { value: v, mutable, typ });
                                lemma_keeps_insert(c1, name@, Variable { value: v, mutable, typ });
                                lemma_keeps_trans(c, c1, c2);
                                lemma_next_keeps(next, c2, fs, f);
                                lemma_keeps_trans(c, c2, eval_next(next, c2, fs, f).1);
                            },
                            _ => {},
                        },
                        _ => {},
                    },
                    Err(_) => {},
                }
            },
            Node::VarValue { var, expr, next } => {
                let (rv, c1) = eval(*expr, c, fs, f);
                lemma_eval_keeps(*expr, c, fs, f);
                match rv {
                    Ok(v) => match *var {
                        Node::Var(name) => {
                            let c2 = ctx_assign(c1, name@, v);
                            lemma_keeps_assign(c1, name@, v);
                            lemma_keeps_trans(c, c1, c2);
                            lemma_next_keeps(next, c2, fs, f);
                            lemma_keeps_trans(c, c2, eval_next(next, c2, fs, f).1);
                        },
                        _ => {},
                    },
                    Err(_) => {},
                }
            },
            Node::Print { expr, next } => {
                let (rv, c1) = eval(*expr, c, fs, f);
                lemma_eval_keeps(*expr, c, fs, f);
                lemma_next_keeps(next, c1, fs, f);
                lemma_keeps_trans(c, c1, eval_next(next, c1, fs, f).1);
            },
            Node::Return { expr, .. } => lemma_eval_keeps(*expr, c, fs, f),
            Node::If { cond, statement, next } => {
                let (rc, c1) = eval(*cond, c, fs, f);
                lemma_eval_keeps(*cond, c, fs, f);
                match rc {
                    Ok(Value::Bool(b)) => {
                        let cp = c1.push(Seq::empty());
                        let (rb, c2) = if b {
                            eval(*statement, cp, fs, f)
                        } else {
                            (Ok(Value::Unit), cp)
                        };
                        if b {
                            lemma_eval_keeps(*statement, cp, fs, f);
                        }
                        lemma_keeps_pop(c1, c2);
                        lemma_keeps_trans(c, c1, c2.drop_last());
                        lemma_branch_keeps(rb, next, c2.drop_last(), fs, f);
                        lemma_keeps_trans(c, c2.drop_last(), after_branch(rb, next, c2.drop_last(), fs, f).1);
                    },
                    _ => {},
                }
            },
            Node::IfElse { cond, if_statement, else_statement, next } => {
                let (rc, c1) = eval(*cond, c, fs, f);
                lemma_eval_keeps(*cond, c, fs, f);
                match rc {
                    Ok(Value::Bool(b)) => {
                        let cp = c1.push(Seq::empty());
                        let (rb, c2) = if b {
                            eval(*if_statement, cp, fs, f)
                        } else {
                            eval(*else_statement, cp, fs, f)
                        };
                        if b {
                            lemma_eval_keeps(*if_statement, cp, fs, f);
                        } else {
                            lemma_eval_keeps(*else_statement, cp, fs, f);
                        }
                        lemma_keeps_pop(c1, c2);
                        lemma_keeps_trans(c, c1, c2.drop_last());
                        lemma_branch_keeps(rb, next, c2.drop_last(), fs, f);
                        lemma_keeps_trans(c, c2.drop_last(), after_branch(rb, next, c2.drop_last(), fs, f).1);
                    },
                    _ => {},
                }
            },
            Node::While { cond, statement, next } => lemma_while_keeps(*cond, *statement, next, c, fs, f),
            Node::FuncCall { name, args, next } => match funcs_index(fs, name@) {
                Some(k) => {
                    let fk = fs[k];
                    if args@.len() == fk.params@.len() {
                        lemma_args_keeps(args@, c, fs, f);
                    }
                    let (r, c1) = call_fn(fk, args@, c, fs, f);
                    match r {
                        Ok(_) => match next {
                            Some(n) => {
                                lemma_eval_keeps(*n, c1, fs, f);
                                lemma_keeps_trans(c, c1, eval(*n, c1, fs, f).1);
                            },
                            None => {},
                        },
                        Err(_) => {},
                    }
                },
                None => {},
            },
            _ => {},
        }
    }
}

/// Two scope stacks with the same bindings make the same binding of a name visible.
proof fn lemma_same_bindings_index(a: ContextModel, b: ContextModel, name: Seq<char>)
    requires
        same_bindings(a, b),
    ensures
        ctx_index(a, name) == ctx_index(b, name),
    decreases a.len(),
{
    if a.len() > 0 {
        lemma_same_scope_index(a.last(), b.last(), name);
        assert(same_bindings(a.drop_last(), b.drop_last())) by {
            assert forall|i: int| 0 <= i < a.drop_last().len() implies {
                &&& (#[trigger] b.drop_last()[i]).len() == a.drop_last()[i].len()
                &&& forall|j: int| 0 <= j < a.drop_last()[i].len() ==> same_binding(#[trigger] a.drop_last()[i][j], b.drop_last()[i][j])
            } by {
                assert(a.drop_last()[i] == a[i]);
                assert(b.drop_last()[i] == b[i]);
            }
        }
        lemma_same_bindings_index(a.drop_last(), b.drop_last(), name);
    }
}

proof fn lemma_same_scope_index(a: ScopeModel, b: ScopeModel, name: Seq<char>)
    requires
        a.len() == b.len(),
        forall|j: int| 0 <= j < a.len() ==> same_binding(#[trigger] a[j], b[j]),
    ensures
        scope_index(a, name) == scope_index(b, name),
    decreases a.len(),
{
    if a.len() > 0 {
        assert(same_binding(a[a.len() - 1], b[b.len() - 1]));
        assert forall|j: int| 0 <= j < a.drop_last().len() implies same_binding(#[trigger] a.drop_last()[j], b.drop_last()[j]) by {
            assert(same_binding(a[j], b[j]));
        }
        lemma_same_scope_index(a.drop_last(), b.drop_last(), name);
    }
}

/// Shadowing: running a block in a scope of its own, as `if`, `else` and
/// `while` bodies run, leaves the enclosing scopes with the same bindings:
/// a `let` inside the block never changes which variable, of which type
/// and mutability, a name denotes after the block ends.
pub proof fn lemma_block_keeps_bindings(body: Node, c: ContextModel, fs: Seq<Func>, fuel: nat)
    requires
        c.len() > 0,
    ensures
        ({
            let after = eval(body, c.push(Seq::empty()), fs, fuel).1.drop_last();
            &&& same_bindings(c, after)
            &&& forall|name: Seq<char>| #[trigger] ctx_index(after, name) == ctx_index(c, name)
            &&& forall|name: Seq<char>| (#[trigger] ctx_lookup(after, name)) matches Some(v) ==> ctx_lookup(c, name)
                matches Some(w) && v.typ == w.typ && v.mutable == w.mutable
        }),
{
    let cp = c.push(Seq::empty());
    let after = eval(body, cp, fs, fuel).1.drop_last();
    lemma_eval_keeps(body, cp, fs, fuel);
    lemma_keeps_pop(c, eval(body, cp, fs, fuel).1);
    assert forall|name: Seq<char>| #[trigger] ctx_index(after, name) == ctx_index(c, name) by {
        lemma_same_bindings_index(c, after, name);
    }
    assert forall|name: Seq<char>| (#[trigger] ctx_lookup(after, name)) matches Some(v) ==> ctx_lookup(c, name)
        matches Some(w) && v.typ == w.typ && v.mutable == w.mutable by {
        lemma_same_bindings_index(c, after, name);
        lemma_ctx_index(c, name);
        match ctx_index(c, name) {
            Some((i, j)) => {
                assert(same_binding(c[i][j], after[i][j]));
            },
            None => {},
        }
    }
}

/// Parsing, checking and running are functions of their input: the
/// program parser is specified by `program_of` on the text, and
/// `type_check` and `interp` by functions of the program they are given.
/// So equal texts parse to the same trees (or both fail), and equal
/// programs get the same errors, in the same order, and the same result.
pub proof fn lemma_outcome_depends_on_input_alone(s: Seq<char>, t: Seq<char>, p: Seq<Box<Node>>, q: Seq<Box<Node>>)
    requires
        s == t,
        p == q,
    ensures
        program_of(s) == program_of(t),
        program_errors(p) == program_errors(q),
        run_program(p) == run_program(q),
{
}

/// The name a top-level node declares, when it is a function.
pub open spec fn func_name(n: Node) -> Option<Seq<char>> {
    match n {
        Node::Func { name, .. } => Some(name@),
        _ => None,
    }
}

/// A declared name stays declared when further nodes are declared.
proof fn lemma_declare_one_keeps(fs: Seq<Func>, node: Node, name: Seq<char>)
    requires
        funcs_index(fs, name) is Some,
    ensures
        funcs_index(declare_one(fs, node).0, name) is Some,
{
    match node {
        Node::Func { name: n, params, r_type, body } => {
            if funcs_index(fs, n@) is None {
                let f = Func { name: n, params, r_type, body };
                assert(fs.push(f).drop_last() =~= fs);
            }
        },
        _ => {},
    }
}

/// After a function is declared, its name stays declared.
proof fn lemma_declared_name_stays(prog: Seq<Box<Node>>, i: int, n: int)
    requires
        0 <= i < n <= prog.len(),
        func_name(*prog[i]) is Some,
    ensures
        funcs_index(declare(prog.take(n)).0, func_name(*prog[i]).unwrap()) is Some,
    decreases n - i,
{
    let name = func_name(*prog[i]).unwrap();
    assert(prog.take(n).drop_last() =~= prog.take(n - 1));
    let fs = declare(prog.take(n - 1)).0;
    if n == i + 1 {
        match *prog[i] {
            Node::Func { name: nm, params, r_type, body } => {
                if funcs_index(fs, nm@) is None {
                    let f = Func { name: nm, params, r_type, body };
                    assert(fs.push(f).drop_last() =~= fs);
                }
            },
            _ => {},
        }
    } else {
        lemma_declared_name_stays(prog, i, n - 1);
        lemma_declare_one_keeps(fs, *prog[n - 1], name);
    }
}

/// Declaring more nodes only adds errors.
proof fn lemma_declare_errors_grow(prog: Seq<Box<Node>>, m: int, n: int)
    requires
        0 <= m <= n <= prog.len(),
    ensures
        declare(prog.take(n)).1.len() >= declare(prog.take(m)).1.len(),
    decreases n - m,
{
    if m < n {
        assert(prog.take(n).drop_last() =~= prog.take(n - 1));
        lemma_declare_errors_grow(prog, m, n - 1);
    }
}

/// Duplicate names: a program that declares two functions of the same name
/// does not type check.
pub proof fn lemma_duplicate_function_rejected(prog: Seq<Box<Node>>, i: int, j: int)
    requires
        0 <= i < j < prog.len(),
        func_name(*prog[i]) is Some,
        func_name(*prog[i]) == func_name(*prog[j]),
    ensures
        program_errors(prog).len() > 0,
{
    lemma_declared_name_stays(prog, i, j);
    assert(prog.take(j + 1).drop_last() =~= prog.take(j));
    assert(prog.take(j + 1).last() == prog[j]);
    assert(declare(prog.take(j + 1)).1.len() > 0);
    lemma_declare_errors_grow(prog, j + 1, prog.len() as int);
    assert(prog.take(prog.len() as int) =~= prog);
}

/// `c` after inserting each binding of `ins`, in order, into its innermost scope.
pub open spec fn insert_all(c: ContextModel, ins: Seq<(Seq<char>, Variable)>) -> ContextModel
    decreases ins.len(),
{
    if ins.len() == 0 {
        c
    } else {
        ctx_insert(insert_all(c, ins.drop_last()), ins.last().0, ins.last().1)
    }
}

/// Shadowing in the scope stack: whatever bindings are made in a block's own
/// scope, shadowing names of the enclosing scopes or not, popping that scope
/// gives back the enclosing scopes exactly as they were, values included.
pub proof fn lemma_block_bindings_vanish(c: ContextModel, ins: Seq<(Seq<char>, Variable)>)
    ensures
        insert_all(c.push(Seq::empty()), ins).len() == c.len() + 1,
        insert_all(c.push(Seq::empty()), ins).drop_last() == c,
    decreases ins.len(),
{
    if ins.len() == 0 {
        assert(c.push(Seq::empty()).drop_last() =~= c);
    } else {
        lemma_block_bindings_vanish(c, ins.drop_last());
        let prev = insert_all(c.push(Seq::empty()), ins.drop_last());
        assert(insert_all(c.push(Seq::empty()), ins).drop_last() =~= prev.drop_last());
    }
}

} // verus!
