use vstd::prelude::*;

use crate::ast::Node;
use crate::context::{ctx_insert, ctx_lookup, Context, ContextModel};
use crate::function::{find_func, funcs_index, lemma_funcs_index, param_types, ret_type, Func, Funcs};
use crate::operators::Opcode;
use crate::scope::{param_types_scope, Scope, ScopeModel};
use crate::type_errors::{ErrorKind, TypeErrors};
use crate::types::LiteralType;
use crate::value::Value;
use crate::variable::Variable;

verus! {

/// What checking a node gives: `Ok(t)` when it is well typed with type `t`;
/// `Err(Some(t))` when it held an error but its users may assume type `t`;
/// `Err(None)` when there is nothing to assume.
pub type TcResult = Result<LiteralType, Option<LiteralType>>;

/// The type a result lets the node's users assume.
pub open spec fn known_type(r: TcResult) -> Option<LiteralType> {
    match r {
        Ok(t) => Some(t),
        Err(o) => o,
    }
}

/// Whether a statement chain ends in a `return`: a `Return` returns; any
/// other statement returns when the statement after it does.
pub open spec fn body_returns(n: Node) -> bool
    decreases n,
{
    match n {
        Node::Return { .. } => true,
        Node::VarValue { next, .. } | Node::Let { next, .. } | Node::Print { next, .. }
        | Node::If { next, .. } | Node::IfElse { next, .. } | Node::While { next, .. }
        | Node::FuncCall { next, .. } => match next {
            Some(nx) => body_returns(*nx),
            None => false,
        },
        _ => false,
    }
}

/// `+ - * /` on operands of the given types.
pub open spec fn num_expr_spec(l: LiteralType, op: Opcode, r: LiteralType) -> (TcResult, Seq<ErrorKind>) {
    if l == LiteralType::I32 && r == LiteralType::I32 {
        (Ok(LiteralType::I32), Seq::empty())
    } else {
        (Err(Some(LiteralType::I32)), seq![ErrorKind::OpWrongType { op, typ: LiteralType::Bool }])
    }
}

/// `&& ||` on operands of the given types.
pub open spec fn log_op_spec(l: LiteralType, op: Opcode, r: LiteralType) -> (TcResult, Seq<ErrorKind>) {
    if l == LiteralType::Bool && r == LiteralType::Bool {
        (Ok(LiteralType::Bool), Seq::empty())
    } else {
        (Err(Some(LiteralType::Bool)), seq![ErrorKind::OpWrongType { op, typ: LiteralType::I32 }])
    }
}

/// `== != < > <= >=` on operands of the given types.
pub open spec fn rel_op_spec(l: LiteralType, op: Opcode, r: LiteralType) -> (TcResult, Seq<ErrorKind>) {
    if op.is_equality() {
        if (l == LiteralType::Bool && r == LiteralType::Bool) || (l == LiteralType::I32 && r == LiteralType::I32) {
            (Ok(LiteralType::Bool), Seq::empty())
        } else {
            (Err(Some(LiteralType::Bool)), seq![ErrorKind::MismatchedTypesOp { op, expected: l, found: r }])
        }
    } else if l == LiteralType::I32 && r == LiteralType::I32 {
        (Ok(LiteralType::Bool), Seq::empty())
    } else {
        (Err(Some(LiteralType::Bool)), seq![ErrorKind::OpWrongType { op, typ: LiteralType::Bool }])
    }
}

/// A binary expression whose operands gave `l` and `r`. An operator is only
/// checked when both operands are well typed.
pub open spec fn expr_spec(l: TcResult, op: Opcode, r: TcResult) -> (TcResult, Seq<ErrorKind>) {
    match (l, r) {
        (Ok(lt), Ok(rt)) => if op.is_arith() {
            num_expr_spec(lt, op, rt)
        } else if op.is_logical() {
            log_op_spec(lt, op, rt)
        } else {
            rel_op_spec(lt, op, rt)
        },
        _ => if op.is_arith() {
            (Err(Some(LiteralType::I32)), Seq::empty())
        } else {
            (Err(Some(LiteralType::Bool)), Seq::empty())
        },
    }
}

/// Negation of an operand that gave `r`.
pub open spec fn unary_spec(r: TcResult) -> (TcResult, Seq<ErrorKind>) {
    match known_type(r) {
        Some(t) => if t == LiteralType::I32 {
            (Ok(LiteralType::I32), Seq::empty())
        } else {
            (Err(Some(LiteralType::I32)), seq![ErrorKind::UnaryOpWrongType { typ: t }])
        },
        None => (Err(Some(LiteralType::I32)), Seq::empty()),
    }
}

/// The errors for a condition that gave `r`.
pub open spec fn cond_spec(n: Node, r: TcResult) -> Seq<ErrorKind> {
    if n.is_statement_form() {
        seq![ErrorKind::NotSupported]
    } else {
        match known_type(r) {
            Some(t) => if t != LiteralType::Bool {
                seq![ErrorKind::Cond { found: t }]
            } else {
                Seq::empty()
            },
            None => Seq::empty(),
        }
    }
}

/// A `return` whose expression gave `r`, inside the function `cur`.
pub open spec fn return_spec(r: TcResult, cur: Func) -> (TcResult, Seq<ErrorKind>) {
    let rt = ret_type(cur.r_type);
    match known_type(r) {
        Some(t) => if t != rt {
            (Err(Some(rt)), seq![ErrorKind::FnReturnMismatch { name: cur.name, expected: rt, found: t }])
        } else {
            (Ok(rt), Seq::empty())
        },
        None => (Ok(rt), Seq::empty()),
    }
}

/// A declaration `let name: typ = ..` whose initializer gave `r`.
pub open spec fn let_spec(name: String, typ: LiteralType, r: TcResult) -> (TcResult, Seq<ErrorKind>) {
    match known_type(r) {
        Some(t) => if t != typ {
            (Err(Some(typ)), seq![ErrorKind::MismatchedTypesVar { var: name, expected: typ, found: t }])
        } else {
            (Ok(typ), Seq::empty())
        },
        None => (Err(None), Seq::empty()),
    }
}

/// An assignment to `name`, bound to `var`, of a value that gave `r`. A value
/// of the wrong type is reported as such; otherwise an immutable target is
/// reported.
pub open spec fn assign_spec(name: String, var: Variable, r: TcResult) -> (TcResult, Seq<ErrorKind>) {
    let immut: Seq<ErrorKind> = if var.mutable {
        Seq::empty()
    } else {
        seq![ErrorKind::VarImmut { var: name }]
    };
    match known_type(r) {
        Some(t) => if t != var.typ {
            (Err(Some(var.typ)), seq![ErrorKind::MismatchedTypesVar { var: name, expected: var.typ, found: t }])
        } else {
            (Ok(var.typ), immut)
        },
        None => (Err(Some(var.typ)), immut),
    }
}

/// The errors for arguments that gave `ars`, passed to parameters `ps` of
/// the function `name`, when there are as many of each.
pub open spec fn arg_errors(name: String, ps: Seq<(String, LiteralType)>, ars: Seq<TcResult>) -> Seq<ErrorKind>
    decreases ars.len(),
{
    if ars.len() == 0 || ps.len() == 0 {
        Seq::empty()
    } else {
        let rest = arg_errors(name, ps.drop_last(), ars.drop_last());
        match ars.last() {
            Ok(t) => if t != ps.last().1 {
                rest.push(ErrorKind::FnParamTypeMismatch { name, param: ps.last().0, expected: ps.last().1, found: t })
            } else {
                rest
            },
            Err(_) => rest,
        }
    }
}

/// A call of the function `f` under the name `name` with arguments that gave `ars`.
pub open spec fn call_spec(name: String, f: Func, ars: Seq<TcResult>) -> Seq<ErrorKind> {
    let ps = param_types(f.params@);
    if ps.len() != ars.len() {
        seq![ErrorKind::FnNumParamMismatch { name, takes: ps.len() as usize, supplied: ars.len() as usize }]
    } else {
        arg_errors(name, ps, ars)
    }
}

/// Continues a statement that gave `(r, es, c)` with the statement after it.
pub open spec fn then_next(
    r: TcResult,
    es: Seq<ErrorKind>,
    c: ContextModel,
    next: Option<Box<Node>>,
    fs: Seq<Func>,
    cur: Func,
) -> (TcResult, Seq<ErrorKind>, ContextModel)
    decreases next, 0nat,
{
    match next {
        Some(n) => {
            let (r2, es2, c2) = tc(*n, c, fs, cur);
            (r2, es + es2, c2)
        },
        None => (r, es, c),
    }
}

/// Checks a node in the scopes `c`, among the functions `fs`, inside the
/// function `cur`: its result, the errors found in order, and the scopes after.
pub open spec fn tc(node: Node, c: ContextModel, fs: Seq<Func>, cur: Func) -> (TcResult, Seq<ErrorKind>, ContextModel)
    decreases node, 1nat,
{
    match node {
        Node::Number(_) => (Ok(LiteralType::I32), Seq::empty(), c),
        Node::Bool(_) => (Ok(LiteralType::Bool), Seq::empty(), c),
        Node::Str(_) => (Ok(LiteralType::Str), Seq::empty(), c),
        Node::UnaryOp(_, e) => {
            let (r, es, c1) = tc(*e, c, fs, cur);
            let (r2, es2) = unary_spec(r);
            (r2, es + es2, c1)
        },
        Node::Var(name) => match ctx_lookup(c, name@) {
            Some(v) => (Ok(v.typ), Seq::empty(), c),
            None => (Err(None), seq![ErrorKind::VarNotInScope { var: name }], c),
        },
        Node::Expr(l, op, r) => {
            let (rl, el, c1) = tc(*l, c, fs, cur);
            let (rr, er, c2) = tc(*r, c1, fs, cur);
            let (res, e3) = expr_spec(rl, op, rr);
            (res, el + er + e3, c2)
        },
        Node::Let { var, expr, next } => {
            let (rv, ev, c1) = tc(*expr, c, fs, cur);
            match *var {
                Node::VarBinding(v, typ, mutable) => match *v {
                    Node::Var(name) => {
                        let c2 = ctx_insert(c1, name@, Variable { value: Value::Unit, mutable, typ });
                        let (r, e) = let_spec(name, typ, rv);
                        then_next(r, ev + e, c2, next, fs, cur)
                    },
                    _ => then_next(Err(None), ev, c1, next, fs, cur),
                },
                _ => then_next(Err(None), ev, c1, next, fs, cur),
            }
        },
        Node::VarValue { var, expr, next } => {
            let (rv, ev, c1) = tc(*expr, c, fs, cur);
            match *var {
                Node::Var(name) => match ctx_lookup(c1, name@) {
                    Some(v) => {
                        let (r, e) = assign_spec(name, v, rv);
                        then_next(r, ev + e, c1, next, fs, cur)
                    },
                    None => then_next(Err(None), ev.push(ErrorKind::VarNotInScope { var: name }), c1, next, fs, cur),
                },
                _ => then_next(Err(None), ev, c1, next, fs, cur),
            }
        },
        Node::FuncCall { name, args, next } => match funcs_index(fs, name@) {
            None => then_next(Err(None), seq![ErrorKind::FnNotInScope { name }], c, next, fs, cur),
            Some(k) => {
                let (ars, ea, c1) = tc_args(args@, c, fs, cur);
                let e = call_spec(name, fs[k], ars);
                then_next(Ok(ret_type(fs[k].r_type)), ea + e, c1, next, fs, cur)
            },
        },
        Node::Return { expr, next } => {
            let (rv, ev, c1) = tc(*expr, c, fs, cur);
            let (r, e) = return_spec(rv, cur);
            then_next(r, ev + e, c1, next, fs, cur)
        },
        Node::Print { expr, next } => {
            let (_, ev, c1) = tc(*expr, c, fs, cur);
            then_next(Err(None), ev, c1, next, fs, cur)
        },
        Node::If { cond, statement, next } => {
            let (_, eb, c1) = tc(*statement, c.push(Seq::empty()), fs, cur);
            let (rc, ec, c2) = tc(*cond, c1.drop_last(), fs, cur);
            then_next(Err(None), eb + ec + cond_spec(*cond, rc), c2, next, fs, cur)
        },
        Node::While { cond, statement, next } => {
            let (_, eb, c1) = tc(*statement, c.push(Seq::empty()), fs, cur);
            let (rc, ec, c2) = tc(*cond, c1.drop_last(), fs, cur);
            then_next(Err(None), eb + ec + cond_spec(*cond, rc), c2, next, fs, cur)
        },
        Node::IfElse { cond, if_statement, else_statement, next } => {
            let (_, eb, c1) = tc(*if_statement, c.push(Seq::empty()), fs, cur);
            let (_, ee, c2) = tc(*else_statement, c1.drop_last().push(Seq::empty()), fs, cur);
            let (rc, ec, c3) = tc(*cond, c2.drop_last(), fs, cur);
            then_next(Err(None), eb + ee + ec + cond_spec(*cond, rc), c3, next, fs, cur)
        },
        _ => (Err(None), seq![ErrorKind::NotSupported], c),
    }
}

/// Checks the arguments of a call from left to right.
pub open spec fn tc_args(args: Seq<Box<Node>>, c: ContextModel, fs: Seq<Func>, cur: Func) -> (Seq<TcResult>, Seq<ErrorKind>, ContextModel)
    decreases args, 0nat,
{
    if args.len() == 0 {
        (Seq::empty(), Seq::empty(), c)
    } else {
        let (rs, es, c1) = tc_args(args.drop_last(), c, fs, cur);
        let (r, e, c2) = tc(*args.last(), c1, fs, cur);
        (rs.push(r), es + e, c2)
    }
}


/// Whether the statement chain starting at `body` ends in a `return`.
fn does_return(body: &Node) -> (r: bool)
    ensures
        r == body_returns(*body),
    decreases body,
{
    match body {
        Node::Return { .. } => true,
        Node::VarValue { next, .. } | Node::Let { next, .. } | Node::Print { next, .. }
        | Node::If { next, .. } | Node::IfElse { next, .. } | Node::While { next, .. }
        | Node::FuncCall { next, .. } => match next {
            Some(nx) => does_return(nx),
            None => false,
        },
        _ => false,
    }
}

fn num_expr(left: LiteralType, op: Opcode, right: LiteralType, err: &mut TypeErrors) -> (r: TcResult)
    ensures
        r == num_expr_spec(left, op, right).0,
        final(err).errors@ == old(err).errors@ + num_expr_spec(left, op, right).1,
{
    if left == LiteralType::I32 && right == LiteralType::I32 {
        assert(err.errors@ =~= old(err).errors@ + Seq::<ErrorKind>::empty());
        return Ok(LiteralType::I32);
    }
    err.insert_err(ErrorKind::OpWrongType { op, typ: LiteralType::Bool });
    assert(err.errors@ =~= old(err).errors@ + num_expr_spec(left, op, right).1);
    Err(Some(LiteralType::I32))
}

fn log_op(left: LiteralType, op: Opcode, right: LiteralType, err: &mut TypeErrors) -> (r: TcResult)
    ensures
        r == log_op_spec(left, op, right).0,
        final(err).errors@ == old(err).errors@ + log_op_spec(left, op, right).1,
{
    if left == LiteralType::Bool && right == LiteralType::Bool {
        assert(err.errors@ =~= old(err).errors@ + Seq::<ErrorKind>::empty());
        return Ok(LiteralType::Bool);
    }
    err.insert_err(ErrorKind::OpWrongType { op, typ: LiteralType::I32 });
    assert(err.errors@ =~= old(err).errors@ + log_op_spec(left, op, right).1);
    Err(Some(LiteralType::Bool))
}

fn rel_op(left: LiteralType, op: Opcode, right: LiteralType, err: &mut TypeErrors) -> (r: TcResult)
    ensures
        r == rel_op_spec(left, op, right).0,
        final(err).errors@ == old(err).errors@ + rel_op_spec(left, op, right).1,
{
    let same = (left == LiteralType::Bool && right == LiteralType::Bool) || (left == LiteralType::I32
        && right == LiteralType::I32);
    let numbers = left == LiteralType::I32 && right == LiteralType::I32;
    match op {
        Opcode::EQ | Opcode::NEQ => {
            if same {
                assert(err.errors@ =~= old(err).errors@ + Seq::<ErrorKind>::empty());
                return Ok(LiteralType::Bool);
            }
            err.insert_err(ErrorKind::MismatchedTypesOp { op, expected: left, found: right });
        },
        _ => {
            if numbers {
                assert(err.errors@ =~= old(err).errors@ + Seq::<ErrorKind>::empty());
                return Ok(LiteralType::Bool);
            }
            err.insert_err(ErrorKind::OpWrongType { op, typ: LiteralType::Bool });
        },
    }
    assert(err.errors@ =~= old(err).errors@ + rel_op_spec(left, op, right).1);
    Err(Some(LiteralType::Bool))
}

/// A binary expression whose operands gave `left` and `right`.
fn expr(left: TcResult, op: Opcode, right: TcResult, err: &mut TypeErrors) -> (r: TcResult)
    ensures
        r == expr_spec(left, op, right).0,
        final(err).errors@ == old(err).errors@ + expr_spec(left, op, right).1,
{
    let arith = match op {
        Opcode::Add | Opcode::Sub | Opcode::Div | Opcode::Mul => true,
        _ => false,
    };
    let logical = match op {
        Opcode::AND | Opcode::OR => true,
        _ => false,
    };
    match (left, right) {
        (Ok(l), Ok(r)) => {
            if arith {
                num_expr(l, op, r, err)
            } else if logical {
                log_op(l, op, r, err)
            } else {
                rel_op(l, op, r, err)
            }
        },
        _ => {
            assert(err.errors@ =~= old(err).errors@ + Seq::<ErrorKind>::empty());
            if arith {
                Err(Some(LiteralType::I32))
            } else {
                Err(Some(LiteralType::Bool))
            }
        },
    }
}

fn get_type(r: TcResult) -> (t: Option<LiteralType>)
    ensures
        t == known_type(r),
{
    match r {
        Ok(t) => Some(t),
        Err(o) => o,
    }
}

fn unary_op(res: TcResult, err: &mut TypeErrors) -> (r: TcResult)
    ensures
        r == unary_spec(res).0,
        final(err).errors@ == old(err).errors@ + unary_spec(res).1,
{
    match get_type(res) {
        Some(t) => {
            if t == LiteralType::I32 {
                assert(err.errors@ =~= old(err).errors@ + Seq::<ErrorKind>::empty());
                return Ok(LiteralType::I32);
            }
            err.insert_err(ErrorKind::UnaryOpWrongType { typ: t });
            assert(err.errors@ =~= old(err).errors@ + unary_spec(res).1);
        },
        None => {
            assert(err.errors@ =~= old(err).errors@ + Seq::<ErrorKind>::empty());
        },
    }
    Err(Some(LiteralType::I32))
}

fn check_cond(node: &Node, cond: TcResult, err: &mut TypeErrors)
    ensures
        final(err).errors@ == old(err).errors@ + cond_spec(*node, cond),
{
    if node.is_statement_node() {
        err.insert_err(ErrorKind::NotSupported);
        assert(err.errors@ =~= old(err).errors@ + cond_spec(*node, cond));
        return ;
    }
    match get_type(cond) {
        Some(t) => {
            if t != LiteralType::Bool {
                err.insert_err(ErrorKind::Cond { found: t });
                assert(err.errors@ =~= old(err).errors@ + cond_spec(*node, cond));
                return ;
            }
        },
        None => {},
    }
    assert(err.errors@ =~= old(err).errors@ + cond_spec(*node, cond));
}

fn check_return(val: TcResult, cur: &Func, err: &mut TypeErrors) -> (r: TcResult)
    ensures
        r == return_spec(val, *cur).0,
        final(err).errors@ == old(err).errors@ + return_spec(val, *cur).1,
{
    let fn_r_type = cur.get_r_type();
    match get_type(val) {
        Some(t) => {
            if t != fn_r_type {
                err.insert_err(ErrorKind::FnReturnMismatch { name: cur.name.clone(), expected: fn_r_type, found: t });
                assert(err.errors@ =~= old(err).errors@ + return_spec(val, *cur).1);
                return Err(Some(fn_r_type));
            }
        },
        None => {},
    }
    assert(err.errors@ =~= old(err).errors@ + return_spec(val, *cur).1);
    Ok(fn_r_type)
}

fn var_dec(name: &String, typ: LiteralType, val: TcResult, err: &mut TypeErrors) -> (r: TcResult)
    ensures
        r == let_spec(*name, typ, val).0,
        final(err).errors@ == old(err).errors@ + let_spec(*name, typ, val).1,
{
    match get_type(val) {
        Some(t) => {
            if t != typ {
                err.insert_err(ErrorKind::MismatchedTypesVar { var: name.clone(), expected: typ, found: t });
                assert(err.errors@ =~= old(err).errors@ + let_spec(*name, typ, val).1);
                return Err(Some(typ));
            }
            assert(err.errors@ =~= old(err).errors@ + let_spec(*name, typ, val).1);
            Ok(typ)
        },
        None => {
            assert(err.errors@ =~= old(err).errors@ + let_spec(*name, typ, val).1);
            Err(None)
        },
    }
}

fn var_update(name: &String, var_type: LiteralType, var_mut: bool, val: TcResult, err: &mut TypeErrors) -> (r: TcResult)
    ensures
        forall|v: Variable| v.typ == var_type && v.mutable == var_mut ==> r == #[trigger] assign_spec(*name, v, val).0
            && final(err).errors@ == old(err).errors@ + assign_spec(*name, v, val).1,
{
    let ghost v0 = Variable { value: Value::Unit, mutable: var_mut, typ: var_type };
    let r = match get_type(val) {
        Some(t) => {
            if t != var_type {
                err.insert_err(ErrorKind::MismatchedTypesVar { var: name.clone(), expected: var_type, found: t });
                Err(Some(var_type))
            } else {
                if !var_mut {
                    err.insert_err(ErrorKind::VarImmut { var: name.clone() });
                }
                Ok(var_type)
            }
        },
        None => {
            if !var_mut {
                err.insert_err(ErrorKind::VarImmut { var: name.clone() });
            }
            Err(Some(var_type))
        },
    };
    assert(err.errors@ =~= old(err).errors@ + assign_spec(*name, v0, val).1);
    r
}

/// A use of a variable, which must be in scope.
fn var(name: &String, context: &Context, err: &mut TypeErrors) -> (r: TcResult)
    ensures
        r == (match ctx_lookup(context@, name@) {
            Some(v) => Ok::<LiteralType, Option<LiteralType>>(v.typ),
            None => Err(None),
        }),
        final(err).errors@ == old(err).errors@ + (match ctx_lookup(context@, name@) {
            Some(v) => Seq::<ErrorKind>::empty(),
            None => seq![ErrorKind::VarNotInScope { var: *name }],
        }),
{
    match context.get_var(name.as_str()) {
        Some(v) => {
            assert(err.errors@ =~= old(err).errors@ + Seq::<ErrorKind>::empty());
            Ok(v.get_type())
        },
        None => {
            err.insert_err(ErrorKind::VarNotInScope { var: name.clone() });
            assert(err.errors@ =~= old(err).errors@ + seq![ErrorKind::VarNotInScope { var: *name }]);
            Err(None)
        },
    }
}


/// Checks the arity and the argument types of a call of `f`.
fn func_call(name: &String, f: &Func, arg_types: &Vec<TcResult>, err: &mut TypeErrors)
    ensures
        final(err).errors@ == old(err).errors@ + call_spec(*name, *f, arg_types@),
{
    let params = f.get_param_types();
    if params.len() != arg_types.len() {
        err.insert_err(
            ErrorKind::FnNumParamMismatch { name: name.clone(), takes: params.len(), supplied: arg_types.len() },
        );
        assert(err.errors@ =~= old(err).errors@ + call_spec(*name, *f, arg_types@));
        return ;
    }
    let mut i: usize = 0;
    assert(err.errors@ =~= old(err).errors@ + arg_errors(*name, params@.take(0), arg_types@.take(0)));
    while i < params.len()
        invariant
            i <= params.len(),
            params.len() == arg_types.len(),
            params@ == param_types(f.params@),
            err.errors@ == old(err).errors@ + arg_errors(*name, params@.take(i as int), arg_types@.take(i as int)),
        decreases params.len() - i,
    {
        assert(params@.take(i + 1).drop_last() =~= params@.take(i as int));
        assert(arg_types@.take(i + 1).drop_last() =~= arg_types@.take(i as int));
        let ghost before = err.errors@;
        match &arg_types[i] {
            Ok(at) => {
                if params[i].1 != *at {
                    err.insert_err(
                        ErrorKind::FnParamTypeMismatch {
                            name: name.clone(),
                            param: params[i].0.clone(),
                            expected: params[i].1,
                            found: *at,
                        },
                    );
                }
            },
            Err(_) => {},
        }
        i += 1;
        assert(err.errors@ =~= old(err).errors@ + arg_errors(*name, params@.take(i as int), arg_types@.take(i as int)));
    }
    assert(params@.take(i as int) =~= params@);
    assert(arg_types@.take(i as int) =~= arg_types@);
}

/// Continuing with the statement after: the errors found so far come first.
pub proof fn lemma_then_next(r: TcResult, c: ContextModel, next: Option<Box<Node>>, fs: Seq<Func>, cur: Func)
    ensures
        forall|es: Seq<ErrorKind>|
            #![trigger then_next(r, es, c, next, fs, cur)]
            then_next(r, es, c, next, fs, cur).0 == then_next(r, Seq::empty(), c, next, fs, cur).0
                && then_next(r, es, c, next, fs, cur).1 == es + then_next(r, Seq::empty(), c, next, fs, cur).1
                && then_next(r, es, c, next, fs, cur).2 == then_next(r, Seq::empty(), c, next, fs, cur).2,
{
    assert forall|es: Seq<ErrorKind>|
        #![trigger then_next(r, es, c, next, fs, cur)]
        then_next(r, es, c, next, fs, cur).1 == es + then_next(r, Seq::empty(), c, next, fs, cur).1 by {
        match next {
            Some(n) => {
                assert(Seq::<ErrorKind>::empty() + tc(*n, c, fs, cur).1 =~= tc(*n, c, fs, cur).1);
            },
            None => {
                assert(es =~= es + Seq::<ErrorKind>::empty());
            },
        }
    }
}

spec fn let_stmt_errors(var: Node, ev: Seq<ErrorKind>, rv: TcResult) -> Seq<ErrorKind> {
    match var {
        Node::VarBinding(v, typ, _) => match *v {
            Node::Var(name) => ev + let_spec(name, typ, rv).1,
            _ => ev,
        },
        _ => ev,
    }
}

spec fn assign_stmt_errors(var: Node, ev: Seq<ErrorKind>, rv: TcResult, c: ContextModel) -> Seq<ErrorKind> {
    match var {
        Node::Var(name) => match ctx_lookup(c, name@) {
            Some(v) => ev + assign_spec(name, v, rv).1,
            None => ev.push(ErrorKind::VarNotInScope { var: name }),
        },
        _ => ev,
    }
}

/// Checks the statement after one that gave `ret`.
fn visit_next(
    next: &Option<Box<Node>>,
    ret: TcResult,
    context: &mut Context,
    funcs: &Funcs,
    cur: &Func,
    err: &mut TypeErrors,
) -> (r: TcResult)
    requires
        old(context)@.len() > 0,
    ensures
        r == then_next(ret, Seq::empty(), old(context)@, *next, funcs@, *cur).0,
        final(err).errors@ == old(err).errors@ + then_next(ret, Seq::empty(), old(context)@, *next, funcs@, *cur).1,
        final(context)@ == then_next(ret, Seq::empty(), old(context)@, *next, funcs@, *cur).2,
        final(context)@.len() == old(context)@.len(),
    decreases next, 0nat,
{
    match next {
        Some(n) => {
            let r = visit(n, context, funcs, cur, err);
            assert(Seq::<ErrorKind>::empty() + tc(**n, old(context)@, funcs@, *cur).1 =~= tc(**n, old(context)@, funcs@, *cur).1);
            r
        },
        None => {
            assert(err.errors@ =~= old(err).errors@ + Seq::<ErrorKind>::empty());
            ret
        },
    }
}

/// Checks `node` inside the function `cur`, appending what it finds to `err`.
fn visit(node: &Node, context: &mut Context, funcs: &Funcs, cur: &Func, err: &mut TypeErrors) -> (r: TcResult)
    requires
        old(context)@.len() > 0,
    ensures
        r == tc(*node, old(context)@, funcs@, *cur).0,
        final(err).errors@ == old(err).errors@ + tc(*node, old(context)@, funcs@, *cur).1,
        final(context)@ == tc(*node, old(context)@, funcs@, *cur).2,
        final(context)@.len() == old(context)@.len(),
    decreases node, 2nat,
{
    let ghost c0 = context@;
    let ghost e0 = err.errors@;
    let ghost fs = funcs@;
    match node {
        Node::Number(_) => {
            assert(err.errors@ =~= e0 + Seq::<ErrorKind>::empty());
            Ok(LiteralType::I32)
        },
        Node::Bool(_) => {
            assert(err.errors@ =~= e0 + Seq::<ErrorKind>::empty());
            Ok(LiteralType::Bool)
        },
        Node::Str(_) => {
            assert(err.errors@ =~= e0 + Seq::<ErrorKind>::empty());
            Ok(LiteralType::Str)
        },
        Node::UnaryOp(_, e) => {
            let r = visit(e, context, funcs, cur, err);
            let res = unary_op(r, err);
            assert(err.errors@ =~= e0 + tc(*node, c0, fs, *cur).1);
            res
        },
        Node::Var(name) => var(name, context, err),
        Node::Expr(left, op, right) => {
            let l = visit(left, context, funcs, cur, err);
            let r = visit(right, context, funcs, cur, err);
            let res = expr(l, *op, r, err);
            assert(err.errors@ =~= e0 + tc(*node, c0, fs, *cur).1);
            res
        },
        Node::Let { .. } => visit_let(node, context, funcs, cur, err),
        Node::VarValue { .. } => visit_assign(node, context, funcs, cur, err),
        Node::FuncCall { .. } => visit_call(node, context, funcs, cur, err),
        Node::Return { .. } | Node::Print { .. } => visit_return_print(node, context, funcs, cur, err),
        Node::If { .. } | Node::While { .. } => visit_branch(node, context, funcs, cur, err),
        Node::IfElse { .. } => visit_if_else(node, context, funcs, cur, err),
        _ => {
            err.insert_err(ErrorKind::NotSupported);
            assert(err.errors@ =~= e0 + seq![ErrorKind::NotSupported]);
            Err(None)
        },
    }
}

/// A declaration: the variable is bound before its initializer's type is compared.
fn visit_let(node: &Node, context: &mut Context, funcs: &Funcs, cur: &Func, err: &mut TypeErrors) -> (r: TcResult)
    requires
        old(context)@.len() > 0,
        node is Let,
    ensures
        r == tc(*node, old(context)@, funcs@, *cur).0,
        final(err).errors@ == old(err).errors@ + tc(*node, old(context)@, funcs@, *cur).1,
        final(context)@ == tc(*node, old(context)@, funcs@, *cur).2,
        final(context)@.len() == old(context)@.len(),
    decreases node, 1nat,
{
    let ghost c0 = context@;
    let ghost e0 = err.errors@;
    let ghost fs = funcs@;
    match node {
        Node::Let { var, expr, next } => {
            let rv = visit(expr, context, funcs, cur, err);
            let ret = match &**var {
                Node::VarBinding(v, typ, mutable) => match &**v {
                    Node::Var(name) => {
                        context.insert_var(name.clone(), *mutable, *typ, Value::Unit);
                        var_dec(name, *typ, rv, err)
                    },
                    _ => Err(None),
                },
                _ => Err(None),
            };
            let ghost e2 = err.errors@;
            let ghost c2 = context@;
            let ghost ev = tc(**expr, c0, fs, *cur).1;
            let ghost es = let_stmt_errors(**var, ev, rv);
            assert(e2 =~= e0 + es);
            let r = visit_next(next, ret, context, funcs, cur, err);
            proof {
                lemma_then_next(ret, c2, *next, fs, *cur);
                assert(tc(*node, c0, fs, *cur) == then_next(ret, es, c2, *next, fs, *cur));
                assert(err.errors@ =~= e0 + tc(*node, c0, fs, *cur).1);
            }
            r
        },
        _ => Err(None),
    }
}

/// An assignment.
fn visit_assign(node: &Node, context: &mut Context, funcs: &Funcs, cur: &Func, err: &mut TypeErrors) -> (r: TcResult)
    requires
        old(context)@.len() > 0,
        node is VarValue,
    ensures
        r == tc(*node, old(context)@, funcs@, *cur).0,
        final(err).errors@ == old(err).errors@ + tc(*node, old(context)@, funcs@, *cur).1,
        final(context)@ == tc(*node, old(context)@, funcs@, *cur).2,
        final(context)@.len() == old(context)@.len(),
    decreases node, 1nat,
{
    let ghost c0 = context@;
    let ghost e0 = err.errors@;
    let ghost fs = funcs@;
    match node {
        Node::VarValue { var, expr, next } => {
            let rv = visit(expr, context, funcs, cur, err);
            let ret = match &**var {
                Node::Var(name) => match context.get_var(name.as_str()) {
                    Some(v) => {
                        let t = v.get_type();
                        let m = v.is_mut();
                        var_update(name, t, m, rv, err)
                    },
                    None => {
                        err.insert_err(ErrorKind::VarNotInScope { var: name.clone() });
                        Err(None)
                    },
                },
                _ => Err(None),
            };
            let ghost e2 = err.errors@;
            let ghost c2 = context@;
            let ghost ev = tc(**expr, c0, fs, *cur).1;
            let ghost es = assign_stmt_errors(**var, ev, rv, c2);
            assert(e2 =~= e0 + es);
            let r = visit_next(next, ret, context, funcs, cur, err);
            proof {
                lemma_then_next(ret, c2, *next, fs, *cur);
                assert(tc(*node, c0, fs, *cur) == then_next(ret, es, c2, *next, fs, *cur));
                assert(err.errors@ =~= e0 + tc(*node, c0, fs, *cur).1);
            }
            r
        },
        _ => Err(None),
    }
}

/// A call: the function must be declared; its arguments are checked left to right.
fn visit_call(node: &Node, context: &mut Context, funcs: &Funcs, cur: &Func, err: &mut TypeErrors) -> (r: TcResult)
    requires
        old(context)@.len() > 0,
        node is FuncCall,
    ensures
        r == tc(*node, old(context)@, funcs@, *cur).0,
        final(err).errors@ == old(err).errors@ + tc(*node, old(context)@, funcs@, *cur).1,
        final(context)@ == tc(*node, old(context)@, funcs@, *cur).2,
        final(context)@.len() == old(context)@.len(),
    decreases node, 1nat,
{
    let ghost c0 = context@;
    let ghost e0 = err.errors@;
    let ghost fs = funcs@;
    match node {
        Node::FuncCall { name, args, next } => {
            proof {
                lemma_funcs_index(fs, name@);
            }
            let ghost ta = tc_args(args@, c0, fs, *cur);
            let ghost es = match funcs_index(fs, name@) {
                None => seq![ErrorKind::FnNotInScope { name: *name }],
                Some(k) => ta.1 + call_spec(*name, fs[k], ta.0),
            };
            let ghost rt = match funcs_index(fs, name@) {
                None => Err(None),
                Some(k) => Ok(ret_type(fs[k].r_type)),
            };
            let ret = match find_func(funcs, name) {
                None => {
                    err.insert_err(ErrorKind::FnNotInScope { name: name.clone() });
                    Err(None)
                },
                Some(k) => {
                    let f = &funcs[k];
                    let mut arg_types: Vec<TcResult> = Vec::new();
                    let mut i: usize = 0;
                    assert(args@.take(0) =~= Seq::<Box<Node>>::empty());
                    assert(err.errors@ =~= e0 + Seq::<ErrorKind>::empty());
                    while i < args.len()
                        invariant
                            i <= args.len(),
                            context@.len() == c0.len(),
                            c0.len() > 0,
                            funcs@ == fs,
                            arg_types@ == tc_args(args@.take(i as int), c0, fs, *cur).0,
                            err.errors@ == e0 + tc_args(args@.take(i as int), c0, fs, *cur).1,
                            context@ == tc_args(args@.take(i as int), c0, fs, *cur).2,
                            *node == (Node::FuncCall { name: *name, args: *args, next: *next }),
                        decreases args.len() - i,
                    {
                        assert(args@.take(i + 1).drop_last() =~= args@.take(i as int));
                        proof {
                            broadcast use vstd::std_specs::vec::axiom_vec_decreases_to_view;
                            broadcast use vstd::seq::axiom_seq_index_decreases;
                            assert(*node == Node::FuncCall { name: *name, args: *args, next: *next });
                            assert(decreases_to!(*node => node->args));
                            assert(decreases_to!(node->args => node->args@));
                            assert(decreases_to!(node->args@ => node->args@[i as int]));
                        }
                        let r = visit(&args[i], context, funcs, cur, err);
                        arg_types.push(r);
                        i += 1;
                        assert(err.errors@ =~= e0 + tc_args(args@.take(i as int), c0, fs, *cur).1);
                    }
                    assert(args@.take(i as int) =~= args@);
                    func_call(name, f, &arg_types, err);
                    assert(err.errors@ =~= e0 + (tc_args(args@, c0, fs, *cur).1 + call_spec(*name, *f, arg_types@)));
                    Ok(f.get_r_type())
                },
            };
            let ghost e2 = err.errors@;
            let ghost c2 = context@;
            let r = visit_next(next, ret, context, funcs, cur, err);
            proof {
                lemma_then_next(ret, c2, *next, fs, *cur);
                assert(ret == rt);
                assert(e2 =~= e0 + es);
                assert(tc(*node, c0, fs, *cur) == then_next(rt, es, c2, *next, fs, *cur));
                assert(e2 =~= e0 + e2.subrange(e0.len() as int, e2.len() as int));
                assert(err.errors@ =~= e0 + tc(*node, c0, fs, *cur).1);
            }
            r
        },
        _ => Err(None),
    }
}

/// A `return`, whose type must be the function's, or a `print`.
fn visit_return_print(node: &Node, context: &mut Context, funcs: &Funcs, cur: &Func, err: &mut TypeErrors) -> (r: TcResult)
    requires
        old(context)@.len() > 0,
        node is Return || node is Print,
    ensures
        r == tc(*node, old(context)@, funcs@, *cur).0,
        final(err).errors@ == old(err).errors@ + tc(*node, old(context)@, funcs@, *cur).1,
        final(context)@ == tc(*node, old(context)@, funcs@, *cur).2,
        final(context)@.len() == old(context)@.len(),
    decreases node, 1nat,
{
    let ghost c0 = context@;
    let ghost e0 = err.errors@;
    let ghost fs = funcs@;
    match node {
        Node::Return { expr, next } => {
            let rv = visit(expr, context, funcs, cur, err);
            let ret = check_return(rv, cur, err);
            let ghost e2 = err.errors@;
            let ghost c2 = context@;
            let r = visit_next(next, ret, context, funcs, cur, err);
            proof {
                lemma_then_next(ret, c2, *next, fs, *cur);
                assert(r == then_next(ret, Seq::empty(), c2, *next, fs, *cur).0);
                assert(tc(*node, c0, fs, *cur) == then_next(ret, tc(**expr, c0, fs, *cur).1 + return_spec(rv, *cur).1, c2, *next, fs, *cur));
                assert(r == tc(*node, c0, fs, *cur).0);
                assert(e2 =~= e0 + e2.subrange(e0.len() as int, e2.len() as int));
                assert(err.errors@ =~= e0 + tc(*node, c0, fs, *cur).1);
            }
            r
        },
        Node::Print { expr, next } => {
            let _ = visit(expr, context, funcs, cur, err);
            let ghost e2 = err.errors@;
            let ghost c2 = context@;
            let r = visit_next(next, Err(None), context, funcs, cur, err);
            proof {
                lemma_then_next(Err(None), c2, *next, fs, *cur);
                assert(tc(*node, c0, fs, *cur) == then_next(Err(None), tc(**expr, c0, fs, *cur).1, c2, *next, fs, *cur));
                assert(e2 =~= e0 + e2.subrange(e0.len() as int, e2.len() as int));
                assert(err.errors@ =~= e0 + tc(*node, c0, fs, *cur).1);
            }
            r
        },
        _ => Err(None),
    }
}

/// An `if` or a `while`: the body is checked in a scope of its own, then the condition.
fn visit_branch(node: &Node, context: &mut Context, funcs: &Funcs, cur: &Func, err: &mut TypeErrors) -> (r: TcResult)
    requires
        old(context)@.len() > 0,
        node is If || node is While,
    ensures
        r == tc(*node, old(context)@, funcs@, *cur).0,
        final(err).errors@ == old(err).errors@ + tc(*node, old(context)@, funcs@, *cur).1,
        final(context)@ == tc(*node, old(context)@, funcs@, *cur).2,
        final(context)@.len() == old(context)@.len(),
    decreases node, 1nat,
{
    let ghost c0 = context@;
    let ghost e0 = err.errors@;
    let ghost fs = funcs@;
    match node {
        Node::If { cond, statement, next } => {
            context.push(Scope::new());
            let _ = visit(statement, context, funcs, cur, err);
            context.pop();
            let rc = visit(cond, context, funcs, cur, err);
            check_cond(cond, rc, err);
            let ghost e2 = err.errors@;
            let ghost c2 = context@;
            let r = visit_next(next, Err(None), context, funcs, cur, err);
            proof {
                lemma_then_next(Err(None), c2, *next, fs, *cur);
                let ghost tb = tc(**statement, c0.push(Seq::empty()), fs, *cur);
                let ghost tcnd = tc(**cond, tb.2.drop_last(), fs, *cur);
                assert(tc(*node, c0, fs, *cur) == then_next(Err(None), tb.1 + tcnd.1 + cond_spec(**cond, tcnd.0), c2, *next, fs, *cur));
                assert(e2 =~= e0 + e2.subrange(e0.len() as int, e2.len() as int));
                assert(err.errors@ =~= e0 + tc(*node, c0, fs, *cur).1);
            }
            r
        },
        Node::While { cond, statement, next } => {
            context.push(Scope::new());
            let _ = visit(statement, context, funcs, cur, err);
            context.pop();
            let rc = visit(cond, context, funcs, cur, err);
            check_cond(cond, rc, err);
            let ghost e2 = err.errors@;
            let ghost c2 = context@;
            let r = visit_next(next, Err(None), context, funcs, cur, err);
            proof {
                lemma_then_next(Err(None), c2, *next, fs, *cur);
                let ghost tb = tc(**statement, c0.push(Seq::empty()), fs, *cur);
                let ghost tcnd = tc(**cond, tb.2.drop_last(), fs, *cur);
                assert(tc(*node, c0, fs, *cur) == then_next(Err(None), tb.1 + tcnd.1 + cond_spec(**cond, tcnd.0), c2, *next, fs, *cur));
                assert(e2 =~= e0 + e2.subrange(e0.len() as int, e2.len() as int));
                assert(err.errors@ =~= e0 + tc(*node, c0, fs, *cur).1);
            }
            r
        },
        _ => Err(None),
    }
}

/// An `if` with an `else`: each branch is checked in a scope of its own, then the condition.
fn visit_if_else(node: &Node, context: &mut Context, funcs: &Funcs, cur: &Func, err: &mut TypeErrors) -> (r: TcResult)
    requires
        old(context)@.len() > 0,
        node is IfElse,
    ensures
        r == tc(*node, old(context)@, funcs@, *cur).0,
        final(err).errors@ == old(err).errors@ + tc(*node, old(context)@, funcs@, *cur).1,
        final(context)@ == tc(*node, old(context)@, funcs@, *cur).2,
        final(context)@.len() == old(context)@.len(),
    decreases node, 1nat,
{
    let ghost c0 = context@;
    let ghost e0 = err.errors@;
    let ghost fs = funcs@;
    match node {
        Node::IfElse { cond, if_statement, else_statement, next } => {
            context.push(Scope::new());
            let _ = visit(if_statement, context, funcs, cur, err);
            context.pop();
            context.push(Scope::new());
            let _ = visit(else_statement, context, funcs, cur, err);
            context.pop();
            let rc = visit(cond, context, funcs, cur, err);
            check_cond(cond, rc, err);
            let ghost e2 = err.errors@;
            let ghost c2 = context@;
            let r = visit_next(next, Err(None), context, funcs, cur, err);
            proof {
                lemma_then_next(Err(None), c2, *next, fs, *cur);
                let ghost tb = tc(**if_statement, c0.push(Seq::empty()), fs, *cur);
                let ghost te = tc(**else_statement, tb.2.drop_last().push(Seq::empty()), fs, *cur);
                let ghost tcnd = tc(**cond, te.2.drop_last(), fs, *cur);
                assert(tc(*node, c0, fs, *cur) == then_next(Err(None), tb.1 + te.1 + tcnd.1 + cond_spec(**cond, tcnd.0), c2, *next, fs, *cur));
                assert(e2 =~= e0 + e2.subrange(e0.len() as int, e2.len() as int));
                assert(err.errors@ =~= e0 + tc(*node, c0, fs, *cur).1);
            }
            r
        },
        _ => Err(None),
    }
}


/// Declaring one top-level node, in the registry `fs`: the registry after,
/// and the errors. A function whose name is already declared is reported and
/// not registered; a function with a return type whose body does not end in a
/// `return` is reported; a node that is not a function is reported.
pub open spec fn declare_one(fs: Seq<Func>, node: Node) -> (Seq<Func>, Seq<ErrorKind>) {
    match node {
        Node::Func { name, params, r_type, body } => {
            let e: Seq<ErrorKind> = match r_type {
                Some(t) => if !body_returns(*body) {
                    seq![ErrorKind::FnMissingReturn { name, r_type: t }]
                } else {
                    Seq::empty()
                },
                None => Seq::empty(),
            };
            match funcs_index(fs, name@) {
                Some(_) => (fs, seq![ErrorKind::FnAlreadyDefined { name }] + e),
                None => (fs.push(Func { name, params, r_type, body }), e),
            }
        },
        _ => (fs, seq![ErrorKind::NotSupported]),
    }
}

/// The first pass over a program: the registry of its functions, and the
/// errors of its declarations.
pub open spec fn declare(prog: Seq<Box<Node>>) -> (Seq<Func>, Seq<ErrorKind>)
    decreases prog.len(),
{
    if prog.len() == 0 {
        (Seq::empty(), Seq::empty())
    } else {
        let (fs, es) = declare(prog.drop_last());
        let (fs2, e) = declare_one(fs, *prog.last());
        (fs2, es + e)
    }
}

/// The errors in the body of `f`, checked with its parameters in scope.
pub open spec fn body_errors(fs: Seq<Func>, f: Func) -> Seq<ErrorKind> {
    tc(*f.body, seq![param_types_scope(f.params@)], fs, f).1
}

/// The errors in the bodies of the first `n` functions, in order.
pub open spec fn bodies_errors(fs: Seq<Func>, n: nat) -> Seq<ErrorKind>
    decreases n,
{
    if n == 0 || n > fs.len() {
        Seq::empty()
    } else {
        bodies_errors(fs, (n - 1) as nat) + body_errors(fs, fs[n - 1])
    }
}

/// Every error in a program, in the order the checker finds them: first
/// those of the declarations, then those of each body in declaration order.
pub open spec fn program_errors(prog: Seq<Box<Node>>) -> Seq<ErrorKind> {
    let (fs, es) = declare(prog);
    es + bodies_errors(fs, fs.len())
}

/// Declares one top-level node.
fn func_dec(func: Box<Node>, funcs: &mut Funcs, err: &mut TypeErrors)
    ensures
        final(funcs)@ == declare_one(old(funcs)@, *func).0,
        final(err).errors@ == old(err).errors@ + declare_one(old(funcs)@, *func).1,
{
    match *func {
        Node::Func { name, params, r_type, body } => {
            proof {
                lemma_funcs_index(funcs@, name@);
            }
            let found = find_func(funcs, &name);
            if found.is_some() {
                err.insert_err(ErrorKind::FnAlreadyDefined { name: name.clone() });
            }
            match r_type {
                Some(typ) => {
                    if !does_return(&body) {
                        err.insert_err(ErrorKind::FnMissingReturn { name: name.clone(), r_type: typ });
                    }
                },
                None => {},
            }
            if found.is_none() {
                funcs.push(Func::new(name, params, r_type, body));
            }
            assert(err.errors@ =~= old(err).errors@ + declare_one(old(funcs)@, *func).1);
        },
        _ => {
            err.insert_err(ErrorKind::NotSupported);
            assert(err.errors@ =~= old(err).errors@ + declare_one(old(funcs)@, *func).1);
        },
    }
}

/// Checks a whole program: every function is declared first, so a body may
/// call a function declared after it; then each body is checked. All errors
/// are reported, in the order found.
pub fn type_check(funcs_ast: Vec<Box<Node>>) -> (r: Result<(), TypeErrors>)
    ensures
        match r {
            Ok(()) => program_errors(funcs_ast@).len() == 0,
            Err(e) => e.errors@ == program_errors(funcs_ast@) && e.errors@.len() > 0,
        },
{
    let ghost prog = funcs_ast@;
    let mut funcs_ast = funcs_ast;
    let mut funcs: Funcs = Vec::new();
    let mut context = Context::new();
    let mut type_errors = TypeErrors::new();
    let mut i: usize = 0;
    let n = funcs_ast.len();
    assert(prog.take(0) =~= Seq::<Box<Node>>::empty());
    while funcs_ast.len() > 0
        invariant
            i <= n,
            n == prog.len(),
            funcs_ast@ == prog.skip(i as int),
            funcs@ == declare(prog.take(i as int)).0,
            type_errors.errors@ == declare(prog.take(i as int)).1,
        decreases funcs_ast.len(),
    {
        let func = funcs_ast.remove(0);
        assert(prog.take(i + 1).drop_last() =~= prog.take(i as int));
        assert(prog.take(i + 1).last() == func);
        assert(funcs_ast@ =~= prog.skip(i + 1));
        func_dec(func, &mut funcs, &mut type_errors);
        i += 1;
    }
    assert(prog.take(i as int) =~= prog);
    let ghost fs = funcs@;
    let ghost es = type_errors.errors@;
    let mut k: usize = 0;
    while k < funcs.len()
        invariant
            k <= funcs.len(),
            funcs@ == fs,
            context@.len() == 0,
            type_errors.errors@ == es + bodies_errors(fs, k as nat),
        decreases funcs.len() - k,
    {
        let f = &funcs[k];
        context.push(Scope::init_param_types(&f.params));
        assert(context@ =~= seq![param_types_scope(f.params@)]);
        visit(&f.body, &mut context, &funcs, f, &mut type_errors);
        context.pop();
        k += 1;
        assert(type_errors.errors@ =~= es + bodies_errors(fs, k as nat));
    }
    if type_errors.len() > 0 {
        return Err(type_errors);
    }
    Ok(())
}

} // verus!
