use vstd::prelude::*;

use crate::ast::Node;
use crate::context::{ctx_assign, ctx_insert, ctx_lookup, lemma_ctx_assign_shape, Context, ContextModel};
use crate::function::{find_func, funcs_index, lemma_funcs_index, Func, Funcs};
use crate::operators::Opcode;
use crate::scope::{params_scope, Scope, ScopeModel};
use crate::types::LiteralType;
use crate::value::Value;
use crate::variable::Variable;

verus! {

/// How deeply evaluation may nest (sub-expressions, statements that follow,
/// loop rounds and calls) before it gives up with `DepthExceeded`: as much as
/// a `u64` counts, so in practice only the machine's stack bounds recursion.
pub const MAX_DEPTH: u64 = 18446744073709551615;

/// Why running a program stopped.
#[derive(Debug, PartialEq)]
pub enum RuntimeError {
    /// The program declares no `main`.
    NoMain,
    /// Two functions of the program have this name.
    DuplicateFunction(String),
    /// A call of a function that is not declared.
    FnNotDefined(String),
    /// A call of this function with the wrong number of arguments.
    ArgCount(String),
    /// A use of a variable that is not in scope.
    VarNotDefined(String),
    /// An assignment to this immutable variable.
    VarImmut(String),
    /// An operator or a condition met a value of the wrong type.
    TypeMismatch,
    /// Division by zero.
    DivByZero,
    /// An arithmetic result that does not fit in an `i32`.
    Overflow,
    /// A node that cannot be evaluated where it stands.
    Unsupported,
    /// Evaluation nested deeper than `MAX_DEPTH`.
    DepthExceeded,
}

/// What evaluating gives: a value, or why evaluation stopped.
pub type Outcome = Result<Value, RuntimeError>;

/// Division truncating toward zero.
pub open spec fn trunc_div(a: int, b: int) -> int {
    let q: int = (vstd::math::abs(a) / vstd::math::abs(b)) as int;
    if (a >= 0) == (b > 0) { q } else { -q }
}

/// An `i32` result, when it fits.
pub open spec fn checked(x: int) -> Outcome {
    if i32::MIN <= x <= i32::MAX {
        Ok(Value::Number(x as i32))
    } else {
        Err(RuntimeError::Overflow)
    }
}

/// `+ - * /` on two numbers.
pub open spec fn num_value(a: i32, op: Opcode, b: i32) -> Outcome {
    match op {
        Opcode::Add => checked(a + b),
        Opcode::Sub => checked(a - b),
        Opcode::Mul => checked(a * b),
        _ => if b == 0 {
            Err(RuntimeError::DivByZero)
        } else {
            checked(trunc_div(a as int, b as int))
        },
    }
}

/// The value of a binary operator applied to two values.
pub open spec fn binary_value(l: Value, op: Opcode, r: Value) -> Outcome {
    if op.is_arith() {
        match (l, r) {
            (Value::Number(a), Value::Number(b)) => num_value(a, op, b),
            _ => Err(RuntimeError::TypeMismatch),
        }
    } else if op.is_logical() {
        match (l, r) {
            (Value::Bool(a), Value::Bool(b)) => Ok(Value::Bool(if op is AND { a && b } else { a || b })),
            _ => Err(RuntimeError::TypeMismatch),
        }
    } else {
        match (l, r) {
            (Value::Number(a), Value::Number(b)) => Ok(Value::Bool(
                match op {
                    Opcode::EQ => a == b,
                    Opcode::NEQ => a != b,
                    Opcode::GT => a > b,
                    Opcode::LT => a < b,
                    Opcode::GEQ => a >= b,
                    _ => a <= b,
                },
            )),
            (Value::Bool(a), Value::Bool(b)) => if op.is_equality() {
                Ok(Value::Bool(if op is EQ { a == b } else { a != b }))
            } else {
                Err(RuntimeError::TypeMismatch)
            },
            _ => Err(RuntimeError::TypeMismatch),
        }
    }
}

/// The value of negation applied to a value.
pub open spec fn unary_value(v: Value) -> Outcome {
    match v {
        Value::Number(n) => checked(-(n as int)),
        _ => Err(RuntimeError::TypeMismatch),
    }
}

/// Each parameter paired with the value passed for it.
pub open spec fn zip_params(params: Seq<Box<Node>>, vals: Seq<Value>) -> Seq<(Node, Value)> {
    Seq::new(params.len(), |i: int| (*params[i], vals[i]))
}

/// The statement after one that completed with no value.
pub open spec fn eval_next(next: Option<Box<Node>>, c: ContextModel, fs: Seq<Func>, fuel: nat) -> (Outcome, ContextModel)
    decreases fuel, 1nat, 0nat,
{
    match next {
        Some(n) => eval(*n, c, fs, fuel),
        None => (Ok(Value::Unit), c),
    }
}

/// A branch's result: a value other than `Unit` is a `return` on its way
/// out; otherwise the statement after it runs.
pub open spec fn after_branch(r: Outcome, next: Option<Box<Node>>, c: ContextModel, fs: Seq<Func>, fuel: nat) -> (Outcome, ContextModel)
    decreases fuel, 2nat, 0nat,
{
    match r {
        Err(e) => (Err(e), c),
        Ok(Value::Unit) => eval_next(next, c, fs, fuel),
        Ok(v) => (Ok(v), c),
    }
}

/// `while`: in a fresh scope the condition is evaluated and, when true, the
/// body; the scope is left before the next round.
pub open spec fn eval_while(cond: Node, body: Node, next: Option<Box<Node>>, c: ContextModel, fs: Seq<Func>, fuel: nat) -> (Outcome, ContextModel)
    decreases fuel, 3nat, 0nat,
{
    let (rc, c1) = eval(cond, c.push(Seq::empty()), fs, fuel);
    match rc {
        Err(e) => (Err(e), c1.drop_last()),
        Ok(Value::Bool(true)) => {
            let (rb, c2) = eval(body, c1, fs, fuel);
            match rb {
                Err(e) => (Err(e), c2.drop_last()),
                Ok(Value::Unit) => if fuel == 0 {
                    (Err(RuntimeError::DepthExceeded), c2.drop_last())
                } else {
                    eval_while(cond, body, next, c2.drop_last(), fs, (fuel - 1) as nat)
                },
                Ok(v) => (Ok(v), c2.drop_last()),
            }
        },
        Ok(Value::Bool(false)) => eval_next(next, c1.drop_last(), fs, fuel),
        Ok(_) => (Err(RuntimeError::TypeMismatch), c1.drop_last()),
    }
}

/// The arguments of a call, left to right; the first error stops them.
pub open spec fn eval_args(args: Seq<Box<Node>>, c: ContextModel, fs: Seq<Func>, fuel: nat) -> (Result<Seq<Value>, RuntimeError>, ContextModel)
    decreases fuel, 1nat, args.len(),
{
    if args.len() == 0 {
        (Ok(Seq::empty()), c)
    } else {
        let (rs, c1) = eval_args(args.drop_last(), c, fs, fuel);
        match rs {
            Err(e) => (Err(e), c1),
            Ok(vs) => {
                let (r, c2) = eval(*args.last(), c1, fs, fuel);
                match r {
                    Err(e) => (Err(e), c2),
                    Ok(v) => (Ok(vs.push(v)), c2),
                }
            },
        }
    }
}

/// A call of `f`: the arguments are evaluated in the caller's scopes, then
/// the body runs in a scope of its own that binds the parameters. The
/// caller's scopes are as the arguments left them.
pub open spec fn call_fn(f: Func, args: Seq<Box<Node>>, c: ContextModel, fs: Seq<Func>, fuel: nat) -> (Outcome, ContextModel)
    decreases fuel, 2nat, 0nat,
{
    if args.len() != f.params@.len() {
        (Err(RuntimeError::ArgCount(f.name)), c)
    } else {
        let (ra, c1) = eval_args(args, c, fs, fuel);
        match ra {
            Err(e) => (Err(e), c1),
            Ok(vals) => (eval(*f.body, seq![params_scope(zip_params(f.params@, vals))], fs, fuel).0, c1),
        }
    }
}

/// Evaluates `node` in the scopes `c` among the functions `fs`, nesting at
/// most `fuel` deep: its outcome and the scopes after.
pub open spec fn eval(node: Node, c: ContextModel, fs: Seq<Func>, fuel: nat) -> (Outcome, ContextModel)
    decreases fuel, 0nat, 0nat,
{
    if fuel == 0 {
        (Err(RuntimeError::DepthExceeded), c)
    } else {
        let f = (fuel - 1) as nat;
        match node {
            Node::Number(n) => (Ok(Value::Number(n)), c),
            Node::Bool(b) => (Ok(Value::Bool(b)), c),
            Node::Str(s) => (Ok(Value::String(s)), c),
            Node::Var(name) => match ctx_lookup(c, name@) {
                Some(v) => (Ok(v.value), c),
                None => (Err(RuntimeError::VarNotDefined(name)), c),
            },
            Node::UnaryOp(op, e) => {
                let (r, c1) = eval(*e, c, fs, f);
                match r {
                    Err(e) => (Err(e), c1),
                    Ok(v) => if op is Sub {
                        (unary_value(v), c1)
                    } else {
                        (Err(RuntimeError::Unsupported), c1)
                    },
                }
            },
            Node::Expr(l, op, r) => {
                let (rl, c1) = eval(*l, c, fs, f);
                match rl {
                    Err(e) => (Err(e), c1),
                    Ok(lv) => {
                        let (rr, c2) = eval(*r, c1, fs, f);
                        match rr {
                            Err(e) => (Err(e), c2),
                            Ok(rv) => (binary_value(lv, op, rv), c2),
                        }
                    },
                }
            },
            Node::Let { var, expr, next } => {
                let (rv, c1) = eval(*expr, c, fs, f);
                match rv {
                    Err(e) => (Err(e), c1),
                    Ok(v) => match *var {
                        Node::VarBinding(x, typ, mutable) => match *x {
                            Node::Var(name) => eval_next(next, ctx_insert(c1, name@, Variable { value: v, mutable, typ }), fs, f),
                            _ => (Err(RuntimeError::Unsupported), c1),
                        },
                        _ => (Err(RuntimeError::Unsupported), c1),
                    },
                }
            },
            Node::VarValue { var, expr, next } => {
                let (rv, c1) = eval(*expr, c, fs, f);
                match rv {
                    Err(e) => (Err(e), c1),
                    Ok(v) => match *var {
                        Node::Var(name) => match ctx_lookup(c1, name@) {
                            None => (Err(RuntimeError::VarNotDefined(name)), c1),
                            Some(x) => if x.mutable {
                                eval_next(next, ctx_assign(c1, name@, v), fs, f)
                            } else {
                                (Err(RuntimeError::VarImmut(name)), c1)
                            },
                        },
                        _ => (Err(RuntimeError::Unsupported), c1),
                    },
                }
            },
            Node::Print { expr, next } => {
                let (rv, c1) = eval(*expr, c, fs, f);
                match rv {
                    Err(e) => (Err(e), c1),
                    Ok(_) => eval_next(next, c1, fs, f),
                }
            },
            Node::Return { expr, .. } => eval(*expr, c, fs, f),
            Node::If { cond, statement, next } => {
                let (rc, c1) = eval(*cond, c, fs, f);
                match rc {
                    Err(e) => (Err(e), c1),
                    Ok(Value::Bool(b)) => {
                        let (rb, c2) = if b {
                            eval(*statement, c1.push(Seq::empty()), fs, f)
                        } else {
                            (Ok(Value::Unit), c1.push(Seq::empty()))
                        };
                        after_branch(rb, next, c2.drop_last(), fs, f)
                    },
                    Ok(_) => (Err(RuntimeError::TypeMismatch), c1),
                }
            },
            Node::IfElse { cond, if_statement, else_statement, next } => {
                let (rc, c1) = eval(*cond, c, fs, f);
                match rc {
                    Err(e) => (Err(e), c1),
                    Ok(Value::Bool(b)) => {
                        let (rb, c2) = if b {
                            eval(*if_statement, c1.push(Seq::empty()), fs, f)
                        } else {
                            eval(*else_statement, c1.push(Seq::empty()), fs, f)
                        };
                        after_branch(rb, next, c2.drop_last(), fs, f)
                    },
                    Ok(_) => (Err(RuntimeError::TypeMismatch), c1),
                }
            },
            Node::While { cond, statement, next } => eval_while(*cond, *statement, next, c, fs, f),
            Node::FuncCall { name, args, next } => match funcs_index(fs, name@) {
                None => (Err(RuntimeError::FnNotDefined(name)), c),
                Some(k) => {
                    let (r, c1) = call_fn(fs[k], args@, c, fs, f);
                    match r {
                        Err(e) => (Err(e), c1),
                        Ok(v) => match next {
                            Some(n) => eval(*n, c1, fs, f),
                            None => (Ok(v), c1),
                        },
                    }
                },
            },
            _ => (Err(RuntimeError::Unsupported), c),
        }
    }
}


/// An `i32` result from a wider one, when it fits.
fn checked_i32(x: i64) -> (r: Outcome)
    ensures
        r == checked(x as int),
{
    if x < i32::MIN as i64 || x > i32::MAX as i64 {
        Err(RuntimeError::Overflow)
    } else {
        Ok(Value::Number(x as i32))
    }
}

/// `+ - * /` on two numbers; division truncates toward zero.
fn eval_num_expr(l: i32, op: Opcode, r: i32) -> (res: Outcome)
    requires
        op.is_arith(),
    ensures
        res == num_value(l, op, r),
{
    let a = l as i64;
    let b = r as i64;
    match op {
        Opcode::Add => checked_i32(a + b),
        Opcode::Sub => checked_i32(a - b),
        Opcode::Mul => {
            assert(i32::MIN * i32::MAX <= a * b <= i32::MIN * i32::MIN) by (nonlinear_arith)
                requires
                    i32::MIN <= a <= i32::MAX,
                    i32::MIN <= b <= i32::MAX,
            ;
            checked_i32(a * b)
        },
        _ => {
            if b == 0 {
                return Err(RuntimeError::DivByZero);
            }
            let aa: i64 = if a < 0 {
                -a
            } else {
                a
            };
            let bb: i64 = if b < 0 {
                -b
            } else {
                b
            };
            let q = aa / bb;
            assert(q == vstd::math::abs(a as int) / vstd::math::abs(b as int));
            if (a >= 0) == (b > 0) {
                checked_i32(q)
            } else {
                checked_i32(-q)
            }
        },
    }
}

/// A comparison of two numbers.
fn eval_num_rel_op(left: i32, op: Opcode, right: i32) -> (r: bool)
    ensures
        r == (match op {
            Opcode::EQ => left == right,
            Opcode::NEQ => left != right,
            Opcode::GT => left > right,
            Opcode::LT => left < right,
            Opcode::GEQ => left >= right,
            _ => left <= right,
        }),
{
    match op {
        Opcode::EQ => left == right,
        Opcode::NEQ => left != right,
        Opcode::GT => left > right,
        Opcode::LT => left < right,
        Opcode::GEQ => left >= right,
        _ => left <= right,
    }
}

/// `==` or `!=` on two booleans; the orderings do not apply to them.
fn eval_bool_rel_op(left: bool, op: Opcode, right: bool) -> (r: Outcome)
    ensures
        r == (if op.is_equality() {
            Ok(Value::Bool(if op is EQ { left == right } else { left != right }))
        } else {
            Err(RuntimeError::TypeMismatch)
        }),
{
    match op {
        Opcode::EQ => Ok(Value::Bool(left == right)),
        Opcode::NEQ => Ok(Value::Bool(left != right)),
        _ => Err(RuntimeError::TypeMismatch),
    }
}

/// A comparison of two values of one type.
fn eval_rel_op(left: Value, op: Opcode, right: Value) -> (r: Outcome)
    requires
        !op.is_arith(),
        !op.is_logical(),
    ensures
        r == binary_value(left, op, right),
{
    match (left, right) {
        (Value::Number(l), Value::Number(r)) => Ok(Value::Bool(eval_num_rel_op(l, op, r))),
        (Value::Bool(l), Value::Bool(r)) => eval_bool_rel_op(l, op, r),
        _ => Err(RuntimeError::TypeMismatch),
    }
}

/// `&&` or `||` on two booleans.
fn eval_log_op(left: Value, op: Opcode, right: Value) -> (r: Outcome)
    requires
        op.is_logical(),
    ensures
        r == binary_value(left, op, right),
{
    match (left, right) {
        (Value::Bool(l), Value::Bool(r)) => {
            let v = match op {
                Opcode::AND => l && r,
                _ => l || r,
            };
            Ok(Value::Bool(v))
        },
        _ => Err(RuntimeError::TypeMismatch),
    }
}

/// A binary operator applied to two values.
fn eval_expr(left: Value, op: Opcode, right: Value) -> (r: Outcome)
    ensures
        r == binary_value(left, op, right),
{
    match op {
        Opcode::Add | Opcode::Sub | Opcode::Div | Opcode::Mul => match (left, right) {
            (Value::Number(l), Value::Number(r)) => eval_num_expr(l, op, r),
            _ => Err(RuntimeError::TypeMismatch),
        },
        Opcode::AND | Opcode::OR => eval_log_op(left, op, right),
        _ => eval_rel_op(left, op, right),
    }
}

/// Negation of a number.
fn eval_unary(val: Value) -> (r: Outcome)
    ensures
        r == unary_value(val),
{
    match val {
        Value::Number(n) => checked_i32(-(n as i64)),
        _ => Err(RuntimeError::TypeMismatch),
    }
}

/// The value of the variable `name`.
fn eval_var(name: &String, context: &Context) -> (r: Outcome)
    ensures
        r == (match ctx_lookup(context@, name@) {
            Some(v) => Ok(v.value),
            None => Err(RuntimeError::VarNotDefined(*name)),
        }),
{
    match context.get_var_value(name.as_str()) {
        Some(v) => Ok(v),
        None => Err(RuntimeError::VarNotDefined(name.clone())),
    }
}


/// The outcome of a call as the interpreter sees it: no value is `Unit`.
pub open spec fn as_outcome(r: Result<Option<Value>, RuntimeError>) -> Outcome {
    match r {
        Ok(Some(v)) => Ok(v),
        Ok(None) => Ok(Value::Unit),
        Err(e) => Err(e),
    }
}

/// Runs the statement after one that completed with no value.
fn eval_next_stmt(next: &Option<Box<Node>>, context: &mut Context, funcs: &Funcs, fuel: u64) -> (r: Outcome)
    requires
        old(context)@.len() > 0,
    ensures
        (r, final(context)@) == eval_next(*next, old(context)@, funcs@, fuel as nat),
        final(context)@.len() == old(context)@.len(),
    decreases fuel, 1nat, 0nat,
{
    match next {
        Some(n) => visit(n, context, funcs, fuel),
        None => Ok(Value::Unit),
    }
}

/// Passes on a value that a branch returned, or runs the statement after it.
fn after_branch_exec(res: Outcome, next: &Option<Box<Node>>, context: &mut Context, funcs: &Funcs, fuel: u64) -> (r: Outcome)
    requires
        old(context)@.len() > 0,
    ensures
        (r, final(context)@) == after_branch(res, *next, old(context)@, funcs@, fuel as nat),
        final(context)@.len() == old(context)@.len(),
    decreases fuel, 2nat, 0nat,
{
    match res {
        Err(e) => Err(e),
        Ok(Value::Unit) => eval_next_stmt(next, context, funcs, fuel),
        Ok(v) => Ok(v),
    }
}

/// A `while` loop: each round pushes a scope, evaluates the condition and,
/// when it holds, the body, then pops the scope.
fn eval_while_statement(
    cond: &Node,
    statement: &Node,
    next: &Option<Box<Node>>,
    context: &mut Context,
    funcs: &Funcs,
    fuel: u64,
) -> (r: Outcome)
    requires
        old(context)@.len() > 0,
    ensures
        (r, final(context)@) == eval_while(*cond, *statement, *next, old(context)@, funcs@, fuel as nat),
        final(context)@.len() == old(context)@.len(),
    decreases fuel, 3nat, 0nat,
{
    let ghost fs = funcs@;
    let mut f = fuel;
    loop
        invariant
            f <= fuel,
            funcs@ == fs,
            context@.len() == old(context)@.len(),
            old(context)@.len() > 0,
            eval_while(*cond, *statement, *next, old(context)@, fs, fuel as nat) == eval_while(
                *cond,
                *statement,
                *next,
                context@,
                fs,
                f as nat,
            ),
        decreases f,
    {
        let ghost ch = context@;
        context.push(Scope::new());
        match visit(cond, context, funcs, f) {
            Err(e) => {
                context.pop();
                return Err(e);
            },
            Ok(Value::Bool(true)) => {
                let rb = visit(statement, context, funcs, f);
                match rb {
                    Err(e) => {
                        context.pop();
                        return Err(e);
                    },
                    Ok(Value::Unit) => {
                        context.pop();
                        if f == 0 {
                            return Err(RuntimeError::DepthExceeded);
                        }
                        f = f - 1;
                    },
                    Ok(v) => {
                        context.pop();
                        return Ok(v);
                    },
                }
            },
            Ok(Value::Bool(false)) => {
                context.pop();
                return eval_next_stmt(next, context, funcs, f);
            },
            Ok(_) => {
                context.pop();
                return Err(RuntimeError::TypeMismatch);
            },
        }
    }
}

/// Evaluated arguments are as many as the arguments.
proof fn lemma_args_len(args: Seq<Box<Node>>, c: ContextModel, fs: Seq<Func>, fuel: nat)
    ensures
        eval_args(args, c, fs, fuel).0 matches Ok(vs) ==> vs.len() == args.len(),
    decreases args.len(),
{
    if args.len() > 0 {
        lemma_args_len(args.drop_last(), c, fs, fuel);
    }
}

/// An argument that fails stops the evaluation of the others.
proof fn lemma_args_error(args: Seq<Box<Node>>, k: int, c: ContextModel, fs: Seq<Func>, fuel: nat)
    requires
        0 <= k <= args.len(),
        eval_args(args.take(k), c, fs, fuel).0 is Err,
    ensures
        eval_args(args, c, fs, fuel) == eval_args(args.take(k), c, fs, fuel),
    decreases args.len() - k,
{
    if k < args.len() {
        assert(args.take(k + 1).drop_last() =~= args.take(k));
        lemma_args_error(args, k + 1, c, fs, fuel);
    } else {
        assert(args.take(k) =~= args);
    }
}

impl Func {
    /// Calls the function: checks the number of arguments, evaluates them
    /// left to right in `context`, then runs the body in a scope of its own
    /// that binds each parameter to its argument. `None` when the body
    /// completes with no value.
    pub fn call(&self, args: &Vec<Box<Node>>, context: &mut Context, funcs: &Funcs, fuel: u64) -> (r: Result<Option<Value>, RuntimeError>)
        requires
            old(context)@.len() > 0 || args@.len() == 0,
        ensures
            (as_outcome(r), final(context)@) == call_fn(*self, args@, old(context)@, funcs@, fuel as nat),
            r matches Ok(Some(v)) ==> v != Value::Unit,
            final(context)@.len() == old(context)@.len(),
        decreases fuel, 2nat, 0nat,
    {
        if !self.check_args(args) {
            return Err(RuntimeError::ArgCount(self.name.clone()));
        }
        let ghost c0 = context@;
        let ghost fs = funcs@;
        let mut vals: Vec<Value> = Vec::new();
        let mut i: usize = 0;
        assert(args@.take(0) =~= Seq::<Box<Node>>::empty());
        while i < args.len()
            invariant
                i <= args.len(),
                context@.len() == c0.len(),
                c0.len() > 0 || args@.len() == 0,
                c0 == old(context)@,
                args@.len() == self.params@.len(),
                funcs@ == fs,
                eval_args(args@.take(i as int), c0, fs, fuel as nat) == (Ok::<Seq<Value>, RuntimeError>(vals@), context@),
            decreases args.len() - i,
        {
            assert(args@.take(i + 1).drop_last() =~= args@.take(i as int));
            let r = visit(&args[i], context, funcs, fuel);
            match r {
                Ok(v) => {
                    vals.push(v);
                },
                Err(e) => {
                    proof {
                        assert(args@.take(i + 1).last() == args@[i as int]);
                        assert(eval_args(args@.take(i + 1), c0, fs, fuel as nat) == (Err::<Seq<Value>, RuntimeError>(e), context@));
                        lemma_args_error(args@, i + 1, c0, fs, fuel as nat);
                        assert(context@.len() == c0.len());
                    }
                    return Err(e);
                },
            }
            i += 1;
        }
        assert(args@.take(i as int) =~= args@);
        proof {
            lemma_args_len(args@, c0, fs, fuel as nat);
        }
        let mut pairs: Vec<(&Node, Value)> = Vec::new();
        let mut j: usize = 0;
        while j < self.params.len()
            invariant
                j <= self.params.len(),
                self.params.len() == args.len(),
                vals@.len() == args.len(),
                pairs@.map_values(|p: (&Node, Value)| (*p.0, p.1)) == zip_params(self.params@, vals@).take(j as int),
            decreases self.params.len() - j,
        {
            let ghost before = pairs@.map_values(|p: (&Node, Value)| (*p.0, p.1));
            pairs.push((&*self.params[j], vals[j].duplicate()));
            assert(pairs@.map_values(|p: (&Node, Value)| (*p.0, p.1)) =~= before.push((*self.params@[j as int], vals@[j as int])));
            j += 1;
            assert(pairs@.map_values(|p: (&Node, Value)| (*p.0, p.1)) =~= zip_params(self.params@, vals@).take(j as int));
        }
        assert(zip_params(self.params@, vals@).take(j as int) =~= zip_params(self.params@, vals@));
        let mut callee = Context::new();
        callee.push(Scope::init(pairs));
        assert(callee@ =~= seq![params_scope(zip_params(self.params@, vals@))]);
        match visit(&self.body, &mut callee, funcs, fuel) {
            Ok(Value::Unit) => Ok(None),
            Ok(v) => Ok(Some(v)),
            Err(e) => Err(e),
        }
    }

    /// Whether `args` has one argument for each parameter.
    fn check_args(&self, args: &Vec<Box<Node>>) -> (r: bool)
        ensures
            r == (args@.len() == self.params@.len()),
    {
        args.len() == self.params.len()
    }
}


/// Evaluates `node` in `context`, nesting at most `fuel` deep. A value other
/// than `Unit` from a statement is a `return` on its way out of the function.
pub fn visit(node: &Node, context: &mut Context, funcs: &Funcs, fuel: u64) -> (r: Outcome)
    requires
        old(context)@.len() > 0,
    ensures
        (r, final(context)@) == eval(*node, old(context)@, funcs@, fuel as nat),
        final(context)@.len() == old(context)@.len(),
    decreases fuel, 0nat, 1nat,
{
    if fuel == 0 {
        return Err(RuntimeError::DepthExceeded);
    }
    let f = fuel - 1;
    match node {
        Node::Number(n) => Ok(Value::Number(*n)),
        Node::Bool(b) => Ok(Value::Bool(*b)),
        Node::Str(s) => Ok(Value::String(s.clone())),
        Node::Var(name) => eval_var(name, context),
        Node::UnaryOp(op, e) => {
            let r = visit(e, context, funcs, f);
            match r {
                Err(e) => Err(e),
                Ok(v) => match op {
                    Opcode::Sub => eval_unary(v),
                    _ => Err(RuntimeError::Unsupported),
                },
            }
        },
        Node::Expr(l, op, r) => {
            let lv = match visit(l, context, funcs, f) {
                Ok(v) => v,
                Err(e) => return Err(e),
            };
            let rv = match visit(r, context, funcs, f) {
                Ok(v) => v,
                Err(e) => return Err(e),
            };
            eval_expr(lv, *op, rv)
        },
        Node::Let { .. } => assign_var(node, context, funcs, fuel),
        Node::VarValue { .. } => update_var(node, context, funcs, fuel),
        Node::Print { expr, next } => {
            match visit(expr, context, funcs, f) {
                Ok(_) => eval_next_stmt(next, context, funcs, f),
                Err(e) => Err(e),
            }
        },
        Node::Return { expr, .. } => visit(expr, context, funcs, f),
        Node::If { .. } => eval_if_statement(node, context, funcs, fuel),
        Node::IfElse { .. } => eval_if_else_statement(node, context, funcs, fuel),
        Node::While { cond, statement, next } => eval_while_statement(cond, statement, next, context, funcs, f),
        Node::FuncCall { .. } => eval_func_call(node, context, funcs, fuel),
        _ => Err(RuntimeError::Unsupported),
    }
}
/// `let`: binds the variable in the innermost scope.
fn assign_var(node: &Node, context: &mut Context, funcs: &Funcs, fuel: u64) -> (r: Outcome)
    requires
        old(context)@.len() > 0,
        fuel > 0,
        node is Let,
    ensures
        (r, final(context)@) == eval(*node, old(context)@, funcs@, fuel as nat),
        final(context)@.len() == old(context)@.len(),
    decreases fuel, 0nat, 0nat,
{
    let f = fuel - 1;
    match node {
        Node::Let { var, expr, next } => {
            let v = match visit(expr, context, funcs, f) {
                Ok(v) => v,
                Err(e) => return Err(e),
            };
            match &**var {
                Node::VarBinding(x, typ, mutable) => match &**x {
                    Node::Var(name) => {
                        context.insert_var(name.clone(), *mutable, *typ, v);
                        eval_next_stmt(next, context, funcs, f)
                    },
                    _ => Err(RuntimeError::Unsupported),
                },
                _ => Err(RuntimeError::Unsupported),
            }
        },
        _ => Err(RuntimeError::Unsupported),
    }
}
/// An assignment: the visible binding must be mutable.
fn update_var(node: &Node, context: &mut Context, funcs: &Funcs, fuel: u64) -> (r: Outcome)
    requires
        old(context)@.len() > 0,
        fuel > 0,
        node is VarValue,
    ensures
        (r, final(context)@) == eval(*node, old(context)@, funcs@, fuel as nat),
        final(context)@.len() == old(context)@.len(),
    decreases fuel, 0nat, 0nat,
{
    let f = fuel - 1;
    match node {
        Node::VarValue { var, expr, next } => {
            let v = match visit(expr, context, funcs, f) {
                Ok(v) => v,
                Err(e) => return Err(e),
            };
            match &**var {
                Node::Var(name) => {
                    proof {
                        lemma_ctx_assign_shape(context@, name@, v);
                    }
                    match context.update_var(name.clone(), v) {
                        Ok(Some(_)) => eval_next_stmt(next, context, funcs, f),
                        Ok(None) => Err(RuntimeError::VarNotDefined(name.clone())),
                        Err(_) => Err(RuntimeError::VarImmut(name.clone())),
                    }
                },
                _ => Err(RuntimeError::Unsupported),
            }
        },
        _ => Err(RuntimeError::Unsupported),
    }
}
/// `if` without `else`: the body runs in a scope of its own.
fn eval_if_statement(node: &Node, context: &mut Context, funcs: &Funcs, fuel: u64) -> (r: Outcome)
    requires
        old(context)@.len() > 0,
        fuel > 0,
        node is If,
    ensures
        (r, final(context)@) == eval(*node, old(context)@, funcs@, fuel as nat),
        final(context)@.len() == old(context)@.len(),
    decreases fuel, 0nat, 0nat,
{
    let f = fuel - 1;
    match node {
        Node::If { cond, statement, next } => {
            let b = match visit(cond, context, funcs, f) {
                Ok(Value::Bool(b)) => b,
                Ok(_) => return Err(RuntimeError::TypeMismatch),
                Err(e) => return Err(e),
            };
            context.push(Scope::new());
            let res = if b {
                visit(statement, context, funcs, f)
            } else {
                Ok(Value::Unit)
            };
            context.pop();
            after_branch_exec(res, next, context, funcs, f)
        },
        _ => Err(RuntimeError::Unsupported),
    }
}
/// `if` with `else`: the branch taken runs in a scope of its own.
fn eval_if_else_statement(node: &Node, context: &mut Context, funcs: &Funcs, fuel: u64) -> (r: Outcome)
    requires
        old(context)@.len() > 0,
        fuel > 0,
        node is IfElse,
    ensures
        (r, final(context)@) == eval(*node, old(context)@, funcs@, fuel as nat),
        final(context)@.len() == old(context)@.len(),
    decreases fuel, 0nat, 0nat,
{
    let f = fuel - 1;
    match node {
        Node::IfElse { cond, if_statement, else_statement, next } => {
            let b = match visit(cond, context, funcs, f) {
                Ok(Value::Bool(b)) => b,
                Ok(_) => return Err(RuntimeError::TypeMismatch),
                Err(e) => return Err(e),
            };
            context.push(Scope::new());
            let res = if b {
                visit(if_statement, context, funcs, f)
            } else {
                visit(else_statement, context, funcs, f)
            };
            context.pop();
            after_branch_exec(res, next, context, funcs, f)
        },
        _ => Err(RuntimeError::Unsupported),
    }
}
/// A call. As a statement followed by another, its value is dropped.
fn eval_func_call(node: &Node, context: &mut Context, funcs: &Funcs, fuel: u64) -> (r: Outcome)
    requires
        old(context)@.len() > 0,
        fuel > 0,
        node is FuncCall,
    ensures
        (r, final(context)@) == eval(*node, old(context)@, funcs@, fuel as nat),
        final(context)@.len() == old(context)@.len(),
    decreases fuel, 0nat, 0nat,
{
    let f = fuel - 1;
    match node {
        Node::FuncCall { name, args, next } => {
            proof {
                lemma_funcs_index(funcs@, name@);
            }
            match find_func(funcs, name) {
                None => Err(RuntimeError::FnNotDefined(name.clone())),
                Some(k) => {
                    let res = funcs[k].call(args, context, funcs, f);
                    match res {
                        Err(e) => Err(e),
                        Ok(v) => match next {
                            Some(n) => visit(n, context, funcs, f),
                            None => match v {
                                Some(v) => Ok(v),
                                None => Ok(Value::Unit),
                            },
                        },
                    }
                },
            }
        },
        _ => Err(RuntimeError::Unsupported),
    }
}

/// The functions of a program, in order; the first name declared twice, or
/// a top-level node that is not a function, is an error.
pub open spec fn register_funcs(prog: Seq<Box<Node>>) -> Result<Seq<Func>, RuntimeError>
    decreases prog.len(),
{
    if prog.len() == 0 {
        Ok(Seq::empty())
    } else {
        match register_funcs(prog.drop_last()) {
            Err(e) => Err(e),
            Ok(fs) => register_one(fs, *prog.last()),
        }
    }
}

/// The registry `fs` after declaring `node`.
pub open spec fn register_one(fs: Seq<Func>, node: Node) -> Result<Seq<Func>, RuntimeError> {
    match node {
        Node::Func { name, params, r_type, body } => if funcs_index(fs, name@) is Some {
            Err(RuntimeError::DuplicateFunction(name))
        } else {
            Ok(fs.push(Func { name, params, r_type, body }))
        },
        _ => Err(RuntimeError::Unsupported),
    }
}

/// What a run of a program gives: the value `main` returns, `None` when it
/// returns none.
pub open spec fn run_program(prog: Seq<Box<Node>>) -> Result<Option<Value>, RuntimeError> {
    match register_funcs(prog) {
        Err(e) => Err(e),
        Ok(fs) => match funcs_index(fs, "main"@) {
            None => Err(RuntimeError::NoMain),
            Some(k) => match call_fn(fs[k], Seq::empty(), Seq::empty(), fs, MAX_DEPTH as nat).0 {
                Ok(Value::Unit) => Ok(None),
                Ok(v) => Ok(Some(v)),
                Err(e) => Err(e),
            },
        },
    }
}

/// Adds a declaration to the registry.
fn eval_func_dec(func: Box<Node>, funcs: &mut Funcs) -> (r: Result<(), RuntimeError>)
    ensures
        match register_one(old(funcs)@, *func) {
            Ok(fs) => r is Ok && final(funcs)@ == fs,
            Err(e) => r == Err::<(), RuntimeError>(e),
        },
{
    match *func {
        Node::Func { name, params, r_type, body } => {
            proof {
                lemma_funcs_index(funcs@, name@);
            }
            match find_func(funcs, &name) {
                Some(_) => Err(RuntimeError::DuplicateFunction(name)),
                None => {
                    funcs.push(Func::new(name, params, r_type, body));
                    Ok(())
                },
            }
        },
        _ => Err(RuntimeError::Unsupported),
    }
}

/// Runs a program: declares all of its functions, then calls `main` with no
/// arguments. `None` when `main` returns no value.
pub fn interp(funcs_ast: Vec<Box<Node>>) -> (r: Result<Option<Value>, RuntimeError>)
    ensures
        r == run_program(funcs_ast@),
{
    let ghost prog = funcs_ast@;
    let mut funcs_ast = funcs_ast;
    let mut funcs: Funcs = Vec::new();
    let mut i: usize = 0;
    let n = funcs_ast.len();
    let mut failed: Option<RuntimeError> = None;
    assert(prog.take(0) =~= Seq::<Box<Node>>::empty());
    while funcs_ast.len() > 0 && failed.is_none()
        invariant
            i <= n,
            n == prog.len(),
            funcs_ast@ == prog.skip(i as int),
            failed is None ==> register_funcs(prog.take(i as int)) == Ok::<Seq<Func>, RuntimeError>(funcs@),
            failed matches Some(e) ==> register_funcs(prog.take(i as int)) == Err::<Seq<Func>, RuntimeError>(e),
        decreases funcs_ast.len(),
    {
        let func = funcs_ast.remove(0);
        assert(prog.take(i + 1).drop_last() =~= prog.take(i as int));
        assert(prog.take(i + 1).last() == func);
        assert(funcs_ast@ =~= prog.skip(i + 1));
        match eval_func_dec(func, &mut funcs) {
            Ok(()) => {},
            Err(e) => {
                failed = Some(e);
            },
        }
        i += 1;
    }
    match failed {
        Some(e) => {
            proof {
                lemma_register_error(prog, i as int);
            }
            return Err(e);
        },
        None => {},
    }
    assert(prog.take(i as int) =~= prog);
    let main_name = String::from_str("main");
    proof {
        lemma_funcs_index(funcs@, main_name@);
    }
    match find_func(&funcs, &main_name) {
        None => Err(RuntimeError::NoMain),
        Some(k) => {
            let mut context = Context::new();
            let no_args: Vec<Box<Node>> = Vec::new();
            assert(no_args@ =~= Seq::<Box<Node>>::empty());
            funcs[k].call(&no_args, &mut context, &funcs, MAX_DEPTH)
        },
    }
}

/// A declaration that fails stops the declarations after it.
proof fn lemma_register_error(prog: Seq<Box<Node>>, k: int)
    requires
        0 <= k <= prog.len(),
        register_funcs(prog.take(k)) is Err,
    ensures
        register_funcs(prog) == register_funcs(prog.take(k)),
    decreases prog.len() - k,
{
    if k < prog.len() {
        assert(prog.take(k + 1).drop_last() =~= prog.take(k));
        lemma_register_error(prog, k + 1);
    } else {
        assert(prog.take(k) =~= prog);
    }
}

} // verus!
