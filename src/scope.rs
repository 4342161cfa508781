use vstd::prelude::*;

use crate::ast::Node;
use crate::value::Value;
use crate::variable::Variable;

verus! {

/// The bindings of one block, as (name, variable) pairs in the order they
/// were made. A later binding of a name shadows an earlier one.
pub type ScopeModel = Seq<(Seq<char>, Variable)>;

/// The bindings made in one block.
pub struct Scope {
    pub vars: Vec<(String, Variable)>,
}

impl View for Scope {
    type V = ScopeModel;

    open spec fn view(&self) -> ScopeModel {
        self.vars@.map_values(|p: (String, Variable)| (p.0@, p.1))
    }
}

/// The position of the binding of `name` that is visible in `s`: the last one.
pub open spec fn scope_index(s: ScopeModel, name: Seq<char>) -> Option<int>
    decreases s.len(),
{
    if s.len() == 0 {
        None
    } else if s.last().0 == name {
        Some(s.len() - 1)
    } else {
        scope_index(s.drop_last(), name)
    }
}

pub proof fn lemma_scope_index(s: ScopeModel, name: Seq<char>)
    ensures
        scope_index(s, name) matches Some(j) ==> 0 <= j < s.len() && s[j].0 == name,
        scope_index(s, name) is None ==> forall|j: int| 0 <= j < s.len() ==> s[j].0 != name,
    decreases s.len(),
{
    if s.len() > 0 && s.last().0 != name {
        lemma_scope_index(s.drop_last(), name);
        assert forall|j: int| 0 <= j < s.len() && scope_index(s, name) is None implies s[j].0 != name by {
            if j < s.len() - 1 {
                assert(s[j] == s.drop_last()[j]);
            }
        }
    }
}

/// The name a parameter node binds, when it is a parameter.
pub open spec fn param_name(p: Node) -> Option<Seq<char>> {
    match p {
        Node::FuncParam(var, _, _) => match *var {
            Node::Var(name) => Some(name@),
            _ => None,
        },
        _ => None,
    }
}

/// The binding that a parameter node makes for the value `v`.
pub open spec fn param_binding(p: Node, v: Value) -> (Seq<char>, Variable) {
    match p {
        Node::FuncParam(var, typ, mutable) => match *var {
            Node::Var(name) => (name@, Variable { value: v, mutable, typ }),
            _ => (Seq::empty(), Variable { value: v, mutable: false, typ }),
        },
        _ => (Seq::empty(), Variable { value: v, mutable: false, typ: crate::types::LiteralType::Void }),
    }
}

/// The bindings that parameter nodes make for their values; a node that is
/// not a parameter binds nothing.
pub open spec fn params_scope(ps: Seq<(Node, Value)>) -> ScopeModel
    decreases ps.len(),
{
    if ps.len() == 0 {
        Seq::empty()
    } else {
        let rest = params_scope(ps.drop_last());
        let (p, v) = ps.last();
        if param_name(p) is Some {
            rest.push(param_binding(p, v))
        } else {
            rest
        }
    }
}

/// The bindings for a function's parameters while its body is type checked:
/// each parameter with its declared type and mutability, and no value.
pub open spec fn param_types_scope(params: Seq<Box<Node>>) -> ScopeModel {
    params_scope(params.map_values(|p: Box<Node>| (*p, Value::Unit)))
}

impl Scope {
    pub fn new() -> (r: Scope)
        ensures
            r@ == Seq::<(Seq<char>, Variable)>::empty(),
    {
        Scope { vars: Vec::new() }
    }

    /// A scope that binds each parameter to the value paired with it.
    pub fn init(vars: Vec<(&Node, Value)>) -> (r: Scope)
        ensures
            r@ == params_scope(vars@.map_values(|p: (&Node, Value)| (*p.0, p.1))),
    {
        let ghost ps = vars@.map_values(|p: (&Node, Value)| (*p.0, p.1));
        let mut scope = Scope::new();
        let mut i: usize = 0;
        while i < vars.len()
            invariant
                0 <= i <= vars.len(),
                ps == vars@.map_values(|p: (&Node, Value)| (*p.0, p.1)),
                scope@ == params_scope(ps.take(i as int)),
            decreases vars.len() - i,
        {
            let (param, arg) = &vars[i];
            assert(ps.take(i + 1).drop_last() =~= ps.take(i as int));
            match param {
                Node::FuncParam(var, typ, mutable) => match &**var {
                    Node::Var(name) => {
                        let v = Variable::new(arg.duplicate(), *mutable, *typ);
                        scope.push_binding(name.clone(), v);
                    },
                    _ => {},
                },
                _ => {},
            }
            i += 1;
        }
        assert(ps.take(vars.len() as int) =~= ps);
        scope
    }

    /// A scope that binds each parameter with its declared type and
    /// mutability, holding no value.
    pub fn init_param_types(params: &Vec<Box<Node>>) -> (r: Scope)
        ensures
            r@ == param_types_scope(params@),
    {
        let ghost ps = params@.map_values(|p: Box<Node>| (*p, Value::Unit));
        let mut scope = Scope::new();
        let mut i: usize = 0;
        while i < params.len()
            invariant
                0 <= i <= params.len(),
                ps == params@.map_values(|p: Box<Node>| (*p, Value::Unit)),
                scope@ == params_scope(ps.take(i as int)),
            decreases params.len() - i,
        {
            assert(ps.take(i + 1).drop_last() =~= ps.take(i as int));
            match &*params[i] {
                Node::FuncParam(var, typ, mutable) => match &**var {
                    Node::Var(name) => {
                        let v = Variable::new(Value::Unit, *mutable, *typ);
                        scope.push_binding(name.clone(), v);
                    },
                    _ => {},
                },
                _ => {},
            }
            i += 1;
        }
        assert(ps.take(params.len() as int) =~= ps);
        scope
    }

    /// Adds a binding, which shadows any earlier one of the same name.
    pub fn push_binding(&mut self, name: String, var: Variable)
        ensures
            final(self)@ == old(self)@.push((name@, var)),
    {
        self.vars.push((name, var));
        assert(self@ =~= old(self)@.push((name@, var)));
    }

    /// The position of the visible binding of `name`.
    pub fn find(&self, name: &String) -> (r: Option<usize>)
        ensures
            r matches Some(j) ==> scope_index(self@, name@) == Some(j as int),
            r is None ==> scope_index(self@, name@) is None,
    {
        let mut i: usize = self.vars.len();
        assert(self@.take(i as int) =~= self@);
        while i > 0
            invariant
                i <= self.vars.len(),
                scope_index(self@, name@) == scope_index(self@.take(i as int), name@),
            decreases i,
        {
            assert(self@.take(i as int).drop_last() =~= self@.take(i - 1));
            assert(self@.take(i as int).last() == self@[i - 1]);
            assert(self@[i - 1].0 == self.vars@[i - 1].0@);
            let found = self.vars[i - 1].0 == *name;
            if found {
                assert(self@.take(i as int).last().0 == name@);
                return Some(i - 1);
            }
            i -= 1;
        }
        None
    }

    /// Replaces the value of the binding at position `j`.
    pub fn set_value(&mut self, j: usize, value: Value)
        requires
            j < old(self)@.len(),
        ensures
            final(self)@ == old(self)@.update(
                j as int,
                (old(self)@[j as int].0, Variable { value, ..old(self)@[j as int].1 }),
            ),
    {
        let (name, mut var) = self.vars.remove(j);
        var.update_value(value);
        self.vars.insert(j, (name, var));
        assert(self@ =~= old(self)@.update(
            j as int,
            (old(self)@[j as int].0, Variable { value, ..old(self)@[j as int].1 }),
        ));
    }
}

} // verus!
