use vstd::prelude::*;

use crate::scope::{lemma_scope_index, scope_index, Scope, ScopeModel};
use crate::type_errors::ErrorKind;
use crate::types::LiteralType;
use crate::value::Value;
use crate::variable::Variable;

verus! {

/// The scopes of a context, outermost first.
pub type ContextModel = Seq<ScopeModel>;

/// A stack of scopes; the innermost scope is the last one.
pub struct Context {
    pub scopes: Vec<Scope>,
}

impl View for Context {
    type V = ContextModel;

    open spec fn view(&self) -> ContextModel {
        self.scopes@.map_values(|s: Scope| s@)
    }
}

/// Where the binding of `name` that is visible in `c` stands: the scope's
/// position and the position within that scope. Inner scopes come first.
pub open spec fn ctx_index(c: ContextModel, name: Seq<char>) -> Option<(int, int)>
    decreases c.len(),
{
    if c.len() == 0 {
        None
    } else {
        match scope_index(c.last(), name) {
            Some(j) => Some(((c.len() - 1) as int, j)),
            None => ctx_index(c.drop_last(), name),
        }
    }
}

/// The variable that `name` denotes in `c`.
pub open spec fn ctx_lookup(c: ContextModel, name: Seq<char>) -> Option<Variable> {
    match ctx_index(c, name) {
        Some((i, j)) => Some(c[i][j].1),
        None => None,
    }
}

/// `c` with a new binding in its innermost scope.
pub open spec fn ctx_insert(c: ContextModel, name: Seq<char>, var: Variable) -> ContextModel {
    if c.len() == 0 {
        c
    } else {
        c.update(c.len() - 1, c.last().push((name, var)))
    }
}

/// `c` with the value of the visible binding of `name` replaced.
pub open spec fn ctx_assign(c: ContextModel, name: Seq<char>, val: Value) -> ContextModel {
    match ctx_index(c, name) {
        Some((i, j)) => c.update(i, c[i].update(j, (c[i][j].0, Variable { value: val, ..c[i][j].1 }))),
        None => c,
    }
}

pub proof fn lemma_ctx_index(c: ContextModel, name: Seq<char>)
    ensures
        ctx_index(c, name) matches Some((i, j)) ==> 0 <= i < c.len() && 0 <= j < c[i].len()
            && c[i][j].0 == name,
    decreases c.len(),
{
    if c.len() > 0 {
        lemma_scope_index(c.last(), name);
        if scope_index(c.last(), name) is None {
            lemma_ctx_index(c.drop_last(), name);
        }
    }
}

/// Assigning leaves the number of scopes, and the names and declarations of
/// every binding, as they were.
pub proof fn lemma_ctx_assign_shape(c: ContextModel, name: Seq<char>, val: Value)
    ensures
        ctx_assign(c, name, val).len() == c.len(),
        forall|i: int| 0 <= i < c.len() ==> #[trigger] ctx_assign(c, name, val)[i].len() == c[i].len(),
{
    lemma_ctx_index(c, name);
}

impl Context {
    pub fn new() -> (r: Context)
        ensures
            r@ == Seq::<ScopeModel>::empty(),
    {
        Context { scopes: Vec::new() }
    }

    /// Binds `name` in the innermost scope, shadowing any earlier binding.
    pub fn insert_var(&mut self, name: String, mutable: bool, typ: LiteralType, value: Value)
        requires
            old(self)@.len() > 0,
        ensures
            final(self)@ == ctx_insert(old(self)@, name@, Variable { value, mutable, typ }),
    {
        let ghost n = name@;
        let new_var = Variable::new(value, mutable, typ);
        let last = self.scopes.len() - 1;
        let mut scope = self.scopes.remove(last);
        scope.push_binding(name, new_var);
        self.scopes.push(scope);
        assert(self@ =~= ctx_insert(old(self)@, n, Variable { value, mutable, typ }));
    }

    /// The position of the visible binding of `name`.
    pub fn find(&self, name: &String) -> (r: Option<(usize, usize)>)
        ensures
            r matches Some((i, j)) ==> ctx_index(self@, name@) == Some((i as int, j as int)),
            r is None ==> ctx_index(self@, name@) is None,
    {
        let mut i: usize = self.scopes.len();
        assert(self@.take(i as int) =~= self@);
        while i > 0
            invariant
                i <= self.scopes.len(),
                ctx_index(self@, name@) == ctx_index(self@.take(i as int), name@),
            decreases i,
        {
            assert(self@.take(i as int).drop_last() =~= self@.take(i - 1));
            assert(self@.take(i as int).last() == self.scopes@[i - 1]@);
            match self.scopes[i - 1].find(name) {
                Some(j) => {
                    return Some((i - 1, j));
                },
                None => {},
            }
            i -= 1;
        }
        None
    }

    /// Assigns `value` to the visible binding of `name`: the old value when
    /// there is no binding, the error `VarImmut` when it is immutable.
    pub fn update_var(&mut self, name: String, value: Value) -> (r: Result<Option<Value>, ErrorKind>)
        ensures
            match ctx_lookup(old(self)@, name@) {
                None => r == Ok::<Option<Value>, ErrorKind>(None) && final(self)@ == old(self)@,
                Some(var) => if var.mutable {
                    r == Ok::<Option<Value>, ErrorKind>(Some(value))
                        && final(self)@ == ctx_assign(old(self)@, name@, value)
                } else {
                    r == Err::<Option<Value>, ErrorKind>(ErrorKind::VarImmut { var: name })
                        && final(self)@ == old(self)@
                },
            },
    {
        proof {
            lemma_ctx_index(self@, name@);
        }
        match self.find(&name) {
            None => Ok(None),
            Some((i, j)) => {
                if !self.scopes[i].vars[j].1.is_mut() {
                    return Err(ErrorKind::VarImmut { var: name });
                }
                let mut scope = self.scopes.remove(i);
                scope.set_value(j, value.duplicate());
                self.scopes.insert(i, scope);
                assert(self@ =~= ctx_assign(old(self)@, name@, value));
                Ok(Some(value))
            },
        }
    }

    /// The variable that `name` denotes.
    pub fn get_var(&self, name: &str) -> (r: Option<&Variable>)
        ensures
            r matches Some(v) ==> ctx_lookup(self@, name@) == Some(*v),
            r is None ==> ctx_lookup(self@, name@) is None,
    {
        let key = name.to_owned();
        proof {
            lemma_ctx_index(self@, name@);
        }
        match self.find(&key) {
            None => None,
            Some((i, j)) => Some(&self.scopes[i].vars[j].1),
        }
    }

    /// The value of the variable that `name` denotes.
    pub fn get_var_value(&self, name: &str) -> (r: Option<Value>)
        ensures
            r == (match ctx_lookup(self@, name@) {
                Some(v) => Some(v.value),
                None => None,
            }),
    {
        match self.get_var(name) {
            Some(var) => Some(var.get_value()),
            None => None,
        }
    }

    pub fn push(&mut self, scope: Scope)
        ensures
            final(self)@ == old(self)@.push(scope@),
    {
        self.scopes.push(scope);
        assert(self@ =~= old(self)@.push(scope@));
    }

    /// Removes the innermost scope.
    pub fn pop(&mut self) -> (r: Scope)
        requires
            old(self)@.len() > 0,
        ensures
            final(self)@ == old(self)@.drop_last(),
            r@ == old(self)@.last(),
    {
        match self.scopes.pop() {
            Some(scope) => {
                assert(self@ =~= old(self)@.drop_last());
                scope
            },
            None => Scope::new(),
        }
    }
}

} // verus!
