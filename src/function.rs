use vstd::prelude::*;

use crate::ast::Node;
use crate::types::LiteralType;

verus! {

/// A declared function.
#[derive(Debug, PartialEq)]
pub struct Func {
    pub name: String,
    pub params: Vec<Box<Node>>,
    pub r_type: Option<LiteralType>,
    pub body: Box<Node>,
}

/// The functions of a program, in the order they were declared.
pub type Funcs = Vec<Func>;

/// The position of the function called `name`.
pub open spec fn funcs_index(fs: Seq<Func>, name: Seq<char>) -> Option<int>
    decreases fs.len(),
{
    if fs.len() == 0 {
        None
    } else {
        match funcs_index(fs.drop_last(), name) {
            Some(i) => Some(i),
            None => if fs.last().name@ == name {
                Some(fs.len() - 1)
            } else {
                None
            },
        }
    }
}

pub proof fn lemma_funcs_index(fs: Seq<Func>, name: Seq<char>)
    ensures
        funcs_index(fs, name) matches Some(i) ==> 0 <= i < fs.len() && fs[i].name@ == name,
        funcs_index(fs, name) is None ==> forall|i: int| 0 <= i < fs.len() ==> fs[i].name@ != name,
    decreases fs.len(),
{
    if fs.len() > 0 {
        lemma_funcs_index(fs.drop_last(), name);
        assert forall|i: int| 0 <= i < fs.len() - 1 implies fs[i] == fs.drop_last()[i] by {}
    }
}

/// The return type of a function declared with `r_type`: `Void` when none is written.
pub open spec fn ret_type(r_type: Option<LiteralType>) -> LiteralType {
    match r_type {
        Some(t) => t,
        None => LiteralType::Void,
    }
}

/// The names and types of the parameters; a node that is not a parameter is skipped.
pub open spec fn param_types(params: Seq<Box<Node>>) -> Seq<(String, LiteralType)>
    decreases params.len(),
{
    if params.len() == 0 {
        Seq::empty()
    } else {
        let rest = param_types(params.drop_last());
        match *params.last() {
            Node::FuncParam(var, typ, _) => match *var {
                Node::Var(name) => rest.push((name, typ)),
                _ => rest,
            },
            _ => rest,
        }
    }
}

/// Finds the function called `name`.
pub fn find_func(funcs: &Funcs, name: &String) -> (r: Option<usize>)
    ensures
        r matches Some(i) ==> funcs_index(funcs@, name@) == Some(i as int),
        r is None ==> funcs_index(funcs@, name@) is None,
{
    let mut i: usize = 0;
    while i < funcs.len()
        invariant
            i <= funcs.len(),
            funcs_index(funcs@.take(i as int), name@) is None,
        decreases funcs.len() - i,
    {
        assert(funcs@.take(i + 1).drop_last() =~= funcs@.take(i as int));
        if funcs[i].name == *name {
            proof {
                lemma_funcs_index_prefix(funcs@, i as int + 1, name@);
            }
            return Some(i);
        }
        i += 1;
    }
    assert(funcs@.take(i as int) =~= funcs@);
    None
}

/// A function found among the first `k` stays the one found among all.
pub proof fn lemma_funcs_index_prefix(fs: Seq<Func>, k: int, name: Seq<char>)
    requires
        0 <= k <= fs.len(),
        funcs_index(fs.take(k), name) is Some,
    ensures
        funcs_index(fs, name) == funcs_index(fs.take(k), name),
    decreases fs.len() - k,
{
    if k < fs.len() {
        assert(fs.take(k + 1).drop_last() =~= fs.take(k));
        lemma_funcs_index_prefix(fs, k + 1, name);
    } else {
        assert(fs.take(k) =~= fs);
    }
}

impl Func {
    pub fn new(name: String, params: Vec<Box<Node>>, r_type: Option<LiteralType>, body: Box<Node>) -> (r: Func)
        ensures
            r == (Func { name, params, r_type, body }),
    {
        Func { name, params, r_type, body }
    }

    /// The declared return type, `Void` when none is written.
    pub fn get_r_type(&self) -> (r: LiteralType)
        ensures
            r == ret_type(self.r_type),
    {
        match self.r_type {
            Some(typ) => typ,
            None => LiteralType::Void,
        }
    }

    /// The names and types of the parameters, in order.
    pub fn get_param_types(&self) -> (r: Vec<(String, LiteralType)>)
        ensures
            r@ == param_types(self.params@),
    {
        let mut out: Vec<(String, LiteralType)> = Vec::new();
        let mut i: usize = 0;
        while i < self.params.len()
            invariant
                i <= self.params.len(),
                out@ == param_types(self.params@.take(i as int)),
            decreases self.params.len() - i,
        {
            assert(self.params@.take(i + 1).drop_last() =~= self.params@.take(i as int));
            match &*self.params[i] {
                Node::FuncParam(var, typ, _) => match &**var {
                    Node::Var(name) => {
                        out.push((name.clone(), *typ));
                    },
                    _ => {},
                },
                _ => {},
            }
            i += 1;
        }
        assert(self.params@.take(i as int) =~= self.params@);
        out
    }
}

} // verus!
