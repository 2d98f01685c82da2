//! Run-time values and the evaluation context: a global function table and a
//! stack of lexical variable scopes.

use crate::parser::ast::{expr_dv, Expr, ExprV, Literal, LiteralV};
use crate::utils::str_eq;
use vstd::prelude::*;

verus! {

/// A run-time value: a 64-bit signed integer, an owned string, or a function
/// (parameter names and body).  Functions are in practice stored only in the
/// context's function table, never in a variable slot.
pub enum Value {
    Int(i64),
    String(String),
    Function(Vec<String>, Box<Expr>),
}

/// The mathematical image of a [`Value`].
#[verifier::ext_equal]
pub enum ValueV {
    Int(int),
    Str(Seq<char>),
    Fun(Seq<Seq<char>>, ExprV),
}

impl DeepView for Value {
    type V = ValueV;

    open spec fn deep_view(&self) -> ValueV {
        match self {
            Value::Int(i) => ValueV::Int(*i as int),
            Value::String(s) => ValueV::Str(s@),
            Value::Function(params, body) => ValueV::Fun(params.deep_view(), body.deep_view()),
        }
    }
}

/// The value a literal converts to, or `None` for the unit literal, which
/// has no run-time value.
pub open spec fn literal_value(l: LiteralV) -> Option<ValueV> {
    match l {
        LiteralV::Int(i) => Some(ValueV::Int(i)),
        LiteralV::Str(s) => Some(ValueV::Str(s)),
        LiteralV::Unit => None,
    }
}

impl Value {
    /// Converts a literal to a run-time value.  Integer and string literals
    /// convert; the unit literal is rejected.
    pub fn from_literal(literal: Literal) -> (r: Result<Self, String>)
        ensures
            match literal_value(literal.deep_view()) {
                Some(v) => r matches Ok(val) && val.deep_view() == v,
                None => r is Err,
            },
    {
        match literal {
            Literal::Int(value) => Ok(Value::Int(value)),
            Literal::String(value) => Ok(Value::String(value)),
            _ => Err("Unsupported literal type for conversion".to_string()),
        }
    }
}

/// The mathematical image of a [`Context`]: the function table as a map from
/// name to parameter list and body, and the scope stack as a sequence of
/// maps, the last entry being the innermost scope.
#[verifier::ext_equal]
pub struct CtxV {
    pub funcs: Map<Seq<char>, (Seq<Seq<char>>, ExprV)>,
    pub scopes: Seq<Map<Seq<char>, ValueV>>,
}

/// The map described by an association list, later entries overriding
/// earlier ones.
pub open spec fn assoc_map<V>(s: Seq<(Seq<char>, V)>) -> Map<Seq<char>, V>
    decreases s.len(),
{
    if s.len() == 0 {
        Map::empty()
    } else {
        assoc_map(s.subrange(0, s.len() - 1)).insert(s[s.len() - 1].0, s[s.len() - 1].1)
    }
}

/// If position `i` holds the last occurrence of its key, the association
/// map sends that key to the value at `i`.
pub proof fn lemma_assoc_map_index<V>(s: Seq<(Seq<char>, V)>, i: int)
    requires
        0 <= i < s.len(),
        forall|j: int| i < j < s.len() ==> s[j].0 != s[i].0,
    ensures
        assoc_map(s).contains_key(s[i].0),
        assoc_map(s)[s[i].0] == s[i].1,
    decreases s.len(),
{
    if i < s.len() - 1 {
        lemma_assoc_map_index(s.subrange(0, s.len() - 1), i);
    }
}

/// A key that occurs nowhere in the list is absent from its map.
pub proof fn lemma_assoc_map_absent<V>(s: Seq<(Seq<char>, V)>, k: Seq<char>)
    requires
        forall|j: int| 0 <= j < s.len() ==> s[j].0 != k,
    ensures
        !assoc_map(s).contains_key(k),
    decreases s.len(),
{
    if s.len() > 0 {
        lemma_assoc_map_absent(s.subrange(0, s.len() - 1), k);
    }
}

/// The context after binding `name` to `v` in the innermost scope.  With no
/// scope on the stack the binding is silently dropped.
pub open spec fn ctx_set_var(c: CtxV, name: Seq<char>, v: ValueV) -> CtxV {
    if c.scopes.len() == 0 {
        c
    } else {
        CtxV {
            funcs: c.funcs,
            scopes: c.scopes.update(c.scopes.len() - 1, c.scopes.last().insert(name, v)),
        }
    }
}

/// The context after registering a function, overwriting any prior
/// definition of the same name.
pub open spec fn ctx_set_fn(c: CtxV, name: Seq<char>, params: Seq<Seq<char>>, body: ExprV) -> CtxV {
    CtxV { funcs: c.funcs.insert(name, (params, body)), scopes: c.scopes }
}

/// The context after pushing one fresh innermost scope.
pub open spec fn ctx_push(c: CtxV) -> CtxV {
    CtxV { funcs: c.funcs, scopes: c.scopes.push(Map::empty()) }
}

/// The context after popping the innermost scope; popping an empty stack
/// leaves the context unchanged.
pub open spec fn ctx_pop(c: CtxV) -> CtxV {
    if c.scopes.len() == 0 {
        c
    } else {
        CtxV { funcs: c.funcs, scopes: c.scopes.subrange(0, c.scopes.len() - 1) }
    }
}

/// Variable lookup: searches the scope stack from the innermost scope
/// outward and returns the first binding found.
pub open spec fn scopes_lookup(scopes: Seq<Map<Seq<char>, ValueV>>, name: Seq<char>) -> Option<
    ValueV,
>
    decreases scopes.len(),
{
    if scopes.len() == 0 {
        None
    } else if scopes.last().contains_key(name) {
        Some(scopes.last()[name])
    } else {
        scopes_lookup(scopes.subrange(0, scopes.len() - 1), name)
    }
}

/// The context of a fresh program run: no functions, one empty scope.
pub open spec fn initial_ctx() -> CtxV {
    CtxV { funcs: Map::empty(), scopes: seq![Map::empty()] }
}

/// The evaluation context: the global function table and the stack of
/// lexical variable scopes, innermost last.
pub struct Context {
    functions: Vec<(String, (Vec<String>, Box<Expr>))>,
    variable_stack: Vec<Vec<(String, Value)>>,
}

impl View for Context {
    type V = CtxV;

    closed spec fn view(&self) -> CtxV {
        CtxV {
            funcs: assoc_map(self.functions.deep_view()),
            scopes: Seq::new(
                self.variable_stack@.len(),
                |i: int| assoc_map(self.variable_stack@[i].deep_view()),
            ),
        }
    }
}

impl Context {
    /// A fresh context: an empty function table and a single empty scope.
    pub fn new() -> (r: Self)
        ensures
            r@ == initial_ctx(),
    {
        let mut stack: Vec<Vec<(String, Value)>> = Vec::new();
        stack.push(Vec::new());
        let r = Context { functions: Vec::new(), variable_stack: stack };
        proof {
            assert(r@.scopes =~~= initial_ctx().scopes);
            assert(r@ =~~= initial_ctx());
        }
        r
    }

    /// Pushes one fresh innermost scope.
    pub fn push_scope(&mut self)
        ensures
            final (self)@ == ctx_push(old(self)@),
    {
        self.variable_stack.push(Vec::new());
        proof {
            assert(self@ =~~= ctx_push(old(self)@));
        }
    }

    /// Pops the innermost scope; popping an empty stack does nothing.
    pub fn pop_scope(&mut self)
        ensures
            final (self)@ == ctx_pop(old(self)@),
    {
        let _dropped = self.variable_stack.pop();
        proof {
            assert(self@ =~~= ctx_pop(old(self)@));
        }
    }

    /// Binds `name` to `value` in the innermost scope, overwriting any
    /// binding of that name already there.  Outer scopes are never written.
    pub fn set_variable(&mut self, name: String, value: Value)
        ensures
            final (self)@ == ctx_set_var(old(self)@, name@, value.deep_view()),
    {
        let n = self.variable_stack.len();
        if n > 0 {
            let ghost old_entries = self.variable_stack@[n - 1].deep_view();
            self.variable_stack[n - 1].push((name, value));
            proof {
                assert(self.variable_stack@[n - 1].deep_view() =~= old_entries.push(
                    (name@, value.deep_view()),
                ));
                assert(old_entries.push((name@, value.deep_view())).subrange(
                    0,
                    old_entries.len() as int,
                ) =~= old_entries);
                assert(self@ =~~= ctx_set_var(old(self)@, name@, value.deep_view()));
            }
        }
    }

    /// Reads `name`, searching from the innermost scope outward.
    #[verifier::loop_isolation(false)]
    pub fn get_variable(&self, name: &str) -> (r: Option<&Value>)
        ensures
            match scopes_lookup(self@.scopes, name@) {
                Some(v) => r matches Some(val) && val.deep_view() == v,
                None => r is None,
            },
    {
        let depth = self.variable_stack.len();
        proof {
            assert(self@.scopes.subrange(0, depth as int) =~= self@.scopes);
        }
        let mut level: usize = depth;
        while level > 0
            invariant
                level <= depth,
                scopes_lookup(self@.scopes, name@) == scopes_lookup(
                    self@.scopes.subrange(0, level as int),
                    name@,
                ),
            decreases level,
        {
            level = level - 1;
            let m = self.variable_stack[level].len();
            let mut k: usize = m;
            while k > 0
                invariant
                    k <= m,
                    forall|j: int|
                        k as int <= j < m as int ==> self.variable_stack@[level as int].deep_view()[j].0
                            != name@,
                decreases k,
            {
                k = k - 1;
                if str_eq(self.variable_stack[level][k].0.as_str(), name) {
                    proof {
                        lemma_assoc_map_index(
                            self.variable_stack@[level as int].deep_view(),
                            k as int,
                        );
                        assert(self@.scopes.subrange(0, level as int + 1).last() == assoc_map(
                            self.variable_stack@[level as int].deep_view(),
                        ));
                    }
                    return Some(&self.variable_stack[level][k].1);
                }
            }
            proof {
                lemma_assoc_map_absent(self.variable_stack@[level as int].deep_view(), name@);
                assert(self@.scopes.subrange(0, level as int + 1).subrange(0, level as int)
                    =~= self@.scopes.subrange(0, level as int));
            }
        }
        proof {
            assert(self@.scopes.subrange(0, 0) =~= Seq::<Map<Seq<char>, ValueV>>::empty());
        }
        None
    }

    /// Registers a function, overwriting any prior definition of the name.
    pub fn set_function(&mut self, name: String, params: Vec<String>, body: Expr)
        ensures
            final (self)@ == ctx_set_fn(old(self)@, name@, params.deep_view(), body.deep_view()),
    {
        let ghost old_entries = self.functions.deep_view();
        self.functions.push((name, (params, Box::new(body))));
        proof {
            assert(self.functions.deep_view() =~= old_entries.push(
                (name@, (params.deep_view(), expr_dv(body))),
            ));
            assert(old_entries.push((name@, (params.deep_view(), expr_dv(body)))).subrange(
                0,
                old_entries.len() as int,
            ) =~= old_entries);
            assert(self@ =~~= ctx_set_fn(old(self)@, name@, params.deep_view(), body.deep_view()));
        }
    }

    /// Looks a function up by name.
    #[verifier::loop_isolation(false)]
    pub fn get_function(&self, name: &str) -> (r: Option<&(Vec<String>, Box<Expr>)>)
        ensures
            self@.funcs.contains_key(name@) ==> (r matches Some(f) && f.0.deep_view()
                == self@.funcs[name@].0 && f.1.deep_view() == self@.funcs[name@].1),
            !self@.funcs.contains_key(name@) ==> r is None,
    {
        let m = self.functions.len();
        let mut k: usize = m;
        while k > 0
            invariant
                k <= m,
                m == self.functions@.len(),
                forall|j: int|
                    k as int <= j < m as int ==> self.functions.deep_view()[j].0 != name@,
            decreases k,
        {
            k = k - 1;
            if str_eq(self.functions[k].0.as_str(), name) {
                proof {
                    lemma_assoc_map_index(self.functions.deep_view(), k as int);
                }
                return Some(&self.functions[k].1);
            }
        }
        proof {
            lemma_assoc_map_absent(self.functions.deep_view(), name@);
        }
        None
    }
}

} // verus!
