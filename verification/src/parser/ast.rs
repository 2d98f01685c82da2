//! The closed set of expression shapes the parser produces.

use vstd::prelude::*;

verus! {

/// One node of the abstract syntax tree.  Every node exclusively owns its
/// children; the tree is immutable and acyclic.
#[derive(Debug, PartialEq)]
pub enum Expr {
    FunctionDef { name: String, params: Vec<String>, body: Box<Expr> },
    FunctionCall { name: String, args: Vec<Expr> },
    IfExpr { condition: Box<Expr>, consequence: Box<Expr>, alternative: Option<Box<Expr>> },
    WhileLoop { condition: Box<Expr>, body: Box<Expr> },
    Assignment { name: String, value: Box<Expr> },
    BinaryOp { left: Box<Expr>, op: Op, right: Box<Expr> },
    Literal(Literal),
    Variable(String),
    Block(Vec<Expr>),
    Return(Box<Expr>),
}

/// A literal value: a 64-bit signed integer, an owned string, or unit.
#[derive(Debug, PartialEq)]
pub enum Literal {
    Int(i64),
    String(String),
    Unit,
}

/// A binary operator.
#[derive(Clone, Copy, Debug, PartialEq)]
pub enum Op {
    Add,
    Subtract,
    Multiply,
    Divide,
    LessThan,
    GreaterThan,
}

/// The mathematical image of a [`Literal`].
#[verifier::ext_equal]
pub enum LiteralV {
    Int(int),
    Str(Seq<char>),
    Unit,
}

/// The mathematical image of an [`Expr`]: names become character sequences,
/// child lists become sequences, and integers become unbounded.  The
/// semantics and the grammar are both stated over this type.
#[verifier::ext_equal]
pub enum ExprV {
    FunctionDef { name: Seq<char>, params: Seq<Seq<char>>, body: Box<ExprV> },
    FunctionCall { name: Seq<char>, args: Seq<ExprV> },
    IfExpr { condition: Box<ExprV>, consequence: Box<ExprV>, alternative: Option<Box<ExprV>> },
    WhileLoop { condition: Box<ExprV>, body: Box<ExprV> },
    Assignment { name: Seq<char>, value: Box<ExprV> },
    BinaryOp { left: Box<ExprV>, op: Op, right: Box<ExprV> },
    Literal(LiteralV),
    Variable(Seq<char>),
    Block(Seq<ExprV>),
    Return(Box<ExprV>),
}

/// The image of a literal.
pub open spec fn lit_dv(l: Literal) -> LiteralV {
    match l {
        Literal::Int(i) => LiteralV::Int(i as int),
        Literal::String(s) => LiteralV::Str(s@),
        Literal::Unit => LiteralV::Unit,
    }
}

/// The image of an expression tree.
pub open spec fn expr_dv(e: Expr) -> ExprV
    decreases e,
    via expr_dv_dec
{
    match e {
        Expr::FunctionDef { name, params, body } => ExprV::FunctionDef {
            name: name@,
            params: params.deep_view(),
            body: Box::new(expr_dv(*body)),
        },
        Expr::FunctionCall { name, args } => ExprV::FunctionCall {
            name: name@,
            args: exprs_dv(args@),
        },
        Expr::IfExpr { condition, consequence, alternative } => ExprV::IfExpr {
            condition: Box::new(expr_dv(*condition)),
            consequence: Box::new(expr_dv(*consequence)),
            alternative: match alternative {
                Option::Some(a) => Option::Some(Box::new(expr_dv(*a))),
                Option::None => Option::None,
            },
        },
        Expr::WhileLoop { condition, body } => ExprV::WhileLoop {
            condition: Box::new(expr_dv(*condition)),
            body: Box::new(expr_dv(*body)),
        },
        Expr::Assignment { name, value } => ExprV::Assignment {
            name: name@,
            value: Box::new(expr_dv(*value)),
        },
        Expr::BinaryOp { left, op, right } => ExprV::BinaryOp {
            left: Box::new(expr_dv(*left)),
            op,
            right: Box::new(expr_dv(*right)),
        },
        Expr::Literal(l) => ExprV::Literal(lit_dv(l)),
        Expr::Variable(n) => ExprV::Variable(n@),
        Expr::Block(es) => ExprV::Block(exprs_dv(es@)),
        Expr::Return(inner) => ExprV::Return(Box::new(expr_dv(*inner))),
    }
}

/// The image of a sequence of expressions, elementwise.
pub open spec fn exprs_dv(es: Seq<Expr>) -> Seq<ExprV>
    decreases es,
{
    if es.len() == 0 {
        Seq::empty()
    } else {
        seq![expr_dv(es[0])] + exprs_dv(es.subrange(1, es.len() as int))
    }
}

/// [`exprs_dv`] maps [`expr_dv`] over the sequence.
pub broadcast proof fn lemma_exprs_dv(es: Seq<Expr>)
    ensures
        (#[trigger] exprs_dv(es)).len() == es.len(),
        forall|i: int| 0 <= i < es.len() ==> exprs_dv(es)[i] == expr_dv(es[i]),
    decreases es.len(),
{
    if es.len() > 0 {
        lemma_exprs_dv(es.subrange(1, es.len() as int));
    }
}

/// Termination of [`expr_dv`]: a child reached through a vector of
/// sub-expressions is smaller than the node that owns the vector.
#[via_fn]
proof fn expr_dv_dec(e: Expr) {
    match e {
        Expr::FunctionCall { name, args } => {
            assert(decreases_to!(e => args));
            assert(decreases_to!(args => args@));
            assert(decreases_to!(e => args@));
        },
        Expr::Block(es) => {
            assert(decreases_to!(e => es));
            assert(decreases_to!(es => es@));
            assert(decreases_to!(e => es@));
        },
        _ => {},
    }
}

impl DeepView for Literal {
    type V = LiteralV;

    open spec fn deep_view(&self) -> LiteralV {
        lit_dv(*self)
    }
}

impl DeepView for Expr {
    type V = ExprV;

    open spec fn deep_view(&self) -> ExprV {
        expr_dv(*self)
    }
}

impl Clone for Literal {
    /// Cloning yields a literal equal to the original.
    fn clone(&self) -> (res: Self)
        ensures
            res == *self,
    {
        match self {
            Literal::Int(i) => Literal::Int(*i),
            Literal::String(s) => Literal::String(s.clone()),
            Literal::Unit => Literal::Unit,
        }
    }
}

/// Copies an expression tree.  The copy has the same mathematical image as
/// the original.
#[verifier::loop_isolation(false)]
pub fn clone_expr(e: &Expr) -> (res: Expr)
    ensures
        res.deep_view() == e.deep_view(),
    decreases *e,
{
    match e {
        Expr::FunctionDef { name, params, body } => {
            let res = Expr::FunctionDef {
                name: name.clone(),
                params: params.clone(),
                body: Box::new(clone_expr(body)),
            };
            proof {
                lemma_string_vec_clone_dv(*params, res->FunctionDef_params);
            }
            res
        },
        Expr::FunctionCall { name, args } => {
            let mut copied: Vec<Expr> = Vec::new();
            let n = args.len();
            let mut i: usize = 0;
            while i < n
                invariant
                    i <= n,
                    n == args@.len(),
                    copied@.len() == i as int,
                    forall|j: int|
                        0 <= j < i as int ==> expr_dv(copied@[j]) == expr_dv(args@[j]),
                decreases n - i,
            {
                proof {
                    assert(decreases_to!(*e => (*e)->FunctionCall_args));
                    assert(decreases_to!((*e)->FunctionCall_args => (*e)->FunctionCall_args@));
                    assert(decreases_to!(
                        (*e)->FunctionCall_args@ => (*e)->FunctionCall_args@[i as int]));
                    assert(decreases_to!(*e => args@[i as int]));
                }
                copied.push(clone_expr(&args[i]));
                i = i + 1;
            }
            let res = Expr::FunctionCall { name: name.clone(), args: copied };
            proof {
                lemma_exprs_dv(copied@);
                lemma_exprs_dv(args@);
                let rv = res.deep_view();
                let ev = e.deep_view();
                assert(rv->FunctionCall_args =~= ev->FunctionCall_args);
                assert(rv =~= ev);
            }
            res
        },
        Expr::IfExpr { condition, consequence, alternative } => Expr::IfExpr {
            condition: Box::new(clone_expr(condition)),
            consequence: Box::new(clone_expr(consequence)),
            alternative: match alternative {
                Option::Some(a) => Option::Some(Box::new(clone_expr(a))),
                Option::None => Option::None,
            },
        },
        Expr::WhileLoop { condition, body } => Expr::WhileLoop {
            condition: Box::new(clone_expr(condition)),
            body: Box::new(clone_expr(body)),
        },
        Expr::Assignment { name, value } => Expr::Assignment {
            name: name.clone(),
            value: Box::new(clone_expr(value)),
        },
        Expr::BinaryOp { left, op, right } => Expr::BinaryOp {
            left: Box::new(clone_expr(left)),
            op: *op,
            right: Box::new(clone_expr(right)),
        },
        Expr::Literal(l) => Expr::Literal(l.clone()),
        Expr::Variable(n) => Expr::Variable(n.clone()),
        Expr::Block(es) => {
            let mut copied: Vec<Expr> = Vec::new();
            let n = es.len();
            let mut i: usize = 0;
            while i < n
                invariant
                    i <= n,
                    n == es@.len(),
                    copied@.len() == i as int,
                    forall|j: int|
                        0 <= j < i as int ==> expr_dv(copied@[j]) == expr_dv(es@[j]),
                decreases n - i,
            {
                proof {
                    assert(decreases_to!(*e => (*e)->Block_0));
                    assert(decreases_to!((*e)->Block_0 => (*e)->Block_0@));
                    assert(decreases_to!((*e)->Block_0@ => (*e)->Block_0@[i as int]));
                    assert(decreases_to!(*e => es@[i as int]));
                }
                copied.push(clone_expr(&es[i]));
                i = i + 1;
            }
            let res = Expr::Block(copied);
            proof {
                lemma_exprs_dv(copied@);
                lemma_exprs_dv(es@);
                let rv = res.deep_view();
                let ev = e.deep_view();
                assert(rv->Block_0 =~= ev->Block_0);
                assert(rv =~= ev);
            }
            res
        },
        Expr::Return(inner) => Expr::Return(Box::new(clone_expr(inner))),
    }
}

impl Clone for Expr {
    /// Cloning preserves the mathematical image of the tree.
    fn clone(&self) -> (res: Self)
        ensures
            res.deep_view() == self.deep_view(),
    {
        clone_expr(self)
    }
}

/// A clone of a vector of names keeps its image: each cloned string is
/// equal to the original, so the two deep views agree.
pub proof fn lemma_string_vec_clone_dv(a: Vec<String>, b: Vec<String>)
    requires
        a@.len() == b@.len(),
        forall|i: int| 0 <= i < a@.len() ==> cloned::<String>(a@[i], b@[i]),
    ensures
        b.deep_view() == a.deep_view(),
{
    assert forall|i: int| 0 <= i < a@.len() implies a@[i]@ == b@[i]@ by {
        assert(cloned::<String>(a@[i], b@[i]));
    }
    assert(b.deep_view() =~= a.deep_view());
}

} // verus!
