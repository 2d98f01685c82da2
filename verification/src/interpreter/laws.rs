//! Laws of the language, proved against the big-step semantics of
//! [`crate::interpreter::semantics`].  [`Evaluator::evaluate`] is proved to
//! follow that semantics, so each law carries over to the executable
//! evaluator.
//!
//! [`Evaluator::evaluate`]: crate::interpreter::evaluator::Evaluator::evaluate

use crate::interpreter::context::{
    ctx_pop, ctx_push, ctx_set_var, literal_value, scopes_lookup, CtxV, ValueV,
};
use crate::interpreter::semantics::{
    eval_call, eval_call_full, eval_expr, eval_stmts, eval_while, i64_in_range, trunc_div,
    EvalResult, OutcomeV,
};
use crate::parser::ast::{ExprV, LiteralV, Op};
use vstd::prelude::*;

verus! {

/// A binary operation whose operands are the integer literals `a` and `b`.
pub open spec fn int_binop_node(a: int, op: Op, b: int) -> ExprV {
    ExprV::BinaryOp {
        left: Box::new(ExprV::Literal(LiteralV::Int(a))),
        op,
        right: Box::new(ExprV::Literal(LiteralV::Int(b))),
    }
}

/// Law: evaluating `a + b`, `a - b`, `a * b` or `a / b` on integer
/// literals yields exactly the arithmetic result, with division truncating
/// toward zero, whenever that result fits the 64-bit signed range (and,
/// for division, the divisor is nonzero).  The context is untouched.
pub proof fn lemma_arithmetic_exact(c: CtxV, a: int, b: int, op: Op, fuel: nat)
    requires
        fuel >= 2,
        i64_in_range(a),
        i64_in_range(b),
        op == Op::Add || op == Op::Subtract || op == Op::Multiply || op == Op::Divide,
        op == Op::Add ==> i64_in_range(a + b),
        op == Op::Subtract ==> i64_in_range(a - b),
        op == Op::Multiply ==> i64_in_range(a * b),
        op == Op::Divide ==> b != 0 && i64_in_range(trunc_div(a, b)),
    ensures
        eval_expr(c, int_binop_node(a, op, b), fuel) == EvalResult::Done(
            OutcomeV::Value(
                LiteralV::Int(
                    match op {
                        Op::Add => a + b,
                        Op::Subtract => a - b,
                        Op::Multiply => a * b,
                        _ => trunc_div(a, b),
                    },
                ),
            ),
            c,
        ),
{
    reveal_with_fuel(eval_expr, 3);
}

/// Law: `a / 0` fails, whatever `a` is.
pub proof fn lemma_division_by_zero_fails(c: CtxV, a: int, fuel: nat)
    requires
        fuel >= 2,
        i64_in_range(a),
    ensures
        eval_expr(c, int_binop_node(a, Op::Divide, 0), fuel) == EvalResult::Fail,
{
    reveal_with_fuel(eval_expr, 3);
}

/// Law: `a < b` yields the integer 1 exactly when `a < b` and 0 otherwise;
/// symmetrically, `a > b` yields 1 exactly when `a > b` and 0 otherwise.
/// The context is untouched.
pub proof fn lemma_comparison_exact(c: CtxV, a: int, b: int, fuel: nat)
    requires
        fuel >= 2,
        i64_in_range(a),
        i64_in_range(b),
    ensures
        eval_expr(c, int_binop_node(a, Op::LessThan, b), fuel) == EvalResult::Done(
            OutcomeV::Value(LiteralV::Int(if a < b { 1int } else { 0int })),
            c,
        ),
        eval_expr(c, int_binop_node(a, Op::GreaterThan, b), fuel) == EvalResult::Done(
            OutcomeV::Value(LiteralV::Int(if a > b { 1int } else { 0int })),
            c,
        ),
{
    reveal_with_fuel(eval_expr, 3);
}

/// Law: assigning an integer or string literal to a name and then reading
/// that name in the same scope returns the assigned value.  The assignment
/// itself yields unit and binds the name in the innermost scope.
pub proof fn lemma_assign_then_read(c: CtxV, name: Seq<char>, v: LiteralV, fuel: nat)
    requires
        fuel >= 2,
        c.scopes.len() > 0,
        literal_value(v) is Some,
    ensures
        ({
            let c1 = ctx_set_var(c, name, literal_value(v)->0);
            eval_expr(
                c,
                ExprV::Assignment { name, value: Box::new(ExprV::Literal(v)) },
                fuel,
            ) == EvalResult::Done(OutcomeV::Value(LiteralV::Unit), c1) && eval_expr(
                c1,
                ExprV::Variable(name),
                fuel,
            ) == EvalResult::Done(OutcomeV::Value(v), c1)
        }),
{
    reveal_with_fuel(eval_expr, 2);
    let c1 = ctx_set_var(c, name, literal_value(v)->0);
    assert(c1.scopes.last() == c.scopes.last().insert(name, literal_value(v)->0));
    assert(scopes_lookup(c1.scopes, name) == Some(literal_value(v)->0));
}

/// Law: an `if` with no `else` whose condition evaluates to 0 yields the
/// integer 0, leaving the context as the condition left it; the
/// consequence is not evaluated.
pub proof fn lemma_if_no_else_false(c: CtxV, cond: ExprV, cons: ExprV, c1: CtxV, fuel: nat)
    requires
        fuel >= 1,
        eval_expr(c, cond, (fuel - 1) as nat) == EvalResult::Done(
            OutcomeV::Value(LiteralV::Int(0)),
            c1,
        ),
    ensures
        eval_expr(
            c,
            ExprV::IfExpr {
                condition: Box::new(cond),
                consequence: Box::new(cons),
                alternative: None,
            },
            fuel,
        ) == EvalResult::Done(OutcomeV::Value(LiteralV::Int(0)), c1),
{
}

/// Law: a statement that evaluates to an unwinding `return` stops its
/// block at once — the statements after it are never evaluated — and the
/// `return` is the block's result.
pub proof fn lemma_return_stops_block(
    c: CtxV,
    stmts: Seq<ExprV>,
    i: int,
    rv: LiteralV,
    c1: CtxV,
    fuel: nat,
)
    requires
        0 <= i < stmts.len(),
        eval_expr(c, stmts[i], fuel) == EvalResult::Done(OutcomeV::Return(rv), c1),
    ensures
        eval_stmts(c, stmts, i, fuel) == EvalResult::Done(OutcomeV::Return(rv), c1),
{
}

/// Law: a `while` loop whose body evaluates to an unwinding `return`
/// stops at once — the condition is not tested again — and the `return`
/// is the loop's result.
pub proof fn lemma_return_stops_while(
    c: CtxV,
    cond: ExprV,
    body: ExprV,
    v: int,
    rv: LiteralV,
    c1: CtxV,
    c2: CtxV,
    fuel: nat,
)
    requires
        fuel >= 1,
        eval_expr(c, cond, fuel) == EvalResult::Done(OutcomeV::Value(LiteralV::Int(v)), c1),
        v != 0,
        eval_expr(c1, body, fuel) == EvalResult::Done(OutcomeV::Return(rv), c2),
    ensures
        eval_while(c, cond, body, fuel) == EvalResult::Done(OutcomeV::Return(rv), c2),
{
}

/// Law: calling a function with an argument count different from its
/// parameter count fails — there is no silent truncation — and calling an
/// undefined function fails too.
pub proof fn lemma_arity_mismatch_fails(c: CtxV, name: Seq<char>, args: Seq<ExprV>, fuel: nat)
    requires
        fuel >= 1,
        c.funcs.contains_key(name) ==> c.funcs[name].0.len() != args.len(),
    ensures
        eval_expr(c, ExprV::FunctionCall { name, args }, fuel) == EvalResult::Fail,
{
    assert(eval_call_full(c, name, args, (fuel - 1) as nat) == EvalResult::Fail);
}

/// Law: when the body of a call evaluates to an unwinding `return`, that
/// `return` — still carrying its tag — is the call's own result, seen by
/// the caller after the callee scope is popped.
pub proof fn lemma_return_is_call_result(
    c: CtxV,
    params: Seq<Seq<char>>,
    args: Seq<ExprV>,
    body: ExprV,
    rv: LiteralV,
    cb: CtxV,
    fuel: nat,
)
    requires
        eval_expr(c, body, fuel) == EvalResult::Done(OutcomeV::Return(rv), cb),
    ensures
        eval_call(c, params, args, args.len() as int, body, fuel) == EvalResult::Done(
            OutcomeV::Return(rv),
            ctx_pop(cb),
        ),
{
}

/// On completion, the scope stack keeps its depth and every scope below
/// the innermost is untouched: writes only ever target the innermost
/// scope.
pub open spec fn preserves_outer(c: CtxV, r: EvalResult) -> bool {
    r matches EvalResult::Done(out, c2) ==> c2.scopes.len() == c.scopes.len() && (forall|k: int|
        0 <= k < c.scopes.len() - 1 ==> c2.scopes[k] == c.scopes[k])
}

/// Evaluating any expression preserves the scopes below the innermost.
pub proof fn lemma_frame_expr(c: CtxV, e: ExprV, fuel: nat)
    ensures
        preserves_outer(c, eval_expr(c, e, fuel)),
    decreases fuel, 0int, 0int,
{
    if fuel == 0 {
        return ;
    }
    let f = (fuel - 1) as nat;
    match e {
        ExprV::Assignment { name, value } => {
            lemma_frame_expr(c, *value, f);
            match eval_expr(c, *value, f) {
                EvalResult::Done(OutcomeV::Value(lv), c1) => {
                    match literal_value(lv) {
                        Some(v) => {
                            let cs = ctx_set_var(c1, name, v);
                            assert(eval_expr(c, e, fuel) == EvalResult::Done(
                                OutcomeV::Value(LiteralV::Unit),
                                cs,
                            ));
                            assert(cs.scopes.len() == c.scopes.len());
                            assert forall|k: int|
                                0 <= k < c.scopes.len() - 1 implies cs.scopes[k]
                                == c.scopes[k] by {
                                assert(cs.scopes[k] == c1.scopes[k]);
                                assert(c1.scopes[k] == c.scopes[k]);
                            }
                        },
                        None => {
                            assert(eval_expr(c, e, fuel) == EvalResult::Fail);
                        },
                    }
                },
                EvalResult::Done(OutcomeV::Return(rv), c1) => {
                    assert(eval_expr(c, e, fuel) == EvalResult::Done(OutcomeV::Return(rv), c1));
                },
                _ => {
                    assert(eval_expr(c, e, fuel) == eval_expr(c, *value, f));
                },
            }
        },
        ExprV::BinaryOp { left, op, right } => {
            lemma_frame_expr(c, *left, f);
            match eval_expr(c, *left, f) {
                EvalResult::Done(o1, c1) => {
                    lemma_frame_expr(c1, *right, f);
                },
                _ => {},
            }
        },
        ExprV::IfExpr { condition, consequence, alternative } => {
            lemma_frame_expr(c, *condition, f);
            match eval_expr(c, *condition, f) {
                EvalResult::Done(OutcomeV::Value(LiteralV::Int(v)), c1) => {
                    if v != 0 {
                        lemma_frame_expr(c1, *consequence, f);
                    } else {
                        match alternative {
                            Some(a) => {
                                lemma_frame_expr(c1, *a, f);
                            },
                            None => {},
                        }
                    }
                },
                _ => {},
            }
        },
        ExprV::WhileLoop { condition, body } => {
            lemma_frame_while(c, *condition, *body, f);
        },
        ExprV::Block(stmts) => {
            lemma_frame_stmts(c, stmts, 0, f);
        },
        ExprV::Return(inner) => {
            lemma_frame_expr(c, *inner, f);
        },
        ExprV::FunctionCall { name, args } => {
            assert(eval_expr(c, e, fuel) == eval_call_full(c, name, args, f));
            if c.funcs.contains_key(name) && c.funcs[name].0.len() == args.len() {
                let cp = ctx_push(c);
                lemma_frame_call(cp, c.funcs[name].0, args, 0, c.funcs[name].1, f);
                match eval_call(cp, c.funcs[name].0, args, 0, c.funcs[name].1, f) {
                    EvalResult::Done(out, c2) => {
                        assert(c2.scopes =~= c.scopes);
                    },
                    _ => {},
                }
            }
        },
        _ => {},
    }
}

/// Evaluating a `while` loop preserves the scopes below the innermost.
pub proof fn lemma_frame_while(c: CtxV, cond: ExprV, body: ExprV, fuel: nat)
    ensures
        preserves_outer(c, eval_while(c, cond, body, fuel)),
    decreases fuel, 1int, 0int,
{
    if fuel == 0 {
        return ;
    }
    lemma_frame_expr(c, cond, fuel);
    match eval_expr(c, cond, fuel) {
        EvalResult::Done(OutcomeV::Value(LiteralV::Int(v)), c1) => {
            if v != 0 {
                lemma_frame_expr(c1, body, fuel);
                match eval_expr(c1, body, fuel) {
                    EvalResult::Done(OutcomeV::Value(_), c2) => {
                        lemma_frame_while(c2, cond, body, (fuel - 1) as nat);
                    },
                    _ => {},
                }
            }
        },
        _ => {},
    }
}

/// Evaluating the statements of a block preserves the scopes below the
/// innermost.
pub proof fn lemma_frame_stmts(c: CtxV, stmts: Seq<ExprV>, i: int, fuel: nat)
    ensures
        preserves_outer(c, eval_stmts(c, stmts, i, fuel)),
    decreases fuel, 1int, stmts.len() - i,
{
    if 0 <= i < stmts.len() {
        lemma_frame_expr(c, stmts[i], fuel);
        match eval_expr(c, stmts[i], fuel) {
            EvalResult::Done(OutcomeV::Value(_), c1) => {
                lemma_frame_stmts(c1, stmts, i + 1, fuel);
            },
            _ => {},
        }
    }
}

/// Binding the remaining arguments and running the body leaves, after the
/// final pop, exactly the scopes below the callee's own.
pub proof fn lemma_frame_call(
    c: CtxV,
    params: Seq<Seq<char>>,
    args: Seq<ExprV>,
    i: int,
    body: ExprV,
    fuel: nat,
)
    requires
        c.scopes.len() > 0,
    ensures
        eval_call(c, params, args, i, body, fuel) matches EvalResult::Done(out, c2) ==> c2.scopes
            == c.scopes.subrange(0, c.scopes.len() - 1),
    decreases fuel, 1int, args.len() - i,
{
    if !(0 <= i < args.len()) {
        lemma_frame_expr(c, body, fuel);
        match eval_expr(c, body, fuel) {
            EvalResult::Done(out, cb) => {
                assert(ctx_pop(cb).scopes =~= c.scopes.subrange(0, c.scopes.len() - 1));
            },
            _ => {},
        }
    } else {
        lemma_frame_expr(c, args[i], fuel);
        match eval_expr(c, args[i], fuel) {
            EvalResult::Done(OutcomeV::Value(lv), c1) => {
                match literal_value(lv) {
                    Some(v) => {
                        let c1b = ctx_set_var(c1, params[i], v);
                        lemma_frame_call(c1b, params, args, i + 1, body, fuel);
                        match eval_call(c1b, params, args, i + 1, body, fuel) {
                            EvalResult::Done(out, c2) => {
                                assert(c1b.scopes.subrange(0, c1b.scopes.len() - 1)
                                    =~= c.scopes.subrange(0, c.scopes.len() - 1));
                            },
                            _ => {},
                        }
                    },
                    None => {},
                }
            },
            EvalResult::Done(OutcomeV::Return(rv), c1) => {
                assert(ctx_pop(c1).scopes =~= c.scopes.subrange(0, c.scopes.len() - 1));
            },
            _ => {},
        }
    }
}

/// Law (scope isolation): a completed function call leaves the caller's
/// scope stack exactly as it was — same depth, same bindings in every
/// scope.  A variable assigned inside the function body lives in the
/// callee's own scope, which vanishes when the call returns; it neither
/// persists nor overwrites the caller's binding of the same name.
pub proof fn lemma_call_restores_scopes(c: CtxV, name: Seq<char>, args: Seq<ExprV>, fuel: nat)
    ensures
        eval_expr(c, ExprV::FunctionCall { name, args }, fuel) matches EvalResult::Done(
            out,
            c2,
        ) ==> c2.scopes == c.scopes,
{
    if fuel == 0 {
        return ;
    }
    let f = (fuel - 1) as nat;
    assert(eval_expr(c, ExprV::FunctionCall { name, args }, fuel) == eval_call_full(
        c,
        name,
        args,
        f,
    ));
    if c.funcs.contains_key(name) && c.funcs[name].0.len() == args.len() {
        let cp = ctx_push(c);
        assert(eval_call_full(c, name, args, f) == eval_call(
            cp,
            c.funcs[name].0,
            args,
            0,
            c.funcs[name].1,
            f,
        ));
        lemma_frame_call(cp, c.funcs[name].0, args, 0, c.funcs[name].1, f);
        match eval_call(cp, c.funcs[name].0, args, 0, c.funcs[name].1, f) {
            EvalResult::Done(out, c2) => {
                assert(c2.scopes =~= c.scopes);
            },
            _ => {},
        }
    }
}

/// The body `{ return p1 + p2; }` of a two-parameter function that
/// returns the sum of its parameters.
pub open spec fn add_body(p1: Seq<char>, p2: Seq<char>) -> ExprV {
    ExprV::Block(
        seq![
            ExprV::Return(
                Box::new(
                    ExprV::BinaryOp {
                        left: Box::new(ExprV::Variable(p1)),
                        op: Op::Add,
                        right: Box::new(ExprV::Variable(p2)),
                    },
                ),
            ),
        ],
    )
}

/// Law: calling a two-parameter function whose body is
/// `{ return p1 + p2; }` with integer literal arguments `x` and `y`
/// produces the unwinding result carrying exactly `x + y`, and the whole
/// context — functions and every scope — is as before the call.
pub proof fn lemma_call_add(
    c: CtxV,
    fname: Seq<char>,
    p1: Seq<char>,
    p2: Seq<char>,
    x: int,
    y: int,
    fuel: nat,
)
    requires
        fuel >= 10,
        p1 != p2,
        i64_in_range(x),
        i64_in_range(y),
        i64_in_range(x + y),
        c.funcs.contains_key(fname),
        c.funcs[fname] == (seq![p1, p2], add_body(p1, p2)),
    ensures
        eval_expr(
            c,
            ExprV::FunctionCall {
                name: fname,
                args: seq![
                    ExprV::Literal(LiteralV::Int(x)),
                    ExprV::Literal(LiteralV::Int(y)),
                ],
            },
            fuel,
        ) == EvalResult::Done(OutcomeV::Return(LiteralV::Int(x + y)), c),
{
    let f = (fuel - 1) as nat;
    let args = seq![ExprV::Literal(LiteralV::Int(x)), ExprV::Literal(LiteralV::Int(y))];
    let params = seq![p1, p2];
    let body = add_body(p1, p2);
    let cp = ctx_push(c);
    let c1 = ctx_set_var(cp, p1, ValueV::Int(x));
    let c2 = ctx_set_var(c1, p2, ValueV::Int(y));
    assert(eval_expr(cp, args[0], f) == EvalResult::Done(
        OutcomeV::Value(LiteralV::Int(x)),
        cp,
    ));
    assert(eval_expr(c1, args[1], f) == EvalResult::Done(
        OutcomeV::Value(LiteralV::Int(y)),
        c1,
    ));
    assert(c2.scopes.last() == cp.scopes.last().insert(p1, ValueV::Int(x)).insert(
        p2,
        ValueV::Int(y),
    ));
    assert(scopes_lookup(c2.scopes, p1) == Some(ValueV::Int(x)));
    assert(scopes_lookup(c2.scopes, p2) == Some(ValueV::Int(y)));
    let sum_expr = ExprV::BinaryOp {
        left: Box::new(ExprV::Variable(p1)),
        op: Op::Add,
        right: Box::new(ExprV::Variable(p2)),
    };
    assert(eval_expr(c2, ExprV::Variable(p1), (f - 3) as nat) == EvalResult::Done(
        OutcomeV::Value(LiteralV::Int(x)),
        c2,
    ));
    assert(eval_expr(c2, ExprV::Variable(p2), (f - 3) as nat) == EvalResult::Done(
        OutcomeV::Value(LiteralV::Int(y)),
        c2,
    ));
    assert(eval_expr(c2, sum_expr, (f - 2) as nat) == EvalResult::Done(
        OutcomeV::Value(LiteralV::Int(x + y)),
        c2,
    ));
    assert(eval_expr(c2, ExprV::Return(Box::new(sum_expr)), (f - 1) as nat) == EvalResult::Done(
        OutcomeV::Return(LiteralV::Int(x + y)),
        c2,
    ));
    assert(body->Block_0[0] == ExprV::Return(Box::new(sum_expr)));
    assert(eval_stmts(c2, body->Block_0, 0, (f - 1) as nat) == EvalResult::Done(
        OutcomeV::Return(LiteralV::Int(x + y)),
        c2,
    ));
    assert(eval_expr(c2, body, f) == EvalResult::Done(
        OutcomeV::Return(LiteralV::Int(x + y)),
        c2,
    ));
    assert(eval_call(c2, params, args, 2, body, f) == EvalResult::Done(
        OutcomeV::Return(LiteralV::Int(x + y)),
        ctx_pop(c2),
    ));
    assert(eval_call(c1, params, args, 1, body, f) == eval_call(c2, params, args, 2, body, f));
    assert(eval_call(cp, params, args, 0, body, f) == eval_call(c1, params, args, 1, body, f));
    assert(ctx_pop(c2) =~~= c);
    assert(eval_call_full(c, fname, args, f) == EvalResult::Done(
        OutcomeV::Return(LiteralV::Int(x + y)),
        c,
    ));
    assert(eval_expr(
        c,
        ExprV::FunctionCall { name: fname, args },
        fuel,
    ) == eval_call_full(c, fname, args, f));
}

/// The condition `x < 3` of [`count_loop`].
pub open spec fn count_cond(x: Seq<char>) -> ExprV {
    ExprV::BinaryOp {
        left: Box::new(ExprV::Variable(x)),
        op: Op::LessThan,
        right: Box::new(ExprV::Literal(LiteralV::Int(3))),
    }
}

/// The body `{ x = x + 1; }` of [`count_loop`].
pub open spec fn count_body(x: Seq<char>) -> ExprV {
    ExprV::Block(
        seq![
            ExprV::Assignment {
                name: x,
                value: Box::new(
                    ExprV::BinaryOp {
                        left: Box::new(ExprV::Variable(x)),
                        op: Op::Add,
                        right: Box::new(ExprV::Literal(LiteralV::Int(1))),
                    },
                ),
            },
        ],
    )
}

/// The loop `while (x < 3) { x = x + 1; }`.
pub open spec fn count_loop(x: Seq<char>) -> ExprV {
    ExprV::WhileLoop { condition: Box::new(count_cond(x)), body: Box::new(count_body(x)) }
}

/// One pass of [`count_loop`]'s body from a context whose innermost scope
/// maps `x` to `v`: the condition `x < 3` sees `v`, and when `v < 3` the
/// body rebinds `x` to `v + 1` and the loop continues with one unit of
/// fuel less.
proof fn lemma_count_loop_step(c: CtxV, x: Seq<char>, v: int, fuel: nat)
    requires
        fuel >= 8,
        0 <= v < 3,
        c.scopes.len() > 0,
        c.scopes.last().contains_key(x),
        c.scopes.last()[x] == ValueV::Int(v),
    ensures
        eval_while(c, count_cond(x), count_body(x), fuel) == eval_while(
            ctx_set_var(c, x, ValueV::Int(v + 1)),
            count_cond(x),
            count_body(x),
            (fuel - 1) as nat,
        ),
{
    let c1 = ctx_set_var(c, x, ValueV::Int(v + 1));
    assert(scopes_lookup(c.scopes, x) == Some(ValueV::Int(v)));
    assert(eval_expr(c, ExprV::Variable(x), (fuel - 1) as nat) == EvalResult::Done(
        OutcomeV::Value(LiteralV::Int(v)),
        c,
    ));
    assert(eval_expr(c, ExprV::Literal(LiteralV::Int(3)), (fuel - 1) as nat) == EvalResult::Done(
        OutcomeV::Value(LiteralV::Int(3)),
        c,
    ));
    assert(eval_expr(c, count_cond(x), fuel) == EvalResult::Done(
        OutcomeV::Value(LiteralV::Int(1)),
        c,
    ));
    let add1 = ExprV::BinaryOp {
        left: Box::new(ExprV::Variable(x)),
        op: Op::Add,
        right: Box::new(ExprV::Literal(LiteralV::Int(1))),
    };
    let assign = ExprV::Assignment { name: x, value: Box::new(add1) };
    assert(eval_expr(c, ExprV::Variable(x), (fuel - 3) as nat) == EvalResult::Done(
        OutcomeV::Value(LiteralV::Int(v)),
        c,
    ));
    assert(eval_expr(c, ExprV::Literal(LiteralV::Int(1)), (fuel - 3) as nat) == EvalResult::Done(
        OutcomeV::Value(LiteralV::Int(1)),
        c,
    ));
    assert(eval_expr(c, add1, (fuel - 2) as nat) == EvalResult::Done(
        OutcomeV::Value(LiteralV::Int(v + 1)),
        c,
    ));
    assert(eval_expr(c, assign, (fuel - 1) as nat) == EvalResult::Done(
        OutcomeV::Value(LiteralV::Unit),
        c1,
    ));
    assert(count_body(x)->Block_0[0] == assign);
    assert(eval_stmts(c1, count_body(x)->Block_0, 1, (fuel - 1) as nat) == EvalResult::Done(
        OutcomeV::Value(LiteralV::Unit),
        c1,
    ));
    assert(eval_stmts(c, count_body(x)->Block_0, 0, (fuel - 1) as nat) == EvalResult::Done(
        OutcomeV::Value(LiteralV::Unit),
        c1,
    ));
    assert(eval_expr(c, count_body(x), fuel) == EvalResult::Done(
        OutcomeV::Value(LiteralV::Unit),
        c1,
    ));
}

/// Law: from a context whose innermost scope maps `x` to 0, the loop
/// `while (x < 3) { x = x + 1; }` runs its body exactly three times and
/// terminates with the integer 0 as the loop's own value; the final value
/// 3 of `x` is observable only by a subsequent read of `x`.
pub proof fn lemma_while_counts_to_three(c: CtxV, x: Seq<char>, fuel: nat)
    requires
        fuel >= 16,
        c.scopes.len() > 0,
        c.scopes.last().contains_key(x),
        c.scopes.last()[x] == ValueV::Int(0),
    ensures
        eval_expr(c, count_loop(x), fuel) == EvalResult::Done(
            OutcomeV::Value(LiteralV::Int(0)),
            ctx_set_var(c, x, ValueV::Int(3)),
        ),
{
    let f = (fuel - 1) as nat;
    let c1 = ctx_set_var(c, x, ValueV::Int(1));
    let c2 = ctx_set_var(c1, x, ValueV::Int(2));
    let c3 = ctx_set_var(c2, x, ValueV::Int(3));
    lemma_count_loop_step(c, x, 0, f);
    lemma_count_loop_step(c1, x, 1, (f - 1) as nat);
    lemma_count_loop_step(c2, x, 2, (f - 2) as nat);
    assert(scopes_lookup(c3.scopes, x) == Some(ValueV::Int(3)));
    assert(eval_expr(c3, ExprV::Variable(x), (f - 4) as nat) == EvalResult::Done(
        OutcomeV::Value(LiteralV::Int(3)),
        c3,
    ));
    assert(eval_expr(c3, ExprV::Literal(LiteralV::Int(3)), (f - 4) as nat) == EvalResult::Done(
        OutcomeV::Value(LiteralV::Int(3)),
        c3,
    ));
    assert(eval_expr(c3, count_cond(x), (f - 3) as nat) == EvalResult::Done(
        OutcomeV::Value(LiteralV::Int(0)),
        c3,
    ));
    assert(eval_while(c3, count_cond(x), count_body(x), (f - 3) as nat) == EvalResult::Done(
        OutcomeV::Value(LiteralV::Int(0)),
        c3,
    ));
    assert(c3 =~~= ctx_set_var(c, x, ValueV::Int(3)));
}

} // verus!
