//! The big-step semantics of the language: a fuelled, specification-level
//! interpreter over the mathematical image of the syntax tree.
//!
//! Evaluation of one node consumes one unit of fuel, and each iteration of a
//! `while` loop consumes one more; with fuel exhausted the semantics answers
//! [`EvalResult::OutOfFuel`].  Every other failure the language knows — an
//! undefined name, a wrong operand, division by zero, an arity mismatch, an
//! arithmetic result outside the 64-bit signed range — is
//! [`EvalResult::Fail`].  The evaluator is proved to return exactly what
//! these functions describe.

use crate::interpreter::context::{
    ctx_pop, ctx_push, ctx_set_fn, ctx_set_var, literal_value, scopes_lookup, CtxV,
    ValueV,
};
use crate::parser::ast::{ExprV, LiteralV, Op};
use vstd::prelude::*;

verus! {

/// What evaluating a node surfaces when it completes: a plain value, or a
/// `return` unwinding through the enclosing constructs.
#[verifier::ext_equal]
pub enum OutcomeV {
    Value(LiteralV),
    Return(LiteralV),
}

/// The result of an evaluation: completion with an outcome and the updated
/// context, a terminal failure, or fuel exhaustion.
#[verifier::ext_equal]
pub enum EvalResult {
    Done(OutcomeV, CtxV),
    Fail,
    OutOfFuel,
}

/// Whether an integer fits the 64-bit signed range.
pub open spec fn i64_in_range(i: int) -> bool {
    i64::MIN <= i <= i64::MAX
}

/// Signed division truncating toward zero.
pub open spec fn trunc_div(x: int, d: int) -> int
    recommends
        d != 0,
{
    if x == 0 {
        0
    } else if x > 0 && d > 0 {
        x / d
    } else if x < 0 && d < 0 {
        (x * -1) / (d * -1)
    } else if x < 0 {
        ((x * -1) / d) * -1
    } else {
        (x / (d * -1)) * -1
    }
}

/// The meaning of one binary operator on two integer operands.  Comparisons
/// yield 1 for true and 0 for false.  `None` is a failure: division by
/// zero, or an arithmetic result outside the 64-bit signed range.
pub open spec fn binop_result(op: Op, l: int, r: int) -> Option<int> {
    match op {
        Op::Add => if i64_in_range(l + r) {
            Some(l + r)
        } else {
            None
        },
        Op::Subtract => if i64_in_range(l - r) {
            Some(l - r)
        } else {
            None
        },
        Op::Multiply => if i64_in_range(l * r) {
            Some(l * r)
        } else {
            None
        },
        Op::Divide => if r == 0 {
            None
        } else if i64_in_range(trunc_div(l, r)) {
            Some(trunc_div(l, r))
        } else {
            None
        },
        Op::LessThan => Some(if l < r { 1int } else { 0int }),
        Op::GreaterThan => Some(if l > r { 1int } else { 0int }),
    }
}

/// Evaluates one expression.  Each case mirrors one rule of the language:
///
/// * a literal is its own value;
/// * a variable reads the scope stack innermost-first and fails on an
///   undefined name or a function value;
/// * an assignment evaluates its right side, propagates an unwinding
///   `return`, rejects the unit literal, and binds the name in the
///   innermost scope, yielding unit;
/// * a binary operation evaluates both operands eagerly, left first, and
///   requires both to be integers;
/// * `if` requires an integer condition: nonzero takes the consequence,
///   zero takes the alternative when present and yields 0 otherwise;
/// * `while` is [`eval_while`];
/// * a block is [`eval_stmts`];
/// * `return` wraps a plain value and passes an unwinding result through
///   unchanged;
/// * a function definition registers the function and yields unit;
/// * a call is [`eval_call_full`].
pub open spec fn eval_expr(c: CtxV, e: ExprV, fuel: nat) -> EvalResult
    decreases fuel, 0int, 0int,
{
    if fuel == 0 {
        EvalResult::OutOfFuel
    } else {
        let f = (fuel - 1) as nat;
        match e {
            ExprV::Literal(l) => EvalResult::Done(OutcomeV::Value(l), c),
            ExprV::Variable(n) => match scopes_lookup(c.scopes, n) {
                Some(ValueV::Int(i)) => EvalResult::Done(OutcomeV::Value(LiteralV::Int(i)), c),
                Some(ValueV::Str(s)) => EvalResult::Done(OutcomeV::Value(LiteralV::Str(s)), c),
                Some(ValueV::Fun(_, _)) => EvalResult::Fail,
                None => EvalResult::Fail,
            },
            ExprV::Assignment { name, value } => match eval_expr(c, *value, f) {
                EvalResult::Done(OutcomeV::Value(lv), c1) => match literal_value(lv) {
                    Some(v) => EvalResult::Done(
                        OutcomeV::Value(LiteralV::Unit),
                        ctx_set_var(c1, name, v),
                    ),
                    None => EvalResult::Fail,
                },
                EvalResult::Done(OutcomeV::Return(rv), c1) => EvalResult::Done(
                    OutcomeV::Return(rv),
                    c1,
                ),
                r => r,
            },
            ExprV::BinaryOp { left, op, right } => match eval_expr(c, *left, f) {
                EvalResult::Done(o1, c1) => match eval_expr(c1, *right, f) {
                    EvalResult::Done(o2, c2) => match (o1, o2) {
                        (
                            OutcomeV::Value(LiteralV::Int(l)),
                            OutcomeV::Value(LiteralV::Int(r)),
                        ) => match binop_result(op, l, r) {
                            Some(v) => EvalResult::Done(
                                OutcomeV::Value(LiteralV::Int(v)),
                                c2,
                            ),
                            None => EvalResult::Fail,
                        },
                        _ => EvalResult::Fail,
                    },
                    r => r,
                },
                r => r,
            },
            ExprV::IfExpr { condition, consequence, alternative } => match eval_expr(
                c,
                *condition,
                f,
            ) {
                EvalResult::Done(OutcomeV::Value(LiteralV::Int(v)), c1) => if v != 0 {
                    eval_expr(c1, *consequence, f)
                } else {
                    match alternative {
                        Some(a) => eval_expr(c1, *a, f),
                        None => EvalResult::Done(OutcomeV::Value(LiteralV::Int(0)), c1),
                    }
                },
                EvalResult::Done(OutcomeV::Value(_), c1) => EvalResult::Fail,
                EvalResult::Done(OutcomeV::Return(rv), c1) => EvalResult::Done(
                    OutcomeV::Return(rv),
                    c1,
                ),
                r => r,
            },
            ExprV::WhileLoop { condition, body } => eval_while(c, *condition, *body, f),
            ExprV::Block(stmts) => eval_stmts(c, stmts, 0, f),
            ExprV::Return(inner) => match eval_expr(c, *inner, f) {
                EvalResult::Done(OutcomeV::Value(v), c1) => EvalResult::Done(
                    OutcomeV::Return(v),
                    c1,
                ),
                EvalResult::Done(OutcomeV::Return(v), c1) => EvalResult::Done(
                    OutcomeV::Return(v),
                    c1,
                ),
                r => r,
            },
            ExprV::FunctionDef { name, params, body } => EvalResult::Done(
                OutcomeV::Value(LiteralV::Unit),
                ctx_set_fn(c, name, params, *body),
            ),
            ExprV::FunctionCall { name, args } => eval_call_full(c, name, args, f),
        }
    }
}

/// Evaluates a `while` loop.  The condition must evaluate to an integer:
/// zero ends the loop with value 0; nonzero runs the body, whose unwinding
/// `return` ends the loop at once; any other body result continues with the
/// next test of the condition.  An unwinding `return` out of the condition
/// itself propagates.
pub open spec fn eval_while(c: CtxV, cond: ExprV, body: ExprV, fuel: nat) -> EvalResult
    decreases fuel, 1int, 0int,
{
    if fuel == 0 {
        EvalResult::OutOfFuel
    } else {
        match eval_expr(c, cond, fuel) {
            EvalResult::Done(OutcomeV::Value(LiteralV::Int(v)), c1) => if v == 0 {
                EvalResult::Done(OutcomeV::Value(LiteralV::Int(0)), c1)
            } else {
                match eval_expr(c1, body, fuel) {
                    EvalResult::Done(OutcomeV::Return(rv), c2) => EvalResult::Done(
                        OutcomeV::Return(rv),
                        c2,
                    ),
                    EvalResult::Done(OutcomeV::Value(_), c2) => eval_while(
                        c2,
                        cond,
                        body,
                        (fuel - 1) as nat,
                    ),
                    r => r,
                }
            },
            EvalResult::Done(OutcomeV::Value(_), c1) => EvalResult::Fail,
            EvalResult::Done(OutcomeV::Return(rv), c1) => EvalResult::Done(
                OutcomeV::Return(rv),
                c1,
            ),
            r => r,
        }
    }
}

/// Evaluates the statements of a block from position `i` on, in order.  A
/// statement whose result is an unwinding `return` stops the block and
/// propagates; otherwise the statement's value is discarded and the block
/// ends with the unit value.
pub open spec fn eval_stmts(c: CtxV, stmts: Seq<ExprV>, i: int, fuel: nat) -> EvalResult
    decreases fuel, 1int, stmts.len() - i,
{
    if !(0 <= i < stmts.len()) {
        EvalResult::Done(OutcomeV::Value(LiteralV::Unit), c)
    } else {
        match eval_expr(c, stmts[i], fuel) {
            EvalResult::Done(OutcomeV::Value(_), c1) => eval_stmts(c1, stmts, i + 1, fuel),
            EvalResult::Done(OutcomeV::Return(rv), c1) => EvalResult::Done(
                OutcomeV::Return(rv),
                c1,
            ),
            r => r,
        }
    }
}

/// Binds arguments `i..` to their parameters one at a time, then evaluates
/// the body.  The callee scope is already pushed: arguments are evaluated
/// with it on top of the stack, and each value is bound before the next
/// argument is evaluated.  An argument that unwinds as `return` pops the
/// scope and becomes the call's result; an argument yielding the unit
/// literal is a failure.  The body's result — with an unwinding `return`
/// kept as such — is the call's result, and the scope is popped.
pub open spec fn eval_call(
    c: CtxV,
    params: Seq<Seq<char>>,
    args: Seq<ExprV>,
    i: int,
    body: ExprV,
    fuel: nat,
) -> EvalResult
    decreases fuel, 1int, args.len() - i,
{
    if !(0 <= i < args.len()) {
        match eval_expr(c, body, fuel) {
            EvalResult::Done(out, cb) => EvalResult::Done(out, ctx_pop(cb)),
            r => r,
        }
    } else {
        match eval_expr(c, args[i], fuel) {
            EvalResult::Done(OutcomeV::Value(lv), c1) => match literal_value(lv) {
                Some(v) => eval_call(
                    ctx_set_var(c1, params[i], v),
                    params,
                    args,
                    i + 1,
                    body,
                    fuel,
                ),
                None => EvalResult::Fail,
            },
            EvalResult::Done(OutcomeV::Return(rv), c1) => EvalResult::Done(
                OutcomeV::Return(rv),
                ctx_pop(c1),
            ),
            r => r,
        }
    }
}

/// Evaluates a call: fails on an undefined function or an argument count
/// that differs from the parameter count; otherwise pushes a fresh scope
/// and hands over to [`eval_call`].
pub open spec fn eval_call_full(c: CtxV, name: Seq<char>, args: Seq<ExprV>, fuel: nat) -> EvalResult
    decreases fuel, 1int, args.len() + 1,
{
    if !c.funcs.contains_key(name) {
        EvalResult::Fail
    } else if c.funcs[name].0.len() != args.len() {
        EvalResult::Fail
    } else {
        eval_call(ctx_push(c), c.funcs[name].0, args, 0, c.funcs[name].1, fuel)
    }
}

} // verus!
