//! The tree-walking evaluator, proved to follow the big-step semantics of
//! [`crate::interpreter::semantics`].

use crate::interpreter::context::{initial_ctx, scopes_lookup, Context, CtxV, Value, ValueV};
use crate::interpreter::semantics::{
    eval_call, eval_call_full, eval_expr, eval_stmts, eval_while, EvalResult, OutcomeV,
};
use crate::parser::ast::{
    clone_expr, exprs_dv, lemma_string_vec_clone_dv, Expr, ExprV, Literal, LiteralV, Op,
};
use vstd::prelude::*;

verus! {

broadcast use crate::parser::ast::lemma_exprs_dv;

/// Fuel granted to one top-level evaluation.  One unit pays for one tree
/// node or one loop iteration, so this bound is beyond reach of any run
/// that could complete; a run that exhausts it reports an error instead of
/// running forever.
pub const EVAL_FUEL: u64 = u64::MAX;

/// What evaluating an expression produced: a plain value, or a `return`
/// unwinding through the enclosing blocks, loops and calls.
#[derive(Debug, PartialEq)]
pub enum EvaluationResult {
    Value(Literal),
    ReturnValue(Literal),
}

impl DeepView for EvaluationResult {
    type V = OutcomeV;

    open spec fn deep_view(&self) -> OutcomeV {
        match self {
            EvaluationResult::Value(l) => OutcomeV::Value(l.deep_view()),
            EvaluationResult::ReturnValue(l) => OutcomeV::Return(l.deep_view()),
        }
    }
}

impl Clone for EvaluationResult {
    /// Cloning yields a result equal to the original.
    fn clone(&self) -> (res: Self)
        ensures
            res == *self,
    {
        match self {
            EvaluationResult::Value(l) => EvaluationResult::Value(l.clone()),
            EvaluationResult::ReturnValue(l) => EvaluationResult::ReturnValue(l.clone()),
        }
    }
}

/// How an executable evaluation relates to the semantics: on completion the
/// call returns the same outcome and leaves the context the semantics
/// names; on failure or fuel exhaustion it returns an error.
pub open spec fn result_models(
    spec_r: EvalResult,
    r: Result<EvaluationResult, String>,
    c_final: CtxV,
) -> bool {
    match spec_r {
        EvalResult::Done(out, c) => r matches Ok(res) && res.deep_view() == out && c_final == c,
        _ => r is Err,
    }
}

/// The tree-walking evaluator: owns the evaluation context and walks the
/// syntax tree by direct recursion, so its depth rides on the host's call
/// stack — deeply nested trees and deep language-level recursion inherit
/// that resource limit from the host.
pub struct Evaluator {
    ctx: Context,
}

impl View for Evaluator {
    type V = CtxV;

    closed spec fn view(&self) -> CtxV {
        self.ctx@
    }
}

impl Evaluator {
    /// A fresh evaluator over a fresh context.
    pub fn new() -> (r: Self)
        ensures
            r@ == initial_ctx(),
    {
        Evaluator { ctx: Context::new() }
    }

    /// Evaluates one expression against the current context.  The result
    /// and the context afterwards are exactly those of the big-step
    /// semantics at full fuel.
    pub fn evaluate(&mut self, expr: Expr) -> (r: Result<EvaluationResult, String>)
        ensures
            result_models(
                eval_expr(old(self)@, expr.deep_view(), EVAL_FUEL as nat),
                r,
                final (self)@,
            ),
    {
        self.evaluate_expr(&expr, EVAL_FUEL)
    }

    /// The fuelled dispatcher behind [`Evaluator::evaluate`].
    fn evaluate_expr(&mut self, e: &Expr, fuel: u64) -> (r: Result<EvaluationResult, String>)
        ensures
            result_models(eval_expr(old(self)@, e.deep_view(), fuel as nat), r, final (self)@),
        decreases fuel, 0int, 0int,
    {
        if fuel == 0 {
            return Err("evaluation ran out of fuel".to_string());
        }
        let f = fuel - 1;
        match e {
            Expr::FunctionDef { name, params, body } => {
                self.evaluate_function_def(name, params, body);
                Ok(EvaluationResult::Value(Literal::Unit))
            },
            Expr::FunctionCall { name, args } => self.evaluate_function_call(name, args, f),
            Expr::IfExpr { condition, consequence, alternative } => {
                let r = self.evaluate_if_expr(condition, consequence, alternative, f);
                proof {
                    assert(eval_expr(old(self)@, e.deep_view(), fuel as nat) == eval_expr(
                        old(self)@,
                        ExprV::IfExpr {
                            condition: Box::new(condition.deep_view()),
                            consequence: Box::new(consequence.deep_view()),
                            alternative: match alternative {
                                Option::Some(a) => Option::Some(Box::new(a.deep_view())),
                                Option::None => Option::None,
                            },
                        },
                        f as nat + 1,
                    ));
                }
                r
            },
            Expr::WhileLoop { condition, body } => self.evaluate_while_loop(condition, body, f),
            Expr::Assignment { name, value } => self.evaluate_assignment(name, value, f),
            Expr::BinaryOp { left, op, right } => self.evaluate_binary_op(left, *op, right, f),
            Expr::Literal(lit) => Ok(EvaluationResult::Value(lit.clone())),
            Expr::Variable(name) => {
                let result = self.evaluate_variable(name.as_str())?;
                Ok(EvaluationResult::Value(result))
            },
            Expr::Block(expressions) => self.evaluate_block(expressions, f),
            Expr::Return(inner) => self.evaluate_return(inner, f),
        }
    }

    /// Registers a function definition in the context, overwriting any
    /// prior definition of the same name.
    fn evaluate_function_def(&mut self, name: &String, params: &Vec<String>, body: &Expr)
        ensures
            final (self)@ == crate::interpreter::context::ctx_set_fn(
                old(self)@,
                name@,
                params.deep_view(),
                body.deep_view(),
            ),
    {
        let ps = params.clone();
        proof {
            lemma_string_vec_clone_dv(*params, ps);
        }
        self.ctx.set_function(name.clone(), ps, clone_expr(body));
    }

    /// Evaluates a function call: looks the function up, checks the
    /// argument count against the parameter count, pushes a fresh scope,
    /// binds each argument in evaluation order, evaluates the body, and
    /// pops the scope.
    #[verifier::loop_isolation(false)]
    fn evaluate_function_call(&mut self, name: &String, args: &Vec<Expr>, fuel: u64) -> (r: Result<
        EvaluationResult,
        String,
    >)
        ensures
            result_models(
                eval_call_full(old(self)@, name@, exprs_dv(args@), fuel as nat),
                r,
                final (self)@,
            ),
        decreases fuel, 1int, 0int,
    {
        let params: Vec<String>;
        let body: Expr;
        match self.ctx.get_function(name.as_str()) {
            Some(fdef) => {
                params = fdef.0.clone();
                body = clone_expr(&fdef.1);
                proof {
                    lemma_string_vec_clone_dv(fdef.0, params);
                }
            },
            None => {
                return Err("Function not found".to_string());
            },
        }
        if params.len() != args.len() {
            return Err("Wrong number of arguments".to_string());
        }
        self.ctx.push_scope();
        let n = args.len();
        let mut i: usize = 0;
        while i < n
            invariant
                i <= n,
                n == args@.len(),
                n == params@.len(),
                eval_call_full(old(self)@, name@, exprs_dv(args@), fuel as nat) == eval_call(
                    self@,
                    params.deep_view(),
                    exprs_dv(args@),
                    i as int,
                    body.deep_view(),
                    fuel as nat,
                ),
            decreases n - i,
        {
            let res = self.evaluate_expr(&args[i], fuel)?;
            match res {
                EvaluationResult::Value(val) => {
                    let v = Value::from_literal(val)?;
                    self.ctx.set_variable(params[i].clone(), v);
                },
                EvaluationResult::ReturnValue(_) => {
                    self.ctx.pop_scope();
                    return Ok(res);
                },
            }
            i = i + 1;
        }
        let res = self.evaluate_expr(&body, fuel)?;
        self.ctx.pop_scope();
        Ok(res)
    }

    /// Evaluates a conditional.  The condition must be an integer: nonzero
    /// takes the consequence, zero the alternative when present, else the
    /// result is 0.  A `return` unwinding out of the condition propagates.
    fn evaluate_if_expr(
        &mut self,
        condition: &Expr,
        consequence: &Expr,
        alternative: &Option<Box<Expr>>,
        fuel: u64,
    ) -> (r: Result<EvaluationResult, String>)
        ensures
            result_models(
                eval_expr(
                    old(self)@,
                    ExprV::IfExpr {
                        condition: Box::new(condition.deep_view()),
                        consequence: Box::new(consequence.deep_view()),
                        alternative: match alternative {
                            Option::Some(a) => Option::Some(Box::new(a.deep_view())),
                            Option::None => Option::None,
                        },
                    },
                    fuel as nat + 1,
                ),
                r,
                final (self)@,
            ),
        decreases fuel, 1int, 0int,
    {
        let condition_result = self.evaluate_expr(condition, fuel)?;
        match condition_result {
            EvaluationResult::Value(Literal::Int(value)) => {
                if value != 0 {
                    self.evaluate_expr(consequence, fuel)
                } else {
                    match alternative {
                        Some(alt) => self.evaluate_expr(alt, fuel),
                        None => Ok(EvaluationResult::Value(Literal::Int(0))),
                    }
                }
            },
            EvaluationResult::ReturnValue(_) => Ok(condition_result),
            _ => Err("Condition must be an integer".to_string()),
        }
    }

    /// Evaluates a `while` loop, testing the condition before each pass of
    /// the body.  A `return` unwinding out of the body or the condition
    /// stops the loop at once; normal termination yields 0.
    fn evaluate_while_loop(&mut self, condition: &Expr, body: &Expr, fuel: u64) -> (r: Result<
        EvaluationResult,
        String,
    >)
        ensures
            result_models(
                eval_while(old(self)@, condition.deep_view(), body.deep_view(), fuel as nat),
                r,
                final (self)@,
            ),
        decreases fuel, 1int, 0int,
    {
        let mut fuel_w = fuel;
        loop
            invariant
                fuel_w <= fuel,
                eval_while(old(self)@, condition.deep_view(), body.deep_view(), fuel as nat)
                    == eval_while(self@, condition.deep_view(), body.deep_view(), fuel_w as nat),
            decreases fuel_w,
        {
            if fuel_w == 0 {
                return Err("evaluation ran out of fuel".to_string());
            }
            let condition_result = self.evaluate_expr(condition, fuel_w)?;
            match condition_result {
                EvaluationResult::Value(Literal::Int(value)) => {
                    if value == 0 {
                        return Ok(EvaluationResult::Value(Literal::Int(0)));
                    }
                    let body_result = self.evaluate_expr(body, fuel_w)?;
                    if let EvaluationResult::ReturnValue(_) = body_result {
                        return Ok(body_result);
                    }
                    fuel_w = fuel_w - 1;
                },
                EvaluationResult::ReturnValue(_) => {
                    return Ok(condition_result);
                },
                _ => {
                    return Err("Condition must be an integer".to_string());
                },
            }
        }
    }

    /// Evaluates an assignment: the value is computed first; a `return`
    /// unwinding out of it propagates without binding; the unit literal is
    /// rejected; otherwise the name is bound in the innermost scope and
    /// the assignment yields unit.
    fn evaluate_assignment(&mut self, name: &String, value: &Expr, fuel: u64) -> (r: Result<
        EvaluationResult,
        String,
    >)
        ensures
            result_models(
                eval_expr(
                    old(self)@,
                    ExprV::Assignment { name: name@, value: Box::new(value.deep_view()) },
                    fuel as nat + 1,
                ),
                r,
                final (self)@,
            ),
        decreases fuel, 1int, 0int,
    {
        let eval_result = self.evaluate_expr(value, fuel)?;
        match eval_result {
            EvaluationResult::Value(val) => {
                let converted = Value::from_literal(val)?;
                self.ctx.set_variable(name.clone(), converted);
                Ok(EvaluationResult::Value(Literal::Unit))
            },
            _ => Ok(eval_result),
        }
    }

    /// Evaluates a binary operation: both operands eagerly, left first;
    /// both must be integers.  Division by zero and a result outside the
    /// 64-bit signed range are errors.
    fn evaluate_binary_op(&mut self, left: &Expr, op: Op, right: &Expr, fuel: u64) -> (r: Result<
        EvaluationResult,
        String,
    >)
        ensures
            result_models(
                eval_expr(
                    old(self)@,
                    ExprV::BinaryOp {
                        left: Box::new(left.deep_view()),
                        op,
                        right: Box::new(right.deep_view()),
                    },
                    fuel as nat + 1,
                ),
                r,
                final (self)@,
            ),
        decreases fuel, 1int, 0int,
    {
        let left_result = self.evaluate_expr(left, fuel)?;
        let right_result = self.evaluate_expr(right, fuel)?;
        match (left_result, right_result) {
            (
                EvaluationResult::Value(Literal::Int(l)),
                EvaluationResult::Value(Literal::Int(r)),
            ) => match op {
                Op::Add => match l.checked_add(r) {
                    Some(v) => Ok(EvaluationResult::Value(Literal::Int(v))),
                    None => Err("Integer overflow in addition".to_string()),
                },
                Op::Subtract => match l.checked_sub(r) {
                    Some(v) => Ok(EvaluationResult::Value(Literal::Int(v))),
                    None => Err("Integer overflow in subtraction".to_string()),
                },
                Op::Multiply => match l.checked_mul(r) {
                    Some(v) => Ok(EvaluationResult::Value(Literal::Int(v))),
                    None => Err("Integer overflow in multiplication".to_string()),
                },
                Op::Divide => {
                    if r == 0 {
                        Err("Division by zero".to_string())
                    } else {
                        match l.checked_div(r) {
                            Some(v) => Ok(EvaluationResult::Value(Literal::Int(v))),
                            None => Err("Integer overflow in division".to_string()),
                        }
                    }
                },
                Op::LessThan => Ok(
                    EvaluationResult::Value(Literal::Int(if l < r { 1 } else { 0 })),
                ),
                Op::GreaterThan => Ok(
                    EvaluationResult::Value(Literal::Int(if l > r { 1 } else { 0 })),
                ),
            },
            _ => Err("Unsupported literal types for binary operation".to_string()),
        }
    }

    /// Reads a variable, searching the scope stack innermost-first.  An
    /// undefined name and a function value are errors.
    fn evaluate_variable(&self, name: &str) -> (r: Result<Literal, String>)
        ensures
            match scopes_lookup(self@.scopes, name@) {
                Some(ValueV::Int(i)) => r matches Ok(l) && l.deep_view() == LiteralV::Int(i),
                Some(ValueV::Str(s)) => r matches Ok(l) && l.deep_view() == LiteralV::Str(s),
                Some(ValueV::Fun(_, _)) => r is Err,
                None => r is Err,
            },
    {
        match self.ctx.get_variable(name) {
            Some(value) => match value {
                Value::Int(i) => Ok(Literal::Int(*i)),
                Value::String(s) => Ok(Literal::String(s.clone())),
                _ => Err("Unsupported value type for variable".to_string()),
            },
            None => Err("Variable not found".to_string()),
        }
    }

    /// Evaluates the statements of a block in order.  A statement whose
    /// result is an unwinding `return` stops the block and propagates;
    /// otherwise the block yields unit.
    fn evaluate_block(&mut self, expressions: &Vec<Expr>, fuel: u64) -> (r: Result<
        EvaluationResult,
        String,
    >)
        ensures
            result_models(
                eval_stmts(old(self)@, exprs_dv(expressions@), 0, fuel as nat),
                r,
                final (self)@,
            ),
        decreases fuel, 1int, 0int,
    {
        let n = expressions.len();
        let mut i: usize = 0;
        while i < n
            invariant
                i <= n,
                n == expressions@.len(),
                eval_stmts(old(self)@, exprs_dv(expressions@), 0, fuel as nat) == eval_stmts(
                    self@,
                    exprs_dv(expressions@),
                    i as int,
                    fuel as nat,
                ),
            decreases n - i,
        {
            let res = self.evaluate_expr(&expressions[i], fuel)?;
            if let EvaluationResult::ReturnValue(_) = res {
                return Ok(res);
            }
            i = i + 1;
        }
        Ok(EvaluationResult::Value(Literal::Unit))
    }

    /// Evaluates a `return`: wraps a plain value as an unwinding result
    /// and passes an already unwinding result through unchanged.
    fn evaluate_return(&mut self, expr: &Expr, fuel: u64) -> (r: Result<EvaluationResult, String>)
        ensures
            result_models(
                eval_expr(
                    old(self)@,
                    ExprV::Return(Box::new(expr.deep_view())),
                    fuel as nat + 1,
                ),
                r,
                final (self)@,
            ),
        decreases fuel, 1int, 0int,
    {
        let val = self.evaluate_expr(expr, fuel)?;
        match val {
            EvaluationResult::Value(v) => Ok(EvaluationResult::ReturnValue(v)),
            _ => Ok(val),
        }
    }
}

} // verus!
