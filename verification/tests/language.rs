use simlang::interpreter::context::{Context, Value};
use simlang::interpreter::evaluator::{EvaluationResult, Evaluator};
use simlang::parser::ast::{Expr, Literal, Op};
use simlang::parser::lexer::tokenizer;
use simlang::parser::Parser;
use simlang::utils::debug_token;
use simlang::parser::token::Token;

fn parse(source: &str) -> Result<Expr, String> {
    let tokens = tokenizer(source)?;
    let mut parser = Parser { tokens, current: 0 };
    parser.parse_tokens()
}

fn run_in(evaluator: &mut Evaluator, source: &str) -> Result<EvaluationResult, String> {
    let ast = parse(source)?;
    evaluator.evaluate(ast)
}

fn run(source: &str) -> Result<EvaluationResult, String> {
    let mut evaluator = Evaluator::new();
    run_in(&mut evaluator, source)
}

#[test]
fn arithmetic_results_are_exact() {
    let mut evaluator = Evaluator::new();
    let cases: Vec<(i64, Op, i64, i64)> = vec![
        (2, Op::Add, 3, 5),
        (2, Op::Subtract, 3, -1),
        (7, Op::Multiply, 6, 42),
        (7, Op::Divide, 2, 3),
        (-7, Op::Divide, 2, -3),
        (7, Op::Divide, -2, -3),
        (-7, Op::Divide, -2, 3),
        (1, Op::LessThan, 2, 1),
        (2, Op::LessThan, 2, 0),
        (3, Op::GreaterThan, 2, 1),
        (2, Op::GreaterThan, 2, 0),
    ];
    for (l, op, r, expected) in cases {
        let expr = Expr::BinaryOp {
            left: Box::new(Expr::Literal(Literal::Int(l))),
            op,
            right: Box::new(Expr::Literal(Literal::Int(r))),
        };
        assert_eq!(
            evaluator.evaluate(expr),
            Ok(EvaluationResult::Value(Literal::Int(expected)))
        );
    }
}

#[test]
fn division_by_zero_fails() {
    assert!(run("1 / 0;").is_err());
}

#[test]
fn addition_overflow_fails() {
    assert!(run("9223372036854775807 + 1;").is_err());
}

#[test]
fn multiplication_overflow_fails() {
    assert!(run("4000000000 * 4000000000;").is_err());
}

#[test]
fn string_operands_are_rejected() {
    assert!(run("\"a\" + \"b\";").is_err());
}

#[test]
fn assignment_then_read() {
    let mut evaluator = Evaluator::new();
    assert_eq!(
        run_in(&mut evaluator, "x = 41;"),
        Ok(EvaluationResult::Value(Literal::Unit))
    );
    assert_eq!(
        evaluator.evaluate(Expr::Variable("x".to_string())),
        Ok(EvaluationResult::Value(Literal::Int(41)))
    );
}

#[test]
fn scope_isolation_assignment_in_callee_vanishes() {
    let mut evaluator = Evaluator::new();
    run_in(&mut evaluator, "x = 1; function f(){ x = 2; }; f();").unwrap();
    assert_eq!(
        evaluator.evaluate(Expr::Variable("x".to_string())),
        Ok(EvaluationResult::Value(Literal::Int(1)))
    );
}

#[test]
fn callee_reads_outer_variable() {
    let mut evaluator = Evaluator::new();
    run_in(&mut evaluator, "x = 9; function g(){ return x; };").unwrap();
    assert_eq!(
        run_in(&mut evaluator, "g();"),
        Ok(EvaluationResult::ReturnValue(Literal::Int(9)))
    );
}

#[test]
fn three_record_add_call() {
    assert_eq!(
        run("function add(a,b){ return a + b; }; add(2,3);"),
        Ok(EvaluationResult::ReturnValue(Literal::Int(5)))
    );
}

#[test]
fn zero_argument_call() {
    assert_eq!(
        run("function g(){ return 7; }; g();"),
        Ok(EvaluationResult::ReturnValue(Literal::Int(7)))
    );
}

#[test]
fn one_argument_call() {
    assert_eq!(
        run("function id(a){ return a; }; id(11);"),
        Ok(EvaluationResult::ReturnValue(Literal::Int(11)))
    );
}

#[test]
fn recursive_call() {
    assert_eq!(
        run("function count(n){ if (n < 1) { return 99; }; count(n - 1); }; count(5);"),
        Ok(EvaluationResult::ReturnValue(Literal::Int(99)))
    );
}

#[test]
fn while_loop_runs_three_times() {
    let mut evaluator = Evaluator::new();
    let loop_ast = parse("while (x < 3) { x = x + 1; }").unwrap();
    run_in(&mut evaluator, "x = 0;").unwrap();
    assert_eq!(
        evaluator.evaluate(loop_ast),
        Ok(EvaluationResult::Value(Literal::Unit))
    );
    assert_eq!(
        evaluator.evaluate(Expr::Variable("x".to_string())),
        Ok(EvaluationResult::Value(Literal::Int(3)))
    );
}

#[test]
fn while_loop_itself_yields_zero() {
    let mut evaluator = Evaluator::new();
    run_in(&mut evaluator, "x = 0;").unwrap();
    let condition = Expr::BinaryOp {
        left: Box::new(Expr::Variable("x".to_string())),
        op: Op::LessThan,
        right: Box::new(Expr::Literal(Literal::Int(3))),
    };
    let body = Expr::Block(vec![Expr::Assignment {
        name: "x".to_string(),
        value: Box::new(Expr::BinaryOp {
            left: Box::new(Expr::Variable("x".to_string())),
            op: Op::Add,
            right: Box::new(Expr::Literal(Literal::Int(1))),
        }),
    }]);
    let loop_expr = Expr::WhileLoop {
        condition: Box::new(condition),
        body: Box::new(body),
    };
    assert_eq!(
        evaluator.evaluate(loop_expr),
        Ok(EvaluationResult::Value(Literal::Int(0)))
    );
    assert_eq!(
        evaluator.evaluate(Expr::Variable("x".to_string())),
        Ok(EvaluationResult::Value(Literal::Int(3)))
    );
}

#[test]
fn if_without_else_false_condition_yields_zero() {
    let mut evaluator = Evaluator::new();
    let if_expr = Expr::IfExpr {
        condition: Box::new(Expr::Literal(Literal::Int(0))),
        consequence: Box::new(Expr::Block(vec![Expr::Literal(Literal::Int(1))])),
        alternative: None,
    };
    assert_eq!(
        evaluator.evaluate(if_expr),
        Ok(EvaluationResult::Value(Literal::Int(0)))
    );
}

#[test]
fn if_takes_else_branch_on_zero() {
    assert_eq!(
        run("function pick(){ if (0) { return 1; } else { return 2; }; }; pick();"),
        Ok(EvaluationResult::ReturnValue(Literal::Int(2)))
    );
}

#[test]
fn early_return_stops_enclosing_statements() {
    assert_eq!(
        run(
            "function f(){ while (1) { if (1) { return 42; }; }; return 0; }; f();"
        ),
        Ok(EvaluationResult::ReturnValue(Literal::Int(42)))
    );
}

#[test]
fn arity_mismatch_fails() {
    assert!(run("function f(a){ }; f(1,2);").is_err());
}

#[test]
fn undefined_function_fails() {
    assert!(run("h(1);").is_err());
}

#[test]
fn undefined_variable_fails() {
    assert!(run("y;").is_err());
}

#[test]
fn condition_must_be_an_integer() {
    assert!(run("if (\"yes\") { 1; };").is_err());
}

#[test]
fn string_value_round_trip() {
    let mut evaluator = Evaluator::new();
    run_in(&mut evaluator, "s = \"hello world\";").unwrap();
    assert_eq!(
        evaluator.evaluate(Expr::Variable("s".to_string())),
        Ok(EvaluationResult::Value(Literal::String(
            "hello world".to_string()
        )))
    );
}

#[test]
fn equality_operator_is_not_in_the_grammar() {
    assert!(parse("1 == 2;").is_err());
}

#[test]
fn modulo_operator_is_not_in_the_grammar() {
    assert!(parse("5 % 2;").is_err());
}

#[test]
fn operators_associate_right_with_equal_precedence() {
    assert_eq!(
        run("2 + 3 * 4;"),
        Ok(EvaluationResult::Value(Literal::Unit))
    );
    assert_eq!(
        run("function v(){ return 2 + 3 * 4; }; v();"),
        Ok(EvaluationResult::ReturnValue(Literal::Int(14)))
    );
    assert_eq!(
        run("function w(){ return 10 - 3 - 2; }; w();"),
        Ok(EvaluationResult::ReturnValue(Literal::Int(9)))
    );
}

#[test]
fn parenthesized_subexpression() {
    assert_eq!(
        run("function v(){ return 2 * (3 + 4); }; v();"),
        Ok(EvaluationResult::ReturnValue(Literal::Int(14)))
    );
}

#[test]
fn from_literal_converts_int_and_string() {
    assert!(matches!(
        Value::from_literal(Literal::Int(5)),
        Ok(Value::Int(5))
    ));
    match Value::from_literal(Literal::String("a".to_string())) {
        Ok(Value::String(s)) => assert_eq!(s, "a"),
        _ => panic!("string literal should convert"),
    }
    assert!(Value::from_literal(Literal::Unit).is_err());
}

#[test]
fn context_variables_shadow_and_restore() {
    let mut ctx = Context::new();
    ctx.set_variable("x".to_string(), Value::Int(1));
    ctx.push_scope();
    ctx.set_variable("x".to_string(), Value::Int(2));
    assert!(matches!(ctx.get_variable("x"), Some(Value::Int(2))));
    ctx.pop_scope();
    assert!(matches!(ctx.get_variable("x"), Some(Value::Int(1))));
    assert!(ctx.get_variable("missing").is_none());
}

#[test]
fn context_functions_overwrite() {
    let mut ctx = Context::new();
    ctx.set_function(
        "f".to_string(),
        vec!["a".to_string()],
        Expr::Literal(Literal::Int(1)),
    );
    ctx.set_function("f".to_string(), Vec::new(), Expr::Literal(Literal::Int(2)));
    match ctx.get_function("f") {
        Some(def) => {
            assert_eq!(def.0.len(), 0);
            assert_eq!(*def.1, Expr::Literal(Literal::Int(2)));
        }
        None => panic!("function should be defined"),
    }
    assert!(ctx.get_function("g").is_none());
}

#[test]
fn cloning_preserves_a_tree() {
    let ast = parse("function add(a,b){ return a + b; }; add(2,3);").unwrap();
    assert_eq!(ast.clone(), ast);
}

#[test]
fn debug_token_names_expected_and_found() {
    assert_eq!(
        debug_token("identifier", &Token::Int(5)),
        "Expected identifier, found Int"
    );
    assert_eq!(
        debug_token("RParen", &Token::Ident("x".to_string())),
        "Expected RParen, found Ident"
    );
}
