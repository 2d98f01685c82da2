use simlang::interpreter::evaluator::{EvaluationResult, Evaluator};
use simlang::parser::ast::{Expr, Literal, Op};

#[test]
fn it_works() {
    assert_eq!(2 + 2, 4);
}

#[test]
fn test_simple_addition() {
    let mut evaluator = Evaluator::new();
    let expr = Expr::BinaryOp {
        left: Box::new(Expr::Literal(Literal::Int(1))),
        op: Op::Add,
        right: Box::new(Expr::Literal(Literal::Int(2))),
    };
    assert_eq!(
        evaluator.evaluate(expr),
        Ok(EvaluationResult::Value(Literal::Int(3)))
    );
}

#[test]
fn test_variable_assignment_and_reference() {
    let mut evaluator = Evaluator::new();
    let assign_expr = Expr::Assignment {
        name: "x".to_string(),
        value: Box::new(Expr::Literal(Literal::Int(5))),
    };
    evaluator.evaluate(assign_expr).unwrap();
    let var_expr = Expr::Variable("x".to_string());
    assert_eq!(
        evaluator.evaluate(var_expr),
        Ok(EvaluationResult::Value(Literal::Int(5)))
    );
}

#[test]
fn evaluator_test_function_definition_and_call() {
    let mut evaluator = Evaluator::new();
    let func_def_expr = Expr::FunctionDef {
        name: "add".to_string(),
        params: vec!["a".to_string(), "b".to_string()],
        body: Box::new(Expr::BinaryOp {
            left: Box::new(Expr::Variable("a".to_string())),
            op: Op::Add,
            right: Box::new(Expr::Variable("b".to_string())),
        }),
    };
    evaluator.evaluate(func_def_expr).unwrap();
    let call_expr = Expr::FunctionCall {
        name: "add".to_string(),
        args: vec![Expr::Literal(Literal::Int(2)), Expr::Literal(Literal::Int(3))],
    };
    assert_eq!(
        evaluator.evaluate(call_expr),
        Ok(EvaluationResult::Value(Literal::Int(5)))
    );
}
