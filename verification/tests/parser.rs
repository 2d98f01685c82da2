use simlang::parser::ast::{Expr, Literal, Op};
use simlang::parser::lexer::tokenizer;
use simlang::parser::token::Token;
use simlang::parser::Parser;

#[test]
fn test_binary_addition() {
    let tokens = vec![
        Token::Int(10),
        Token::Plus,
        Token::Int(20),
        Token::Semicolon,
        Token::EOF,
    ];
    let mut parser = Parser { tokens, current: 0 };
    let result = parser.parse_tokens();

    assert!(result.is_ok());
    let expected = Expr::Block(vec![Expr::BinaryOp {
        left: Box::new(Expr::Literal(Literal::Int(10))),
        op: Op::Add,
        right: Box::new(Expr::Literal(Literal::Int(20))),
    }]);
    assert_eq!(result.unwrap(), expected);
}

#[test]
fn test_binary_subtraction() {
    let tokens = vec![
        Token::Int(30),
        Token::Minus,
        Token::Int(20),
        Token::Semicolon,
        Token::EOF,
    ];
    let mut parser = Parser { tokens, current: 0 };
    let result = parser.parse_tokens();

    assert!(result.is_ok());
    let expected = Expr::Block(vec![Expr::BinaryOp {
        left: Box::new(Expr::Literal(Literal::Int(30))),
        op: Op::Subtract,
        right: Box::new(Expr::Literal(Literal::Int(20))),
    }]);
    assert_eq!(result.unwrap(), expected);
}

#[test]
fn test_binary_multiplication() {
    let tokens = vec![
        Token::Int(5),
        Token::Star,
        Token::Int(4),
        Token::Semicolon,
        Token::EOF,
    ];
    let mut parser = Parser { tokens, current: 0 };
    let result = parser.parse_tokens();

    assert!(result.is_ok());
    let expected = Expr::Block(vec![Expr::BinaryOp {
        left: Box::new(Expr::Literal(Literal::Int(5))),
        op: Op::Multiply,
        right: Box::new(Expr::Literal(Literal::Int(4))),
    }]);
    assert_eq!(result.unwrap(), expected);
}

#[test]
fn test_binary_division() {
    let tokens = vec![
        Token::Int(20),
        Token::Slash,
        Token::Int(5),
        Token::Semicolon,
        Token::EOF,
    ];
    let mut parser = Parser { tokens, current: 0 };
    let result = parser.parse_tokens();

    assert!(result.is_ok());
    let expected = Expr::Block(vec![Expr::BinaryOp {
        left: Box::new(Expr::Literal(Literal::Int(20))),
        op: Op::Divide,
        right: Box::new(Expr::Literal(Literal::Int(5))),
    }]);
    assert_eq!(result.unwrap(), expected);
}

#[test]
fn test_function_call() {
    let tokens = vec![
        Token::Function,
        Token::Ident("add".to_string()),
        Token::LParen,
        Token::Ident("x".to_string()),
        Token::Comma,
        Token::Ident("y".to_string()),
        Token::RParen,
        Token::LBrace,
        Token::Return,
        Token::Ident("x".to_string()),
        Token::Plus,
        Token::Ident("y".to_string()),
        Token::Semicolon,
        Token::RBrace,
        Token::Ident("add".to_string()),
        Token::LParen,
        Token::Int(100),
        Token::Comma,
        Token::Int(200),
        Token::RParen,
        Token::Semicolon,
        Token::EOF,
    ];
    let mut parser = Parser {
        tokens: tokens,
        current: 0,
    };

    let result = parser.parse_tokens();
    assert!(result.is_ok(), "Failed to parse program: {:?}", result.err());
}

#[test]
fn test_if_statement() {
    let tokens = vec![
        Token::If,
        Token::LParen,
        Token::Ident("x".to_string()),
        Token::LessThan,
        Token::Int(10),
        Token::RParen,
        Token::LBrace,
        Token::Ident("x".to_string()),
        Token::Assignment,
        Token::Int(0),
        Token::Semicolon,
        Token::RBrace,
        Token::EOF,
    ];
    let mut parser = Parser {
        tokens: tokens,
        current: 0,
    };

    let result = parser.parse_tokens();
    assert!(
        result.is_ok(),
        "Failed to parse if statement: {:?}",
        result.err()
    );
}

#[test]
fn test_while_statement() {
    let tokens = vec![
        Token::While,
        Token::LParen,
        Token::Ident("x".to_string()),
        Token::LessThan,
        Token::Int(10),
        Token::RParen,
        Token::LBrace,
        Token::Ident("x".to_string()),
        Token::Assignment,
        Token::Ident("x".to_string()),
        Token::Plus,
        Token::Int(1),
        Token::Semicolon,
        Token::RBrace,
        Token::EOF,
    ];
    let mut parser = Parser {
        tokens: tokens,
        current: 0,
    };
    let result = parser.parse_tokens();
    assert!(
        result.is_ok(),
        "Failed to parse while statement: {:?}",
        result.err()
    );
}

#[test]
fn mod_test_function_definition_and_call() {
    let source = r#"
        function add(x, y) {
            return x + y;
        };

        add(100, 200);
        "#;
    let tokens = tokenizer(source).expect("Tokenization failed");
    let mut parser = Parser {
        tokens: tokens,
        current: 0,
    };
    let ast = parser.parse_tokens().expect("Failed to parse tokens");

    let expected_ast = Expr::Block(vec![
        Expr::FunctionDef {
            name: "add".to_string(),
            params: vec!["x".to_string(), "y".to_string()],
            body: Box::new(Expr::Block(vec![Expr::Return(Box::new(Expr::BinaryOp {
                left: Box::new(Expr::Variable("x".to_string())),
                op: Op::Add,
                right: Box::new(Expr::Variable("y".to_string())),
            }))])),
        },
        Expr::FunctionCall {
            name: "add".to_string(),
            args: vec![
                Expr::Literal(Literal::Int(100)),
                Expr::Literal(Literal::Int(200)),
            ],
        },
    ]);

    assert_eq!(ast, expected_ast, "AST did not match the expected output");
}
