use simlang::parser::lexer::tokenizer;
use simlang::parser::token::Token;

#[test]
fn test_valid_assignment() {
    let input = "hello = 10;";
    if let Ok(tokens) = tokenizer(input) {
        assert_eq!(
            tokens,
            vec![
                Token::Ident("hello".to_string()),
                Token::Assignment,
                Token::Int(10),
                Token::Semicolon,
                Token::EOF,
            ]
        );
    } else {
        panic!("Tokenizer failed to parse the input.");
    }
}

#[test]
fn test_function_def() {
    let input = "
            function add(a, b) 
            { 
                return a + b; 
            };
        ";
    assert!(tokenizer(input).is_ok());
}

#[test]
fn integer_token() {
    assert_eq!(
        tokenizer("123 "),
        Ok(vec![Token::Int(123), Token::EOF])
    );
}

#[test]
fn identifier_token() {
    assert_eq!(
        tokenizer("testVar "),
        Ok(vec![Token::Ident("testVar".to_string()), Token::EOF])
    );
}

#[test]
fn string_literal_token() {
    assert_eq!(
        tokenizer("\"hello world\" "),
        Ok(vec![Token::String("hello world".to_string()), Token::EOF])
    );
}

#[test]
fn operator_tokens() {
    assert_eq!(
        tokenizer("+ - * / % < > == = ( ) { } ; ,"),
        Ok(vec![
            Token::Plus,
            Token::Minus,
            Token::Star,
            Token::Slash,
            Token::Modulo,
            Token::LessThan,
            Token::GreaterThan,
            Token::Equal,
            Token::Assignment,
            Token::LParen,
            Token::RParen,
            Token::LBrace,
            Token::RBrace,
            Token::Semicolon,
            Token::Comma,
            Token::EOF,
        ])
    );
}

#[test]
fn keyword_tokens() {
    assert_eq!(
        tokenizer("function if else while return fn"),
        Ok(vec![
            Token::Function,
            Token::If,
            Token::Else,
            Token::While,
            Token::Return,
            Token::Ident("fn".to_string()),
            Token::EOF,
        ])
    );
}

#[test]
fn keyword_prefix_is_an_identifier() {
    assert_eq!(
        tokenizer("iffy returned function1"),
        Ok(vec![
            Token::Ident("iffy".to_string()),
            Token::Ident("returned".to_string()),
            Token::Ident("function1".to_string()),
            Token::EOF,
        ])
    );
}

#[test]
fn double_equal_before_assignment() {
    assert_eq!(
        tokenizer("a==b"),
        Ok(vec![
            Token::Ident("a".to_string()),
            Token::Equal,
            Token::Ident("b".to_string()),
            Token::EOF,
        ])
    );
}

#[test]
fn largest_integer_literal() {
    assert_eq!(
        tokenizer("9223372036854775807"),
        Ok(vec![Token::Int(9223372036854775807), Token::EOF])
    );
}

#[test]
fn integer_literal_out_of_range_fails() {
    assert!(tokenizer("9223372036854775808").is_err());
}

#[test]
fn unterminated_string_fails() {
    assert!(tokenizer("\"abc").is_err());
}

#[test]
fn unrecognized_character_fails() {
    assert!(tokenizer("a @ b").is_err());
}

#[test]
fn empty_input_is_end_of_stream() {
    assert_eq!(tokenizer(""), Ok(vec![Token::EOF]));
    assert_eq!(tokenizer("   \n\t  "), Ok(vec![Token::EOF]));
}
