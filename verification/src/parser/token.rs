//! The closed set of lexical units the language recognizes.

use vstd::prelude::*;

verus! {

/// One lexical unit: an integer or string literal, an identifier, an
/// operator, a punctuation mark, a keyword, or the end-of-stream marker.
/// Tokens are immutable once produced and owned by the token sequence.
#[derive(Debug, PartialEq)]
pub enum Token {
    Int(i64),
    String(String),
    Ident(String),
    Assignment,
    Plus,
    Minus,
    Star,
    Slash,
    Modulo,
    LessThan,
    GreaterThan,
    Equal,
    LParen,
    RParen,
    LBrace,
    RBrace,
    Semicolon,
    Comma,
    Function,
    If,
    Else,
    While,
    Return,
    EOF,
}

/// The mathematical image of a [`Token`]: literal payloads become unbounded
/// integers and character sequences.  Contracts throughout the crate speak
/// of token sequences through this type.
pub enum TokenV {
    Int(int),
    StrLit(Seq<char>),
    Ident(Seq<char>),
    Assignment,
    Plus,
    Minus,
    Star,
    Slash,
    Modulo,
    LessThan,
    GreaterThan,
    Equal,
    LParen,
    RParen,
    LBrace,
    RBrace,
    Semicolon,
    Comma,
    Function,
    If,
    Else,
    While,
    Return,
    Eof,
}

impl DeepView for Token {
    type V = TokenV;

    open spec fn deep_view(&self) -> TokenV {
        match self {
            Token::Int(i) => TokenV::Int(*i as int),
            Token::String(s) => TokenV::StrLit(s@),
            Token::Ident(s) => TokenV::Ident(s@),
            Token::Assignment => TokenV::Assignment,
            Token::Plus => TokenV::Plus,
            Token::Minus => TokenV::Minus,
            Token::Star => TokenV::Star,
            Token::Slash => TokenV::Slash,
            Token::Modulo => TokenV::Modulo,
            Token::LessThan => TokenV::LessThan,
            Token::GreaterThan => TokenV::GreaterThan,
            Token::Equal => TokenV::Equal,
            Token::LParen => TokenV::LParen,
            Token::RParen => TokenV::RParen,
            Token::LBrace => TokenV::LBrace,
            Token::RBrace => TokenV::RBrace,
            Token::Semicolon => TokenV::Semicolon,
            Token::Comma => TokenV::Comma,
            Token::Function => TokenV::Function,
            Token::If => TokenV::If,
            Token::Else => TokenV::Else,
            Token::While => TokenV::While,
            Token::Return => TokenV::Return,
            Token::EOF => TokenV::Eof,
        }
    }
}

impl Clone for Token {
    /// Cloning yields a token equal to the original.
    fn clone(&self) -> (res: Self)
        ensures
            res == *self,
    {
        match self {
            Token::Int(i) => Token::Int(*i),
            Token::String(s) => Token::String(s.clone()),
            Token::Ident(s) => Token::Ident(s.clone()),
            Token::Assignment => Token::Assignment,
            Token::Plus => Token::Plus,
            Token::Minus => Token::Minus,
            Token::Star => Token::Star,
            Token::Slash => Token::Slash,
            Token::Modulo => Token::Modulo,
            Token::LessThan => Token::LessThan,
            Token::GreaterThan => Token::GreaterThan,
            Token::Equal => Token::Equal,
            Token::LParen => Token::LParen,
            Token::RParen => Token::RParen,
            Token::LBrace => Token::LBrace,
            Token::RBrace => Token::RBrace,
            Token::Semicolon => Token::Semicolon,
            Token::Comma => Token::Comma,
            Token::Function => Token::Function,
            Token::If => Token::If,
            Token::Else => Token::Else,
            Token::While => Token::While,
            Token::Return => Token::Return,
            Token::EOF => Token::EOF,
        }
    }
}

/// True when two tokens carry the same tag, regardless of any payload.
/// This is the notion of "expected token" the parser checks against.
pub open spec fn same_token_kind(a: TokenV, b: TokenV) -> bool {
    match (a, b) {
        (TokenV::Int(_), TokenV::Int(_)) => true,
        (TokenV::StrLit(_), TokenV::StrLit(_)) => true,
        (TokenV::Ident(_), TokenV::Ident(_)) => true,
        (TokenV::Assignment, TokenV::Assignment) => true,
        (TokenV::Plus, TokenV::Plus) => true,
        (TokenV::Minus, TokenV::Minus) => true,
        (TokenV::Star, TokenV::Star) => true,
        (TokenV::Slash, TokenV::Slash) => true,
        (TokenV::Modulo, TokenV::Modulo) => true,
        (TokenV::LessThan, TokenV::LessThan) => true,
        (TokenV::GreaterThan, TokenV::GreaterThan) => true,
        (TokenV::Equal, TokenV::Equal) => true,
        (TokenV::LParen, TokenV::LParen) => true,
        (TokenV::RParen, TokenV::RParen) => true,
        (TokenV::LBrace, TokenV::LBrace) => true,
        (TokenV::RBrace, TokenV::RBrace) => true,
        (TokenV::Semicolon, TokenV::Semicolon) => true,
        (TokenV::Comma, TokenV::Comma) => true,
        (TokenV::Function, TokenV::Function) => true,
        (TokenV::If, TokenV::If) => true,
        (TokenV::Else, TokenV::Else) => true,
        (TokenV::While, TokenV::While) => true,
        (TokenV::Return, TokenV::Return) => true,
        (TokenV::Eof, TokenV::Eof) => true,
        _ => false,
    }
}

/// Decides [`same_token_kind`] on concrete tokens.
pub fn tokens_same_kind(a: &Token, b: &Token) -> (r: bool)
    ensures
        r == same_token_kind(a.deep_view(), b.deep_view()),
{
    match (a, b) {
        (Token::Int(_), Token::Int(_)) => true,
        (Token::String(_), Token::String(_)) => true,
        (Token::Ident(_), Token::Ident(_)) => true,
        (Token::Assignment, Token::Assignment) => true,
        (Token::Plus, Token::Plus) => true,
        (Token::Minus, Token::Minus) => true,
        (Token::Star, Token::Star) => true,
        (Token::Slash, Token::Slash) => true,
        (Token::Modulo, Token::Modulo) => true,
        (Token::LessThan, Token::LessThan) => true,
        (Token::GreaterThan, Token::GreaterThan) => true,
        (Token::Equal, Token::Equal) => true,
        (Token::LParen, Token::LParen) => true,
        (Token::RParen, Token::RParen) => true,
        (Token::LBrace, Token::LBrace) => true,
        (Token::RBrace, Token::RBrace) => true,
        (Token::Semicolon, Token::Semicolon) => true,
        (Token::Comma, Token::Comma) => true,
        (Token::Function, Token::Function) => true,
        (Token::If, Token::If) => true,
        (Token::Else, Token::Else) => true,
        (Token::While, Token::While) => true,
        (Token::Return, Token::Return) => true,
        (Token::EOF, Token::EOF) => true,
        _ => false,
    }
}

} // verus!
