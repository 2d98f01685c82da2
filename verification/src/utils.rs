//! Small helpers shared by the parser and the interpreter.

use crate::parser::token::{Token, TokenV};
use vstd::prelude::*;
use vstd::string::StrSliceExecFns;
use vstd::string::StringExecFns;

verus! {

/// Decides equality of two string slices by their character sequences.
pub fn str_eq(a: &str, b: &str) -> (r: bool)
    ensures
        r == (a@ == b@),
{
    let na = a.unicode_len();
    let nb = b.unicode_len();
    if na != nb {
        return false;
    }
    let mut i: usize = 0;
    while i < na
        invariant
            i <= na,
            na == a@.len(),
            na == b@.len(),
            forall|j: int| 0 <= j < i as int ==> a@[j] == b@[j],
        decreases na - i,
    {
        if a.get_char(i) != b.get_char(i) {
            return false;
        }
        i = i + 1;
    }
    proof {
        assert(a@ =~= b@);
    }
    true
}

/// The tag of a token, as text.
pub open spec fn token_label_spec(t: TokenV) -> Seq<char> {
    match t {
        TokenV::Int(_) => "Int"@,
        TokenV::StrLit(_) => "String"@,
        TokenV::Ident(_) => "Ident"@,
        TokenV::Assignment => "Assignment"@,
        TokenV::Plus => "Plus"@,
        TokenV::Minus => "Minus"@,
        TokenV::Star => "Star"@,
        TokenV::Slash => "Slash"@,
        TokenV::Modulo => "Modulo"@,
        TokenV::LessThan => "LessThan"@,
        TokenV::GreaterThan => "GreaterThan"@,
        TokenV::Equal => "Equal"@,
        TokenV::LParen => "LParen"@,
        TokenV::RParen => "RParen"@,
        TokenV::LBrace => "LBrace"@,
        TokenV::RBrace => "RBrace"@,
        TokenV::Semicolon => "Semicolon"@,
        TokenV::Comma => "Comma"@,
        TokenV::Function => "Function"@,
        TokenV::If => "If"@,
        TokenV::Else => "Else"@,
        TokenV::While => "While"@,
        TokenV::Return => "Return"@,
        TokenV::Eof => "EOF"@,
    }
}

/// Names a token's tag.
pub fn token_label(t: &Token) -> (r: &'static str)
    ensures
        r@ == token_label_spec(t.deep_view()),
{
    match t {
        Token::Int(_) => "Int",
        Token::String(_) => "String",
        Token::Ident(_) => "Ident",
        Token::Assignment => "Assignment",
        Token::Plus => "Plus",
        Token::Minus => "Minus",
        Token::Star => "Star",
        Token::Slash => "Slash",
        Token::Modulo => "Modulo",
        Token::LessThan => "LessThan",
        Token::GreaterThan => "GreaterThan",
        Token::Equal => "Equal",
        Token::LParen => "LParen",
        Token::RParen => "RParen",
        Token::LBrace => "LBrace",
        Token::RBrace => "RBrace",
        Token::Semicolon => "Semicolon",
        Token::Comma => "Comma",
        Token::Function => "Function",
        Token::If => "If",
        Token::Else => "Else",
        Token::While => "While",
        Token::Return => "Return",
        Token::EOF => "EOF",
    }
}

/// A message naming the expected item and the token found instead.
pub fn debug_token(expected: &str, found: &Token) -> (r: String)
    ensures
        r@ == "Expected "@ + expected@ + ", found "@ + token_label_spec(found.deep_view()),
{
    let mut s = String::from_str("Expected ");
    s.append(expected);
    s.append(", found ");
    s.append(token_label(found));
    s
}

} // verus!
