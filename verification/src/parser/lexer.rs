//! The tokenizer: converts raw source text into the ordered token sequence,
//! skipping whitespace and recognizing keywords, identifiers, integer and
//! string literals, operators and punctuation.

use crate::parser::token::{Token, TokenV};
use crate::utils::str_eq;
use vstd::prelude::*;
use vstd::string::StrSliceExecFns;

verus! {

/// Whitespace: space, tab, newline, carriage return.
pub open spec fn is_ws_char(c: char) -> bool {
    c == ' ' || c == '\t' || c == '\n' || c == '\r'
}

/// A decimal digit.
pub open spec fn is_digit_char(c: char) -> bool {
    48 <= c as u32 <= 57
}

/// A character that may start an identifier: a letter or an underscore.
pub open spec fn is_ident_start_char(c: char) -> bool {
    (97 <= c as u32 <= 122) || (65 <= c as u32 <= 90) || c == '_'
}

/// A character that may continue an identifier: a letter, a digit or an
/// underscore.
pub open spec fn is_ident_char(c: char) -> bool {
    is_ident_start_char(c) || is_digit_char(c)
}

/// The numeric value of a digit character.
pub open spec fn digit_val(c: char) -> int {
    c as u32 - 48
}

/// The first position at or after `i` that does not continue an
/// identifier.
pub open spec fn ident_end(s: Seq<char>, i: int) -> int
    decreases s.len() - i,
{
    if 0 <= i < s.len() && is_ident_char(s[i]) {
        ident_end(s, i + 1)
    } else {
        i
    }
}

/// The first position at or after `i` that is not a digit.
pub open spec fn digit_end(s: Seq<char>, i: int) -> int
    decreases s.len() - i,
{
    if 0 <= i < s.len() && is_digit_char(s[i]) {
        digit_end(s, i + 1)
    } else {
        i
    }
}

/// The first position at or after `i` holding a double quote, or the end
/// of the text if there is none.
pub open spec fn string_end(s: Seq<char>, i: int) -> int
    decreases s.len() - i,
{
    if 0 <= i < s.len() && s[i] != '"' {
        string_end(s, i + 1)
    } else {
        i
    }
}

/// The value of the decimal digits `s[i..j)`, most significant first.
pub open spec fn digits_val(s: Seq<char>, i: int, j: int) -> int
    decreases j - i,
{
    if i >= j {
        0
    } else {
        digits_val(s, i, j - 1) * 10 + digit_val(s[j - 1])
    }
}

/// The value of a digit run is nonnegative and grows (weakly) with each
/// further digit.
pub proof fn lemma_digits_val_mono(s: Seq<char>, i: int, k: int, j: int)
    requires
        i <= k <= j <= s.len(),
        0 <= i,
        forall|m: int| i <= m < j ==> is_digit_char(s[m]),
    ensures
        0 <= digits_val(s, i, k) <= digits_val(s, i, j),
    decreases j - k,
{
    if k == j {
        lemma_digits_val_nonneg(s, i, k);
    } else {
        lemma_digits_val_mono(s, i, k, j - 1);
    }
}

/// The value of a digit run is nonnegative.
pub proof fn lemma_digits_val_nonneg(s: Seq<char>, i: int, j: int)
    requires
        0 <= i,
        j <= s.len(),
        forall|m: int| i <= m < j ==> is_digit_char(s[m]),
    ensures
        digits_val(s, i, j) >= 0,
    decreases j - i,
{
    if i < j {
        lemma_digits_val_nonneg(s, i, j - 1);
    }
}

/// The keyword a word spells, if any.
pub open spec fn keyword_token(w: Seq<char>) -> Option<TokenV> {
    if w == "function"@ {
        Some(TokenV::Function)
    } else if w == "if"@ {
        Some(TokenV::If)
    } else if w == "else"@ {
        Some(TokenV::Else)
    } else if w == "while"@ {
        Some(TokenV::While)
    } else if w == "return"@ {
        Some(TokenV::Return)
    } else {
        None
    }
}

/// The token a word yields: the keyword it spells, or an identifier.
pub open spec fn word_token(w: Seq<char>) -> TokenV {
    match keyword_token(w) {
        Some(t) => t,
        None => TokenV::Ident(w),
    }
}

/// The token a single operator or punctuation character yields, if any.
/// The equality sign is not here: it is resolved against the character
/// after it.
pub open spec fn single_token(c: char) -> Option<TokenV> {
    if c == '+' {
        Some(TokenV::Plus)
    } else if c == '-' {
        Some(TokenV::Minus)
    } else if c == '*' {
        Some(TokenV::Star)
    } else if c == '/' {
        Some(TokenV::Slash)
    } else if c == '%' {
        Some(TokenV::Modulo)
    } else if c == '<' {
        Some(TokenV::LessThan)
    } else if c == '>' {
        Some(TokenV::GreaterThan)
    } else if c == '(' {
        Some(TokenV::LParen)
    } else if c == ')' {
        Some(TokenV::RParen)
    } else if c == '{' {
        Some(TokenV::LBrace)
    } else if c == '}' {
        Some(TokenV::RBrace)
    } else if c == ';' {
        Some(TokenV::Semicolon)
    } else if c == ',' {
        Some(TokenV::Comma)
    } else {
        None
    }
}

/// Puts one token in front of an outcome: a failure stays a failure.
pub open spec fn prepend_token(t: TokenV, rest: Option<Seq<TokenV>>) -> Option<Seq<TokenV>> {
    match rest {
        Some(ts) => Some(seq![t] + ts),
        None => None,
    }
}

/// Puts finished tokens in front of an outcome: a failure stays a failure.
pub open spec fn prepend_tokens(ts: Seq<TokenV>, rest: Option<Seq<TokenV>>) -> Option<
    Seq<TokenV>,
> {
    match rest {
        Some(r) => Some(ts + r),
        None => None,
    }
}

/// The tokens of the text from position `i` on, ending with the
/// end-of-stream marker, or `None` on a lexical error: an unrecognized
/// character, an integer literal beyond the 64-bit signed range, or an
/// unterminated string literal.
///
/// At each position, after skipping whitespace: a letter or underscore
/// starts the longest identifier run, which is reclassified as a keyword
/// when it spells one; a digit starts the longest digit run, read as a
/// decimal integer; a double quote starts a string literal running to the
/// next double quote, the quotes not part of the value and no escape
/// processing; `==` is matched before `=`; any other character must be a
/// single-character operator or punctuation mark.
pub open spec fn spec_tokens_from(s: Seq<char>, i: int) -> Option<Seq<TokenV>>
    decreases s.len() - i,
{
    if !(0 <= i < s.len()) {
        Some(seq![TokenV::Eof])
    } else if is_ws_char(s[i]) {
        spec_tokens_from(s, i + 1)
    } else if is_ident_start_char(s[i]) {
        let j = ident_end(s, i);
        if i < j <= s.len() {
            prepend_token(word_token(s.subrange(i, j)), spec_tokens_from(s, j))
        } else {
            None
        }
    } else if is_digit_char(s[i]) {
        let j = digit_end(s, i);
        if i < j <= s.len() {
            if digits_val(s, i, j) > i64::MAX {
                None
            } else {
                prepend_token(TokenV::Int(digits_val(s, i, j)), spec_tokens_from(s, j))
            }
        } else {
            None
        }
    } else if s[i] == '"' {
        let j = string_end(s, i + 1);
        if i + 1 <= j < s.len() {
            prepend_token(TokenV::StrLit(s.subrange(i + 1, j)), spec_tokens_from(s, j + 1))
        } else {
            None
        }
    } else if s[i] == '=' {
        if i + 1 < s.len() && s[i + 1] == '=' {
            prepend_token(TokenV::Equal, spec_tokens_from(s, i + 2))
        } else {
            prepend_token(TokenV::Assignment, spec_tokens_from(s, i + 1))
        }
    } else {
        match single_token(s[i]) {
            Some(t) => prepend_token(t, spec_tokens_from(s, i + 1)),
            None => None,
        }
    }
}

/// The complete token sequence of a source text, or `None` on a lexical
/// error.
pub open spec fn spec_tokenize(s: Seq<char>) -> Option<Seq<TokenV>> {
    spec_tokens_from(s, 0)
}

/// Finished tokens absorb a prepended token.
proof fn lemma_prepend_shift(ts: Seq<TokenV>, t: TokenV, rest: Option<Seq<TokenV>>)
    ensures
        prepend_tokens(ts, prepend_token(t, rest)) == prepend_tokens(ts.push(t), rest),
{
    match rest {
        Some(r) => {
            assert(ts + (seq![t] + r) =~= ts.push(t) + r);
        },
        None => {},
    }
}

/// Whether a character is a decimal digit.
fn is_digit_exec(c: char) -> (r: bool)
    ensures
        r == is_digit_char(c),
{
    let u = c as u32;
    48 <= u && u <= 57
}

/// Whether a character continues an identifier.
fn is_ident_char_exec(c: char) -> (r: bool)
    ensures
        r == is_ident_char(c),
{
    let u = c as u32;
    (97 <= u && u <= 122) || (65 <= u && u <= 90) || c == '_' || (48 <= u && u <= 57)
}

/// Whether a character may start an identifier.
fn is_ident_start_exec(c: char) -> (r: bool)
    ensures
        r == is_ident_start_char(c),
{
    let u = c as u32;
    (97 <= u && u <= 122) || (65 <= u && u <= 90) || c == '_'
}

/// An identifier run ends no earlier than it starts and within the text.
proof fn lemma_ident_end_bounds(s: Seq<char>, i: int)
    requires
        0 <= i <= s.len(),
    ensures
        i <= ident_end(s, i) <= s.len(),
    decreases s.len() - i,
{
    if i < s.len() && is_ident_char(s[i]) {
        lemma_ident_end_bounds(s, i + 1);
    }
}

/// The end of the identifier run starting at `start`.
#[verifier::loop_isolation(false)]
fn scan_ident_end(input: &str, start: usize) -> (j: usize)
    requires
        start <= input@.len(),
    ensures
        j as int == ident_end(input@, start as int),
        start <= j <= input@.len(),
{
    let n = input.unicode_len();
    let mut j = start;
    while j < n && is_ident_char_exec(input.get_char(j))
        invariant
            start <= j <= n,
            ident_end(input@, start as int) == ident_end(input@, j as int),
        decreases n - j,
    {
        j = j + 1;
    }
    j
}

/// The end of the digit run starting at `start`, with its value, or an
/// error when the value does not fit the 64-bit signed range.
#[verifier::loop_isolation(false)]
fn scan_int(input: &str, start: usize) -> (res: Result<(i64, usize), String>)
    requires
        start <= input@.len(),
    ensures
        ({
            let j = digit_end(input@, start as int);
            match res {
                Ok(p) => p.1 as int == j && digits_val(input@, start as int, j) <= i64::MAX
                    && p.0 as int == digits_val(input@, start as int, j),
                Err(_) => digits_val(input@, start as int, j) > i64::MAX,
            }
        }),
{
    let n = input.unicode_len();
    let mut j = start;
    let mut val: i64 = 0;
    while j < n && is_digit_exec(input.get_char(j))
        invariant
            start <= j <= n,
            digit_end(input@, start as int) == digit_end(input@, j as int),
            forall|m: int| start as int <= m < j as int ==> is_digit_char(input@[m]),
            val as int == digits_val(input@, start as int, j as int),
            val >= 0,
        decreases n - j,
    {
        let c = input.get_char(j);
        let d = (c as u32 - 48) as i64;
        let scaled = match val.checked_mul(10) {
            Some(v) => v,
            None => {
                proof {
                    lemma_digit_overflow(input@, start as int, j as int, val as int, d as int);
                }
                return Err("integer literal does not fit a 64-bit signed integer".to_string());
            },
        };
        let next = match scaled.checked_add(d) {
            Some(v) => v,
            None => {
                proof {
                    lemma_digit_overflow(input@, start as int, j as int, val as int, d as int);
                }
                return Err("integer literal does not fit a 64-bit signed integer".to_string());
            },
        };
        val = next;
        j = j + 1;
    }
    proof {
        lemma_digits_val_nonneg(input@, start as int, j as int);
    }
    Ok((val, j))
}

/// When one more digit pushes the running value past the 64-bit signed
/// range, the whole digit run is out of range.
proof fn lemma_digit_overflow(s: Seq<char>, start: int, j: int, val: int, d: int)
    requires
        0 <= start <= j < s.len(),
        forall|m: int| start <= m < j ==> is_digit_char(s[m]),
        is_digit_char(s[j]),
        val == digits_val(s, start, j),
        d == digit_val(s[j]),
        val * 10 + d > i64::MAX,
        val >= 0,
        digit_end(s, start) == digit_end(s, j),
    ensures
        digits_val(s, start, digit_end(s, start)) > i64::MAX,
{
    let e = digit_end(s, start);
    lemma_digit_end_bounds(s, start);
    lemma_digit_end_bounds(s, j);
    assert(j < e <= s.len()) by {
        assert(digit_end(s, j) == digit_end(s, j + 1));
        lemma_digit_end_bounds(s, j + 1);
    }
    assert(forall|m: int| start <= m < e ==> is_digit_char(s[m])) by {
        lemma_digit_end_all_digits(s, start);
    }
    assert(digits_val(s, start, j + 1) == val * 10 + d);
    lemma_digits_val_mono(s, start, j + 1, e);
}

/// A digit run keeps its end when entered anywhere inside, and everything
/// before the end is a digit.
proof fn lemma_digit_end_bounds(s: Seq<char>, i: int)
    requires
        0 <= i <= s.len(),
    ensures
        i <= digit_end(s, i) <= s.len(),
    decreases s.len() - i,
{
    if i < s.len() && is_digit_char(s[i]) {
        lemma_digit_end_bounds(s, i + 1);
    }
}

/// Every character strictly before the end of a digit run is a digit.
proof fn lemma_digit_end_all_digits(s: Seq<char>, i: int)
    requires
        0 <= i <= s.len(),
    ensures
        forall|m: int| i <= m < digit_end(s, i) ==> is_digit_char(s[m]),
    decreases s.len() - i,
{
    if i < s.len() && is_digit_char(s[i]) {
        lemma_digit_end_all_digits(s, i + 1);
    }
}

/// The position of the closing double quote at or after `start`, or the
/// end of the text if there is none.
#[verifier::loop_isolation(false)]
fn scan_string_end(input: &str, start: usize) -> (j: usize)
    requires
        start <= input@.len(),
    ensures
        j as int == string_end(input@, start as int),
        start <= j <= input@.len(),
        j < input@.len() ==> input@[j as int] == '"',
{
    let n = input.unicode_len();
    let mut j = start;
    while j < n && input.get_char(j) != '"'
        invariant
            start <= j <= n,
            string_end(input@, start as int) == string_end(input@, j as int),
        decreases n - j,
    {
        j = j + 1;
    }
    j
}

/// The token a word yields: the keyword it spells, or an identifier.
fn classify_word(w: &str) -> (t: Token)
    ensures
        t.deep_view() == word_token(w@),
{
    if str_eq(w, "function") {
        Token::Function
    } else if str_eq(w, "if") {
        Token::If
    } else if str_eq(w, "else") {
        Token::Else
    } else if str_eq(w, "while") {
        Token::While
    } else if str_eq(w, "return") {
        Token::Return
    } else {
        Token::Ident(w.to_owned())
    }
}

/// The token a single operator or punctuation character yields, if any.
fn single_char_token(c: char) -> (t: Option<Token>)
    ensures
        match single_token(c) {
            Some(tv) => t matches Some(tok) && tok.deep_view() == tv,
            None => t is None,
        },
{
    match c {
        '+' => Some(Token::Plus),
        '-' => Some(Token::Minus),
        '*' => Some(Token::Star),
        '/' => Some(Token::Slash),
        '%' => Some(Token::Modulo),
        '<' => Some(Token::LessThan),
        '>' => Some(Token::GreaterThan),
        '(' => Some(Token::LParen),
        ')' => Some(Token::RParen),
        '{' => Some(Token::LBrace),
        '}' => Some(Token::RBrace),
        ';' => Some(Token::Semicolon),
        ',' => Some(Token::Comma),
        _ => None,
    }
}

/// Produces the complete ordered token sequence of the source text, with
/// the end-of-stream marker last, exactly as [`spec_tokenize`] describes;
/// fails when no recognized token matches at the current position, when an
/// integer literal is out of range, and when a string literal has no
/// closing quote.
#[verifier::loop_isolation(false)]
pub fn tokenizer(input: &str) -> (r: Result<Vec<Token>, String>)
    ensures
        match spec_tokenize(input@) {
            Some(ts) => r matches Ok(v) && v.deep_view() == ts,
            None => r is Err,
        },
{
    let n = input.unicode_len();
    let mut tokens: Vec<Token> = Vec::new();
    proof {
        match spec_tokenize(input@) {
            Some(ts) => {
                assert(tokens.deep_view() + ts =~= ts);
            },
            None => {},
        }
    }
    let mut i: usize = 0;
    loop
        invariant
            i <= n,
            spec_tokenize(input@) == prepend_tokens(
                tokens.deep_view(),
                spec_tokens_from(input@, i as int),
            ),
        decreases n - i,
    {
        let ghost prev = tokens.deep_view();
        if i == n {
            tokens.push(Token::EOF);
            proof {
                assert(tokens.deep_view() =~= prev + seq![TokenV::Eof]);
            }
            return Ok(tokens);
        }
        let c = input.get_char(i);
        if c == ' ' || c == '\t' || c == '\n' || c == '\r' {
            i = i + 1;
        } else if is_ident_start_exec(c) {
            let j = scan_ident_end(input, i);
            proof {
                assert(ident_end(input@, i as int) == ident_end(input@, i as int + 1));
                lemma_ident_end_bounds(input@, i as int + 1);
            }
            let word = input.substring_char(i, j);
            let tok = classify_word(word);
            proof {
                lemma_prepend_shift(prev, tok.deep_view(), spec_tokens_from(input@, j as int));
            }
            tokens.push(tok);
            proof {
                assert(tokens.deep_view() =~= prev.push(tok.deep_view()));
            }
            i = j;
        } else if 48 <= c as u32 && c as u32 <= 57 {
            let (val, j) = match scan_int(input, i) {
                Ok(p) => p,
                Err(e) => {
                    return Err(e);
                },
            };
            let tok = Token::Int(val);
            proof {
                assert(digit_end(input@, i as int) == digit_end(input@, i as int + 1));
                lemma_digit_end_bounds(input@, i as int + 1);
                lemma_prepend_shift(prev, tok.deep_view(), spec_tokens_from(input@, j as int));
            }
            tokens.push(tok);
            proof {
                assert(tokens.deep_view() =~= prev.push(TokenV::Int(val as int)));
            }
            i = j;
        } else if c == '"' {
            let j = scan_string_end(input, i + 1);
            if j == n {
                return Err("string literal has no closing quote".to_string());
            }
            let text = input.substring_char(i + 1, j);
            let tok = Token::String(text.to_owned());
            proof {
                lemma_prepend_shift(
                    prev,
                    tok.deep_view(),
                    spec_tokens_from(input@, j as int + 1),
                );
            }
            tokens.push(tok);
            proof {
                assert(tokens.deep_view() =~= prev.push(
                    TokenV::StrLit(input@.subrange(i as int + 1, j as int)),
                ));
            }
            i = j + 1;
        } else if c == '=' {
            if i + 1 < n && input.get_char(i + 1) == '=' {
                proof {
                    lemma_prepend_shift(
                        prev,
                        TokenV::Equal,
                        spec_tokens_from(input@, i as int + 2),
                    );
                }
                tokens.push(Token::Equal);
                proof {
                    assert(tokens.deep_view() =~= prev.push(TokenV::Equal));
                }
                i = i + 2;
            } else {
                proof {
                    lemma_prepend_shift(
                        prev,
                        TokenV::Assignment,
                        spec_tokens_from(input@, i as int + 1),
                    );
                }
                tokens.push(Token::Assignment);
                proof {
                    assert(tokens.deep_view() =~= prev.push(TokenV::Assignment));
                }
                i = i + 1;
            }
        } else {
            match single_char_token(c) {
                Some(tok) => {
                    proof {
                        lemma_prepend_shift(
                            prev,
                            tok.deep_view(),
                            spec_tokens_from(input@, i as int + 1),
                        );
                    }
                    let ghost tv = tok.deep_view();
                    tokens.push(tok);
                    proof {
                        assert(tokens.deep_view() =~= prev.push(tv));
                    }
                    i = i + 1;
                },
                None => {
                    return Err("unrecognized character in input".to_string());
                },
            }
        }
    }
}

} // verus!
