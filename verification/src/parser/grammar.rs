//! The grammar: a specification-level recursive-descent parser over the
//! mathematical image of the token sequence.  Each function returns the
//! parsed node and the position after it, or `None` on a structural
//! mismatch; the executable parser is proved to return exactly what these
//! functions describe.

use crate::parser::ast::{ExprV, LiteralV, Op};
use crate::parser::token::TokenV;
use vstd::prelude::*;

verus! {

/// The binary operator a token stands for, if any.
pub open spec fn binop_of(t: TokenV) -> Option<Op> {
    match t {
        TokenV::Plus => Some(Op::Add),
        TokenV::Minus => Some(Op::Subtract),
        TokenV::Star => Some(Op::Multiply),
        TokenV::Slash => Some(Op::Divide),
        TokenV::LessThan => Some(Op::LessThan),
        TokenV::GreaterThan => Some(Op::GreaterThan),
        _ => None,
    }
}

/// A primary term: an integer or string literal, a variable reference, or
/// a parenthesized sub-expression.
pub open spec fn spec_parse_primary(ts: Seq<TokenV>, i: int) -> Option<(ExprV, int)>
    decreases ts.len() - i, 1int,
{
    if !(0 <= i < ts.len()) {
        None
    } else {
        match ts[i] {
            TokenV::Int(v) => Some((ExprV::Literal(LiteralV::Int(v)), i + 1)),
            TokenV::StrLit(s) => Some((ExprV::Literal(LiteralV::Str(s)), i + 1)),
            TokenV::Ident(n) => Some((ExprV::Variable(n), i + 1)),
            TokenV::LParen => match spec_parse_expression(ts, i + 1) {
                Some(p) => if p.1 < ts.len() && ts[p.1] is RParen {
                    Some((p.0, p.1 + 1))
                } else {
                    None
                },
                None => None,
            },
            _ => None,
        }
    }
}

/// An expression: a primary term, possibly followed by a binary operator
/// and a further expression.  All operators bind with equal precedence and
/// right-leaning associativity: the right operand re-enters full
/// expression parsing, so `2 + 3 * 4` parses as `2 + (3 * 4)`.
pub open spec fn spec_parse_expression(ts: Seq<TokenV>, i: int) -> Option<(ExprV, int)>
    decreases ts.len() - i, 3int,
{
    match spec_parse_primary(ts, i) {
        Some(p) => if i < p.1 <= ts.len() {
            if p.1 < ts.len() && binop_of(ts[p.1]) is Some {
                match spec_parse_expression(ts, p.1 + 1) {
                    Some(q) => Some(
                        (
                            ExprV::BinaryOp {
                                left: Box::new(p.0),
                                op: binop_of(ts[p.1])->0,
                                right: Box::new(q.0),
                            },
                            q.1,
                        ),
                    ),
                    None => None,
                }
            } else {
                Some(p)
            }
        } else {
            None
        },
        None => None,
    }
}

/// An identifier token, yielding its name.
pub open spec fn spec_parse_identifier(ts: Seq<TokenV>, i: int) -> Option<(Seq<char>, int)> {
    if 0 <= i < ts.len() && ts[i] is Ident {
        Some((ts[i]->Ident_0, i + 1))
    } else {
        None
    }
}

/// The names inside a parameter list, up to the closing parenthesis.  A
/// comma after a name is consumed when present.
pub open spec fn spec_parse_params_rest(ts: Seq<TokenV>, i: int, acc: Seq<Seq<char>>) -> Option<
    (Seq<Seq<char>>, int),
>
    decreases ts.len() - i, 0int,
{
    if !(0 <= i < ts.len()) {
        None
    } else if ts[i] is RParen {
        Some((acc, i + 1))
    } else if ts[i] is Ident {
        if i + 1 < ts.len() && ts[i + 1] is Comma {
            spec_parse_params_rest(ts, i + 2, acc.push(ts[i]->Ident_0))
        } else {
            spec_parse_params_rest(ts, i + 1, acc.push(ts[i]->Ident_0))
        }
    } else {
        None
    }
}

/// A parenthesized, comma-separated parameter name list.
pub open spec fn spec_parse_parameters(ts: Seq<TokenV>, i: int) -> Option<(Seq<Seq<char>>, int)>
    decreases ts.len() - i, 1int,
{
    if 0 <= i < ts.len() && ts[i] is LParen {
        spec_parse_params_rest(ts, i + 1, Seq::empty())
    } else {
        None
    }
}

/// One or more comma-separated argument expressions.
pub open spec fn spec_parse_arguments(ts: Seq<TokenV>, i: int, acc: Seq<ExprV>) -> Option<
    (Seq<ExprV>, int),
>
    decreases ts.len() - i, 4int,
{
    match spec_parse_expression(ts, i) {
        Some(p) => if i < p.1 <= ts.len() {
            if p.1 < ts.len() && ts[p.1] is Comma {
                spec_parse_arguments(ts, p.1 + 1, acc.push(p.0))
            } else {
                Some((acc.push(p.0), p.1))
            }
        } else {
            None
        },
        None => None,
    }
}

/// An assignment statement: a name, `=`, and an expression.
pub open spec fn spec_parse_assignment(ts: Seq<TokenV>, i: int) -> Option<(ExprV, int)>
    decreases ts.len() - i, 5int,
{
    if 0 <= i < ts.len() && ts[i] is Ident && i + 1 < ts.len() && ts[i + 1] is Assignment {
        match spec_parse_expression(ts, i + 2) {
            Some(p) => Some(
                (ExprV::Assignment { name: ts[i]->Ident_0, value: Box::new(p.0) }, p.1),
            ),
            None => None,
        }
    } else {
        None
    }
}

/// A call statement: a name and a parenthesized, comma-separated argument
/// list, possibly empty.
pub open spec fn spec_parse_function_call(ts: Seq<TokenV>, i: int) -> Option<(ExprV, int)>
    decreases ts.len() - i, 5int,
{
    if 0 <= i < ts.len() && ts[i] is Ident && i + 1 < ts.len() && ts[i + 1] is LParen {
        if i + 2 < ts.len() && ts[i + 2] is RParen {
            Some((ExprV::FunctionCall { name: ts[i]->Ident_0, args: Seq::empty() }, i + 3))
        } else {
            match spec_parse_arguments(ts, i + 2, Seq::empty()) {
                Some(p) => if p.1 < ts.len() && ts[p.1] is RParen {
                    Some((ExprV::FunctionCall { name: ts[i]->Ident_0, args: p.0 }, p.1 + 1))
                } else {
                    None
                },
                None => None,
            }
        }
    } else {
        None
    }
}

/// A brace-delimited block of statements.
pub open spec fn spec_parse_block(ts: Seq<TokenV>, i: int) -> Option<(ExprV, int)>
    decreases ts.len() - i, 5int,
{
    if 0 <= i < ts.len() && ts[i] is LBrace {
        spec_parse_block_rest(ts, i + 1, Seq::empty())
    } else {
        None
    }
}

/// The statements of a block up to the closing brace.
pub open spec fn spec_parse_block_rest(ts: Seq<TokenV>, i: int, acc: Seq<ExprV>) -> Option<
    (ExprV, int),
>
    decreases ts.len() - i, 7int,
{
    if !(0 <= i < ts.len()) {
        None
    } else if ts[i] is RBrace {
        Some((ExprV::Block(acc), i + 1))
    } else {
        match spec_parse_statement(ts, i) {
            Some(p) => if i < p.1 <= ts.len() {
                spec_parse_block_rest(ts, p.1, acc.push(p.0))
            } else {
                None
            },
            None => None,
        }
    }
}

/// A function definition: the keyword, a name, a parameter list, and a
/// block body.
pub open spec fn spec_parse_function_def(ts: Seq<TokenV>, i: int) -> Option<(ExprV, int)>
    decreases ts.len() - i, 5int,
{
    if 0 <= i < ts.len() && ts[i] is Function {
        match spec_parse_identifier(ts, i + 1) {
            Some(name_p) => match spec_parse_parameters(ts, i + 2) {
                Some(params_p) => if i + 2 < params_p.1 <= ts.len() {
                    match spec_parse_block(ts, params_p.1) {
                        Some(body_p) => Some(
                            (
                                ExprV::FunctionDef {
                                    name: name_p.0,
                                    params: params_p.0,
                                    body: Box::new(body_p.0),
                                },
                                body_p.1,
                            ),
                        ),
                        None => None,
                    }
                } else {
                    None
                },
                None => None,
            },
            None => None,
        }
    } else {
        None
    }
}

/// A conditional: the keyword, a parenthesized condition, a consequence
/// block, and an optional `else` block.
pub open spec fn spec_parse_if(ts: Seq<TokenV>, i: int) -> Option<(ExprV, int)>
    decreases ts.len() - i, 5int,
{
    if 0 <= i < ts.len() && ts[i] is If && i + 1 < ts.len() && ts[i + 1] is LParen {
        match spec_parse_expression(ts, i + 2) {
            Some(cond_p) => if i + 2 <= cond_p.1 && cond_p.1 < ts.len() && ts[cond_p.1]
                is RParen {
                match spec_parse_block(ts, cond_p.1 + 1) {
                    Some(cons_p) => if cond_p.1 + 1 < cons_p.1 <= ts.len() {
                        if cons_p.1 < ts.len() && ts[cons_p.1] is Else {
                            match spec_parse_block(ts, cons_p.1 + 1) {
                                Some(alt_p) => Some(
                                    (
                                        ExprV::IfExpr {
                                            condition: Box::new(cond_p.0),
                                            consequence: Box::new(cons_p.0),
                                            alternative: Some(Box::new(alt_p.0)),
                                        },
                                        alt_p.1,
                                    ),
                                ),
                                None => None,
                            }
                        } else {
                            Some(
                                (
                                    ExprV::IfExpr {
                                        condition: Box::new(cond_p.0),
                                        consequence: Box::new(cons_p.0),
                                        alternative: None,
                                    },
                                    cons_p.1,
                                ),
                            )
                        }
                    } else {
                        None
                    },
                    None => None,
                }
            } else {
                None
            },
            None => None,
        }
    } else {
        None
    }
}

/// A loop: the keyword, a parenthesized condition, and a body block.
pub open spec fn spec_parse_while(ts: Seq<TokenV>, i: int) -> Option<(ExprV, int)>
    decreases ts.len() - i, 5int,
{
    if 0 <= i < ts.len() && ts[i] is While && i + 1 < ts.len() && ts[i + 1] is LParen {
        match spec_parse_expression(ts, i + 2) {
            Some(cond_p) => if i + 2 <= cond_p.1 && cond_p.1 < ts.len() && ts[cond_p.1]
                is RParen {
                match spec_parse_block(ts, cond_p.1 + 1) {
                    Some(body_p) => Some(
                        (
                            ExprV::WhileLoop {
                                condition: Box::new(cond_p.0),
                                body: Box::new(body_p.0),
                            },
                            body_p.1,
                        ),
                    ),
                    None => None,
                }
            } else {
                None
            },
            None => None,
        }
    } else {
        None
    }
}

/// A return statement: the keyword, an expression, and a semicolon.
pub open spec fn spec_parse_return(ts: Seq<TokenV>, i: int) -> Option<(ExprV, int)>
    decreases ts.len() - i, 5int,
{
    if 0 <= i < ts.len() && ts[i] is Return {
        match spec_parse_expression(ts, i + 1) {
            Some(p) => if p.1 < ts.len() && ts[p.1] is Semicolon {
                Some((ExprV::Return(Box::new(p.0)), p.1 + 1))
            } else {
                None
            },
            None => None,
        }
    } else {
        None
    }
}

/// One statement, dispatched on the current token: a loop, a function
/// definition, a conditional, a return, a call or an assignment (for an
/// identifier, decided by the token after it), or a bare expression.  A
/// trailing semicolon is consumed when present.
pub open spec fn spec_parse_statement(ts: Seq<TokenV>, i: int) -> Option<(ExprV, int)>
    decreases ts.len() - i, 6int,
{
    let parsed = if 0 <= i < ts.len() && ts[i] is While {
        spec_parse_while(ts, i)
    } else if 0 <= i < ts.len() && ts[i] is Function {
        spec_parse_function_def(ts, i)
    } else if 0 <= i < ts.len() && ts[i] is If {
        spec_parse_if(ts, i)
    } else if 0 <= i < ts.len() && ts[i] is Return {
        spec_parse_return(ts, i)
    } else if 0 <= i < ts.len() && ts[i] is Ident {
        if i + 1 < ts.len() && ts[i + 1] is LParen {
            spec_parse_function_call(ts, i)
        } else if i + 1 < ts.len() && ts[i + 1] is Assignment {
            spec_parse_assignment(ts, i)
        } else {
            spec_parse_expression(ts, i)
        }
    } else {
        spec_parse_expression(ts, i)
    };
    match parsed {
        Some(p) => if p.1 < ts.len() && ts[p.1] is Semicolon {
            Some((p.0, p.1 + 1))
        } else {
            Some(p)
        },
        None => None,
    }
}

/// The whole program: statements until the end-of-stream marker or the end
/// of the token sequence, gathered into one root block.
pub open spec fn spec_parse_program(ts: Seq<TokenV>, i: int, acc: Seq<ExprV>) -> Option<
    (ExprV, int),
>
    decreases ts.len() - i, 8int,
{
    if !(0 <= i < ts.len()) {
        Some((ExprV::Block(acc), i))
    } else if ts[i] is Eof {
        Some((ExprV::Block(acc), i))
    } else {
        match spec_parse_statement(ts, i) {
            Some(p) => if i < p.1 <= ts.len() {
                spec_parse_program(ts, p.1, acc.push(p.0))
            } else {
                None
            },
            None => None,
        }
    }
}

} // verus!
