//! Syntax: tokens, the abstract syntax tree, the tokenizer and the parser.

pub mod ast;
pub mod grammar;
pub mod lexer;
pub mod token;

use crate::parser::ast::{Expr, ExprV};
use crate::parser::grammar::{
    binop_of, spec_parse_arguments, spec_parse_assignment, spec_parse_block,
    spec_parse_block_rest, spec_parse_expression, spec_parse_function_call,
    spec_parse_function_def, spec_parse_identifier, spec_parse_if, spec_parse_parameters,
    spec_parse_params_rest, spec_parse_primary, spec_parse_program, spec_parse_return,
    spec_parse_statement, spec_parse_while,
};
use crate::parser::token::{same_token_kind, tokens_same_kind, Token, TokenV};
use crate::utils::{debug_token, token_label};
use vstd::prelude::*;

verus! {

broadcast use crate::parser::ast::lemma_exprs_dv;

/// A position cursor over a token sequence.  `parse_tokens` consumes the
/// tokens left to right and produces one root block expression; each
/// grammar rule has one parsing function, proved to return exactly what
/// the corresponding function of [`grammar`] describes.
pub struct Parser {
    pub tokens: Vec<Token>,
    pub current: usize,
}

/// How a parsing function relates to its grammar rule: on a parse the rule
/// admits, it returns the parsed node, leaves the cursor after it, and has
/// consumed at least one token; on a structural mismatch it returns an
/// error.  The token sequence is never modified.
pub open spec fn models_parse(
    old_p: Parser,
    new_p: Parser,
    spec_r: Option<(ExprV, int)>,
    r: Result<Expr, String>,
) -> bool {
    &&& new_p.tokens == old_p.tokens
    &&& match spec_r {
        Some(p) => r matches Ok(e) && e.deep_view() == p.0 && new_p.current as int == p.1
            && old_p.current < new_p.current && new_p.current as int
            <= old_p.tokens.deep_view().len(),
        None => r is Err,
    }
}

impl Parser {
    /// The mathematical image of the token sequence.
    pub open spec fn toks(&self) -> Seq<TokenV> {
        self.tokens.deep_view()
    }

    /// The token under the cursor, if any.
    fn current_token(&self) -> (r: Option<&Token>)
        ensures
            match r {
                Some(t) => self.current < self.tokens@.len() && *t == self.tokens@[self.current as int],
                None => self.current >= self.tokens@.len(),
            },
    {
        if self.current < self.tokens.len() {
            Some(&self.tokens[self.current])
        } else {
            None
        }
    }

    /// Advances the cursor by one token.
    fn next_token(&mut self)
        requires
            old(self).current < old(self).tokens@.len(),
        ensures
            final (self).tokens == old(self).tokens,
            final (self).current == old(self).current + 1,
    {
        let n = self.tokens.len();
        assert(self.current < n);
        self.current = self.current + 1;
    }

    /// The token after the one under the cursor, if any.
    fn peek_token(&self) -> (r: Option<&Token>)
        ensures
            match r {
                Some(t) => self.current + 1 < self.tokens@.len() && *t == self.tokens@[self.current as int + 1],
                None => self.current + 1 >= self.tokens@.len(),
            },
    {
        let n = self.tokens.len();
        if self.current < n {
            let nxt = self.current + 1;
            if nxt < n {
                Some(&self.tokens[nxt])
            } else {
                None
            }
        } else {
            None
        }
    }

    /// A copy of the token under the cursor, if any.
    fn clone_current(&self) -> (r: Option<Token>)
        ensures
            match r {
                Some(t) => self.current < self.tokens@.len() && t == self.tokens@[self.current as int],
                None => self.current >= self.tokens@.len(),
            },
    {
        match self.current_token() {
            Some(t) => Some(t.clone()),
            None => None,
        }
    }

    /// A copy of the token after the one under the cursor, if any.
    fn clone_peek(&self) -> (r: Option<Token>)
        ensures
            match r {
                Some(t) => self.current + 1 < self.tokens@.len() && t == self.tokens@[self.current as int + 1],
                None => self.current + 1 >= self.tokens@.len(),
            },
    {
        match self.peek_token() {
            Some(t) => Some(t.clone()),
            None => None,
        }
    }

    /// Consumes the token under the cursor when it carries the same tag as
    /// `expected`, returning it; otherwise reports the expected and found
    /// tokens without moving the cursor.
    fn consume_token(&mut self, expected: Token) -> (r: Result<Token, String>)
        ensures
            final (self).tokens == old(self).tokens,
            ({
                let ts = old(self).toks();
                let i = old(self).current as int;
                if i < ts.len() && same_token_kind(ts[i], expected.deep_view()) {
                    r matches Ok(t) && t.deep_view() == ts[i] && final (self).current
                        == old(self).current + 1
                } else {
                    r is Err && *final (self) == *old(self)
                }
            }),
    {
        let n = self.tokens.len();
        if self.current < n {
            let is_expected = tokens_same_kind(&self.tokens[self.current], &expected);
            if is_expected {
                let token_to_return = self.tokens[self.current].clone();
                self.current = self.current + 1;
                return Ok(token_to_return);
            }
            return Err(debug_token(token_label(&expected), &self.tokens[self.current]));
        }
        Err(debug_token(token_label(&expected), &Token::EOF))
    }

    /// An identifier token, yielding its name.
    fn parse_identifier(&mut self) -> (r: Result<String, String>)
        ensures
            final (self).tokens == old(self).tokens,
            match spec_parse_identifier(old(self).toks(), old(self).current as int) {
                Some(p) => r matches Ok(s) && s@ == p.0 && final (self).current as int == p.1
                    && old(self).current < final (self).current && final (self).current as int
                    <= old(self).toks().len(),
                None => r is Err,
            },
    {
        let n = self.tokens.len();
        if self.current < n {
            match &self.tokens[self.current] {
                Token::Ident(name) => {
                    let name_clone = name.clone();
                    self.current = self.current + 1;
                    return Ok(name_clone);
                },
                _ => {},
            }
        }
        Err("Expected identifier".to_string())
    }

    /// The binary operator under the cursor, if any.
    fn current_binop(&self) -> (r: Option<crate::parser::ast::Op>)
        ensures
            ({
                let ts = self.toks();
                let i = self.current as int;
                if i < ts.len() {
                    r == binop_of(ts[i])
                } else {
                    r is None
                }
            }),
    {
        let n = self.tokens.len();
        if self.current < n {
            match &self.tokens[self.current] {
                Token::Plus => Some(crate::parser::ast::Op::Add),
                Token::Minus => Some(crate::parser::ast::Op::Subtract),
                Token::Star => Some(crate::parser::ast::Op::Multiply),
                Token::Slash => Some(crate::parser::ast::Op::Divide),
                Token::LessThan => Some(crate::parser::ast::Op::LessThan),
                Token::GreaterThan => Some(crate::parser::ast::Op::GreaterThan),
                _ => None,
            }
        } else {
            None
        }
    }

    /// A primary term: an integer or string literal, a variable reference,
    /// or a parenthesized sub-expression.
    fn parse_primary(&mut self) -> (r: Result<Expr, String>)
        ensures
            models_parse(
                *old(self),
                *final (self),
                spec_parse_primary(old(self).toks(), old(self).current as int),
                r,
            ),
        decreases self.tokens@.len() - self.current, 1int,
    {
        let n = self.tokens.len();
        if self.current >= n {
            return Err("Unexpected end of tokens".to_string());
        }
        let tok = self.tokens[self.current].clone();
        match tok {
            Token::Int(value) => {
                self.current = self.current + 1;
                Ok(Expr::Literal(crate::parser::ast::Literal::Int(value)))
            },
            Token::String(value) => {
                self.current = self.current + 1;
                Ok(Expr::Literal(crate::parser::ast::Literal::String(value)))
            },
            Token::Ident(name) => {
                self.current = self.current + 1;
                Ok(Expr::Variable(name))
            },
            Token::LParen => {
                self.current = self.current + 1;
                let expr = self.parse_expression()?;
                self.consume_token(Token::RParen)?;
                Ok(expr)
            },
            _ => Err("Unexpected token in primary expression".to_string()),
        }
    }

    /// An expression: a primary term, possibly followed by a binary
    /// operator and a further expression.  All operators bind with equal
    /// precedence and right-leaning associativity.
    fn parse_binary_operator(&mut self) -> (r: Result<Expr, String>)
        ensures
            models_parse(
                *old(self),
                *final (self),
                spec_parse_expression(old(self).toks(), old(self).current as int),
                r,
            ),
        decreases self.tokens@.len() - self.current, 2int,
    {
        let expr = self.parse_primary()?;
        let op = match self.current_binop() {
            Some(op) => op,
            None => {
                return Ok(expr);
            },
        };
        self.next_token();
        let right = self.parse_expression()?;
        Ok(Expr::BinaryOp { left: Box::new(expr), op, right: Box::new(right) })
    }

    /// An expression.
    fn parse_expression(&mut self) -> (r: Result<Expr, String>)
        ensures
            models_parse(
                *old(self),
                *final (self),
                spec_parse_expression(old(self).toks(), old(self).current as int),
                r,
            ),
        decreases self.tokens@.len() - self.current, 3int,
    {
        self.parse_binary_operator()
    }

    /// One or more comma-separated argument expressions.
    #[verifier::loop_isolation(false)]
    fn parse_arguments(&mut self) -> (r: Result<Vec<Expr>, String>)
        ensures
            final (self).tokens == old(self).tokens,
            match spec_parse_arguments(
                old(self).toks(),
                old(self).current as int,
                Seq::empty(),
            ) {
                Some(p) => r matches Ok(v) && v.deep_view() == p.0
                    && final (self).current as int == p.1
                    && old(self).current < final (self).current
                    && final (self).current as int <= old(self).toks().len(),
                None => r is Err,
            },
        decreases self.tokens@.len() - self.current, 4int,
    {
        let ghost ts = self.toks();
        let ghost i0 = self.current as int;
        let mut args: Vec<Expr> = Vec::new();
        proof {
            assert(args.deep_view() =~= Seq::<ExprV>::empty());
        }
        loop
            invariant
                self.tokens == old(self).tokens,
                i0 <= self.current as int,
                args@.len() > 0 ==> i0 < self.current as int,
                self.current as int <= ts.len() || args@.len() == 0,
                spec_parse_arguments(ts, i0, Seq::empty()) == spec_parse_arguments(
                    ts,
                    self.current as int,
                    args.deep_view(),
                ),
            decreases self.tokens@.len() - self.current,
        {
            let ghost prev = args.deep_view();
            let expr = self.parse_expression()?;
            let ghost ev = expr.deep_view();
            args.push(expr);
            proof {
                assert(args.deep_view() =~= prev.push(ev));
            }
            let n = self.tokens.len();
            if self.current < n && matches!(&self.tokens[self.current], Token::Comma) {
                self.next_token();
            } else {
                return Ok(args);
            }
        }
    }

    /// A parenthesized, comma-separated parameter name list.
    #[verifier::loop_isolation(false)]
    fn parse_parameters(&mut self) -> (r: Result<Vec<String>, String>)
        ensures
            final (self).tokens == old(self).tokens,
            match spec_parse_parameters(old(self).toks(), old(self).current as int) {
                Some(p) => r matches Ok(v) && v.deep_view() == p.0
                    && final (self).current as int == p.1
                    && old(self).current < final (self).current
                    && final (self).current as int <= old(self).toks().len(),
                None => r is Err,
            },
    {
        let ghost ts = self.toks();
        let ghost i0 = self.current as int;
        self.consume_token(Token::LParen)?;
        let mut parameters: Vec<String> = Vec::new();
        proof {
            assert(parameters.deep_view() =~= Seq::<Seq<char>>::empty());
        }
        loop
            invariant
                self.tokens == old(self).tokens,
                i0 < self.current as int <= ts.len(),
                spec_parse_parameters(ts, i0) == spec_parse_params_rest(
                    ts,
                    self.current as int,
                    parameters.deep_view(),
                ),
            decreases self.tokens@.len() - self.current,
        {
            let n = self.tokens.len();
            if self.current < n && matches!(&self.tokens[self.current], Token::RParen) {
                self.next_token();
                return Ok(parameters);
            }
            let ghost prev = parameters.deep_view();
            let p = self.parse_identifier()?;
            let ghost pv = p@;
            parameters.push(p);
            proof {
                assert(parameters.deep_view() =~= prev.push(pv));
            }
            let n2 = self.tokens.len();
            if self.current < n2 && matches!(&self.tokens[self.current], Token::Comma) {
                self.next_token();
            }
        }
    }

    /// An assignment statement: a name, `=`, and an expression.
    fn parse_assignment(&mut self) -> (r: Result<Expr, String>)
        ensures
            models_parse(
                *old(self),
                *final (self),
                spec_parse_assignment(old(self).toks(), old(self).current as int),
                r,
            ),
        decreases self.tokens@.len() - self.current, 5int,
    {
        let ident = self.parse_identifier()?;
        self.consume_token(Token::Assignment)?;
        let value = self.parse_expression()?;
        Ok(Expr::Assignment { name: ident, value: Box::new(value) })
    }

    /// A call statement: a name and a parenthesized, comma-separated
    /// argument list, possibly empty.
    fn parse_function_call(&mut self) -> (r: Result<Expr, String>)
        ensures
            models_parse(
                *old(self),
                *final (self),
                spec_parse_function_call(old(self).toks(), old(self).current as int),
                r,
            ),
        decreases self.tokens@.len() - self.current, 5int,
    {
        let name = self.parse_identifier()?;
        self.consume_token(Token::LParen)?;
        let args: Vec<Expr>;
        let n = self.tokens.len();
        if self.current < n && matches!(&self.tokens[self.current], Token::RParen) {
            args = Vec::new();
        } else {
            args = self.parse_arguments()?;
        }
        self.consume_token(Token::RParen)?;
        let ghost argsv = args.deep_view();
        let e = Expr::FunctionCall { name, args };
        proof {
            crate::parser::ast::lemma_exprs_dv(e->FunctionCall_args@);
            assert(e.deep_view()->FunctionCall_args =~= argsv);
        }
        Ok(e)
    }

    /// A function definition: the keyword, a name, a parameter list, and a
    /// block body.
    fn parse_function_def(&mut self) -> (r: Result<Expr, String>)
        ensures
            models_parse(
                *old(self),
                *final (self),
                spec_parse_function_def(old(self).toks(), old(self).current as int),
                r,
            ),
        decreases self.tokens@.len() - self.current, 5int,
    {
        self.consume_token(Token::Function)?;
        let name = self.parse_identifier()?;
        let parameters = self.parse_parameters()?;
        let body = self.parse_block()?;
        Ok(Expr::FunctionDef { name, params: parameters, body: Box::new(body) })
    }

    /// A conditional: the keyword, a parenthesized condition, a
    /// consequence block, and an optional `else` block.
    fn parse_if_expr(&mut self) -> (r: Result<Expr, String>)
        ensures
            models_parse(
                *old(self),
                *final (self),
                spec_parse_if(old(self).toks(), old(self).current as int),
                r,
            ),
        decreases self.tokens@.len() - self.current, 5int,
    {
        self.consume_token(Token::If)?;
        self.consume_token(Token::LParen)?;
        let condition = self.parse_expression()?;
        self.consume_token(Token::RParen)?;
        let consequence = self.parse_block()?;
        let n = self.tokens.len();
        let alternative = if self.current < n && matches!(
            &self.tokens[self.current],
            Token::Else,
        ) {
            self.next_token();
            Some(Box::new(self.parse_block()?))
        } else {
            None
        };
        Ok(Expr::IfExpr { condition: Box::new(condition), consequence: Box::new(consequence), alternative })
    }

    /// A loop: the keyword, a parenthesized condition, and a body block.
    fn parse_while_loop(&mut self) -> (r: Result<Expr, String>)
        ensures
            models_parse(
                *old(self),
                *final (self),
                spec_parse_while(old(self).toks(), old(self).current as int),
                r,
            ),
        decreases self.tokens@.len() - self.current, 5int,
    {
        self.consume_token(Token::While)?;
        self.consume_token(Token::LParen)?;
        let condition = self.parse_expression()?;
        self.consume_token(Token::RParen)?;
        let body = self.parse_block()?;
        Ok(Expr::WhileLoop { condition: Box::new(condition), body: Box::new(body) })
    }

    /// A return statement: the keyword, an expression, and a semicolon.
    fn parse_return_statement(&mut self) -> (r: Result<Expr, String>)
        ensures
            models_parse(
                *old(self),
                *final (self),
                spec_parse_return(old(self).toks(), old(self).current as int),
                r,
            ),
        decreases self.tokens@.len() - self.current, 5int,
    {
        self.consume_token(Token::Return)?;
        let value = self.parse_expression()?;
        self.consume_token(Token::Semicolon)?;
        Ok(Expr::Return(Box::new(value)))
    }

    /// One statement, dispatched on the current token; a trailing
    /// semicolon is consumed when present.
    pub fn parse_statement(&mut self) -> (r: Result<Expr, String>)
        ensures
            models_parse(
                *old(self),
                *final (self),
                spec_parse_statement(old(self).toks(), old(self).current as int),
                r,
            ),
        decreases self.tokens@.len() - self.current, 6int,
    {
        let cur = self.clone_current();
        let stmt_result = match cur {
            Some(Token::While) => self.parse_while_loop(),
            Some(Token::Function) => self.parse_function_def(),
            Some(Token::If) => self.parse_if_expr(),
            Some(Token::Return) => self.parse_return_statement(),
            Some(Token::Ident(_)) => {
                let pk = self.clone_peek();
                match pk {
                    Some(Token::LParen) => self.parse_function_call(),
                    Some(Token::Assignment) => self.parse_assignment(),
                    _ => self.parse_expression(),
                }
            },
            _ => self.parse_expression(),
        };
        let stmt = stmt_result?;
        let n = self.tokens.len();
        if self.current < n && matches!(&self.tokens[self.current], Token::Semicolon) {
            self.next_token();
        }
        Ok(stmt)
    }

    /// A brace-delimited block of statements.
    #[verifier::loop_isolation(false)]
    fn parse_block(&mut self) -> (r: Result<Expr, String>)
        ensures
            models_parse(
                *old(self),
                *final (self),
                spec_parse_block(old(self).toks(), old(self).current as int),
                r,
            ),
        decreases self.tokens@.len() - self.current, 7int,
    {
        let ghost ts = self.toks();
        let ghost i0 = self.current as int;
        self.consume_token(Token::LBrace)?;
        let mut statements: Vec<Expr> = Vec::new();
        proof {
            assert(statements.deep_view() =~= Seq::<ExprV>::empty());
        }
        loop
            invariant
                self.tokens == old(self).tokens,
                i0 < self.current as int <= ts.len(),
                spec_parse_block(ts, i0) == spec_parse_block_rest(
                    ts,
                    self.current as int,
                    statements.deep_view(),
                ),
            decreases self.tokens@.len() - self.current,
        {
            let n = self.tokens.len();
            if self.current >= n {
                return Err("Expected closing brace".to_string());
            }
            if matches!(&self.tokens[self.current], Token::RBrace) {
                self.next_token();
                let ghost sv = statements.deep_view();
                let e = Expr::Block(statements);
                proof {
                    crate::parser::ast::lemma_exprs_dv(e->Block_0@);
                    assert(e.deep_view()->Block_0 =~= sv);
                }
                return Ok(e);
            }
            let ghost prev = statements.deep_view();
            let stmt = self.parse_statement()?;
            let ghost sv = stmt.deep_view();
            statements.push(stmt);
            proof {
                assert(statements.deep_view() =~= prev.push(sv));
            }
        }
    }

    /// Parses the whole program: statements until the end-of-stream marker
    /// or the end of the token sequence, gathered into one root block.
    #[verifier::loop_isolation(false)]
    pub fn parse_tokens(&mut self) -> (r: Result<Expr, String>)
        ensures
            final (self).tokens == old(self).tokens,
            match spec_parse_program(old(self).toks(), old(self).current as int, Seq::empty()) {
                Some(p) => r matches Ok(e) && e.deep_view() == p.0 && final (self).current as int
                    == p.1,
                None => r is Err,
            },
    {
        let ghost ts = self.toks();
        let ghost i0 = self.current as int;
        let mut statements: Vec<Expr> = Vec::new();
        proof {
            assert(statements.deep_view() =~= Seq::<ExprV>::empty());
        }
        loop
            invariant
                self.tokens == old(self).tokens,
                i0 <= self.current as int,
                spec_parse_program(ts, i0, Seq::empty()) == spec_parse_program(
                    ts,
                    self.current as int,
                    statements.deep_view(),
                ),
            decreases self.tokens@.len() - self.current,
        {
            let n = self.tokens.len();
            if self.current >= n {
                let ghost sv = statements.deep_view();
                let e = Expr::Block(statements);
                proof {
                    crate::parser::ast::lemma_exprs_dv(e->Block_0@);
                    assert(e.deep_view()->Block_0 =~= sv);
                }
                return Ok(e);
            }
            if matches!(&self.tokens[self.current], Token::EOF) {
                let ghost sv = statements.deep_view();
                let e = Expr::Block(statements);
                proof {
                    crate::parser::ast::lemma_exprs_dv(e->Block_0@);
                    assert(e.deep_view()->Block_0 =~= sv);
                }
                return Ok(e);
            }
            let ghost prev = statements.deep_view();
            let stmt = self.parse_statement()?;
            let ghost sv = stmt.deep_view();
            statements.push(stmt);
            proof {
                assert(statements.deep_view() =~= prev.push(sv));
            }
        }
    }
}

} // verus!
