use vstd::prelude::*;
use super::{
    consume_punct, is_punct, parsed, skip_first, spec_consume_punct, starts_with,
    starts_with_punct, ParseError, SpecParse, lemma_suffix_trans,
};
use crate::lexer::{tokens_view, SpecToken, Token};

verus! {

/// An expression tree.
#[derive(Debug, PartialEq)]
pub enum Expr {
    Num(u64),
    Add(Box<Binary>),
    Sub(Box<Binary>),
    Mul(Box<Binary>),
    Div(Box<Binary>),
    /// A function identifier; valid only as the target of a call.
    FnName(String),
    /// A call of the function its operand names.
    FnCall(Box<Expr>),
}

/// The two operands of a binary operator.
#[derive(Debug, PartialEq)]
pub struct Binary {
    pub lhs: Expr,
    pub rhs: Expr,
}

/// The mathematical value of an expression tree.
pub enum SpecExpr {
    Num(u64),
    Add(Box<SpecExpr>, Box<SpecExpr>),
    Sub(Box<SpecExpr>, Box<SpecExpr>),
    Mul(Box<SpecExpr>, Box<SpecExpr>),
    Div(Box<SpecExpr>, Box<SpecExpr>),
    FnName(Seq<char>),
    FnCall(Box<SpecExpr>),
}

pub open spec fn expr_view(e: &Expr) -> SpecExpr
    decreases e,
{
    match e {
        Expr::Num(n) => SpecExpr::Num(*n),
        Expr::Add(b) => SpecExpr::Add(Box::new(expr_view(&b.lhs)), Box::new(expr_view(&b.rhs))),
        Expr::Sub(b) => SpecExpr::Sub(Box::new(expr_view(&b.lhs)), Box::new(expr_view(&b.rhs))),
        Expr::Mul(b) => SpecExpr::Mul(Box::new(expr_view(&b.lhs)), Box::new(expr_view(&b.rhs))),
        Expr::Div(b) => SpecExpr::Div(Box::new(expr_view(&b.lhs)), Box::new(expr_view(&b.rhs))),
        Expr::FnName(f) => SpecExpr::FnName(f@),
        Expr::FnCall(c) => SpecExpr::FnCall(Box::new(expr_view(c))),
    }
}

impl View for Expr {
    type V = SpecExpr;

    open spec fn view(&self) -> SpecExpr {
        expr_view(self)
    }
}

pub open spec fn binary(op: char, lhs: SpecExpr, rhs: SpecExpr) -> SpecExpr {
    if op == '+' {
        SpecExpr::Add(Box::new(lhs), Box::new(rhs))
    } else if op == '-' {
        SpecExpr::Sub(Box::new(lhs), Box::new(rhs))
    } else if op == '*' {
        SpecExpr::Mul(Box::new(lhs), Box::new(rhs))
    } else {
        SpecExpr::Div(Box::new(lhs), Box::new(rhs))
    }
}

/// `<expr> ::= <add>`
pub open spec fn spec_parse_expr(ts: Seq<SpecToken>) -> SpecParse<SpecExpr>
    decreases ts.len(), 6nat,
{
    spec_parse_add(ts)
}

/// `<add> ::= <mul> (("+" | "-") <mul>)*`, associating to the left.
pub open spec fn spec_parse_add(ts: Seq<SpecToken>) -> SpecParse<SpecExpr>
    decreases ts.len(), 5nat,
{
    match spec_parse_mul(ts) {
        Ok((lhs, rest)) => if rest.len() <= ts.len() {
            spec_parse_add_rest(lhs, rest)
        } else {
            Err(ParseError::PrimaryExpected)
        },
        Err(e) => Err(e),
    }
}

/// The tail `(("+" | "-") <mul>)*` of an addition whose left operand so far is `lhs`.
pub open spec fn spec_parse_add_rest(lhs: SpecExpr, ts: Seq<SpecToken>) -> SpecParse<SpecExpr>
    decreases ts.len(), 4nat,
{
    if starts_with_punct(ts, '+') || starts_with_punct(ts, '-') {
        let op = if starts_with_punct(ts, '+') {
            '+'
        } else {
            '-'
        };
        match spec_parse_mul(ts.drop_first()) {
            Ok((rhs, rest)) => if rest.len() < ts.len() {
                spec_parse_add_rest(binary(op, lhs, rhs), rest)
            } else {
                Err(ParseError::PrimaryExpected)
            },
            Err(e) => Err(e),
        }
    } else {
        Ok((lhs, ts))
    }
}

/// `<mul> ::= <postfix> (("*" | "/") <postfix>)*`, associating to the left.
pub open spec fn spec_parse_mul(ts: Seq<SpecToken>) -> SpecParse<SpecExpr>
    decreases ts.len(), 3nat,
{
    match spec_parse_postfix(ts) {
        Ok((lhs, rest)) => if rest.len() <= ts.len() {
            spec_parse_mul_rest(lhs, rest)
        } else {
            Err(ParseError::PrimaryExpected)
        },
        Err(e) => Err(e),
    }
}

/// The tail `(("*" | "/") <postfix>)*` of a product whose left operand so far is `lhs`.
pub open spec fn spec_parse_mul_rest(lhs: SpecExpr, ts: Seq<SpecToken>) -> SpecParse<SpecExpr>
    decreases ts.len(), 2nat,
{
    if starts_with_punct(ts, '*') || starts_with_punct(ts, '/') {
        let op = if starts_with_punct(ts, '*') {
            '*'
        } else {
            '/'
        };
        match spec_parse_postfix(ts.drop_first()) {
            Ok((rhs, rest)) => if rest.len() < ts.len() {
                spec_parse_mul_rest(binary(op, lhs, rhs), rest)
            } else {
                Err(ParseError::PrimaryExpected)
            },
            Err(e) => Err(e),
        }
    } else {
        Ok((lhs, ts))
    }
}

/// `<postfix> ::= <primary> ("(" ")")?`
pub open spec fn spec_parse_postfix(ts: Seq<SpecToken>) -> SpecParse<SpecExpr>
    decreases ts.len(), 1nat,
{
    match spec_parse_primary(ts) {
        Ok((e, rest)) => if starts_with_punct(rest, '(') {
            match spec_consume_punct(rest.drop_first(), ')') {
                Ok(rest2) => Ok((SpecExpr::FnCall(Box::new(e)), rest2)),
                Err(err) => Err(err),
            }
        } else {
            Ok((e, rest))
        },
        Err(err) => Err(err),
    }
}

/// `<primary> ::= "(" <expr> ")" | identifier | number`
pub open spec fn spec_parse_primary(ts: Seq<SpecToken>) -> SpecParse<SpecExpr>
    decreases ts.len(), 0nat,
{
    if ts.len() == 0 {
        Err(ParseError::UnexpectedEof)
    } else if starts_with_punct(ts, '(') {
        match spec_parse_expr(ts.drop_first()) {
            Ok((e, rest)) => match spec_consume_punct(rest, ')') {
                Ok(rest2) => Ok((e, rest2)),
                Err(err) => Err(err),
            },
            Err(err) => Err(err),
        }
    } else {
        match ts[0] {
            SpecToken::Ident(f) => Ok((SpecExpr::FnName(f), ts.drop_first())),
            SpecToken::Num(n) => Ok((SpecExpr::Num(n), ts.drop_first())),
            _ => Err(ParseError::PrimaryExpected),
        }
    }
}

/// Parses an expression from the start of `tokens`; returns it and the tokens after it.
pub fn parse_expr(tokens: &[Token]) -> (r: Result<(Expr, &[Token]), ParseError>)
    ensures
        parsed(tokens@, r, spec_parse_expr(tokens_view(tokens@))),
    decreases tokens@.len(), 6nat,
{
    parse_add(tokens)
}

fn parse_add(tokens: &[Token]) -> (r: Result<(Expr, &[Token]), ParseError>)
    ensures
        parsed(tokens@, r, spec_parse_add(tokens_view(tokens@))),
    decreases tokens@.len(), 5nat,
{
    let (mut node, mut rest) = parse_mul(tokens)?;
    loop
        invariant
            super::is_suffix(rest@, tokens@),
            spec_parse_add(tokens_view(tokens@)) == spec_parse_add_rest(node@, tokens_view(rest@)),
        decreases rest@.len(),
    {
        let is_add = starts_with(rest, '+');
        if !is_add && !starts_with(rest, '-') {
            return Ok((node, rest));
        }
        let after = skip_first(rest);
        let (rhs, r) = parse_mul(after)?;
        proof {
            lemma_suffix_trans(r@, after@, rest@);
            lemma_suffix_trans(r@, rest@, tokens@);
        }
        let lhs = node;
        node = if is_add {
            Expr::Add(Box::new(Binary { lhs, rhs }))
        } else {
            Expr::Sub(Box::new(Binary { lhs, rhs }))
        };
        rest = r;
    }
}

fn parse_mul(tokens: &[Token]) -> (r: Result<(Expr, &[Token]), ParseError>)
    ensures
        parsed(tokens@, r, spec_parse_mul(tokens_view(tokens@))),
    decreases tokens@.len(), 3nat,
{
    let (mut node, mut rest) = parse_postfix(tokens)?;
    loop
        invariant
            super::is_suffix(rest@, tokens@),
            spec_parse_mul(tokens_view(tokens@)) == spec_parse_mul_rest(node@, tokens_view(rest@)),
        decreases rest@.len(),
    {
        let is_mul = starts_with(rest, '*');
        if !is_mul && !starts_with(rest, '/') {
            return Ok((node, rest));
        }
        let after = skip_first(rest);
        let (rhs, r) = parse_postfix(after)?;
        proof {
            lemma_suffix_trans(r@, after@, rest@);
            lemma_suffix_trans(r@, rest@, tokens@);
        }
        let lhs = node;
        node = if is_mul {
            Expr::Mul(Box::new(Binary { lhs, rhs }))
        } else {
            Expr::Div(Box::new(Binary { lhs, rhs }))
        };
        rest = r;
    }
}

fn parse_postfix(tokens: &[Token]) -> (r: Result<(Expr, &[Token]), ParseError>)
    ensures
        parsed(tokens@, r, spec_parse_postfix(tokens_view(tokens@))),
    decreases tokens@.len(), 1nat,
{
    let (node, rest) = parse_primary(tokens)?;
    if starts_with(rest, '(') {
        let after = skip_first(rest);
        let rest2 = consume_punct(after, ')')?;
        proof {
            lemma_suffix_trans(rest2@, after@, rest@);
            lemma_suffix_trans(rest2@, rest@, tokens@);
        }
        Ok((Expr::FnCall(Box::new(node)), rest2))
    } else {
        Ok((node, rest))
    }
}

fn parse_primary(tokens: &[Token]) -> (r: Result<(Expr, &[Token]), ParseError>)
    ensures
        parsed(tokens@, r, spec_parse_primary(tokens_view(tokens@))),
    decreases tokens@.len(), 0nat,
{
    if tokens.len() == 0 {
        return Err(ParseError::UnexpectedEof);
    }
    if starts_with(tokens, '(') {
        let after = skip_first(tokens);
        let (node, rest) = parse_expr(after)?;
        let rest2 = consume_punct(rest, ')')?;
        proof {
            lemma_suffix_trans(rest2@, rest@, after@);
            lemma_suffix_trans(rest2@, after@, tokens@);
        }
        return Ok((node, rest2));
    }
    assert(tokens_view(tokens@)[0] == tokens@[0]@);
    match &tokens[0] {
        Token::Ident(f) => Ok((Expr::FnName(f.clone()), skip_first(tokens))),
        Token::Num(n) => Ok((Expr::Num(*n), skip_first(tokens))),
        _ => Err(ParseError::PrimaryExpected),
    }
}

} // verus!
