use vstd::prelude::*;
use super::expr::{parse_expr, spec_parse_expr, Expr, SpecExpr};
use super::{
    consume_punct, is_suffix, lemma_suffix_trans, parsed, skip_first, spec_consume_punct,
    starts_with, starts_with_punct, ParseError, SpecParse,
};
use crate::lexer::{tokens_view, KwKind, SpecToken, Token};

verus! {

broadcast use vstd::std_specs::vec::group_vec_axioms;

/// A statement.
#[derive(Debug, PartialEq)]
pub enum Stmt {
    ExprStmt(Expr),
    ReturnStmt(Expr),
    IfStmt(Box<IfStruct>),
    /// A block: its statements in execution order.
    CompStmt(Vec<Stmt>),
    NullStmt,
}

/// A conditional without an else arm: `body` runs when `cond` is not zero.
#[derive(Debug, PartialEq)]
pub struct IfStruct {
    pub cond: Expr,
    pub body: Stmt,
}

/// The mathematical value of a statement.
pub enum SpecStmt {
    ExprStmt(SpecExpr),
    ReturnStmt(SpecExpr),
    IfStmt(SpecExpr, Box<SpecStmt>),
    CompStmt(Seq<SpecStmt>),
    NullStmt,
}

pub open spec fn stmt_view(s: &Stmt) -> SpecStmt
    decreases s,
{
    match s {
        Stmt::ExprStmt(e) => SpecStmt::ExprStmt(e@),
        Stmt::ReturnStmt(e) => SpecStmt::ReturnStmt(e@),
        Stmt::IfStmt(i) => SpecStmt::IfStmt(i.cond@, Box::new(stmt_view(&i.body))),
        Stmt::CompStmt(v) => SpecStmt::CompStmt(
            Seq::new(
                v@.len(),
                |i: int|
                    if 0 <= i < v@.len() {
                        stmt_view(&v@[i])
                    } else {
                        SpecStmt::NullStmt
                    },
            ),
        ),
        Stmt::NullStmt => SpecStmt::NullStmt,
    }
}

impl View for Stmt {
    type V = SpecStmt;

    open spec fn view(&self) -> SpecStmt {
        stmt_view(self)
    }
}

pub open spec fn stmts_view(v: Seq<Stmt>) -> Seq<SpecStmt> {
    v.map_values(|s: Stmt| s@)
}

pub proof fn lemma_comp_view(v: Vec<Stmt>)
    ensures
        Stmt::CompStmt(v)@ == SpecStmt::CompStmt(stmts_view(v@)),
{
    let x = Stmt::CompStmt(v)@;
    assert(x->CompStmt_0 =~= stmts_view(v@));
}

/// `pre` in front of the statements of a successful block parse.
pub open spec fn prepend_stmts(
    pre: Seq<SpecStmt>,
    r: SpecParse<Seq<SpecStmt>>,
) -> SpecParse<Seq<SpecStmt>> {
    match r {
        Ok((ss, rest)) => Ok((pre + ss, rest)),
        Err(e) => Err(e),
    }
}

/// An expression followed by `;`: a `return` statement when `is_return`, else an
/// expression statement.
pub open spec fn spec_expr_then_semicolon(ts: Seq<SpecToken>, is_return: bool) -> SpecParse<
    SpecStmt,
> {
    match spec_parse_expr(ts) {
        Ok((e, rest)) => if starts_with_punct(rest, ';') {
            Ok(
                (
                    if is_return {
                        SpecStmt::ReturnStmt(e)
                    } else {
                        SpecStmt::ExprStmt(e)
                    },
                    rest.drop_first(),
                ),
            )
        } else {
            Err(ParseError::MissingSemicolon)
        },
        Err(err) => Err(err),
    }
}

/// ```text
/// <stmt> ::= "return" <expr> ";"
///          | "if" "(" <expr> ")" <stmt>
///          | ";"
///          | "{" <stmt>* "}"
///          | <expr> ";"
/// ```
pub open spec fn spec_parse_stmt(ts: Seq<SpecToken>) -> SpecParse<SpecStmt>
    decreases ts.len(), 0nat,
{
    if ts.len() == 0 {
        Err(ParseError::UnexpectedEof)
    } else if ts[0] == SpecToken::Kw(KwKind::Return) {
        spec_expr_then_semicolon(ts.drop_first(), true)
    } else if ts[0] == SpecToken::Kw(KwKind::If) {
        match spec_consume_punct(ts.drop_first(), '(') {
            Ok(r1) => match spec_parse_expr(r1) {
                Ok((cond, r2)) => match spec_consume_punct(r2, ')') {
                    Ok(r3) => if r3.len() < ts.len() {
                        match spec_parse_stmt(r3) {
                            Ok((body, r4)) => Ok((SpecStmt::IfStmt(cond, Box::new(body)), r4)),
                            Err(e) => Err(e),
                        }
                    } else {
                        Err(ParseError::UnexpectedEof)
                    },
                    Err(e) => Err(e),
                },
                Err(e) => Err(e),
            },
            Err(e) => Err(e),
        }
    } else if starts_with_punct(ts, ';') {
        Ok((SpecStmt::NullStmt, ts.drop_first()))
    } else if starts_with_punct(ts, '{') {
        match spec_parse_block(ts.drop_first()) {
            Ok((ss, rest)) => Ok((SpecStmt::CompStmt(ss), rest)),
            Err(e) => Err(e),
        }
    } else {
        spec_expr_then_semicolon(ts, false)
    }
}

/// `<stmt>* "}"`: the statements of a block up to and including its closing brace.
pub open spec fn spec_parse_block(ts: Seq<SpecToken>) -> SpecParse<Seq<SpecStmt>>
    decreases ts.len(), 1nat,
{
    if ts.len() == 0 {
        Err(ParseError::UnterminatedBlock)
    } else if starts_with_punct(ts, '}') {
        Ok((Seq::empty(), ts.drop_first()))
    } else {
        match spec_parse_stmt(ts) {
            Ok((st, rest)) => if rest.len() < ts.len() {
                prepend_stmts(seq![st], spec_parse_block(rest))
            } else {
                Err(ParseError::UnexpectedEof)
            },
            Err(e) => Err(e),
        }
    }
}

/// The executable outcome of a block parse agrees with the spec outcome `s`.
pub open spec fn parsed_block<'a>(
    tokens: Seq<Token>,
    r: Result<(Vec<Stmt>, &'a [Token]), ParseError>,
    s: SpecParse<Seq<SpecStmt>>,
) -> bool {
    match r {
        Ok((v, rest)) => s == Ok::<(Seq<SpecStmt>, Seq<SpecToken>), ParseError>(
            (stmts_view(v@), tokens_view(rest@)),
        ) && is_suffix(rest@, tokens),
        Err(e) => s == Err::<(Seq<SpecStmt>, Seq<SpecToken>), ParseError>(e),
    }
}

fn expr_then_semicolon(tokens: &[Token], is_return: bool) -> (r: Result<(Stmt, &[Token]), ParseError>)
    ensures
        parsed(tokens@, r, spec_expr_then_semicolon(tokens_view(tokens@), is_return)),
        r matches Ok((_, rest)) ==> rest@.len() < tokens@.len(),
{
    let (expr, rest) = parse_expr(tokens)?;
    if !starts_with(rest, ';') {
        return Err(ParseError::MissingSemicolon);
    }
    let rest2 = skip_first(rest);
    proof {
        lemma_suffix_trans(rest2@, rest@, tokens@);
    }
    let st = if is_return {
        Stmt::ReturnStmt(expr)
    } else {
        Stmt::ExprStmt(expr)
    };
    Ok((st, rest2))
}

/// Parses one statement from the start of `tokens`; returns it and the tokens after it.
pub fn parse_stmt(tokens: &[Token]) -> (r: Result<(Stmt, &[Token]), ParseError>)
    ensures
        parsed(tokens@, r, spec_parse_stmt(tokens_view(tokens@))),
        r matches Ok((_, rest)) ==> rest@.len() < tokens@.len(),
    decreases tokens@.len(), 0nat,
{
    if tokens.len() == 0 {
        return Err(ParseError::UnexpectedEof);
    }
    assert(tokens_view(tokens@)[0] == tokens@[0]@);
    match &tokens[0] {
        Token::Kw(KwKind::Return) => {
            let after = skip_first(tokens);
            let r = expr_then_semicolon(after, true);
            proof {
                if let Ok((_, rest)) = r {
                    lemma_suffix_trans(rest@, after@, tokens@);
                }
            }
            return r;
        },
        Token::Kw(KwKind::If) => {
            let after = skip_first(tokens);
            let r1 = consume_punct(after, '(')?;
            let (cond, r2) = parse_expr(r1)?;
            let r3 = consume_punct(r2, ')')?;
            proof {
                lemma_suffix_trans(r2@, r1@, after@);
                lemma_suffix_trans(r3@, r2@, after@);
                lemma_suffix_trans(r3@, after@, tokens@);
            }
            let (body, r4) = parse_stmt(r3)?;
            proof {
                lemma_suffix_trans(r4@, r3@, tokens@);
            }
            return Ok((Stmt::IfStmt(Box::new(IfStruct { cond, body })), r4));
        },
        _ => {},
    }
    if starts_with(tokens, ';') {
        return Ok((Stmt::NullStmt, skip_first(tokens)));
    }
    if starts_with(tokens, '{') {
        let after = skip_first(tokens);
        let (stmts, rest) = parse_block(after)?;
        proof {
            lemma_suffix_trans(rest@, after@, tokens@);
            lemma_comp_view(stmts);
        }
        return Ok((Stmt::CompStmt(stmts), rest));
    }
    expr_then_semicolon(tokens, false)
}

/// Parses statements up to the `}` that closes a block, and consumes that brace.
pub fn parse_block(tokens: &[Token]) -> (r: Result<(Vec<Stmt>, &[Token]), ParseError>)
    ensures
        parsed_block(tokens@, r, spec_parse_block(tokens_view(tokens@))),
    decreases tokens@.len(), 1nat,
{
    let mut stmts: Vec<Stmt> = Vec::new();
    let mut rest = tokens;
    proof {
        assert(stmts_view(stmts@) =~= Seq::<SpecStmt>::empty());
        assert(rest@ =~= tokens@.skip(0));
        if let Ok((ss, r)) = spec_parse_block(tokens_view(tokens@)) {
            assert(Seq::<SpecStmt>::empty() + ss =~= ss);
        }
    }
    loop
        invariant
            is_suffix(rest@, tokens@),
            spec_parse_block(tokens_view(tokens@)) == prepend_stmts(
                stmts_view(stmts@),
                spec_parse_block(tokens_view(rest@)),
            ),
        decreases rest@.len(),
    {
        if rest.len() == 0 {
            return Err(ParseError::UnterminatedBlock);
        }
        if starts_with(rest, '}') {
            let r = skip_first(rest);
            proof {
                lemma_suffix_trans(r@, rest@, tokens@);
                assert(stmts_view(stmts@) + Seq::<SpecStmt>::empty() =~= stmts_view(stmts@));
            }
            return Ok((stmts, r));
        }
        let (st, r) = parse_stmt(rest)?;
        let ghost old_stmts = stmts@;
        let ghost old_rest = rest@;
        proof {
            lemma_suffix_trans(r@, rest@, tokens@);
            let x = spec_parse_block(tokens_view(r@));
            if let Ok((ss, r2)) = x {
                assert(stmts_view(old_stmts) + (seq![st@] + ss) =~= (stmts_view(old_stmts)
                    + seq![st@]) + ss);
            }
        }
        stmts.push(st);
        rest = r;
        assert(stmts_view(stmts@) =~= stmts_view(old_stmts) + seq![st@]);
    }
}

} // verus!
