use vstd::prelude::*;
use super::stmt::{parse_block, spec_parse_block, stmts_view, SpecStmt, Stmt};
use super::{
    consume_punct, is_suffix, lemma_suffix_trans, parsed, skip_first, spec_consume_punct,
    ParseError, SpecParse,
};
use crate::lexer::{tokens_view, KwKind, SpecToken, Token};
use crate::ty::Ty;

verus! {

/// A function definition: `ty name() { body }`.
#[derive(Debug, PartialEq)]
pub struct Function {
    pub ty: Ty,
    pub name: String,
    pub body: Vec<Stmt>,
}

/// The mathematical value of a function definition.
pub struct SpecFunction {
    pub ty: Ty,
    pub name: Seq<char>,
    pub body: Seq<SpecStmt>,
}

impl View for Function {
    type V = SpecFunction;

    open spec fn view(&self) -> SpecFunction {
        SpecFunction { ty: self.ty, name: self.name@, body: stmts_view(self.body@) }
    }
}

/// `<type> ::= "int"`
pub open spec fn spec_parse_type(ts: Seq<SpecToken>) -> SpecParse<Ty> {
    if ts.len() > 0 && ts[0] == SpecToken::Kw(KwKind::Int) {
        Ok((Ty::Int, ts.drop_first()))
    } else {
        Err(ParseError::TypeExpected)
    }
}

/// `<function> ::= <type> identifier "(" ")" "{" <stmt>* "}"`
pub open spec fn spec_parse_func(ts: Seq<SpecToken>) -> SpecParse<SpecFunction> {
    match spec_parse_type(ts) {
        Ok((ty, r0)) => if r0.len() > 0 && r0[0] is Ident {
            let name = r0[0]->Ident_0;
            match spec_consume_punct(r0.drop_first(), '(') {
                Ok(r1) => match spec_consume_punct(r1, ')') {
                    Ok(r2) => match spec_consume_punct(r2, '{') {
                        Ok(r3) => match spec_parse_block(r3) {
                            Ok((body, rest)) => Ok((SpecFunction { ty, name, body }, rest)),
                            Err(e) => Err(e),
                        },
                        Err(e) => Err(e),
                    },
                    Err(e) => Err(e),
                },
                Err(e) => Err(e),
            }
        } else {
            Err(ParseError::NameExpected)
        },
        Err(e) => Err(e),
    }
}

fn parse_type(tokens: &[Token]) -> (r: Result<(Ty, &[Token]), ParseError>)
    ensures
        match r {
            Ok((ty, rest)) => spec_parse_type(tokens_view(tokens@)) == Ok::<
                (Ty, Seq<SpecToken>),
                ParseError,
            >((ty, tokens_view(rest@))) && is_suffix(rest@, tokens@),
            Err(e) => spec_parse_type(tokens_view(tokens@)) == Err::<
                (Ty, Seq<SpecToken>),
                ParseError,
            >(e),
        },
{
    if tokens.len() > 0 {
        assert(tokens_view(tokens@)[0] == tokens@[0]@);
        if let Token::Kw(KwKind::Int) = &tokens[0] {
            return Ok((Ty::Int, skip_first(tokens)));
        }
    }
    Err(ParseError::TypeExpected)
}

/// Parses one function definition from the start of `tokens`; returns it and the tokens
/// after it.
pub fn parse_func(tokens: &[Token]) -> (r: Result<(Function, &[Token]), ParseError>)
    ensures
        parsed(tokens@, r, spec_parse_func(tokens_view(tokens@))),
        r matches Ok((_, rest)) ==> rest@.len() < tokens@.len(),
{
    let (ty, r0) = parse_type(tokens)?;
    if r0.len() == 0 {
        return Err(ParseError::NameExpected);
    }
    assert(tokens_view(r0@)[0] == r0@[0]@);
    let name = match &r0[0] {
        Token::Ident(name) => name.clone(),
        _ => {
            return Err(ParseError::NameExpected);
        },
    };
    let after = skip_first(r0);
    let r1 = consume_punct(after, '(')?;
    let r2 = consume_punct(r1, ')')?;
    let r3 = consume_punct(r2, '{')?;
    let (body, rest) = parse_block(r3)?;
    proof {
        lemma_suffix_trans(after@, r0@, tokens@);
        lemma_suffix_trans(r1@, after@, tokens@);
        lemma_suffix_trans(r2@, r1@, tokens@);
        lemma_suffix_trans(r3@, r2@, tokens@);
        lemma_suffix_trans(rest@, r3@, tokens@);
    }
    Ok((Function { ty, name, body }, rest))
}

} // verus!
