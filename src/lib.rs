use vstd::prelude::*;
use codegen::expr::CodegenError;
use codegen::{gen, spec_gen};
use lexer::{lex, tokenize, LexError};
use parser::{functions_view, parse, spec_parse_program, ParseError};

pub mod codegen;
pub mod lexer;
pub mod literal;
pub mod parser;
pub mod text;
pub mod ty;

verus! {

/// Why a compilation failed: the stage that stopped it and its reason.
#[derive(Debug, Clone, Copy, PartialEq, Eq, Structural)]
pub enum CompileError {
    Lex(LexError),
    Parse(ParseError),
    Codegen(CodegenError),
}

/// The assembly text of a source text: tokenize, parse, generate, stopping at the first
/// stage that fails.
pub open spec fn spec_compile(src: Seq<char>) -> Result<Seq<char>, CompileError> {
    match lex(src) {
        Err(e) => Err(CompileError::Lex(e)),
        Ok(ts) => match spec_parse_program(ts) {
            Err(e) => Err(CompileError::Parse(e)),
            Ok(fs) => match spec_gen(fs) {
                Ok(t) => Ok(t),
                Err(e) => Err(CompileError::Codegen(e)),
            },
        },
    }
}

/// Compiles a source text into x86-64 assembly text (Intel syntax).
pub fn compile(input: &str) -> (r: Result<String, CompileError>)
    ensures
        spec_compile(input@) == match r {
            Ok(s) => Ok(s@),
            Err(e) => Err(e),
        },
{
    let tokens = match tokenize(input) {
        Ok(t) => t,
        Err(e) => {
            return Err(CompileError::Lex(e));
        },
    };
    let ast = match parse(tokens.as_slice()) {
        Ok(a) => a,
        Err(e) => {
            return Err(CompileError::Parse(e));
        },
    };
    match gen(ast.as_slice()) {
        Ok(s) => Ok(s),
        Err(e) => Err(CompileError::Codegen(e)),
    }
}

} // verus!
