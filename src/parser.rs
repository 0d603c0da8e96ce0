use vstd::prelude::*;
use vstd::slice::slice_subrange;
use crate::lexer::{tokens_view, SpecToken, Token};
use func::{parse_func, spec_parse_func, Function, SpecFunction};

pub mod expr;
pub mod func;
pub mod stmt;

verus! {

/// Why parsing failed.
#[derive(Debug, Clone, Copy, PartialEq, Eq, Structural)]
pub enum ParseError {
    /// The tokens ran out where a statement or an operand must begin.
    UnexpectedEof,
    /// A required punctuator is missing.
    ExpectedPunct(char),
    /// A `return` or an expression statement does not end with `;`.
    MissingSemicolon,
    /// An operand begins with a token that cannot start one.
    PrimaryExpected,
    /// The tokens ran out before the `}` that closes a block.
    UnterminatedBlock,
    /// A function does not begin with a type keyword.
    TypeExpected,
    /// A function's type is not followed by its name.
    NameExpected,
    /// Two functions of one program have the same name.
    DuplicateFunctionName,
}

/// What a parsing step yields: a value and the tokens after it.
///
/// The spec parsers below recurse on what a step left only after testing that it is
/// shorter than what they were given. A step that succeeds always consumes a token, so
/// that test always passes (the executable parsers, which agree with the spec ones,
/// show it); it is there so that termination is evident.
pub type SpecParse<T> = Result<(T, Seq<SpecToken>), ParseError>;

pub open spec fn is_punct_tok(t: SpecToken, c: char) -> bool {
    t == SpecToken::Punct(seq![c])
}

pub open spec fn starts_with_punct(ts: Seq<SpecToken>, c: char) -> bool {
    ts.len() > 0 && is_punct_tok(ts[0], c)
}

/// Consumes the punctuator `c` at the start of `ts`.
pub open spec fn spec_consume_punct(ts: Seq<SpecToken>, c: char) -> Result<
    Seq<SpecToken>,
    ParseError,
> {
    if starts_with_punct(ts, c) {
        Ok(ts.drop_first())
    } else {
        Err(ParseError::ExpectedPunct(c))
    }
}

/// `rest` is what is left of `ts` once a prefix has been consumed.
pub open spec fn is_suffix(rest: Seq<Token>, ts: Seq<Token>) -> bool {
    rest.len() <= ts.len() && rest == ts.skip(ts.len() - rest.len())
}

/// The outcome of an executable parsing step agrees with the spec outcome `s`, and what
/// it leaves is a suffix of the tokens it was given.
pub open spec fn parsed<'a, T: View>(
    tokens: Seq<Token>,
    r: Result<(T, &'a [Token]), ParseError>,
    s: SpecParse<T::V>,
) -> bool {
    match r {
        Ok((v, rest)) => s == Ok::<(T::V, Seq<SpecToken>), ParseError>((v@, tokens_view(rest@)))
            && is_suffix(rest@, tokens),
        Err(e) => s == Err::<(T::V, Seq<SpecToken>), ParseError>(e),
    }
}

pub proof fn lemma_view_skip(ts: Seq<Token>, k: int)
    requires
        0 <= k <= ts.len(),
    ensures
        tokens_view(ts.skip(k)) == tokens_view(ts).skip(k),
        tokens_view(ts).len() == ts.len(),
{
    assert(tokens_view(ts.skip(k)) =~= tokens_view(ts).skip(k));
}

pub proof fn lemma_suffix_trans(a: Seq<Token>, b: Seq<Token>, c: Seq<Token>)
    requires
        is_suffix(a, b),
        is_suffix(b, c),
    ensures
        is_suffix(a, c),
{
    assert(a =~= c.skip(c.len() - a.len()));
}

/// The tokens after the first one, with what the views say of them.
pub fn skip_first(tokens: &[Token]) -> (r: &[Token])
    requires
        tokens@.len() > 0,
    ensures
        r@ == tokens@.drop_first(),
        tokens_view(r@) == tokens_view(tokens@).drop_first(),
        is_suffix(r@, tokens@),
        r@.len() == tokens@.len() - 1,
{
    let r = slice_subrange(tokens, 1, tokens.len());
    proof {
        assert(r@ =~= tokens@.drop_first());
        lemma_view_skip(tokens@, 1);
        assert(tokens@.skip(1) =~= tokens@.drop_first());
    }
    r
}

/// Whether `t` is the punctuator `c`.
pub fn is_punct(t: &Token, c: char) -> (r: bool)
    ensures
        r == is_punct_tok(t@, c),
{
    match t {
        Token::Punct(p) => {
            let s = p.as_str();
            if s.unicode_len() == 1 && s.get_char(0) == c {
                assert(p@ =~= seq![c]);
                true
            } else {
                proof {
                    if p@ == seq![c] {
                        assert(p@[0] == c);
                    }
                }
                false
            }
        },
        _ => false,
    }
}

/// Whether the first of `tokens` is the punctuator `c`.
pub fn starts_with(tokens: &[Token], c: char) -> (r: bool)
    ensures
        r == starts_with_punct(tokens_view(tokens@), c),
{
    if tokens.len() == 0 {
        false
    } else {
        is_punct(&tokens[0], c)
    }
}

/// Consumes the punctuator `c` at the start of `tokens`, and returns the rest.
pub fn consume_punct(tokens: &[Token], c: char) -> (r: Result<&[Token], ParseError>)
    ensures
        spec_consume_punct(tokens_view(tokens@), c) == match r {
            Ok(rest) => Ok(tokens_view(rest@)),
            Err(e) => Err(e),
        },
        r matches Ok(rest) ==> is_suffix(rest@, tokens@) && rest@.len() < tokens@.len(),
{
    if starts_with(tokens, c) {
        Ok(skip_first(tokens))
    } else {
        Err(ParseError::ExpectedPunct(c))
    }
}

pub open spec fn functions_view(fs: Seq<Function>) -> Seq<SpecFunction> {
    fs.map_values(|f: Function| f@)
}

/// `<function>*`: function definitions until the tokens run out.
pub open spec fn spec_parse_functions(ts: Seq<SpecToken>) -> Result<Seq<SpecFunction>, ParseError>
    decreases ts.len(),
{
    if ts.len() == 0 {
        Ok(Seq::empty())
    } else {
        match spec_parse_func(ts) {
            Ok((f, rest)) => if rest.len() < ts.len() {
                match spec_parse_functions(rest) {
                    Ok(fs) => Ok(seq![f] + fs),
                    Err(e) => Err(e),
                }
            } else {
                Err(ParseError::UnexpectedEof)
            },
            Err(e) => Err(e),
        }
    }
}

pub open spec fn names_distinct(fs: Seq<SpecFunction>) -> bool {
    forall|i: int, j: int| 0 <= i < j < fs.len() ==> fs[i].name != fs[j].name
}

/// A whole program: its functions in source order, each name used once.
pub open spec fn spec_parse_program(ts: Seq<SpecToken>) -> Result<Seq<SpecFunction>, ParseError> {
    match spec_parse_functions(ts) {
        Ok(fs) => if names_distinct(fs) {
            Ok(fs)
        } else {
            Err(ParseError::DuplicateFunctionName)
        },
        Err(e) => Err(e),
    }
}

pub open spec fn prepend_functions(
    pre: Seq<SpecFunction>,
    r: Result<Seq<SpecFunction>, ParseError>,
) -> Result<Seq<SpecFunction>, ParseError> {
    match r {
        Ok(fs) => Ok(pre + fs),
        Err(e) => Err(e),
    }
}

/// Parses a whole program: function definitions until the tokens run out.
pub fn parse(tokens: &[Token]) -> (r: Result<Vec<Function>, ParseError>)
    ensures
        spec_parse_program(tokens_view(tokens@)) == match r {
            Ok(fs) => Ok(functions_view(fs@)),
            Err(e) => Err(e),
        },
{
    let mut funcs: Vec<Function> = Vec::new();
    let mut rest = tokens;
    proof {
        assert(functions_view(funcs@) =~= Seq::<SpecFunction>::empty());
        if let Ok(fs) = spec_parse_functions(tokens_view(rest@)) {
            assert(Seq::<SpecFunction>::empty() + fs =~= fs);
        }
    }
    while rest.len() > 0
        invariant
            spec_parse_functions(tokens_view(tokens@)) == prepend_functions(
                functions_view(funcs@),
                spec_parse_functions(tokens_view(rest@)),
            ),
        decreases rest@.len(),
    {
        let (f, r) = parse_func(rest)?;
        let ghost old_funcs = funcs@;
        proof {
            lemma_view_skip(rest@, 0);
            if let Ok(fs) = spec_parse_functions(tokens_view(r@)) {
                assert(functions_view(old_funcs) + (seq![f@] + fs) =~= (functions_view(old_funcs)
                    + seq![f@]) + fs);
            }
        }
        funcs.push(f);
        rest = r;
        assert(functions_view(funcs@) =~= functions_view(old_funcs) + seq![f@]);
    }
    proof {
        lemma_view_skip(rest@, 0);
        assert(functions_view(funcs@) + Seq::<SpecFunction>::empty() =~= functions_view(funcs@));
    }
    let n = funcs.len();
    let mut i: usize = 0;
    while i < n
        invariant
            n == funcs@.len(),
            i <= n,
            spec_parse_functions(tokens_view(tokens@)) == Ok::<Seq<SpecFunction>, ParseError>(
                functions_view(funcs@),
            ),
            forall|a: int, b: int|
                0 <= a < i && a < b < n ==> #[trigger] funcs@[a].name@ != #[trigger] funcs@[b].name@,
        decreases n - i,
    {
        let mut j: usize = i + 1;
        while j < n
            invariant
                n == funcs@.len(),
                i < n,
                spec_parse_functions(tokens_view(tokens@)) == Ok::<Seq<SpecFunction>, ParseError>(
                    functions_view(funcs@),
                ),
                i + 1 <= j <= n,
                forall|a: int, b: int|
                    0 <= a < i && a < b < n ==> #[trigger] funcs@[a].name@
                        != #[trigger] funcs@[b].name@,
                forall|b: int| i < b < j ==> funcs@[i as int].name@ != #[trigger] funcs@[b].name@,
            decreases n - j,
        {
            if funcs[i].name == funcs[j].name {
                proof {
                    let fv = functions_view(funcs@);
                    assert(fv[i as int].name == fv[j as int].name);
                    assert(!names_distinct(fv));
                }
                return Err(ParseError::DuplicateFunctionName);
            }
            j = j + 1;
        }
        i = i + 1;
    }
    proof {
        let fv = functions_view(funcs@);
        assert forall|a: int, b: int| 0 <= a < b < fv.len() implies fv[a].name != fv[b].name by {
            assert(funcs@[a].name@ != funcs@[b].name@);
        }
    }
    Ok(funcs)
}

/// Parsing is a pure function of the tokens: two token sequences with equal values
/// parse to the same program, or fail with the same error.
pub proof fn lemma_parse_is_pure(a: Seq<Token>, b: Seq<Token>)
    requires
        tokens_view(a) == tokens_view(b),
    ensures
        spec_parse_program(tokens_view(a)) == spec_parse_program(tokens_view(b)),
{
}

} // verus!
