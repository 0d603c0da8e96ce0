use vstd::prelude::*;
use vstd::string::*;

verus! {

/// Keywords of the language.
#[derive(Debug, Clone, Copy, PartialEq, Eq, Structural)]
pub enum KwKind {
    Int,
    Return,
    If,
}

/// A lexical token.
#[derive(Debug, PartialEq)]
pub enum Token {
    Num(u64),
    /// One of `+ - * / ( ) { } ;`
    Punct(String),
    /// An identifier that is not a keyword.
    Ident(String),
    Kw(KwKind),
}

/// The mathematical value of a token: text as a sequence of characters.
pub enum SpecToken {
    Num(u64),
    Punct(Seq<char>),
    Ident(Seq<char>),
    Kw(KwKind),
}

impl View for Token {
    type V = SpecToken;

    open spec fn view(&self) -> SpecToken {
        match self {
            Token::Num(n) => SpecToken::Num(*n),
            Token::Punct(p) => SpecToken::Punct(p@),
            Token::Ident(s) => SpecToken::Ident(s@),
            Token::Kw(k) => SpecToken::Kw(*k),
        }
    }
}

pub open spec fn tokens_view(ts: Seq<Token>) -> Seq<SpecToken> {
    ts.map_values(|t: Token| t@)
}

/// Why tokenization failed.
#[derive(Debug, Clone, Copy, PartialEq, Eq, Structural)]
pub enum LexError {
    /// A character that starts no token.
    UnknownCharacter(char),
    /// A run of digits whose value does not fit in 64 bits.
    NumberOverflow,
}

pub open spec fn is_digit(c: char) -> bool {
    '0' <= c <= '9'
}

pub open spec fn is_alpha(c: char) -> bool {
    ('a' <= c <= 'z') || ('A' <= c <= 'Z')
}

pub open spec fn is_punct_char(c: char) -> bool {
    c == '+' || c == '-' || c == '*' || c == '/' || c == '(' || c == ')' || c == '{' || c == '}'
        || c == ';'
}

/// Length of the longest prefix of `s` whose characters all satisfy `p`.
pub open spec fn run_len(s: Seq<char>, p: spec_fn(char) -> bool) -> nat
    decreases s.len(),
{
    if s.len() > 0 && p(s[0]) {
        1 + run_len(s.drop_first(), p)
    } else {
        0
    }
}

pub open spec fn digit_run(s: Seq<char>) -> nat {
    run_len(s, |x: char| is_digit(x))
}

pub open spec fn alpha_run(s: Seq<char>) -> nat {
    run_len(s, |x: char| is_alpha(x))
}

pub open spec fn digit_value(c: char) -> nat {
    (c as int - '0' as int) as nat
}

/// The value of a sequence of decimal digits.
pub open spec fn digits_value(s: Seq<char>) -> nat
    decreases s.len(),
{
    if s.len() == 0 {
        0
    } else {
        digits_value(s.drop_last()) * 10 + digit_value(s.last())
    }
}

pub open spec fn keyword_of(w: Seq<char>) -> Option<KwKind> {
    if w == seq!['i', 'n', 't'] {
        Some(KwKind::Int)
    } else if w == seq!['r', 'e', 't', 'u', 'r', 'n'] {
        Some(KwKind::Return)
    } else if w == seq!['i', 'f'] {
        Some(KwKind::If)
    } else {
        None
    }
}

/// The token of an alphabetic word: a keyword by table lookup, else an identifier.
pub open spec fn word_token(w: Seq<char>) -> SpecToken {
    match keyword_of(w) {
        Some(k) => SpecToken::Kw(k),
        None => SpecToken::Ident(w),
    }
}

pub open spec fn prepend(
    ts: Seq<SpecToken>,
    r: Result<Seq<SpecToken>, LexError>,
) -> Result<Seq<SpecToken>, LexError> {
    match r {
        Ok(rest) => Ok(ts + rest),
        Err(e) => Err(e),
    }
}

/// The tokens of a source text, scanned left to right; the first failure ends the scan.
///
/// A run that starts at a digit or a letter is never empty and never longer than the
/// text; the tests of `n` against those bounds only make termination evident.
pub open spec fn lex(s: Seq<char>) -> Result<Seq<SpecToken>, LexError>
    decreases s.len(),
{
    if s.len() == 0 {
        Ok(Seq::empty())
    } else {
        let c = s[0];
        if c == ' ' {
            lex(s.drop_first())
        } else if is_digit(c) {
            let n = digit_run(s);
            if n == 0 || n > s.len() {
                Err(LexError::NumberOverflow)
            } else if digits_value(s.take(n as int)) > u64::MAX {
                Err(LexError::NumberOverflow)
            } else {
                prepend(
                    seq![SpecToken::Num(digits_value(s.take(n as int)) as u64)],
                    lex(s.skip(n as int)),
                )
            }
        } else if is_punct_char(c) {
            prepend(seq![SpecToken::Punct(seq![c])], lex(s.drop_first()))
        } else if is_alpha(c) {
            let n = alpha_run(s);
            if n == 0 || n > s.len() {
                Err(LexError::UnknownCharacter(c))
            } else {
                prepend(seq![word_token(s.take(n as int))], lex(s.skip(n as int)))
            }
        } else {
            Err(LexError::UnknownCharacter(c))
        }
    }
}

pub proof fn lemma_run_len(s: Seq<char>, p: spec_fn(char) -> bool, n: int)
    requires
        0 <= n <= s.len(),
        forall|j: int| 0 <= j < n ==> p(#[trigger] s[j]),
        n == s.len() || !p(s[n]),
    ensures
        run_len(s, p) == n,
    decreases n,
{
    if n > 0 {
        assert(p(s[0]));
        lemma_run_len(s.drop_first(), p, n - 1);
    } else if s.len() > 0 {
        assert(!p(s[0]));
    }
}

pub proof fn lemma_run_len_bound(s: Seq<char>, p: spec_fn(char) -> bool)
    ensures
        run_len(s, p) <= s.len(),
        forall|j: int| 0 <= j < run_len(s, p) ==> p(#[trigger] s[j]),
        run_len(s, p) < s.len() ==> !p(s[run_len(s, p) as int]),
    decreases s.len(),
{
    if s.len() > 0 && p(s[0]) {
        lemma_run_len_bound(s.drop_first(), p);
        assert forall|j: int| 0 <= j < run_len(s, p) implies p(#[trigger] s[j]) by {
            if j > 0 {
                assert(s[j] == s.drop_first()[j - 1]);
            }
        }
    }
}

/// The one-character string of a punctuator.
fn punct_string(c: char) -> (r: String)
    requires
        is_punct_char(c),
    ensures
        r@ == seq![c],
{
    let s = match c {
        '+' => "+",
        '-' => "-",
        '*' => "*",
        '/' => "/",
        '(' => "(",
        ')' => ")",
        '{' => "{",
        '}' => "}",
        _ => ";",
    };
    proof {
        reveal_strlit("+");
        reveal_strlit("-");
        reveal_strlit("*");
        reveal_strlit("/");
        reveal_strlit("(");
        reveal_strlit(")");
        reveal_strlit("{");
        reveal_strlit("}");
        reveal_strlit(";");
    }
    let r = String::from_str(s);
    assert(r@ =~= seq![c]);
    r
}

proof fn lemma_prepend_assoc(
    a: Seq<SpecToken>,
    b: Seq<SpecToken>,
    r: Result<Seq<SpecToken>, LexError>,
)
    ensures
        prepend(a, prepend(b, r)) == prepend(a + b, r),
{
    if let Ok(x) = r {
        assert(a + (b + x) =~= (a + b) + x);
    }
}

fn is_digit_char(c: char) -> (r: bool)
    ensures
        r == is_digit(c),
{
    '0' <= c && c <= '9'
}

fn is_alpha_char(c: char) -> (r: bool)
    ensures
        r == is_alpha(c),
{
    ('a' <= c && c <= 'z') || ('A' <= c && c <= 'Z')
}

fn is_punct_char_exec(c: char) -> (r: bool)
    ensures
        r == is_punct_char(c),
{
    c == '+' || c == '-' || c == '*' || c == '/' || c == '(' || c == ')' || c == '{' || c == '}'
        || c == ';'
}

/// Takes the run of decimal digits at the start of `s`: its value and what follows it.
/// `None` when `s` does not start with a digit, or when the value does not fit in 64 bits.
pub fn take_number_from_start(s: &str) -> (r: Option<(u64, &str)>)
    ensures
        match r {
            None => s@.len() == 0 || !is_digit(s@[0]) || digits_value(s@.take(digit_run(s@) as int))
                > u64::MAX,
            Some((v, rest)) => {
                &&& s@.len() > 0 && is_digit(s@[0])
                &&& v as nat == digits_value(s@.take(digit_run(s@) as int))
                &&& rest@ == s@.skip(digit_run(s@) as int)
            },
        },
{
    let len = s.unicode_len();
    let mut i: usize = 0;
    let mut v: u64 = 0;
    let mut overflow = false;
    while i < len
        invariant
            len == s@.len(),
            i <= len,
            forall|j: int| 0 <= j < i ==> is_digit(#[trigger] s@[j]),
            !overflow ==> v as nat == digits_value(s@.take(i as int)),
            overflow ==> digits_value(s@.take(i as int)) > u64::MAX,
        ensures
            i <= len,
            forall|j: int| 0 <= j < i ==> is_digit(#[trigger] s@[j]),
            i == len || !is_digit(s@[i as int]),
            !overflow ==> v as nat == digits_value(s@.take(i as int)),
            overflow ==> digits_value(s@.take(i as int)) > u64::MAX,
        decreases len - i,
    {
        let c = s.get_char(i);
        if !is_digit_char(c) {
            break;
        }
        let d = (c as u32 - '0' as u32) as u64;
        proof {
            assert(s@.take(i + 1).drop_last() =~= s@.take(i as int));
            assert(digits_value(s@.take(i + 1)) == digits_value(s@.take(i as int)) * 10 + d);
            if overflow {
                assert(digits_value(s@.take(i as int)) * 10 + d > u64::MAX) by (nonlinear_arith)
                    requires
                        digits_value(s@.take(i as int)) > u64::MAX,
                ;
            }
        }
        if !overflow {
            if v > (u64::MAX - d) / 10 {
                overflow = true;
                assert(v * 10 + d > u64::MAX) by (nonlinear_arith)
                    requires
                        v > (u64::MAX - d) / 10,
                        d <= 9,
                ;
            } else {
                assert(v * 10 + d <= u64::MAX) by (nonlinear_arith)
                    requires
                        v <= (u64::MAX - d) / 10,
                        d <= 9,
                ;
                v = v * 10 + d;
            }
        }
        i = i + 1;
    }
    proof {
        lemma_run_len(s@, |x: char| is_digit(x), i as int);
    }
    if i == 0 || overflow {
        None
    } else {
        Some((v, s.substring_char(i, len)))
    }
}

/// Takes the run of ASCII letters at the start of `s`: the word and what follows it.
/// `None` when `s` does not start with a letter.
pub fn take_ident_from_start(s: &str) -> (r: Option<(&str, &str)>)
    ensures
        match r {
            None => s@.len() == 0 || !is_alpha(s@[0]),
            Some((w, rest)) => {
                &&& s@.len() > 0 && is_alpha(s@[0])
                &&& w@ == s@.take(alpha_run(s@) as int)
                &&& rest@ == s@.skip(alpha_run(s@) as int)
            },
        },
{
    let len = s.unicode_len();
    let mut i: usize = 0;
    while i < len
        invariant
            len == s@.len(),
            i <= len,
            forall|j: int| 0 <= j < i ==> is_alpha(#[trigger] s@[j]),
        ensures
            i <= len,
            forall|j: int| 0 <= j < i ==> is_alpha(#[trigger] s@[j]),
            i == len || !is_alpha(s@[i as int]),
        decreases len - i,
    {
        if !is_alpha_char(s.get_char(i)) {
            break;
        }
        i = i + 1;
    }
    proof {
        lemma_run_len(s@, |x: char| is_alpha(x), i as int);
    }
    if i == 0 {
        None
    } else {
        Some((s.substring_char(0, i), s.substring_char(i, len)))
    }
}

fn keyword(w: &str) -> (r: Option<KwKind>)
    ensures
        r == keyword_of(w@),
{
    let n = w.unicode_len();
    if n == 3 && w.get_char(0) == 'i' && w.get_char(1) == 'n' && w.get_char(2) == 't' {
        assert(w@ =~= seq!['i', 'n', 't']);
        Some(KwKind::Int)
    } else if n == 6 && w.get_char(0) == 'r' && w.get_char(1) == 'e' && w.get_char(2) == 't'
        && w.get_char(3) == 'u' && w.get_char(4) == 'r' && w.get_char(5) == 'n' {
        assert(w@ =~= seq!['r', 'e', 't', 'u', 'r', 'n']);
        Some(KwKind::Return)
    } else if n == 2 && w.get_char(0) == 'i' && w.get_char(1) == 'f' {
        assert(w@ =~= seq!['i', 'f']);
        Some(KwKind::If)
    } else {
        proof {
            if w@ == seq!['i', 'n', 't'] {
                assert(w@[0] == 'i' && w@[1] == 'n' && w@[2] == 't');
            }
            if w@ == seq!['r', 'e', 't', 'u', 'r', 'n'] {
                assert(w@[0] == 'r' && w@[1] == 'e' && w@[2] == 't' && w@[3] == 'u' && w@[4] == 'r'
                    && w@[5] == 'n');
            }
            if w@ == seq!['i', 'f'] {
                assert(w@[0] == 'i' && w@[1] == 'f');
            }
        }
        None
    }
}

/// Splits a source text into tokens.
pub fn tokenize(input: &str) -> (r: Result<Vec<Token>, LexError>)
    ensures
        lex(input@) == match r {
            Ok(ts) => Ok(tokens_view(ts@)),
            Err(e) => Err(e),
        },
{
    let mut tokens: Vec<Token> = Vec::new();
    let mut rest: &str = input;
    proof {
        assert(tokens_view(tokens@) =~= Seq::<SpecToken>::empty());
        if let Ok(x) = lex(rest@) {
            assert(Seq::<SpecToken>::empty() + x =~= x);
        }
    }
    loop
        invariant
            lex(input@) == prepend(tokens_view(tokens@), lex(rest@)),
        decreases rest@.len(),
    {
        let len = rest.unicode_len();
        if len == 0 {
            assert(tokens_view(tokens@) + Seq::<SpecToken>::empty() =~= tokens_view(tokens@));
            return Ok(tokens);
        }
        let c = rest.get_char(0);
        let ghost old_tokens = tokens@;
        let ghost old_rest = rest@;
        if c == ' ' {
            rest = rest.substring_char(1, len);
            assert(rest@ =~= old_rest.drop_first());
            continue;
        }
        let t: Token;
        if is_digit_char(c) {
            match take_number_from_start(rest) {
                Some((v, r)) => {
                    t = Token::Num(v);
                    rest = r;
                },
                None => {
                    return Err(LexError::NumberOverflow);
                },
            }
            proof {
                lemma_run_len_bound(old_rest, |x: char| is_digit(x));
            }
        } else if is_punct_char_exec(c) {
            t = Token::Punct(punct_string(c));
            rest = rest.substring_char(1, len);
            assert(rest@ =~= old_rest.drop_first());
        } else if is_alpha_char(c) {
            match take_ident_from_start(rest) {
                Some((w, r)) => {
                    t = match keyword(w) {
                        Some(k) => Token::Kw(k),
                        None => Token::Ident(String::from_str(w)),
                    };
                    rest = r;
                },
                None => {
                    return Err(LexError::UnknownCharacter(c));
                },
            }
            proof {
                lemma_run_len_bound(old_rest, |x: char| is_alpha(x));
            }
        } else {
            return Err(LexError::UnknownCharacter(c));
        }
        tokens.push(t);
        proof {
            assert(lex(old_rest) == prepend(seq![t@], lex(rest@)));
            lemma_prepend_assoc(tokens_view(old_tokens), seq![t@], lex(rest@));
            assert(tokens_view(tokens@) =~= tokens_view(old_tokens) + seq![t@]);
        }
    }
}

/// A non-empty run of digits alone tokenizes to exactly one number token holding its
/// value, or fails with an overflow where that value does not fit in 64 bits.
pub proof fn lemma_digits_tokenize_to_one_number(s: Seq<char>)
    requires
        s.len() > 0,
        forall|j: int| 0 <= j < s.len() ==> is_digit(#[trigger] s[j]),
    ensures
        digits_value(s) <= u64::MAX ==> lex(s) == Ok::<Seq<SpecToken>, LexError>(
            seq![SpecToken::Num(digits_value(s) as u64)],
        ),
        digits_value(s) > u64::MAX ==> lex(s) == Err::<Seq<SpecToken>, LexError>(
            LexError::NumberOverflow,
        ),
{
    lemma_run_len(s, |x: char| is_digit(x), s.len() as int);
    assert(s.take(s.len() as int) =~= s);
    assert(s.skip(s.len() as int) =~= Seq::<char>::empty());
    assert(lex(Seq::<char>::empty()) == Ok::<Seq<SpecToken>, LexError>(Seq::empty()));
    assert(seq![SpecToken::Num(digits_value(s) as u64)] + Seq::<SpecToken>::empty() =~= seq![
        SpecToken::Num(digits_value(s) as u64),
    ]);
}

/// A character that is neither a space, a digit, a letter nor a punctuator makes
/// tokenization fail, wherever it stands.
pub proof fn lemma_unknown_character_fails(s: Seq<char>, i: int)
    requires
        0 <= i < s.len(),
        s[i] != ' ',
        !is_digit(s[i]),
        !is_alpha(s[i]),
        !is_punct_char(s[i]),
    ensures
        lex(s) is Err,
    decreases s.len(),
{
    let c = s[0];
    if i == 0 {
    } else if c == ' ' || is_punct_char(c) {
        assert(s.drop_first()[i - 1] == s[i]);
        lemma_unknown_character_fails(s.drop_first(), i - 1);
    } else if is_digit(c) || is_alpha(c) {
        let p = if is_digit(c) {
            |x: char| is_digit(x)
        } else {
            |x: char| is_alpha(x)
        };
        lemma_run_len_bound(s, p);
        let n = run_len(s, p) as int;
        assert(n <= i) by {
            if n > i {
                assert(p(s[i]));
            }
        }
        if 0 < n {
            assert(s.skip(n)[i - n] == s[i]);
            lemma_unknown_character_fails(s.skip(n), i - n);
        }
    }
}

} // verus!
