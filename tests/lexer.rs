use minicc::lexer::{take_ident_from_start, take_number_from_start, tokenize, KwKind, LexError, Token};

fn punct(p: &str) -> Token {
    Token::Punct(p.to_string())
}

#[test]
fn tokenizes_single_digit_number() {
    let input = "2;";
    let expected = vec![Token::Num(2), punct(";")];
    let actual = tokenize(input).unwrap();
    assert_eq!(expected, actual);
}

#[test]
fn tokenizes_multi_digit_number() {
    let input = "123;";
    let expected = vec![Token::Num(123), punct(";")];
    let actual = tokenize(input).unwrap();
    assert_eq!(expected, actual);
}

#[test]
fn tokenizes_with_spaces() {
    let input = "  42 ;";
    let expected = vec![Token::Num(42), punct(";")];
    let actual = tokenize(input).unwrap();
    assert_eq!(expected, actual);
}

#[test]
fn tokenizes_add_expr() {
    let input = "12+23;";
    let expected = vec![Token::Num(12), punct("+"), Token::Num(23), punct(";")];
    let actual = tokenize(input).unwrap();
    assert_eq!(expected, actual);
}

#[test]
fn tokenizes_sub_expr() {
    let input = "23-12;";
    let expected = vec![Token::Num(23), punct("-"), Token::Num(12), punct(";")];
    let actual = tokenize(input).unwrap();
    assert_eq!(expected, actual);
}

#[test]
fn tokenizes_mul_expr() {
    let input = "2*3;";
    let expected = vec![Token::Num(2), punct("*"), Token::Num(3), punct(";")];
    let actual = tokenize(input).unwrap();
    assert_eq!(expected, actual);
}

#[test]
fn tokenizes_div_expr() {
    let input = "9/3;";
    let expected = vec![Token::Num(9), punct("/"), Token::Num(3), punct(";")];
    let actual = tokenize(input).unwrap();
    assert_eq!(expected, actual);
}

#[test]
fn tokenizes_expr_with_parenthesis() {
    let input = "(1+2)*3;";
    let expected = vec![
        punct("("),
        Token::Num(1),
        punct("+"),
        Token::Num(2),
        punct(")"),
        punct("*"),
        Token::Num(3),
        punct(";"),
    ];
    let actual = tokenize(input).unwrap();
    assert_eq!(expected, actual);
}

#[test]
fn tokenizes_with_identifier() {
    let input = "main() { 42; }";
    let expected = vec![
        Token::Ident("main".to_string()),
        punct("("),
        punct(")"),
        punct("{"),
        Token::Num(42),
        punct(";"),
        punct("}"),
    ];
    let actual = tokenize(input).unwrap();
    assert_eq!(expected, actual);
}

#[test]
fn takes_number_from_the_start() {
    let s = "123hello";
    assert_eq!(take_number_from_start(s), Some((123, "hello")));
}

#[test]
fn returns_none_for_not_starting_with_number() {
    let s = "hello123";
    assert_eq!(take_number_from_start(s), None);
}

#[test]
fn takes_identifier_from_the_start() {
    let s = "hello123";
    assert_eq!(take_ident_from_start(s), Some(("hello", "123")));
}

#[test]
fn returns_none_for_not_starting_with_identifier() {
    let s = "123hello";
    assert_eq!(take_ident_from_start(s), None);
}

#[test]
fn tokenizes_keywords() {
    let actual = tokenize("int return if iff").unwrap();
    let expected = vec![
        Token::Kw(KwKind::Int),
        Token::Kw(KwKind::Return),
        Token::Kw(KwKind::If),
        Token::Ident("iff".to_string()),
    ];
    assert_eq!(expected, actual);
}

#[test]
fn tokenizes_digits_alone_to_one_number() {
    assert_eq!(tokenize("9876543210").unwrap(), vec![Token::Num(9876543210)]);
    assert_eq!(tokenize("0").unwrap(), vec![Token::Num(0)]);
}

#[test]
fn tokenizes_largest_number() {
    assert_eq!(tokenize("18446744073709551615").unwrap(), vec![Token::Num(u64::MAX)]);
}

#[test]
fn rejects_number_over_64_bits() {
    assert_eq!(tokenize("18446744073709551616"), Err(LexError::NumberOverflow));
    assert_eq!(tokenize("1 + 99999999999999999999999"), Err(LexError::NumberOverflow));
}

#[test]
fn rejects_unknown_characters() {
    assert_eq!(tokenize("1 % 2"), Err(LexError::UnknownCharacter('%')));
    assert_eq!(tokenize("a\tb"), Err(LexError::UnknownCharacter('\t')));
    assert_eq!(tokenize("x = 1;"), Err(LexError::UnknownCharacter('=')));
}

#[test]
fn tokenizes_empty_input() {
    assert_eq!(tokenize("").unwrap(), Vec::<Token>::new());
    assert_eq!(tokenize("   ").unwrap(), Vec::<Token>::new());
}

#[test]
fn takes_number_that_overflows() {
    assert_eq!(take_number_from_start("99999999999999999999x"), None);
    assert_eq!(take_number_from_start("007;"), Some((7, ";")));
}
