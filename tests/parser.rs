use minicc::lexer::{tokenize, KwKind, Token};
use minicc::parser::expr::{parse_expr, Binary, Expr};
use minicc::parser::func::{parse_func, Function};
use minicc::parser::parse;
use minicc::parser::stmt::{parse_stmt, IfStruct, Stmt};
use minicc::parser::ParseError;
use minicc::ty::Ty;

fn punct(p: &str) -> Token {
    Token::Punct(p.to_string())
}

fn bin(lhs: Expr, rhs: Expr) -> Box<Binary> {
    Box::new(Binary { lhs, rhs })
}

#[test]
fn parses_multiple_functions() {
    // int ret() { return 42; } int main() { return 123; }
    let tokens = vec![
        Token::Kw(KwKind::Int),
        Token::Ident("ret".to_string()),
        punct("("),
        punct(")"),
        punct("{"),
        Token::Kw(KwKind::Return),
        Token::Num(42),
        punct(";"),
        punct("}"),
        Token::Kw(KwKind::Int),
        Token::Ident("main".to_string()),
        punct("("),
        punct(")"),
        punct("{"),
        Token::Kw(KwKind::Return),
        Token::Num(123),
        punct(";"),
        punct("}"),
    ];
    let expected = vec![
        Function {
            ty: Ty::Int,
            name: "ret".to_string(),
            body: vec![Stmt::ReturnStmt(Expr::Num(42))],
        },
        Function {
            ty: Ty::Int,
            name: "main".to_string(),
            body: vec![Stmt::ReturnStmt(Expr::Num(123))],
        },
    ];
    let actual = parse(&tokens).unwrap();
    assert_eq!(expected, actual);
}

#[test]
fn parses_single_num_token() {
    let tokens = vec![Token::Num(42)];
    let expected = Expr::Num(42);
    let (actual, rest) = parse_expr(&tokens).unwrap();
    assert_eq!(expected, actual);
    assert_eq!(Vec::<Token>::new(), rest);
}

#[test]
fn parses_add_expr() {
    let tokens = vec![Token::Num(12), punct("+"), Token::Num(23)];
    let expected = Expr::Add(bin(Expr::Num(12), Expr::Num(23)));
    let (actual, rest) = parse_expr(&tokens).unwrap();
    assert_eq!(expected, actual);
    assert_eq!(Vec::<Token>::new(), rest);
}

#[test]
fn parses_function_call() {
    let tokens = vec![Token::Ident("somefunc".to_string()), punct("("), punct(")")];
    let expected = Expr::FnCall(Box::new(Expr::FnName("somefunc".to_string())));
    let (expr, rest) = parse_expr(&tokens).unwrap();
    assert_eq!(expected, expr);
    assert_eq!(Vec::<Token>::new(), rest);
}

#[test]
fn parses_nested_add_expr() {
    let tokens = vec![Token::Num(12), punct("+"), Token::Num(23), punct("+"), Token::Num(34)];
    let expected = Expr::Add(bin(Expr::Add(bin(Expr::Num(12), Expr::Num(23))), Expr::Num(34)));
    let (actual, rest) = parse_expr(&tokens).unwrap();
    assert_eq!(expected, actual);
    assert_eq!(Vec::<Token>::new(), rest);
}

#[test]
fn parses_sub_expr() {
    let tokens = vec![Token::Num(23), punct("-"), Token::Num(12)];
    let expected = Expr::Sub(bin(Expr::Num(23), Expr::Num(12)));
    let (actual, rest) = parse_expr(&tokens).unwrap();
    assert_eq!(expected, actual);
    assert_eq!(Vec::<Token>::new(), rest);
}

#[test]
fn parses_mul_expr() {
    let tokens = vec![Token::Num(2), punct("*"), Token::Num(3)];
    let expected = Expr::Mul(bin(Expr::Num(2), Expr::Num(3)));
    let (actual, rest) = parse_expr(&tokens).unwrap();
    assert_eq!(expected, actual);
    assert_eq!(Vec::<Token>::new(), rest);
}

#[test]
fn parses_mul_expr_with_add() {
    // 1+2*3-4
    let tokens = vec![
        Token::Num(1),
        punct("+"),
        Token::Num(2),
        punct("*"),
        Token::Num(3),
        punct("-"),
        Token::Num(4),
    ];
    let expected = Expr::Sub(bin(
        Expr::Add(bin(Expr::Num(1), Expr::Mul(bin(Expr::Num(2), Expr::Num(3))))),
        Expr::Num(4),
    ));
    let (actual, rest) = parse_expr(&tokens).unwrap();
    assert_eq!(expected, actual);
    assert_eq!(Vec::<Token>::new(), rest);
}

#[test]
fn parses_div_expr_with_add() {
    // 1+3/2-4
    let tokens = vec![
        Token::Num(1),
        punct("+"),
        Token::Num(3),
        punct("/"),
        Token::Num(2),
        punct("-"),
        Token::Num(4),
    ];
    let expected = Expr::Sub(bin(
        Expr::Add(bin(Expr::Num(1), Expr::Div(bin(Expr::Num(3), Expr::Num(2))))),
        Expr::Num(4),
    ));
    let (actual, rest) = parse_expr(&tokens).unwrap();
    assert_eq!(expected, actual);
    assert_eq!(Vec::<Token>::new(), rest);
}

#[test]
fn parses_expr_without_parenthesis() {
    // 1+2*3
    let tokens = vec![Token::Num(1), punct("+"), Token::Num(2), punct("*"), Token::Num(3)];
    let expected = Expr::Add(bin(Expr::Num(1), Expr::Mul(bin(Expr::Num(2), Expr::Num(3)))));
    let (actual, rest) = parse_expr(&tokens).unwrap();
    assert_eq!(expected, actual);
    assert_eq!(Vec::<Token>::new(), rest);
}

#[test]
fn parses_expr_with_parenthesis() {
    // (1+2)*3
    let tokens = vec![
        punct("("),
        Token::Num(1),
        punct("+"),
        Token::Num(2),
        punct(")"),
        punct("*"),
        Token::Num(3),
    ];
    let expected = Expr::Mul(bin(Expr::Add(bin(Expr::Num(1), Expr::Num(2))), Expr::Num(3)));
    let (actual, rest) = parse_expr(&tokens).unwrap();
    assert_eq!(expected, actual);
    assert_eq!(Vec::<Token>::new(), rest);
}

#[test]
fn parses_function_with_multiple_stmt() {
    // hello() { 2; return 3; }
    let tokens = vec![
        Token::Kw(KwKind::Int),
        Token::Ident("hello".to_string()),
        punct("("),
        punct(")"),
        punct("{"),
        Token::Num(2),
        punct(";"),
        Token::Kw(KwKind::Return),
        Token::Num(3),
        punct(";"),
        punct("}"),
    ];
    let expected = Function {
        ty: Ty::Int,
        name: "hello".to_string(),
        body: vec![Stmt::ExprStmt(Expr::Num(2)), Stmt::ReturnStmt(Expr::Num(3))],
    };
    let (func, rest) = parse_func(&tokens).unwrap();
    assert_eq!(expected, func);
    assert_eq!(Vec::<Token>::new(), rest);
}

#[test]
fn parse_expression_stmt() {
    let tokens = vec![Token::Num(42), punct(";")];
    let expected = Stmt::ExprStmt(Expr::Num(42));
    let (actual, rest) = parse_stmt(&tokens).unwrap();
    assert_eq!(expected, actual);
    assert_eq!(Vec::<Token>::new(), rest);
}

#[test]
fn parse_return_stmt() {
    let tokens = vec![Token::Kw(KwKind::Return), Token::Num(42), punct(";")];
    let expected = Stmt::ReturnStmt(Expr::Num(42));
    let (actual, rest) = parse_stmt(&tokens).unwrap();
    assert_eq!(expected, actual);
    assert_eq!(Vec::<Token>::new(), rest);
}

#[test]
fn parse_if_stmt() {
    // if (1) 2;
    let tokens = vec![
        Token::Kw(KwKind::If),
        punct("("),
        Token::Num(1),
        punct(")"),
        Token::Num(2),
        punct(";"),
    ];
    let expected = Stmt::IfStmt(Box::new(IfStruct {
        cond: Expr::Num(1),
        body: Stmt::ExprStmt(Expr::Num(2)),
    }));
    let (actual, rest) = parse_stmt(&tokens).unwrap();
    assert_eq!(expected, actual);
    assert_eq!(Vec::<Token>::new(), rest);
}

#[test]
fn parse_if_stmt_with_block() {
    // if (1) { 2; 3; };
    let tokens = vec![
        Token::Kw(KwKind::If),
        punct("("),
        Token::Num(1),
        punct(")"),
        punct("{"),
        Token::Num(2),
        punct(";"),
        Token::Num(3),
        punct(";"),
        punct("}"),
    ];
    let expected = Stmt::IfStmt(Box::new(IfStruct {
        cond: Expr::Num(1),
        body: Stmt::CompStmt(vec![Stmt::ExprStmt(Expr::Num(2)), Stmt::ExprStmt(Expr::Num(3))]),
    }));
    let (actual, rest) = parse_stmt(&tokens).unwrap();
    assert_eq!(expected, actual);
    assert_eq!(Vec::<Token>::new(), rest);
}

#[test]
fn parse_compound_stmt() {
    // { 2; 3; 4; }
    let tokens = vec![
        punct("{"),
        Token::Num(2),
        punct(";"),
        Token::Num(3),
        punct(";"),
        Token::Num(4),
        punct(";"),
        punct("}"),
    ];
    let expected = Stmt::CompStmt(vec![
        Stmt::ExprStmt(Expr::Num(2)),
        Stmt::ExprStmt(Expr::Num(3)),
        Stmt::ExprStmt(Expr::Num(4)),
    ]);
    let (actual, rest) = parse_stmt(&tokens).unwrap();
    assert_eq!(expected, actual);
    assert_eq!(Vec::<Token>::new(), rest);
}

#[test]
fn parse_null_stmt() {
    let tokens = vec![punct(";")];
    let expected = Stmt::NullStmt;
    let (actual, rest) = parse_stmt(&tokens).unwrap();
    assert_eq!(expected, actual);
    assert_eq!(Vec::<Token>::new(), rest);
}

#[test]
fn parse_leaves_tokens_after_expression() {
    let tokens = vec![Token::Num(1), punct("+"), Token::Num(2), punct(";"), Token::Num(7)];
    let (actual, rest) = parse_expr(&tokens).unwrap();
    assert_eq!(Expr::Add(bin(Expr::Num(1), Expr::Num(2))), actual);
    assert_eq!(vec![punct(";"), Token::Num(7)], rest);
}

#[test]
fn parse_subtraction_associates_left() {
    let tokens = tokenize("1-2-3").unwrap();
    let (actual, _) = parse_expr(&tokens).unwrap();
    let expected = Expr::Sub(bin(Expr::Sub(bin(Expr::Num(1), Expr::Num(2))), Expr::Num(3)));
    assert_eq!(expected, actual);
}

#[test]
fn parse_errors() {
    let t = |s: &str| tokenize(s).unwrap();
    assert_eq!(parse_stmt(&t("return 1")).unwrap_err(), ParseError::MissingSemicolon);
    assert_eq!(parse_stmt(&t("1 2;")).unwrap_err(), ParseError::MissingSemicolon);
    assert_eq!(parse_stmt(&t("")).unwrap_err(), ParseError::UnexpectedEof);
    assert_eq!(parse_stmt(&t("{ 1;")).unwrap_err(), ParseError::UnterminatedBlock);
    assert_eq!(parse_stmt(&t("if 1;")).unwrap_err(), ParseError::ExpectedPunct('('));
    assert_eq!(parse_expr(&t("(1+2")).unwrap_err(), ParseError::ExpectedPunct(')'));
    assert_eq!(parse_expr(&t("f(")).unwrap_err(), ParseError::ExpectedPunct(')'));
    assert_eq!(parse_expr(&t("*")).unwrap_err(), ParseError::PrimaryExpected);
    assert_eq!(parse_expr(&t("1+")).unwrap_err(), ParseError::UnexpectedEof);
    assert_eq!(parse(&t("main() { }")).unwrap_err(), ParseError::TypeExpected);
    assert_eq!(parse(&t("int () { }")).unwrap_err(), ParseError::NameExpected);
    assert_eq!(parse(&t("int f(1) { }")).unwrap_err(), ParseError::ExpectedPunct(')'));
    assert_eq!(parse(&t("int f() 1;")).unwrap_err(), ParseError::ExpectedPunct('{'));
    assert_eq!(
        parse(&t("int f() { } int f() { }")).unwrap_err(),
        ParseError::DuplicateFunctionName
    );
}

#[test]
fn parse_empty_program() {
    assert_eq!(parse(&[]).unwrap(), Vec::<Function>::new());
}

#[test]
fn parse_twice_gives_equal_trees() {
    let tokens = tokenize("int f() { if (1) { return 2*(3+4); } ; } int main() { return f(); }")
        .unwrap();
    let first = parse(&tokens).unwrap();
    let second = parse(&tokens).unwrap();
    assert_eq!(first, second);
    assert_eq!(first.len(), 2);
}
