use either::Either;
use minilisp::expressions::{decimal_value, float, integer, string, Expression};
use minilisp::parser::{Parser, SyntaxError};
use minilisp::tokens::{Keyword, Token};

fn parse_one(text: &str) -> Result<Either<Expression, Token>, SyntaxError> {
    let source = String::from(text);
    let mut p = Parser::new(&source, 0);
    p.parse(false)
}

fn form(text: &str) -> Expression {
    match parse_one(text) {
        Ok(Either::Left(e)) => e,
        other => panic!("no form: {:?}", other),
    }
}

fn shape(text: &str) -> String {
    format!("{:?}", form(text))
}

fn error(text: &str) -> SyntaxError {
    match parse_one(text) {
        Err(e) => e,
        other => panic!("no error: {:?}", other),
    }
}

#[test]
fn parse_literals_and_names() {
    assert!(matches!(form("42"), Expression::IntegerLiteral(42)));
    assert!(matches!(form("0007"), Expression::IntegerLiteral(7)));
    assert!(matches!(form("2147483647"), Expression::IntegerLiteral(2147483647)));
    assert_eq!(shape("2.50"), "FloatLiteral(\"2.50\")");
    assert_eq!(shape("\"hi\""), "StringLiteral(\"hi\")");
    assert_eq!(shape("foo"), "LookupExpr(\"foo\")");
    assert_eq!(shape("+"), "LookupExpr(\"+\")");
}

#[test]
fn parse_integer_out_of_range_is_an_unexpected_token() {
    match error("2147483648") {
        SyntaxError::UnexpectedToken(Token::IntLiteral(lexeme)) => assert_eq!(lexeme, "2147483648"),
        other => panic!("{:?}", other),
    }
    assert!(matches!(
        error("99999999999999999999999999"),
        SyntaxError::UnexpectedToken(Token::IntLiteral(_))
    ));
}

#[test]
fn parse_call_form() {
    assert_eq!(
        shape("(+ 1 (f x))"),
        "SExpr(LookupExpr(\"+\"), [IntegerLiteral(1), SExpr(LookupExpr(\"f\"), [LookupExpr(\"x\")])])"
    );
    assert_eq!(shape("(f)"), "SExpr(LookupExpr(\"f\"), [])");
    assert_eq!(shape("(1 2)"), "SExpr(IntegerLiteral(1), [IntegerLiteral(2)])");
}

#[test]
fn parse_is_deterministic() {
    let text = "(let (f a b) ((= a 0) b (f (- a 1) (+ b 1))))";
    assert_eq!(shape(text), shape(text));
}

#[test]
fn parse_let_with_a_name() {
    assert_eq!(
        shape("(let x (+ 1 2))"),
        "LetExpr(\"x\", SExpr(LookupExpr(\"+\"), [IntegerLiteral(1), IntegerLiteral(2)]))"
    );
}

#[test]
fn parse_let_sugar_makes_a_named_function() {
    assert_eq!(
        shape("(let (f a b) (+ a b))"),
        "LetExpr(\"f\", LambdaExpr([\"a\", \"b\"], SExpr(LookupExpr(\"+\"), [LookupExpr(\"a\"), LookupExpr(\"b\")])))"
    );
    assert_eq!(shape("(let (f) 1)"), "LetExpr(\"f\", LambdaExpr([], IntegerLiteral(1)))");
}

#[test]
fn parse_lambda() {
    assert_eq!(
        shape("(lambda (x y) x)"),
        "LambdaExpr([\"x\", \"y\"], LookupExpr(\"x\"))"
    );
    assert_eq!(shape("(lambda (x) 1)"), "LambdaExpr([\"x\"], IntegerLiteral(1))");
}

#[test]
fn parse_quoted_list() {
    assert_eq!(shape("'()"), "ListExpr([])");
    assert_eq!(
        shape("'(1 a \"s\")"),
        "ListExpr([IntegerLiteral(1), LookupExpr(\"a\"), StringLiteral(\"s\")])"
    );
}

#[test]
fn parse_nested_list_needs_no_quote_of_its_own() {
    assert_eq!(
        shape("'(1 (2 3) '(4))"),
        "ListExpr([IntegerLiteral(1), ListExpr([IntegerLiteral(2), IntegerLiteral(3)]), ListExpr([IntegerLiteral(4)])])"
    );
}

#[test]
fn parse_with_skip_quote_reads_a_parenthesis_as_a_list() {
    let source = String::from("(a b)");
    let mut p = Parser::new(&source, 0);
    match p.parse(true) {
        Ok(Either::Left(e)) => assert_eq!(
            format!("{:?}", e),
            "ListExpr([LookupExpr(\"a\"), LookupExpr(\"b\")])"
        ),
        other => panic!("{:?}", other),
    }
}

#[test]
fn parse_hands_structural_tokens_to_the_caller() {
    assert!(matches!(parse_one(""), Ok(Either::Right(Token::EOF))));
    assert!(matches!(parse_one("   "), Ok(Either::Right(Token::EOF))));
    assert!(matches!(
        parse_one("let"),
        Ok(Either::Right(Token::KeywordToken(Keyword::Let)))
    ));
    assert!(matches!(
        parse_one("lambda"),
        Ok(Either::Right(Token::KeywordToken(Keyword::Lambda)))
    ));
    match parse_one("#") {
        Ok(Either::Right(Token::Unknown(lexeme))) => assert_eq!(lexeme, "#"),
        other => panic!("{:?}", other),
    }
}

#[test]
fn parse_unmatched_close_parenthesis_is_an_unexpected_token() {
    assert!(matches!(
        parse_one(")"),
        Err(SyntaxError::UnexpectedToken(Token::ClosePar))
    ));
    assert!(matches!(
        parse_one("  ) 1"),
        Err(SyntaxError::UnexpectedToken(Token::ClosePar))
    ));
    let source = String::from("(f 1)) 2 )");
    let mut p = Parser::new(&source, 0);
    assert!(matches!(p.parse(false), Ok(Either::Left(Expression::SExpr(_, _)))));
    assert!(matches!(
        p.parse(false),
        Err(SyntaxError::UnexpectedToken(Token::ClosePar))
    ));
    assert!(matches!(p.parse(false), Ok(Either::Left(Expression::IntegerLiteral(2)))));
    assert!(matches!(
        p.parse(true),
        Err(SyntaxError::UnexpectedToken(Token::ClosePar))
    ));
    assert!(p.is_finished());
    assert!(matches!(p.parse(false), Ok(Either::Right(Token::EOF))));
}

#[test]
fn parse_unmatched_open_parenthesis_is_end_of_input() {
    assert!(matches!(error("(+ 1"), SyntaxError::EOF));
    assert!(matches!(error("("), SyntaxError::EOF));
    assert!(matches!(error("(+ (f 1)"), SyntaxError::EOF));
    assert!(matches!(error("'(1 2"), SyntaxError::EOF));
    assert!(matches!(error("(let x"), SyntaxError::EOF));
}

#[test]
fn parse_form_rejects_unmatched_close_parenthesis() {
    let source = String::from("(f 1) ) 2");
    let mut p = Parser::new(&source, 0);
    assert!(matches!(p.parse_form(), Ok(Some(Expression::SExpr(_, _)))));
    assert!(matches!(
        p.parse_form(),
        Err(SyntaxError::UnexpectedToken(Token::ClosePar))
    ));
    assert!(matches!(p.parse_form(), Ok(Some(Expression::IntegerLiteral(2)))));
    assert!(matches!(p.parse_form(), Ok(None)));
    assert!(p.is_finished());
}

#[test]
fn parse_form_rejects_other_bare_tokens() {
    let source = String::from("let # x");
    let mut p = Parser::new(&source, 0);
    assert!(matches!(
        p.parse_form(),
        Err(SyntaxError::UnexpectedToken(Token::KeywordToken(Keyword::Let)))
    ));
    assert!(matches!(
        p.parse_form(),
        Err(SyntaxError::UnexpectedToken(Token::Unknown(_)))
    ));
    assert!(matches!(p.parse_form(), Ok(Some(Expression::LookupExpr(_)))));
    assert!(p.is_finished());
}

#[test]
fn parse_quote_without_parenthesis_is_missing_paren() {
    assert!(matches!(error("'x"), SyntaxError::MissingParen));
    assert!(matches!(error("'"), SyntaxError::MissingParen));
    assert!(matches!(error("(f 'x)"), SyntaxError::MissingParen));
}

#[test]
fn parse_token_inside_a_form_is_unexpected() {
    assert!(matches!(
        error("(f let)"),
        SyntaxError::UnexpectedToken(Token::KeywordToken(Keyword::Let))
    ));
    assert!(matches!(
        error("(f # 1)"),
        SyntaxError::UnexpectedToken(Token::Unknown(_))
    ));
    assert!(matches!(
        error("'(a lambda)"),
        SyntaxError::UnexpectedToken(Token::KeywordToken(Keyword::Lambda))
    ));
}

#[test]
fn parse_bad_operator() {
    assert!(matches!(error("(# 1)"), SyntaxError::BadOperator));
    assert!(matches!(error("() 1)"), SyntaxError::BadOperator));
}

#[test]
fn parse_malformed_let() {
    assert!(matches!(error("(let x)"), SyntaxError::MalformedLet));
    assert!(matches!(error("(let)"), SyntaxError::MalformedLet));
    assert!(matches!(error("(let x 1 2)"), SyntaxError::MalformedLet));
    assert!(matches!(error("(let 1 2)"), SyntaxError::MalformedLet));
    assert!(matches!(error("(let ((f) x) 2)"), SyntaxError::MalformedLet));
    assert!(matches!(error("(let \"x\" 2)"), SyntaxError::MalformedLet));
}

#[test]
fn parse_malformed_lambda() {
    assert!(matches!(error("(lambda (x))"), SyntaxError::MalformedLambda));
    assert!(matches!(error("(lambda x 1)"), SyntaxError::MalformedLambda));
    assert!(matches!(error("(lambda (x) 1 2)"), SyntaxError::MalformedLambda));
    assert!(matches!(error("(lambda)"), SyntaxError::MalformedLambda));
}

#[test]
fn parse_bad_argument_name() {
    assert!(matches!(error("(lambda (x 1) x)"), SyntaxError::BadArgumentName));
    assert!(matches!(error("(lambda (1 x) x)"), SyntaxError::BadArgumentName));
    assert!(matches!(error("(let (f (g)) 1)"), SyntaxError::BadArgumentName));
    assert!(matches!(error("(let (f \"a\") 1)"), SyntaxError::BadArgumentName));
}

#[test]
fn parse_goes_on_after_an_error() {
    let source = String::from("(let x) (+ 1 2)");
    let mut p = Parser::new(&source, 0);
    assert!(matches!(p.parse(false), Err(SyntaxError::MalformedLet)));
    assert!(!p.is_finished());
    assert!(matches!(p.parse(false), Ok(Either::Left(Expression::SExpr(_, _)))));
    assert!(p.is_finished());
}

#[test]
fn parser_is_finished_on_empty_text() {
    let source = String::new();
    let p = Parser::new(&source, 0);
    assert!(p.is_finished());
}

#[test]
fn decimal_value_reads_digits_only() {
    assert_eq!(decimal_value(&String::from("0")), Some(0));
    assert_eq!(decimal_value(&String::from("120")), Some(120));
    assert_eq!(decimal_value(&String::from("2147483647")), Some(2147483647));
    assert_eq!(decimal_value(&String::from("2147483648")), None);
    assert_eq!(decimal_value(&String::from("")), None);
    assert_eq!(decimal_value(&String::from("12a")), None);
    assert_eq!(decimal_value(&String::from("1 ")), None);
}

#[test]
fn decimal_value_takes_an_optional_sign() {
    assert_eq!(decimal_value(&String::from("-1")), Some(-1));
    assert_eq!(decimal_value(&String::from("+1")), Some(1));
    assert_eq!(decimal_value(&String::from("-0")), Some(0));
    assert_eq!(decimal_value(&String::from("+007")), Some(7));
    assert_eq!(decimal_value(&String::from("-2147483648")), Some(i32::MIN));
    assert_eq!(decimal_value(&String::from("-2147483649")), None);
    assert_eq!(decimal_value(&String::from("+2147483647")), Some(i32::MAX));
    assert_eq!(decimal_value(&String::from("+2147483648")), None);
    assert_eq!(decimal_value(&String::from("-")), None);
    assert_eq!(decimal_value(&String::from("+")), None);
    assert_eq!(decimal_value(&String::from("--1")), None);
    assert_eq!(decimal_value(&String::from("+-1")), None);
    assert_eq!(decimal_value(&String::from("1-")), None);
}

#[test]
fn decimal_value_agrees_with_the_standard_library() {
    let samples = [
        "", "0", "-0", "+0", "5", "-5", "+5", "00012", "-00012", "2147483647", "2147483648",
        "-2147483648", "-2147483649", "99999999999", "-99999999999", "1a", "a1", "-", "+", "+-3",
        " 3", "3 ", "1.5", "١٢",
    ];
    for text in samples {
        assert_eq!(
            decimal_value(&String::from(text)),
            text.parse::<i32>().ok(),
            "{:?}",
            text
        );
    }
}

#[test]
fn literal_constructors() {
    assert!(matches!(integer(String::from("15")), Expression::IntegerLiteral(15)));
    assert!(matches!(integer(String::from("-5")), Expression::IntegerLiteral(-5)));
    assert!(matches!(integer(String::from("+5")), Expression::IntegerLiteral(5)));
    match float(String::from("1.5")) {
        Expression::FloatLiteral(lexeme) => assert_eq!(lexeme, "1.5"),
        other => panic!("{:?}", other),
    }
    match string(String::from("abc")) {
        Expression::StringLiteral(text) => assert_eq!(text, "abc"),
        other => panic!("{:?}", other),
    }
}

#[test]
fn list_without_quote_outside_a_quoted_list_is_missing_quote() {
    let source = String::from("1 2)");
    let mut p = Parser::new(&source, 0);
    assert!(matches!(
        p.parse_list_expr(false, Token::OpenPar),
        Err(SyntaxError::MissingQuote)
    ));
    assert!(matches!(
        p.parse_list_expr(false, Token::ClosePar),
        Err(SyntaxError::MissingQuote)
    ));
    match p.parse_list_expr(true, Token::OpenPar) {
        Ok(e) => assert_eq!(
            format!("{:?}", e),
            "ListExpr([IntegerLiteral(1), IntegerLiteral(2)])"
        ),
        other => panic!("{:?}", other),
    }
    assert!(p.is_finished());
}

#[test]
fn list_that_starts_with_no_parenthesis_is_missing_paren() {
    let source = String::from("(a) b)");
    let mut p = Parser::new(&source, 0);
    assert!(matches!(
        p.parse_list_expr(true, Token::ClosePar),
        Err(SyntaxError::MissingParen)
    ));
    match p.parse_list_expr(false, Token::QuoteToken) {
        Ok(e) => assert_eq!(format!("{:?}", e), "ListExpr([LookupExpr(\"a\")])"),
        other => panic!("{:?}", other),
    }
    assert!(matches!(
        p.parse_list_expr(false, Token::QuoteToken),
        Err(SyntaxError::MissingParen)
    ));
}

#[test]
fn call_that_starts_with_no_parenthesis_is_missing_paren() {
    let source = String::from("f 1)");
    let mut p = Parser::new(&source, 0);
    assert!(matches!(
        p.parse_sexpr(false, Token::QuoteToken),
        Err(SyntaxError::MissingParen)
    ));
    match p.parse_sexpr(false, Token::OpenPar) {
        Ok(e) => assert_eq!(
            format!("{:?}", e),
            "SExpr(LookupExpr(\"f\"), [IntegerLiteral(1)])"
        ),
        other => panic!("{:?}", other),
    }
}

#[test]
fn clone_of_a_form_is_the_same_form() {
    let text = "(let (f a) ((lambda (x) '(1 (2) \"s\" 2.5)) (+ a 1)))";
    let e = form(text);
    assert_eq!(format!("{:?}", e.clone()), format!("{:?}", e));
    assert_eq!(format!("{:?}", e.clone()), shape(text));
}
