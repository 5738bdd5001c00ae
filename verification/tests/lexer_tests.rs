use minilisp::lexer::Lexer;
use minilisp::tokens::{Keyword, Token};

fn tokens_of(text: &str) -> Vec<Token> {
    let source = String::from(text);
    let mut lexer = Lexer::new(&source, 0);
    let mut out = Vec::new();
    loop {
        let tok = lexer.lex().unwrap();
        if tok == Token::EOF {
            break;
        }
        out.push(tok);
    }
    out
}

fn ident(name: &str) -> Token {
    Token::IdentifierToken(String::from(name))
}

#[test]
fn lex_call_form() {
    assert_eq!(
        tokens_of("(+ 1 2.5)"),
        vec![
            Token::OpenPar,
            ident("+"),
            Token::IntLiteral(String::from("1")),
            Token::FloatLiteral(String::from("2.5")),
            Token::ClosePar,
        ]
    );
}

#[test]
fn lex_keywords() {
    assert_eq!(
        tokens_of("let lambda letx"),
        vec![
            Token::KeywordToken(Keyword::Let),
            Token::KeywordToken(Keyword::Lambda),
            ident("letx"),
        ]
    );
}

#[test]
fn lex_empty_text_is_finished_at_once() {
    let source = String::new();
    let mut lexer = Lexer::new(&source, 0);
    assert!(lexer.is_finished());
    assert_eq!(lexer.lex(), Some(Token::EOF));
    assert_eq!(lexer.lex(), Some(Token::EOF));
}

#[test]
fn lex_end_marker_repeats() {
    let source = String::from("a  ");
    let mut lexer = Lexer::new(&source, 0);
    assert!(!lexer.is_finished());
    assert_eq!(lexer.lex(), Some(ident("a")));
    assert!(!lexer.is_finished());
    assert_eq!(lexer.lex(), Some(Token::EOF));
    assert!(lexer.is_finished());
    assert_eq!(lexer.lex(), Some(Token::EOF));
}

#[test]
fn lex_finishes_with_the_last_character() {
    let source = String::from("(a)");
    let mut lexer = Lexer::new(&source, 0);
    assert_eq!(lexer.lex(), Some(Token::OpenPar));
    assert_eq!(lexer.lex(), Some(ident("a")));
    assert!(!lexer.is_finished());
    assert_eq!(lexer.lex(), Some(Token::ClosePar));
    assert!(lexer.is_finished());
}

#[test]
fn lex_skips_all_kinds_of_whitespace() {
    assert_eq!(
        tokens_of(" \t\n\r\u{00a0}\u{2003}x\u{3000}y"),
        vec![ident("x"), ident("y")]
    );
}

#[test]
fn lex_identifier_takes_letters_and_digits() {
    assert_eq!(tokens_of("ab12 c"), vec![ident("ab12"), ident("c")]);
    assert_eq!(tokens_of("\u{e9}t\u{e9} \u{3b1}1"), vec![ident("\u{e9}t\u{e9}"), ident("\u{3b1}1")]);
}

#[test]
fn lex_number_then_letters_are_two_tokens() {
    assert_eq!(
        tokens_of("12ab"),
        vec![Token::IntLiteral(String::from("12")), ident("ab")]
    );
}

#[test]
fn lex_float_forms() {
    assert_eq!(
        tokens_of("1. 0.25 3.14.15"),
        vec![
            Token::FloatLiteral(String::from("1.")),
            Token::FloatLiteral(String::from("0.25")),
            Token::FloatLiteral(String::from("3.14")),
            Token::Unknown(String::from(".")),
            Token::IntLiteral(String::from("15")),
        ]
    );
}

#[test]
fn lex_operators_are_identifiers_of_one_character() {
    assert_eq!(
        tokens_of("+-*/=="),
        vec![ident("+"), ident("-"), ident("*"), ident("/"), ident("="), ident("=")]
    );
}

#[test]
fn lex_quote_and_parentheses() {
    assert_eq!(
        tokens_of("'(())"),
        vec![
            Token::QuoteToken,
            Token::OpenPar,
            Token::OpenPar,
            Token::ClosePar,
            Token::ClosePar,
        ]
    );
}

#[test]
fn lex_string_literal() {
    assert_eq!(
        tokens_of("\"hello world\" x"),
        vec![Token::StringLiteral(String::from("hello world")), ident("x")]
    );
    assert_eq!(tokens_of("\"\""), vec![Token::StringLiteral(String::new())]);
}

#[test]
fn lex_string_escapes_keep_the_next_character() {
    assert_eq!(
        tokens_of("\"a\\\"b\\\\c\\n\""),
        vec![Token::StringLiteral(String::from("a\"b\\cn"))]
    );
}

#[test]
fn lex_string_without_closing_quote_ends_with_the_text() {
    assert_eq!(
        tokens_of("\"abc"),
        vec![Token::StringLiteral(String::from("abc"))]
    );
    assert_eq!(
        tokens_of("\"abc\\"),
        vec![Token::StringLiteral(String::from("abc"))]
    );
}

#[test]
fn lex_unknown_character_is_passed_on_and_consumed() {
    assert_eq!(
        tokens_of("# a"),
        vec![Token::Unknown(String::from("#")), ident("a")]
    );
}

#[test]
fn lex_nul_ends_the_text() {
    let source = String::from("a \0 b");
    let mut lexer = Lexer::new(&source, 0);
    assert_eq!(lexer.lex(), Some(ident("a")));
    assert_eq!(lexer.lex(), Some(Token::EOF));
    assert!(lexer.is_finished());
    assert_eq!(lexer.lex(), Some(Token::EOF));
}

#[test]
fn token_equality_compares_lexemes() {
    assert_eq!(ident("a"), ident("a"));
    assert_ne!(ident("a"), ident("b"));
    assert_ne!(ident("1"), Token::IntLiteral(String::from("1")));
    assert_ne!(
        Token::KeywordToken(Keyword::Let),
        Token::KeywordToken(Keyword::Lambda)
    );
    assert_eq!(ident("a").clone(), ident("a"));
}

#[test]
fn whitespace_is_the_listed_set_and_nothing_else() {
    let listed = |c: char| {
        ('\u{9}'..='\u{d}').contains(&c)
            || c == ' '
            || c == '\u{85}'
            || c == '\u{a0}'
            || c == '\u{1680}'
            || ('\u{2000}'..='\u{200a}').contains(&c)
            || c == '\u{2028}'
            || c == '\u{2029}'
            || c == '\u{202f}'
            || c == '\u{205f}'
            || c == '\u{3000}'
    };
    for code in 0..=0x10ffffu32 {
        if let Some(c) = char::from_u32(code) {
            assert_eq!(c.is_whitespace(), listed(c), "{:x}", code);
        }
    }
    for c in ['\u{9}', '\u{b}', '\u{85}', '\u{1680}', '\u{2007}', '\u{2029}', '\u{205f}'] {
        let source = format!("{}x", c);
        assert_eq!(tokens_of(&source), vec![ident("x")], "{:x}", c as u32);
    }
    for c in ['\u{200b}', '\u{180e}', '\u{feff}', '\u{1c}'] {
        let source = format!("{}x", c);
        assert_eq!(tokens_of(&source).len(), 2, "{:x}", c as u32);
    }
}

#[test]
fn signs_and_digits_are_looked_for_before_letters() {
    assert_eq!(
        tokens_of("a(b)c'd+e1"),
        vec![
            ident("a"),
            Token::OpenPar,
            ident("b"),
            Token::ClosePar,
            ident("c"),
            Token::QuoteToken,
            ident("d"),
            ident("+"),
            ident("e1"),
        ]
    );
    assert_eq!(
        tokens_of("1a"),
        vec![Token::IntLiteral(String::from("1")), ident("a")]
    );
}
