//! Lexical tokens.

use vstd::prelude::*;

verus! {

/// The words that introduce a special form.
#[derive(Copy, Clone, Debug, PartialEq, Eq, Structural)]
pub enum Keyword {
    Let,
    Lambda,
}

/// One lexical token. The literal variants carry the lexeme as written.
#[derive(Debug)]
pub enum Token {
    EOF,
    IdentifierToken(String),
    IntLiteral(String),
    FloatLiteral(String),
    StringLiteral(String),
    OpenPar,
    ClosePar,
    QuoteToken,
    Unknown(String),
    KeywordToken(Keyword),
}

/// The mathematical value of a [`Token`]: the same variants over character
/// sequences.
pub enum TokenView {
    EOF,
    IdentifierToken(Seq<char>),
    IntLiteral(Seq<char>),
    FloatLiteral(Seq<char>),
    StringLiteral(Seq<char>),
    OpenPar,
    ClosePar,
    QuoteToken,
    Unknown(Seq<char>),
    KeywordToken(Keyword),
}

impl View for Token {
    type V = TokenView;

    open spec fn view(&self) -> TokenView {
        match *self {
            Token::EOF => TokenView::EOF,
            Token::IdentifierToken(s) => TokenView::IdentifierToken(s@),
            Token::IntLiteral(s) => TokenView::IntLiteral(s@),
            Token::FloatLiteral(s) => TokenView::FloatLiteral(s@),
            Token::StringLiteral(s) => TokenView::StringLiteral(s@),
            Token::OpenPar => TokenView::OpenPar,
            Token::ClosePar => TokenView::ClosePar,
            Token::QuoteToken => TokenView::QuoteToken,
            Token::Unknown(s) => TokenView::Unknown(s@),
            Token::KeywordToken(k) => TokenView::KeywordToken(k),
        }
    }
}

impl Clone for Token {
    fn clone(&self) -> (r: Token)
        ensures
            r@ == self@,
    {
        match self {
            Token::EOF => Token::EOF,
            Token::IdentifierToken(s) => Token::IdentifierToken(s.clone()),
            Token::IntLiteral(s) => Token::IntLiteral(s.clone()),
            Token::FloatLiteral(s) => Token::FloatLiteral(s.clone()),
            Token::StringLiteral(s) => Token::StringLiteral(s.clone()),
            Token::OpenPar => Token::OpenPar,
            Token::ClosePar => Token::ClosePar,
            Token::QuoteToken => Token::QuoteToken,
            Token::Unknown(s) => Token::Unknown(s.clone()),
            Token::KeywordToken(k) => Token::KeywordToken(*k),
        }
    }
}

impl PartialEq for Token {
    fn eq(&self, other: &Token) -> (r: bool) {
        match self {
            Token::EOF => matches!(other, Token::EOF),
            Token::IdentifierToken(a) => match other {
                Token::IdentifierToken(b) => *a == *b,
                _ => false,
            },
            Token::IntLiteral(a) => match other {
                Token::IntLiteral(b) => *a == *b,
                _ => false,
            },
            Token::FloatLiteral(a) => match other {
                Token::FloatLiteral(b) => *a == *b,
                _ => false,
            },
            Token::StringLiteral(a) => match other {
                Token::StringLiteral(b) => *a == *b,
                _ => false,
            },
            Token::OpenPar => matches!(other, Token::OpenPar),
            Token::ClosePar => matches!(other, Token::ClosePar),
            Token::QuoteToken => matches!(other, Token::QuoteToken),
            Token::Unknown(a) => match other {
                Token::Unknown(b) => *a == *b,
                _ => false,
            },
            Token::KeywordToken(a) => match other {
                Token::KeywordToken(b) => *a == *b,
                _ => false,
            },
        }
    }
}

impl vstd::std_specs::cmp::PartialEqSpecImpl for Token {
    open spec fn obeys_eq_spec() -> bool {
        true
    }

    open spec fn eq_spec(&self, other: &Token) -> bool {
        self@ == other@
    }
}

impl Eq for Token {

}

} // verus!
