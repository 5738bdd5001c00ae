//! The tokenizer: a cursor over the characters of a source text that hands
//! out one token per call.

use crate::chars::{
    chars_of, is_alphabetic, is_alphabetic_char, is_digit, is_digit_char, is_whitespace,
    is_whitespace_char, push_char,
};
use crate::tokens::{Keyword, Token, TokenView};
use vstd::prelude::*;

verus! {

/// The first position at or after `i` that holds no whitespace.
pub open spec fn skip_blank(s: Seq<char>, i: int) -> int
    decreases s.len() - i,
{
    if 0 <= i < s.len() && is_whitespace_char(s[i]) {
        skip_blank(s, i + 1)
    } else {
        i
    }
}

/// Whether a character may continue an identifier.
pub open spec fn is_word_char(c: char) -> bool {
    is_alphabetic_char(c) || is_digit_char(c)
}

/// The end of the longest run of identifier characters that starts at `i`.
pub open spec fn word_end(s: Seq<char>, i: int) -> int
    decreases s.len() - i,
{
    if 0 <= i < s.len() && is_word_char(s[i]) {
        word_end(s, i + 1)
    } else {
        i
    }
}

/// The end of the longest run of decimal digits that starts at `i`.
pub open spec fn digits_end(s: Seq<char>, i: int) -> int
    decreases s.len() - i,
{
    if 0 <= i < s.len() && is_digit_char(s[i]) {
        digits_end(s, i + 1)
    } else {
        i
    }
}

/// The contents of a string literal whose first character after the opening
/// quote is at `i`, and the position after it.
///
/// A backslash makes the character after it part of the contents, whatever
/// it is. The literal ends after the closing quote, or at the end of the
/// text if there is none.
pub open spec fn string_body(s: Seq<char>, i: int) -> (Seq<char>, int)
    decreases s.len() - i,
{
    if i < 0 || i >= s.len() {
        (Seq::empty(), i)
    } else if s[i] == '"' {
        (Seq::empty(), i + 1)
    } else if s[i] == '\\' {
        if i + 1 < s.len() {
            let rest = string_body(s, i + 2);
            (seq![s[i + 1]] + rest.0, rest.1)
        } else {
            (Seq::empty(), i + 1)
        }
    } else {
        let rest = string_body(s, i + 1);
        (seq![s[i]] + rest.0, rest.1)
    }
}

/// The token that a run of identifier characters stands for.
pub open spec fn word_token(word: Seq<char>) -> TokenView {
    if word == "let"@ {
        TokenView::KeywordToken(Keyword::Let)
    } else if word == "lambda"@ {
        TokenView::KeywordToken(Keyword::Lambda)
    } else {
        TokenView::IdentifierToken(word)
    }
}

/// The number token that starts at `i`, and the position after it: digits,
/// then optionally a point and further digits, which make it a float literal.
pub open spec fn number_token(s: Seq<char>, i: int) -> (TokenView, int) {
    let j = digits_end(s, i);
    if 0 <= j < s.len() && s[j] == '.' {
        let k = digits_end(s, j + 1);
        (TokenView::FloatLiteral(s.subrange(i, k)), k)
    } else {
        (TokenView::IntLiteral(s.subrange(i, j)), j)
    }
}

/// Whether a character is one of the arithmetic and comparison signs, each
/// of which is an identifier by itself.
pub open spec fn is_operator_char(c: char) -> bool {
    c == '+' || c == '-' || c == '*' || c == '/' || c == '='
}

/// The token that starts at or after position `i` of `s`, and the position
/// after it.
///
/// Whitespace before the token is skipped. The end of the text and the
/// character NUL both give the end marker and leave the position at the end
/// of the text, so that the end marker repeats from then on. Every other
/// token moves the position forward. The signs and the digits are looked
/// for before the letters, none of which is one of them.
pub open spec fn lex_at(s: Seq<char>, i: int) -> (TokenView, int) {
    let p = skip_blank(s, i);
    if p < 0 || p >= s.len() {
        (TokenView::EOF, s.len() as int)
    } else if s[p] == '\0' {
        (TokenView::EOF, s.len() as int)
    } else if s[p] == '"' {
        let body = string_body(s, p + 1);
        (TokenView::StringLiteral(body.0), body.1)
    } else if s[p] == '(' {
        (TokenView::OpenPar, p + 1)
    } else if s[p] == ')' {
        (TokenView::ClosePar, p + 1)
    } else if s[p] == '\'' {
        (TokenView::QuoteToken, p + 1)
    } else if is_operator_char(s[p]) {
        (TokenView::IdentifierToken(seq![s[p]]), p + 1)
    } else if is_digit_char(s[p]) {
        number_token(s, p)
    } else if is_alphabetic_char(s[p]) {
        let j = word_end(s, p);
        (word_token(s.subrange(p, j)), j)
    } else {
        (TokenView::Unknown(seq![s[p]]), p + 1)
    }
}

/// Skipping whitespace ends inside the text or at its end.
pub proof fn lemma_skip_blank_bounds(s: Seq<char>, i: int)
    requires
        0 <= i <= s.len(),
    ensures
        i <= skip_blank(s, i) <= s.len(),
    decreases s.len() - i,
{
    if i < s.len() && is_whitespace_char(s[i]) {
        lemma_skip_blank_bounds(s, i + 1);
    }
}

/// A run of identifier characters ends inside the text or at its end.
pub proof fn lemma_word_end_bounds(s: Seq<char>, i: int)
    requires
        0 <= i <= s.len(),
    ensures
        i <= word_end(s, i) <= s.len(),
    decreases s.len() - i,
{
    if i < s.len() && is_word_char(s[i]) {
        lemma_word_end_bounds(s, i + 1);
    }
}

/// A run of digits ends inside the text or at its end.
pub proof fn lemma_digits_end_bounds(s: Seq<char>, i: int)
    requires
        0 <= i <= s.len(),
    ensures
        i <= digits_end(s, i) <= s.len(),
    decreases s.len() - i,
{
    if i < s.len() && is_digit_char(s[i]) {
        lemma_digits_end_bounds(s, i + 1);
    }
}

/// A string literal ends inside the text or at its end.
pub proof fn lemma_string_body_bounds(s: Seq<char>, i: int)
    requires
        0 <= i <= s.len(),
    ensures
        i <= string_body(s, i).1 <= s.len(),
    decreases s.len() - i,
{
    if i < s.len() && s[i] != '"' {
        if s[i] == '\\' {
            if i + 1 < s.len() {
                lemma_string_body_bounds(s, i + 2);
            }
        } else {
            lemma_string_body_bounds(s, i + 1);
        }
    }
}

/// Every token but the end marker takes at least one character, and the end
/// marker leaves the position at the end of the text.
pub proof fn lemma_lex_advances(s: Seq<char>, i: int)
    requires
        0 <= i <= s.len(),
    ensures
        i <= lex_at(s, i).1 <= s.len(),
        lex_at(s, i).0 is EOF ==> lex_at(s, i).1 == s.len(),
        !(lex_at(s, i).0 is EOF) ==> i < lex_at(s, i).1,
{
    let p = skip_blank(s, i);
    lemma_skip_blank_bounds(s, i);
    if p < s.len() {
        lemma_string_body_bounds(s, p + 1);
        lemma_word_end_bounds(s, p);
        lemma_digits_end_bounds(s, p);
        let j = digits_end(s, p);
        if j < s.len() {
            lemma_digits_end_bounds(s, j + 1);
        }
        if is_alphabetic_char(s[p]) {
            lemma_word_end_bounds(s, p + 1);
        }
        if is_digit_char(s[p]) {
            lemma_digits_end_bounds(s, p + 1);
        }
    }
}

/// A cursor over the characters of a source text.
pub struct Lexer {
    source: Vec<char>,
    cursor: usize,
    verbosity: u8,
}

impl Lexer {
    #[verifier::type_invariant]
    spec fn in_bounds(self) -> bool {
        self.cursor <= self.source.len()
    }

    /// The characters of the source text.
    pub closed spec fn text(&self) -> Seq<char> {
        self.source@
    }

    /// The position of the next character to read.
    pub closed spec fn position(&self) -> int {
        if self.cursor <= self.source.len() {
            self.cursor as int
        } else {
            self.source.len() as int
        }
    }

    /// The position is inside the text or at its end.
    pub proof fn lemma_position_in_text(&self)
        ensures
            0 <= self.position() <= self.text().len(),
    {
    }

    /// A tokenizer at the start of `src`.
    pub fn new(src: &String, verbosity: u8) -> (l: Lexer)
        ensures
            l.text() == src@,
            l.position() == 0,
    {
        Lexer { source: chars_of(src), cursor: 0, verbosity }
    }

    /// Whether every character of the text has been read.
    pub fn is_finished(&self) -> (r: bool)
        ensures
            r == (self.position() >= self.text().len()),
            0 <= self.position() <= self.text().len(),
    {
        proof {
            use_type_invariant(self);
        }
        self.cursor >= self.source.len()
    }

    /// Moves past the current character, if there is one.
    fn next(&mut self)
        ensures
            final(self).source == old(self).source,
            final(self).cursor == if old(self).cursor < old(self).source.len() {
                old(self).cursor + 1
            } else {
                old(self).cursor as int
            },
    {
        if self.cursor < self.source.len() {
            self.cursor = self.cursor + 1;
        }
    }

    /// Moves to the next character that is not whitespace.
    fn next_nw(&mut self)
        ensures
            final(self).source == old(self).source,
            final(self).cursor == skip_blank(old(self).source@, old(self).cursor as int),
    {
        proof {
            use_type_invariant(&*self);
        }
        while self.cursor < self.source.len() && is_whitespace(self.source[self.cursor])
            invariant
                self.source == old(self).source,
                self.cursor <= self.source.len(),
                skip_blank(self.source@, self.cursor as int) == skip_blank(
                    old(self).source@,
                    old(self).cursor as int,
                ),
            decreases self.source.len() - self.cursor,
        {
            self.cursor = self.cursor + 1;
        }
    }

    /// Reads the next token.
    ///
    /// The result is never `None`. It is the token that [`lex_at`] gives for
    /// the text and the position before the call, and the tokenizer is left
    /// at the position after that token.
    pub fn lex(&mut self) -> (r: Option<Token>)
        ensures
            final(self).text() == old(self).text(),
            r matches Some(t) && t@ == lex_at(old(self).text(), old(self).position()).0,
            final(self).position() == lex_at(old(self).text(), old(self).position()).1,
            0 <= old(self).position() <= final(self).position() <= old(self).text().len(),
    {
        proof {
            use_type_invariant(&*self);
            lemma_lex_advances(self.source@, self.cursor as int);
        }
        self.next_nw();
        if self.cursor >= self.source.len() {
            proof {
                lemma_skip_blank_bounds(old(self).source@, old(self).cursor as int);
            }
            return Some(Token::EOF);
        }
        let c = self.source[self.cursor];
        if c == '\0' {
            self.cursor = self.source.len();
            Some(Token::EOF)
        } else if c == '"' {
            self.lex_string()
        } else {
            match self.lex_special() {
                Some(tok) => Some(tok),
                None => if is_digit(c) {
                    self.lex_number()
                } else if is_alphabetic(c) {
                    self.lex_ident_or_kw()
                } else {
                    let mut lexeme = String::new();
                    push_char(&mut lexeme, c);
                    assert(lexeme@ =~= seq![c]);
                    self.next();
                    Some(Token::Unknown(lexeme))
                },
            }
        }
    }

    /// Reads a string literal; the cursor is on its opening quote.
    fn lex_string(&mut self) -> (r: Option<Token>)
        requires
            old(self).cursor < old(self).source.len(),
        ensures
            final(self).source == old(self).source,
            r matches Some(t) && t@ == TokenView::StringLiteral(
                string_body(old(self).source@, old(self).cursor + 1).0,
            ),
            final(self).cursor == string_body(old(self).source@, old(self).cursor + 1).1,
    {
        let mut lexeme = String::new();
        self.next();
        let ghost start = self.cursor as int;
        proof {
            use_type_invariant(&*self);
        }
        while self.cursor < self.source.len() && self.source[self.cursor] != '"'
            invariant
                self.source == old(self).source,
                start <= self.cursor <= self.source.len(),
                string_body(self.source@, start).0 == lexeme@ + string_body(
                    self.source@,
                    self.cursor as int,
                ).0,
                string_body(self.source@, start).1 == string_body(
                    self.source@,
                    self.cursor as int,
                ).1,
            decreases self.source.len() - self.cursor,
        {
            let ghost before = lexeme@;
            let ghost at = self.cursor as int;
            if self.source[self.cursor] == '\\' {
                self.cursor = self.cursor + 1;
                if self.cursor < self.source.len() {
                    push_char(&mut lexeme, self.source[self.cursor]);
                    self.cursor = self.cursor + 1;
                    assert(lexeme@ + string_body(self.source@, self.cursor as int).0 =~= before
                        + string_body(self.source@, at).0);
                } else {
                    assert(lexeme@ + string_body(self.source@, self.cursor as int).0 =~= before
                        + string_body(self.source@, at).0);
                }
            } else {
                push_char(&mut lexeme, self.source[self.cursor]);
                self.cursor = self.cursor + 1;
                assert(lexeme@ + string_body(self.source@, self.cursor as int).0 =~= before
                    + string_body(self.source@, at).0);
            }
        }
        assert(lexeme@ + Seq::<char>::empty() =~= lexeme@);
        self.next();
        Some(Token::StringLiteral(lexeme))
    }

    /// Reads an identifier or a keyword; the cursor is on its first character.
    fn lex_ident_or_kw(&mut self) -> (r: Option<Token>)
        ensures
            final(self).source == old(self).source,
            r matches Some(t) && t@ == word_token(
                old(self).source@.subrange(
                    old(self).cursor as int,
                    word_end(old(self).source@, old(self).cursor as int),
                ),
            ),
            final(self).cursor == word_end(old(self).source@, old(self).cursor as int),
    {
        let mut lexeme = String::new();
        let ghost start = self.cursor as int;
        proof {
            use_type_invariant(&*self);
        }
        while self.cursor < self.source.len() && (is_alphabetic(self.source[self.cursor])
            || is_digit(self.source[self.cursor]))
            invariant
                self.source == old(self).source,
                start <= self.cursor <= self.source.len(),
                start == old(self).cursor,
                lexeme@ == self.source@.subrange(start, self.cursor as int),
                word_end(self.source@, self.cursor as int) == word_end(self.source@, start),
            decreases self.source.len() - self.cursor,
        {
            push_char(&mut lexeme, self.source[self.cursor]);
            self.cursor = self.cursor + 1;
            assert(lexeme@ =~= self.source@.subrange(start, self.cursor as int));
        }
        if lexeme == String::from_str("let") {
            Some(Token::KeywordToken(Keyword::Let))
        } else if lexeme == String::from_str("lambda") {
            Some(Token::KeywordToken(Keyword::Lambda))
        } else {
            Some(Token::IdentifierToken(lexeme))
        }
    }

    /// Appends the run of digits at the cursor to `lexeme`.
    fn lex_digits(&mut self, lexeme: &mut String)
        ensures
            final(self).source == old(self).source,
            final(self).cursor == digits_end(old(self).source@, old(self).cursor as int),
            old(self).cursor <= final(self).cursor <= old(self).source.len(),
            final(lexeme)@ == old(lexeme)@ + old(self).source@.subrange(
                old(self).cursor as int,
                final(self).cursor as int,
            ),
    {
        let ghost start = self.cursor as int;
        proof {
            use_type_invariant(&*self);
        }
        assert(lexeme@ =~= old(lexeme)@ + self.source@.subrange(start, start));
        while self.cursor < self.source.len() && is_digit(self.source[self.cursor])
            invariant
                self.source == old(self).source,
                start <= self.cursor <= self.source.len(),
                start == old(self).cursor,
                lexeme@ == old(lexeme)@ + self.source@.subrange(start, self.cursor as int),
                digits_end(self.source@, self.cursor as int) == digits_end(self.source@, start),
            decreases self.source.len() - self.cursor,
        {
            push_char(lexeme, self.source[self.cursor]);
            self.cursor = self.cursor + 1;
            assert(lexeme@ =~= old(lexeme)@ + self.source@.subrange(start, self.cursor as int));
        }
    }

    /// Reads an integer or a float literal; the cursor is on its first digit.
    fn lex_number(&mut self) -> (r: Option<Token>)
        ensures
            final(self).source == old(self).source,
            r matches Some(t) && t@ == number_token(
                old(self).source@,
                old(self).cursor as int,
            ).0,
            final(self).cursor == number_token(old(self).source@, old(self).cursor as int).1,
    {
        let mut lexeme = String::new();
        let ghost start = self.cursor as int;
        self.lex_digits(&mut lexeme);
        let ghost j = self.cursor as int;
        assert(lexeme@ =~= self.source@.subrange(start, j));
        if self.cursor < self.source.len() && self.source[self.cursor] == '.' {
            push_char(&mut lexeme, self.source[self.cursor]);
            self.cursor = self.cursor + 1;
            self.lex_digits(&mut lexeme);
            assert(lexeme@ =~= self.source@.subrange(start, self.cursor as int));
            Some(Token::FloatLiteral(lexeme))
        } else {
            Some(Token::IntLiteral(lexeme))
        }
    }

    /// Reads a parenthesis, a quote mark or an operator sign, or returns
    /// `None` and reads nothing where the cursor is on none of these.
    fn lex_special(&mut self) -> (r: Option<Token>)
        requires
            old(self).cursor < old(self).source.len(),
        ensures
            final(self).source == old(self).source,
            ({
                let c = old(self).source@[old(self).cursor as int];
                if c == '(' {
                    r matches Some(t) && t@ == TokenView::OpenPar
                } else if c == ')' {
                    r matches Some(t) && t@ == TokenView::ClosePar
                } else if c == '\'' {
                    r matches Some(t) && t@ == TokenView::QuoteToken
                } else if is_operator_char(c) {
                    r matches Some(t) && t@ == TokenView::IdentifierToken(seq![c])
                } else {
                    r is None
                }
            }),
            final(self).cursor == if r is Some {
                old(self).cursor + 1
            } else {
                old(self).cursor as int
            },
    {
        let c = self.source[self.cursor];
        if c == '(' {
            self.next();
            Some(Token::OpenPar)
        } else if c == ')' {
            self.next();
            Some(Token::ClosePar)
        } else if c == '\'' {
            self.next();
            Some(Token::QuoteToken)
        } else if c == '+' || c == '-' || c == '*' || c == '/' || c == '=' {
            let mut lexeme = String::new();
            push_char(&mut lexeme, c);
            assert(lexeme@ =~= seq![c]);
            self.next();
            Some(Token::IdentifierToken(lexeme))
        } else {
            None
        }
    }
}

} // verus!
