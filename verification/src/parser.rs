//! The parser: builds one syntax tree per form from the tokens of a text.

use crate::expressions::{
    decimal_value, expr_view, float, forms_view, int_literal, names_view, string, ExprView,
    Expression,
};
use crate::lexer::{lemma_lex_advances, lex_at, Lexer};
use crate::tokens::{Keyword, Token, TokenView};
use either::Either;
use std::rc::Rc;
use vstd::prelude::*;

verus! {

/// Why a text is not a form.
#[derive(Debug)]
pub enum SyntaxError {
    /// The text ends inside a form.
    EOF,
    /// A list that needs a quote mark has none.
    MissingQuote,
    /// A quote mark is not followed by an opening parenthesis.
    MissingParen,
    /// A parenthesis where none may stand. The parser does not use it: a
    /// closing parenthesis that closes nothing is
    /// `UnexpectedToken(Token::ClosePar)`.
    UnexpectedParen,
    /// The operator of a call is neither a form nor a keyword.
    BadOperator,
    /// A `let` form has not two operands, or binds no name.
    MalformedLet,
    /// A `lambda` form has not two operands, or no parameter list.
    MalformedLambda,
    /// A parameter is not a name.
    BadArgumentName,
    /// A token stands where a form must stand.
    UnexpectedToken(Token),
}

/// The mathematical value of a [`SyntaxError`].
pub enum SyntaxErrorView {
    EOF,
    MissingQuote,
    MissingParen,
    UnexpectedParen,
    BadOperator,
    MalformedLet,
    MalformedLambda,
    BadArgumentName,
    UnexpectedToken(TokenView),
}

impl View for SyntaxError {
    type V = SyntaxErrorView;

    open spec fn view(&self) -> SyntaxErrorView {
        match *self {
            SyntaxError::EOF => SyntaxErrorView::EOF,
            SyntaxError::MissingQuote => SyntaxErrorView::MissingQuote,
            SyntaxError::MissingParen => SyntaxErrorView::MissingParen,
            SyntaxError::UnexpectedParen => SyntaxErrorView::UnexpectedParen,
            SyntaxError::BadOperator => SyntaxErrorView::BadOperator,
            SyntaxError::MalformedLet => SyntaxErrorView::MalformedLet,
            SyntaxError::MalformedLambda => SyntaxErrorView::MalformedLambda,
            SyntaxError::BadArgumentName => SyntaxErrorView::BadArgumentName,
            SyntaxError::UnexpectedToken(t) => SyntaxErrorView::UnexpectedToken(t@),
        }
    }
}

/// What the parser yields: a form, or a token that only the caller can
/// place (inside a form a closing parenthesis; a keyword, an unrecognized
/// lexeme, the end marker).
pub type Parsed = Result<Either<ExprView, TokenView>, SyntaxErrorView>;

/// The mathematical value of what [`Parser::parse`] returns.
pub open spec fn parsed_view(r: Result<Either<Expression, Token>, SyntaxError>) -> Parsed {
    match r {
        Ok(Either::Left(e)) => Ok(Either::Left(e@)),
        Ok(Either::Right(t)) => Ok(Either::Right(t@)),
        Err(e) => Err(e@),
    }
}

/// Whether a form is a bare name.
pub open spec fn is_name(e: ExprView) -> bool {
    e is LookupExpr
}

/// The names of a parameter list: every entry must be a bare name.
pub open spec fn arg_names(list: Seq<ExprView>) -> Result<Seq<Seq<char>>, SyntaxErrorView> {
    if forall|i: int| 0 <= i < list.len() ==> is_name(#[trigger] list[i]) {
        Ok(Seq::new(list.len(), |i: int| list[i]->LookupExpr_0))
    } else {
        Err(SyntaxErrorView::BadArgumentName)
    }
}

/// The form that `let` makes of its operands. There must be two. Where
/// the first is a name, the form binds it to the second. Where the first is
/// call-shaped, `(name param...)`, the form binds `name` to a function with
/// these parameters and the second operand as its body.
pub open spec fn let_form(args: Seq<ExprView>) -> Result<ExprView, SyntaxErrorView> {
    if args.len() != 2 {
        Err(SyntaxErrorView::MalformedLet)
    } else {
        match args[0] {
            ExprView::LookupExpr(name) => Ok(ExprView::LetExpr(name, Box::new(args[1]))),
            ExprView::SExpr(rator, params) => match *rator {
                ExprView::LookupExpr(name) => match arg_names(params) {
                    Ok(names) => Ok(
                        ExprView::LetExpr(
                            name,
                            Box::new(ExprView::LambdaExpr(names, Box::new(args[1]))),
                        ),
                    ),
                    Err(e) => Err(e),
                },
                _ => Err(SyntaxErrorView::MalformedLet),
            },
            _ => Err(SyntaxErrorView::MalformedLet),
        }
    }
}

/// The form that `lambda` makes of its operands. There must be two, the
/// first call-shaped: its operator and operands are the parameters. The
/// second is the body.
pub open spec fn lambda_form(args: Seq<ExprView>) -> Result<ExprView, SyntaxErrorView> {
    if args.len() != 2 {
        Err(SyntaxErrorView::MalformedLambda)
    } else {
        match args[0] {
            ExprView::SExpr(car, cdr) => match arg_names(seq![*car] + cdr) {
                Ok(names) => Ok(ExprView::LambdaExpr(names, Box::new(args[1]))),
                Err(e) => Err(e),
            },
            _ => Err(SyntaxErrorView::MalformedLambda),
        }
    }
}

/// The form that a parenthesized form is, given what stands in its
/// operator position and its operands.
pub open spec fn call_form(func: Either<ExprView, TokenView>, args: Seq<ExprView>) -> Result<
    ExprView,
    SyntaxErrorView,
> {
    match func {
        Either::Right(TokenView::KeywordToken(Keyword::Lambda)) => lambda_form(args),
        Either::Right(TokenView::KeywordToken(Keyword::Let)) => let_form(args),
        Either::Left(e) => Ok(ExprView::SExpr(Box::new(e), args)),
        _ => Err(SyntaxErrorView::BadOperator),
    }
}

/// The form that an integer lexeme denotes; a lexeme whose value does not
/// fit in 32 bits is an unexpected token.
pub open spec fn int_form(lexeme: Seq<char>) -> Parsed {
    match int_literal(lexeme) {
        Some(v) => Ok(Either::Left(ExprView::IntegerLiteral(v))),
        None => Err(SyntaxErrorView::UnexpectedToken(TokenView::IntLiteral(lexeme))),
    }
}

/// A form, or the error in its place, as one step of the parser.
pub open spec fn as_step(r: (Result<ExprView, SyntaxErrorView>, int)) -> (Parsed, int) {
    match r.0 {
        Ok(e) => (Ok(Either::Left(e)), r.1),
        Err(e) => (Err(e), r.1),
    }
}

/// The result of one step of the parser inside a form, at position `i` of
/// `s`, and the position after it.
///
/// A literal or a name is a form by itself. An opening parenthesis starts
/// a call or a special form, or inside a quoted list a nested list. A quote
/// mark must be followed by an opening parenthesis and starts a list. Every
/// other token is handed to the caller.
pub open spec fn step_spec(s: Seq<char>, i: int, skip_quote: bool) -> (Parsed, int)
    decreases s.len() - i, 0nat,
    when 0 <= i <= s.len()
{
    let tok = lex_at(s, i).0;
    let j = lex_at(s, i).1;
    proof {
        lemma_lex_advances(s, i);
    }
    match tok {
        TokenView::OpenPar => if skip_quote {
            as_step(parse_list_spec(s, j))
        } else {
            as_step(parse_sexpr_spec(s, j, skip_quote))
        },
        TokenView::QuoteToken => {
            let tok2 = lex_at(s, j).0;
            let k = lex_at(s, j).1;
            proof {
                lemma_lex_advances(s, j);
            }
            if tok2 is OpenPar {
                as_step(parse_list_spec(s, k))
            } else {
                (Err(SyntaxErrorView::MissingParen), k)
            }
        },
        TokenView::IdentifierToken(lexeme) => (Ok(Either::Left(ExprView::LookupExpr(lexeme))), j),
        TokenView::IntLiteral(lexeme) => (int_form(lexeme), j),
        TokenView::FloatLiteral(lexeme) => (Ok(Either::Left(ExprView::FloatLiteral(lexeme))), j),
        TokenView::StringLiteral(lexeme) => (
            Ok(Either::Left(ExprView::StringLiteral(lexeme))),
            j,
        ),
        _ => (Ok(Either::Right(tok)), j),
    }
}

/// The forms from position `k` up to the closing parenthesis, after those
/// in `acc`, and the position after the parenthesis.
///
/// The end of the text before the parenthesis is the error
/// [`SyntaxError::EOF`], and any other token that is no form is an
/// unexpected token.
pub open spec fn parse_items_spec(s: Seq<char>, k: int, skip_quote: bool, acc: Seq<ExprView>) -> (
    Result<Seq<ExprView>, SyntaxErrorView>,
    int,
)
    decreases s.len() - k, 1nat,
    when 0 <= k <= s.len()
{
    let step = step_spec(s, k, skip_quote);
    match step.0 {
        Err(e) => (Err(e), step.1),
        Ok(Either::Right(tok)) => if tok is ClosePar {
            (Ok(acc), step.1)
        } else if tok is EOF {
            (Err(SyntaxErrorView::EOF), step.1)
        } else {
            (Err(SyntaxErrorView::UnexpectedToken(tok)), step.1)
        },
        Ok(Either::Left(e)) => if k < step.1 <= s.len() {
            // this always holds: a form takes at least one character
            parse_items_spec(s, step.1, skip_quote, acc.push(e))
        } else {
            (Err(SyntaxErrorView::EOF), step.1)
        },
    }
}

/// The quoted list whose first item is at position `j`.
pub open spec fn parse_list_spec(s: Seq<char>, j: int) -> (Result<ExprView, SyntaxErrorView>, int)
    decreases s.len() - j, 2nat,
    when 0 <= j <= s.len()
{
    let items = parse_items_spec(s, j, true, Seq::empty());
    match items.0 {
        Ok(forms) => (Ok(ExprView::ListExpr(forms)), items.1),
        Err(e) => (Err(e), items.1),
    }
}

/// The call or special form whose operator is at position `j`.
///
/// The operands are read up to the closing parenthesis before the operator
/// is looked at.
pub open spec fn parse_sexpr_spec(s: Seq<char>, j: int, skip_quote: bool) -> (
    Result<ExprView, SyntaxErrorView>,
    int,
)
    decreases s.len() - j, 2nat,
    when 0 <= j <= s.len()
{
    let func = step_spec(s, j, skip_quote);
    match func.0 {
        Err(e) => (Err(e), func.1),
        Ok(f) => if j <= func.1 <= s.len() {
            // this always holds: the parser never moves backwards
            let items = parse_items_spec(s, func.1, skip_quote, Seq::empty());
            match items.0 {
                Ok(args) => (call_form(f, args), items.1),
                Err(e) => (Err(e), items.1),
            }
        } else {
            (Err(SyntaxErrorView::EOF), func.1)
        },
    }
}

/// The result of the parser where no form is open, at position `i` of `s`,
/// and the position after it: that of one step, but that a closing
/// parenthesis, which closes nothing here, is an unexpected token. The
/// parser is left behind the parenthesis.
pub open spec fn parse_spec(s: Seq<char>, i: int, skip_quote: bool) -> (Parsed, int) {
    let step = step_spec(s, i, skip_quote);
    match step.0 {
        Ok(Either::Right(TokenView::ClosePar)) => (
            Err(SyntaxErrorView::UnexpectedToken(TokenView::ClosePar)),
            step.1,
        ),
        _ => step,
    }
}

/// The next form of a text at its top level, where no enclosing form can
/// take a token: `None` at the end of the text, and an unexpected token
/// for every other token that is no form.
pub open spec fn form_spec(s: Seq<char>, i: int) -> (Result<Option<ExprView>, SyntaxErrorView>, int) {
    let step = parse_spec(s, i, false);
    match step.0 {
        Ok(Either::Left(e)) => (Ok(Some(e)), step.1),
        Ok(Either::Right(tok)) => if tok is EOF {
            (Ok(None), step.1)
        } else {
            (Err(SyntaxErrorView::UnexpectedToken(tok)), step.1)
        },
        Err(e) => (Err(e), step.1),
    }
}

/// A parser over a source text.
pub struct Parser {
    lexer: Lexer,
    verbose: u8,
}

/// The names of a parameter list.
pub open spec fn names_result(r: Result<Vec<String>, SyntaxError>) -> Result<
    Seq<Seq<char>>,
    SyntaxErrorView,
> {
    match r {
        Ok(names) => Ok(names_view(names@)),
        Err(e) => Err(e@),
    }
}

/// The mathematical value of a form or an error.
pub open spec fn form_result(r: Result<Expression, SyntaxError>) -> Result<ExprView, SyntaxErrorView> {
    match r {
        Ok(e) => Ok(e@),
        Err(e) => Err(e@),
    }
}

impl Parser {
    /// The position is inside the text or at its end.
    pub proof fn lemma_position_in_text(&self)
        ensures
            0 <= self.position() <= self.text().len(),
    {
        self.lexer.lemma_position_in_text();
    }

    /// The characters of the source text.
    pub closed spec fn text(&self) -> Seq<char> {
        self.lexer.text()
    }

    /// The position of the next character to read.
    pub closed spec fn position(&self) -> int {
        self.lexer.position()
    }

    /// A parser at the start of `source`.
    pub fn new(source: &String, verbose: u8) -> (p: Parser)
        ensures
            p.text() == source@,
            p.position() == 0,
    {
        let lexer = Lexer::new(source, verbose);
        Parser { lexer, verbose }
    }

    /// Reads the next token.
    fn next(&mut self) -> (r: Option<Token>)
        ensures
            final(self).text() == old(self).text(),
            r matches Some(t) && t@ == lex_at(old(self).text(), old(self).position()).0,
            final(self).position() == lex_at(old(self).text(), old(self).position()).1,
            0 <= old(self).position() <= final(self).position() <= old(self).text().len(),
            !(lex_at(old(self).text(), old(self).position()).0 is EOF) ==> old(self).position()
                < final(self).position(),
    {
        proof {
            self.lexer.lemma_position_in_text();
            lemma_lex_advances(self.lexer.text(), self.lexer.position());
        }
        self.lexer.lex()
    }

    /// Whether every character of the text has been read.
    pub fn is_finished(&self) -> (r: bool)
        ensures
            r == (self.position() >= self.text().len()),
            0 <= self.position() <= self.text().len(),
    {
        self.lexer.is_finished()
    }

    /// Reads one form, or one token that is no form, where no form is open.
    ///
    /// The result and the position after it are those that [`parse_spec`]
    /// gives for the text and the position before the call. A closing
    /// parenthesis is the error `UnexpectedToken(Token::ClosePar)`. The
    /// end marker, a keyword and an unrecognized lexeme are handed to the
    /// caller as they are. With `skip_quote` set, a parenthesis starts a
    /// list and not a call.
    pub fn parse(&mut self, skip_quote: bool) -> (r: Result<Either<Expression, Token>, SyntaxError>)
        ensures
            final(self).text() == old(self).text(),
            parse_spec(old(self).text(), old(self).position(), skip_quote) == (
                parsed_view(r),
                final(self).position(),
            ),
            0 <= old(self).position() <= final(self).position() <= old(self).text().len(),
            r matches Ok(Either::Left(_)) ==> old(self).position() < final(self).position(),
    {
        match self.step(skip_quote) {
            Ok(Either::Right(Token::ClosePar)) => Err(
                SyntaxError::UnexpectedToken(Token::ClosePar),
            ),
            other => other,
        }
    }

    /// Reads one form, or one token that is no form, inside a form: the
    /// caller places the token.
    fn step(&mut self, skip_quote: bool) -> (r: Result<Either<Expression, Token>, SyntaxError>)
        ensures
            final(self).text() == old(self).text(),
            step_spec(old(self).text(), old(self).position(), skip_quote) == (
                parsed_view(r),
                final(self).position(),
            ),
            0 <= old(self).position() <= final(self).position() <= old(self).text().len(),
            r matches Ok(Either::Left(_)) ==> old(self).position() < final(self).position(),
        decreases old(self).text().len() - old(self).position(), 0nat,
    {
        match self.next() {
            Some(tok) => match tok {
                Token::OpenPar => if skip_quote {
                    match self.parse_list_expr(skip_quote, tok) {
                        Ok(e) => Ok(Either::Left(e)),
                        Err(e) => Err(e),
                    }
                } else {
                    match self.parse_sexpr(skip_quote, tok) {
                        Ok(e) => Ok(Either::Left(e)),
                        Err(e) => Err(e),
                    }
                },
                Token::QuoteToken => match self.parse_list_expr(skip_quote, tok) {
                    Ok(e) => Ok(Either::Left(e)),
                    Err(e) => Err(e),
                },
                Token::IdentifierToken(lexeme) => Ok(Either::Left(Expression::LookupExpr(lexeme))),
                Token::IntLiteral(lexeme) => match decimal_value(&lexeme) {
                    Some(v) => Ok(Either::Left(Expression::IntegerLiteral(v))),
                    None => Err(SyntaxError::UnexpectedToken(Token::IntLiteral(lexeme))),
                },
                Token::FloatLiteral(lexeme) => Ok(Either::Left(float(lexeme))),
                Token::StringLiteral(lexeme) => Ok(Either::Left(string(lexeme))),
                Token::ClosePar => Ok(Either::Right(Token::ClosePar)),
                Token::Unknown(lexeme) => Ok(Either::Right(Token::Unknown(lexeme))),
                Token::KeywordToken(keyword) => Ok(Either::Right(Token::KeywordToken(keyword))),
                Token::EOF => Ok(Either::Right(Token::EOF)),
            },
            None => Err(SyntaxError::EOF),
        }
    }

    /// Reads forms up to the closing parenthesis.
    fn parse_items(&mut self, skip_quote: bool) -> (r: Result<Vec<Box<Expression>>, SyntaxError>)
        ensures
            final(self).text() == old(self).text(),
            parse_items_spec(old(self).text(), old(self).position(), skip_quote, Seq::empty()) == (
                match r {
                    Ok(items) => Ok(forms_view(items@)),
                    Err(e) => Err(e@),
                },
                final(self).position(),
            ),
            0 <= old(self).position() <= final(self).position() <= old(self).text().len(),
        decreases old(self).text().len() - old(self).position(), 1nat,
    {
        let mut contents: Vec<Box<Expression>> = Vec::new();
        let ghost s = self.text();
        let ghost start = self.position();
        proof {
            self.lemma_position_in_text();
            assert(forms_view(contents@) =~= Seq::empty());
        }
        loop
            invariant
                self.text() == s,
                s == old(self).text(),
                start == old(self).position(),
                0 <= start <= self.position() <= s.len(),
                parse_items_spec(s, start, skip_quote, Seq::empty()) == parse_items_spec(
                    s,
                    self.position(),
                    skip_quote,
                    forms_view(contents@),
                ),
            decreases s.len() - self.position(),
        {
            let ghost before = forms_view(contents@);
            match self.step(skip_quote) {
                Ok(Either::Left(expr)) => {
                    contents.push(Box::new(expr));
                    assert(forms_view(contents@) =~= before.push(expr@));
                },
                Ok(Either::Right(tok)) => {
                    return match tok {
                        Token::ClosePar => Ok(contents),
                        Token::EOF => Err(SyntaxError::EOF),
                        _ => Err(SyntaxError::UnexpectedToken(tok)),
                    };
                },
                Err(e) => {
                    return Err(e);
                },
            }
        }
    }

    /// Reads a quoted list. `opening` is the token that starts it and that
    /// the caller has read: a quote mark, which an opening parenthesis must
    /// follow, or inside a quoted list the opening parenthesis itself.
    /// Without a quote mark and outside a quoted list, the error is
    /// [`SyntaxError::MissingQuote`].
    pub fn parse_list_expr(&mut self, skip_quote: bool, opening: Token) -> (r: Result<
        Expression,
        SyntaxError,
    >)
        ensures
            final(self).text() == old(self).text(),
            0 <= old(self).position() <= final(self).position() <= old(self).text().len(),
            list_expr_spec(old(self).text(), old(self).position(), skip_quote, opening@) == (
                form_result(r),
                final(self).position(),
            ),
        decreases old(self).text().len() - old(self).position(), 2nat,
    {
        proof {
            self.lemma_position_in_text();
        }
        let after_quote = match opening {
            Token::QuoteToken => match self.next() {
                Some(tok) => tok,
                None => {
                    return Err(SyntaxError::EOF);
                },
            },
            _ => {
                if !skip_quote {
                    return Err(SyntaxError::MissingQuote);
                }
                opening
            },
        };
        match after_quote {
            Token::OpenPar => {},
            _ => {
                return Err(SyntaxError::MissingParen);
            },
        }
        match self.parse_items(true) {
            Ok(contents) => Ok(Expression::ListExpr(contents)),
            Err(e) => Err(e),
        }
    }

    /// Reads a call or a special form. `opening` is the token that starts
    /// it and that the caller has read: it must be an opening parenthesis.
    pub fn parse_sexpr(&mut self, skip_quote: bool, opening: Token) -> (r: Result<
        Expression,
        SyntaxError,
    >)
        ensures
            final(self).text() == old(self).text(),
            0 <= old(self).position() <= final(self).position() <= old(self).text().len(),
            sexpr_spec(old(self).text(), old(self).position(), skip_quote, opening@) == (
                form_result(r),
                final(self).position(),
            ),
        decreases old(self).text().len() - old(self).position(), 2nat,
    {
        proof {
            self.lemma_position_in_text();
        }
        match opening {
            Token::OpenPar => {},
            _ => {
                return Err(SyntaxError::MissingParen);
            },
        }
        let func = match self.step(skip_quote) {
            Ok(f) => f,
            Err(e) => {
                return Err(e);
            },
        };
        let args = match self.parse_items(skip_quote) {
            Ok(items) => items,
            Err(e) => {
                return Err(e);
            },
        };
        match func {
            Either::Right(Token::KeywordToken(keyword)) => match keyword {
                Keyword::Lambda => Parser::parse_lambda_expr(args),
                Keyword::Let => Parser::parse_let_expr(args),
            },
            Either::Left(expr) => Ok(Expression::SExpr(Box::new(expr), args)),
            _ => Err(SyntaxError::BadOperator),
        }
    }

    /// The names of a parameter list; an entry that is no bare name is an
    /// error.
    fn parse_arg_names(arg_list: &Vec<Box<Expression>>) -> (r: Result<Vec<String>, SyntaxError>)
        ensures
            names_result(r) == arg_names(forms_view(arg_list@)),
    {
        let mut names: Vec<String> = Vec::new();
        let mut i: usize = 0;
        let ghost list = forms_view(arg_list@);
        while i < arg_list.len()
            invariant
                i <= arg_list.len(),
                list == forms_view(arg_list@),
                names.len() == i,
                forall|j: int| 0 <= j < i ==> is_name(#[trigger] list[j]),
                forall|j: int| 0 <= j < i ==> names[j]@ == list[j]->LookupExpr_0,
            decreases arg_list.len() - i,
        {
            match &*arg_list[i] {
                Expression::LookupExpr(arg_name) => {
                    names.push(arg_name.clone());
                },
                _ => {
                    assert(!is_name(list[i as int]));
                    return Err(SyntaxError::BadArgumentName);
                },
            }
            i = i + 1;
        }
        assert(names_view(names@) =~= Seq::new(list.len(), |i: int| list[i]->LookupExpr_0));
        Ok(names)
    }

    /// Makes the form that `let` denotes of its operands.
    fn parse_let_expr(args: Vec<Box<Expression>>) -> (r: Result<Expression, SyntaxError>)
        ensures
            form_result(r) == let_form(forms_view(args@)),
    {
        let mut args = args;
        if args.len() != 2 {
            return Err(SyntaxError::MalformedLet);
        }
        let ghost forms = forms_view(args@);
        let name = args.remove(0);
        let body = args.remove(0);
        assert(name@ == forms[0] && body@ == forms[1]);
        match *name {
            Expression::LookupExpr(lexeme) => Ok(Expression::LetExpr(lexeme, body)),
            Expression::SExpr(rator, arg_list) => {
                let ghost operator = expr_view(*rator);
                match *rator {
                    Expression::LookupExpr(func_name) => {
                        assert(operator == ExprView::LookupExpr(func_name@));
                        match Parser::parse_arg_names(&arg_list) {
                            Ok(names) => {
                                let lambda = Expression::LambdaExpr(names, Rc::new(*body));
                                assert(lambda@ == ExprView::LambdaExpr(
                                    names_view(names@),
                                    Box::new(body@),
                                ));
                                Ok(Expression::LetExpr(func_name, Box::new(lambda)))
                            },
                            Err(e) => Err(e),
                        }
                    },
                    _ => {
                        assert(!(operator is LookupExpr));
                        Err(SyntaxError::MalformedLet)
                    },
                }
            },
            _ => Err(SyntaxError::MalformedLet),
        }
    }

    /// Makes the form that `lambda` denotes of its operands.
    fn parse_lambda_expr(args: Vec<Box<Expression>>) -> (r: Result<Expression, SyntaxError>)
        ensures
            form_result(r) == lambda_form(forms_view(args@)),
    {
        let mut args = args;
        if args.len() != 2 {
            return Err(SyntaxError::MalformedLambda);
        }
        let ghost forms = forms_view(args@);
        let arg_list = args.remove(0);
        let body = args.remove(0);
        assert(arg_list@ == forms[0] && body@ == forms[1]);
        match *arg_list {
            Expression::SExpr(car, cdr) => {
                let mut cdr = cdr;
                let ghost rest = forms_view(cdr@);
                cdr.insert(0, car);
                assert(forms_view(cdr@) =~= seq![car@] + rest);
                match Parser::parse_arg_names(&cdr) {
                    Ok(names) => Ok(Expression::LambdaExpr(names, Rc::new(*body))),
                    Err(e) => Err(e),
                }
            },
            _ => Err(SyntaxError::MalformedLambda),
        }
    }

    /// Reads the next form at the top level of the text.
    ///
    /// Returns `None` at the end of the text. A token that is no form, such
    /// as a closing parenthesis that closes nothing, is an error here.
    pub fn parse_form(&mut self) -> (r: Result<Option<Expression>, SyntaxError>)
        ensures
            final(self).text() == old(self).text(),
            0 <= old(self).position() <= final(self).position() <= old(self).text().len(),
            form_spec(old(self).text(), old(self).position()) == (
                match r {
                    Ok(Some(e)) => Ok(Some(e@)),
                    Ok(None) => Ok(None),
                    Err(e) => Err(e@),
                },
                final(self).position(),
            ),
            r matches Ok(Some(_)) ==> old(self).position() < final(self).position(),
            r matches Ok(None) ==> final(self).position() == old(self).text().len(),
    {
        proof {
            self.lemma_position_in_text();
            lemma_lex_advances(self.text(), self.position());
        }
        match self.parse(false) {
            Ok(Either::Left(expr)) => Ok(Some(expr)),
            Ok(Either::Right(tok)) => match tok {
                Token::EOF => Ok(None),
                _ => Err(SyntaxError::UnexpectedToken(tok)),
            },
            Err(e) => Err(e),
        }
    }
}

/// What [`Parser::parse_list_expr`] returns for each token that may start
/// a list.
pub open spec fn list_expr_spec(s: Seq<char>, i: int, skip_quote: bool, opening: TokenView) -> (
    Result<ExprView, SyntaxErrorView>,
    int,
) {
    if opening is QuoteToken {
        if lex_at(s, i).0 is OpenPar {
            parse_list_spec(s, lex_at(s, i).1)
        } else {
            (Err(SyntaxErrorView::MissingParen), lex_at(s, i).1)
        }
    } else if !skip_quote {
        (Err(SyntaxErrorView::MissingQuote), i)
    } else if opening is OpenPar {
        parse_list_spec(s, i)
    } else {
        (Err(SyntaxErrorView::MissingParen), i)
    }
}

/// What [`Parser::parse_sexpr`] returns for each token that may start a
/// call.
pub open spec fn sexpr_spec(s: Seq<char>, i: int, skip_quote: bool, opening: TokenView) -> (
    Result<ExprView, SyntaxErrorView>,
    int,
) {
    if opening is OpenPar {
        parse_sexpr_spec(s, i, skip_quote)
    } else {
        (Err(SyntaxErrorView::MissingParen), i)
    }
}

} // verus!
