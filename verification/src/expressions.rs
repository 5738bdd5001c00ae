//! The syntax tree.

use crate::chars::{chars_of, is_digit, is_digit_char};
use crate::env::share;
use std::rc::Rc;
use vstd::prelude::*;

verus! {

/// One node of the syntax tree.
#[derive(Debug)]
pub enum Expression {
    /// A quoted list of forms.
    ListExpr(Vec<Box<Expression>>),
    /// A call: the operator, then the operands.
    SExpr(Box<Expression>, Vec<Box<Expression>>),
    /// A binding of a name to the value of a form.
    LetExpr(String, Box<Expression>),
    /// A function literal: the parameter names, then the body.
    LambdaExpr(Vec<String>, Rc<Expression>),
    /// A reference to a name.
    LookupExpr(String),
    IntegerLiteral(i32),
    /// A float literal, kept as it was written.
    FloatLiteral(String),
    StringLiteral(String),
}

/// The mathematical value of an [`Expression`].
pub enum ExprView {
    ListExpr(Seq<ExprView>),
    SExpr(Box<ExprView>, Seq<ExprView>),
    LetExpr(Seq<char>, Box<ExprView>),
    LambdaExpr(Seq<Seq<char>>, Box<ExprView>),
    LookupExpr(Seq<char>),
    IntegerLiteral(i32),
    FloatLiteral(Seq<char>),
    StringLiteral(Seq<char>),
}

/// The character sequences of a list of names.
pub open spec fn names_view(names: Seq<String>) -> Seq<Seq<char>> {
    Seq::new(names.len(), |i: int| names[i]@)
}

/// The values of a list of forms.
pub open spec fn forms_view(forms: Seq<Box<Expression>>) -> Seq<ExprView>
    decreases forms,
{
    Seq::new(
        forms.len(),
        |i: int|
            if 0 <= i < forms.len() {
                expr_view(*forms[i])
            } else {
                ExprView::IntegerLiteral(0)
            },
    )
}

/// The value of a form.
pub open spec fn expr_view(e: Expression) -> ExprView
    decreases e,
{
    match e {
        Expression::ListExpr(items) => ExprView::ListExpr(forms_view(items@)),
        Expression::SExpr(rator, rands) => ExprView::SExpr(
            Box::new(expr_view(*rator)),
            forms_view(rands@),
        ),
        Expression::LetExpr(name, rhs) => ExprView::LetExpr(name@, Box::new(expr_view(*rhs))),
        Expression::LambdaExpr(params, body) => ExprView::LambdaExpr(
            names_view(params@),
            Box::new(expr_view(*body)),
        ),
        Expression::LookupExpr(name) => ExprView::LookupExpr(name@),
        Expression::IntegerLiteral(v) => ExprView::IntegerLiteral(v),
        Expression::FloatLiteral(lexeme) => ExprView::FloatLiteral(lexeme@),
        Expression::StringLiteral(text) => ExprView::StringLiteral(text@),
    }
}

impl View for Expression {
    type V = ExprView;

    open spec fn view(&self) -> ExprView {
        expr_view(*self)
    }
}

/// A copy of a list of names.
pub fn clone_names(names: &Vec<String>) -> (r: Vec<String>)
    ensures
        names_view(r@) == names_view(names@),
{
    let mut out: Vec<String> = Vec::new();
    let mut i: usize = 0;
    while i < names.len()
        invariant
            i <= names.len(),
            out.len() == i,
            forall|j: int| 0 <= j < i ==> out[j]@ == names[j]@,
        decreases names.len() - i,
    {
        out.push(names[i].clone());
        i = i + 1;
    }
    assert(names_view(out@) =~= names_view(names@));
    out
}

impl Expression {
    /// A copy of a list of forms.
    fn copy_forms(forms: &Vec<Box<Expression>>) -> (r: Vec<Box<Expression>>)
        ensures
            forms_view(r@) == forms_view(forms@),
        decreases forms, 0nat,
    {
        let mut out: Vec<Box<Expression>> = Vec::new();
        let mut i: usize = 0;
        while i < forms.len()
            invariant
                i <= forms.len(),
                out.len() == i,
                forall|j: int| 0 <= j < i ==> expr_view(*out[j]) == expr_view(*forms[j]),
            decreases forms.len() - i,
        {
            out.push(Box::new(forms[i].copy()));
            i = i + 1;
        }
        assert(forms_view(out@) =~= forms_view(forms@));
        out
    }

    /// A copy of the form. The body of a function literal is shared, not
    /// copied.
    fn copy(&self) -> (r: Expression)
        ensures
            r@ == self@,
        decreases self, 1nat,
    {
        match self {
            Expression::ListExpr(items) => Expression::ListExpr(Expression::copy_forms(items)),
            Expression::SExpr(rator, rands) => Expression::SExpr(
                Box::new(rator.copy()),
                Expression::copy_forms(rands),
            ),
            Expression::LetExpr(name, rhs) => Expression::LetExpr(
                name.clone(),
                Box::new(rhs.copy()),
            ),
            Expression::LambdaExpr(params, body) => Expression::LambdaExpr(
                clone_names(params),
                share(body),
            ),
            Expression::LookupExpr(name) => Expression::LookupExpr(name.clone()),
            Expression::IntegerLiteral(v) => Expression::IntegerLiteral(*v),
            Expression::FloatLiteral(lexeme) => Expression::FloatLiteral(lexeme.clone()),
            Expression::StringLiteral(text) => Expression::StringLiteral(text.clone()),
        }
    }
}

impl Clone for Expression {
    fn clone(&self) -> (r: Expression)
        ensures
            r@ == self@,
    {
        self.copy()
    }
}

/// The number that a run of decimal digits denotes.
pub open spec fn digits_value(digits: Seq<char>) -> nat
    decreases digits.len(),
{
    if digits.len() == 0 {
        0
    } else {
        digits_value(digits.drop_last()) * 10 + (digits.last() as nat - '0' as nat) as nat
    }
}

/// Whether every character is a decimal digit.
pub open spec fn all_digits(digits: Seq<char>) -> bool {
    forall|i: int| 0 <= i < digits.len() ==> is_digit_char(#[trigger] digits[i])
}

/// The number that a run of digits denotes, where it is one: it has at
/// least one character and all of them are digits.
pub open spec fn magnitude(digits: Seq<char>) -> Option<nat> {
    if digits.len() > 0 && all_digits(digits) {
        Some(digits_value(digits))
    } else {
        None
    }
}

/// The digits of a lexeme: what follows its sign, where it starts with
/// one.
pub open spec fn unsigned_part(lexeme: Seq<char>) -> Seq<char> {
    if lexeme.len() > 0 && (lexeme[0] == '-' || lexeme[0] == '+') {
        lexeme.subrange(1, lexeme.len() as int)
    } else {
        lexeme
    }
}

/// Whether a lexeme starts with a minus sign.
pub open spec fn is_negative(lexeme: Seq<char>) -> bool {
    lexeme.len() > 0 && lexeme[0] == '-'
}

/// The integer that a lexeme denotes: an optional sign, `+` or `-`, then a
/// run of decimal digits, at least one, whose value with the sign fits in
/// 32 bits.
pub open spec fn int_literal(lexeme: Seq<char>) -> Option<i32> {
    match magnitude(unsigned_part(lexeme)) {
        Some(m) => if is_negative(lexeme) {
            if m <= 0x8000_0000 {
                Some((-m) as i32)
            } else {
                None
            }
        } else {
            if m <= 0x7fff_ffff {
                Some(m as i32)
            } else {
                None
            }
        },
        None => None,
    }
}

/// A run of digits denotes no less than any of its prefixes.
proof fn lemma_digits_value_grows(digits: Seq<char>, k: int)
    requires
        0 <= k <= digits.len(),
    ensures
        digits_value(digits.take(k)) <= digits_value(digits),
    decreases digits.len() - k,
{
    if k < digits.len() {
        lemma_digits_value_grows(digits, k + 1);
        assert(digits.take(k + 1).drop_last() =~= digits.take(k));
    } else {
        assert(digits.take(k) =~= digits);
    }
}

/// Reads a lexeme as a decimal number with an optional sign.
pub fn decimal_value(lexeme: &String) -> (r: Option<i32>)
    ensures
        r == int_literal(lexeme@),
{
    let chars = chars_of(lexeme);
    let n: usize = chars.len();
    if n == 0 {
        return None;
    }
    let negative: bool = chars[0] == '-';
    let start: usize = if chars[0] == '-' || chars[0] == '+' {
        1
    } else {
        0
    };
    let ghost digits = unsigned_part(lexeme@);
    assert(digits =~= chars@.subrange(start as int, n as int));
    if start == n {
        return None;
    }
    let limit: u64 = if negative {
        0x8000_0000
    } else {
        0x7fff_ffff
    };
    let mut acc: u64 = 0;
    let mut i: usize = start;
    assert(digits.take(0) =~= Seq::<char>::empty());
    while i < n
        invariant
            start <= i <= n,
            n == chars.len(),
            digits == chars@.subrange(start as int, n as int),
            digits == unsigned_part(lexeme@),
            negative == is_negative(lexeme@),
            limit == if negative {
                0x8000_0000u64
            } else {
                0x7fff_ffffu64
            },
            all_digits(digits.take(i - start)),
            acc == digits_value(digits.take(i - start)),
            acc <= limit,
        decreases n - i,
    {
        let c = chars[i];
        let ghost k = i - start;
        assert(digits[k] == c);
        assert(digits.take(k + 1).drop_last() =~= digits.take(k));
        if !is_digit(c) {
            assert(!is_digit_char(digits[k]));
            return None;
        }
        assert forall|j: int| 0 <= j < k + 1 implies is_digit_char(
            #[trigger] digits.take(k + 1)[j],
        ) by {
            if j < k {
                assert(digits.take(k + 1)[j] == digits.take(k)[j]);
            }
        }
        let d: u64 = (c as u32 - '0' as u32) as u64;
        acc = acc * 10 + d;
        if acc > limit {
            proof {
                lemma_digits_value_grows(digits, k + 1);
            }
            return None;
        }
        i = i + 1;
    }
    assert(digits.take(n - start) =~= digits);
    if negative {
        Some((0 - (acc as i64)) as i32)
    } else {
        Some(acc as i32)
    }
}

/// The integer literal that a lexeme denotes.
pub fn integer(lexeme: String) -> (e: Expression)
    requires
        int_literal(lexeme@) is Some,
    ensures
        e@ == ExprView::IntegerLiteral(int_literal(lexeme@)->0),
{
    match decimal_value(&lexeme) {
        Some(v) => Expression::IntegerLiteral(v),
        None => Expression::IntegerLiteral(0),
    }
}

/// The float literal with the given lexeme. The lexeme is kept as it is:
/// the number that it denotes is looked up when the literal is evaluated.
pub fn float(lexeme: String) -> (e: Expression)
    ensures
        e@ == ExprView::FloatLiteral(lexeme@),
{
    Expression::FloatLiteral(lexeme)
}

/// The string literal with the given contents.
pub fn string(lexeme: String) -> (e: Expression)
    ensures
        e@ == ExprView::StringLiteral(lexeme@),
{
    Expression::StringLiteral(lexeme)
}

} // verus!
