//! What holds of the parser and the evaluator on all inputs.

use crate::env::{lookup_in, Bindings};
use crate::expressions::ExprView;
use crate::floats::FloatFacts;
use crate::lexer::{lemma_lex_advances, lemma_skip_blank_bounds, lex_at};
use crate::parser::{
    form_spec, parse_items_spec, parse_list_spec, parse_sexpr_spec, parse_spec, step_spec,
    SyntaxErrorView,
};
use crate::floats::ArithOp;
use crate::semantics::{
    all_ints, all_numbers, apply_builtin, arith_result, bind_params, branch_index, call_closure,
    child_scope, closure_of, eval_branch, eval_operands, eval_spec, int_apply, int_base,
    int_fold, EvalErrorView,
};
use crate::stdlib::{native_bindings, native_outcome};
use crate::tokens::TokenView;
use crate::values::{Branch, Builtin, ClosureView, RuntimeFunctionWrapper, ValueView};
use either::Either;
use vstd::prelude::*;

verus! {

/// A step of the parser never moves backwards or past the end of the text,
/// and a form takes at least one character.
pub proof fn law_parse_moves_forward(s: Seq<char>, i: int, skip_quote: bool)
    requires
        0 <= i <= s.len(),
    ensures
        i <= step_spec(s, i, skip_quote).1 <= s.len(),
        step_spec(s, i, skip_quote).0 matches Ok(Either::Left(_)) ==> i < step_spec(
            s,
            i,
            skip_quote,
        ).1,
    decreases s.len() - i, 0nat,
{
    lemma_lex_advances(s, i);
    let j = lex_at(s, i).1;
    match lex_at(s, i).0 {
        TokenView::OpenPar => {
            if skip_quote {
                lemma_list_moves_forward(s, j);
            } else {
                lemma_sexpr_moves_forward(s, j, skip_quote);
            }
        },
        TokenView::QuoteToken => {
            lemma_lex_advances(s, j);
            if lex_at(s, j).0 is OpenPar {
                lemma_list_moves_forward(s, lex_at(s, j).1);
            }
        },
        _ => {},
    }
}

/// The items of a form end at or after the position where they start.
proof fn lemma_items_move_forward(s: Seq<char>, k: int, skip_quote: bool, acc: Seq<ExprView>)
    requires
        0 <= k <= s.len(),
    ensures
        k <= parse_items_spec(s, k, skip_quote, acc).1 <= s.len(),
    decreases s.len() - k, 1nat,
{
    law_parse_moves_forward(s, k, skip_quote);
    let step = step_spec(s, k, skip_quote);
    if let Ok(Either::Left(e)) = step.0 {
        lemma_items_move_forward(s, step.1, skip_quote, acc.push(e));
    }
}

/// A quoted list ends at or after the position where its items start.
proof fn lemma_list_moves_forward(s: Seq<char>, j: int)
    requires
        0 <= j <= s.len(),
    ensures
        j <= parse_list_spec(s, j).1 <= s.len(),
    decreases s.len() - j, 2nat,
{
    lemma_items_move_forward(s, j, true, Seq::empty());
}

/// A call ends at or after the position where its operator starts.
proof fn lemma_sexpr_moves_forward(s: Seq<char>, j: int, skip_quote: bool)
    requires
        0 <= j <= s.len(),
    ensures
        j <= parse_sexpr_spec(s, j, skip_quote).1 <= s.len(),
    decreases s.len() - j, 2nat,
{
    law_parse_moves_forward(s, j, skip_quote);
    let func = step_spec(s, j, skip_quote);
    if func.0 is Ok {
        lemma_items_move_forward(s, func.1, skip_quote, Seq::empty());
    }
}

/// A closing parenthesis token ends at the character `)`.
proof fn lemma_close_paren_token(s: Seq<char>, i: int)
    requires
        0 <= i <= s.len(),
        lex_at(s, i).0 is ClosePar,
    ensures
        i < lex_at(s, i).1 <= s.len(),
        s[lex_at(s, i).1 - 1] == ')',
{
    lemma_lex_advances(s, i);
    lemma_skip_blank_bounds(s, i);
}

/// Where the list of items of a form is complete, the text before the
/// position after it ends with a closing parenthesis.
proof fn lemma_items_end_with_close_paren(s: Seq<char>, k: int, skip_quote: bool, acc: Seq<ExprView>)
    requires
        0 <= k <= s.len(),
        parse_items_spec(s, k, skip_quote, acc).0 is Ok,
    ensures
        k < parse_items_spec(s, k, skip_quote, acc).1 <= s.len(),
        s[parse_items_spec(s, k, skip_quote, acc).1 - 1] == ')',
    decreases s.len() - k,
{
    let step = step_spec(s, k, skip_quote);
    lemma_lex_advances(s, k);
    match step.0 {
        Ok(Either::Right(tok)) => {
            assert(tok is ClosePar);
            assert(lex_at(s, k).0 is ClosePar);
            lemma_close_paren_token(s, k);
        },
        Ok(Either::Left(e)) => {
            lemma_items_end_with_close_paren(s, step.1, skip_quote, acc.push(e));
        },
        Err(_) => {},
    }
}

/// A parenthesized form is complete only at its closing parenthesis: where
/// the parser yields a call, a special form or a quoted list, the last
/// character that it has read is `)`. A form that is never closed is
/// therefore never a form.
pub proof fn law_form_ends_with_close_paren(s: Seq<char>, j: int, skip_quote: bool)
    requires
        0 <= j <= s.len(),
    ensures
        parse_sexpr_spec(s, j, skip_quote).0 is Ok ==> j < parse_sexpr_spec(s, j, skip_quote).1
            <= s.len() && s[parse_sexpr_spec(s, j, skip_quote).1 - 1] == ')',
        parse_list_spec(s, j).0 is Ok ==> j < parse_list_spec(s, j).1 <= s.len() && s[parse_list_spec(
            s,
            j,
        ).1 - 1] == ')',
{
    if parse_list_spec(s, j).0 is Ok {
        lemma_items_end_with_close_paren(s, j, true, Seq::empty());
    }
    if parse_sexpr_spec(s, j, skip_quote).0 is Ok {
        let func = step_spec(s, j, skip_quote);
        lemma_items_end_with_close_paren(s, func.1, skip_quote, Seq::empty());
    }
}

/// A form that is opened and never closed is an error: where no closing
/// parenthesis stands at or after the position behind the opening one,
/// neither a call nor a quoted list comes of it.
pub proof fn law_unclosed_form_is_error(s: Seq<char>, j: int, skip_quote: bool)
    requires
        0 <= j <= s.len(),
        forall|k: int| j <= k < s.len() ==> s[k] != ')',
    ensures
        parse_sexpr_spec(s, j, skip_quote).0 is Err,
        parse_list_spec(s, j).0 is Err,
{
    law_form_ends_with_close_paren(s, j, skip_quote);
}

/// Where the text ends inside an open form, whatever items the form has
/// so far, the result is the error `EOF` and the whole text is read.
pub proof fn law_open_form_at_end_of_text(s: Seq<char>, k: int, skip_quote: bool, acc: Seq<ExprView>)
    requires
        0 <= k <= s.len(),
        lex_at(s, k).0 is EOF,
    ensures
        parse_items_spec(s, k, skip_quote, acc) == (
            Err::<Seq<ExprView>, SyntaxErrorView>(SyntaxErrorView::EOF),
            s.len() as int,
        ),
{
    lemma_lex_advances(s, k);
    assert(step_spec(s, k, skip_quote) == (
        Ok::<Either<ExprView, TokenView>, SyntaxErrorView>(Either::Right(TokenView::EOF)),
        s.len() as int,
    ));
}

/// An opening parenthesis with nothing but whitespace after it is the
/// error `EOF`.
pub proof fn law_lone_open_paren(s: Seq<char>, i: int)
    requires
        0 <= i <= s.len(),
        lex_at(s, i).0 is OpenPar,
        lex_at(s, lex_at(s, i).1).0 is EOF,
    ensures
        form_spec(s, i).0 == Err::<Option<ExprView>, SyntaxErrorView>(SyntaxErrorView::EOF),
{
    lemma_lex_advances(s, i);
    let j = lex_at(s, i).1;
    let end = s.len() as int;
    lemma_lex_advances(s, j);
    // the end marker stands in the operator position, and again where the
    // first operand would stand
    assert(step_spec(s, j, false) == (
        Ok::<Either<ExprView, TokenView>, SyntaxErrorView>(Either::Right(TokenView::EOF)),
        end,
    ));
    assert(lex_at(s, end).0 is EOF);
    law_open_form_at_end_of_text(s, end, false, Seq::empty());
}

/// A closing parenthesis where no form is open is an unexpected token,
/// raised at the parenthesis itself: the parser is left behind it and goes
/// on from there.
pub proof fn law_stray_close_paren(s: Seq<char>, i: int, skip_quote: bool)
    requires
        0 <= i <= s.len(),
        lex_at(s, i).0 is ClosePar,
    ensures
        parse_spec(s, i, skip_quote) == (
            Err::<Either<ExprView, TokenView>, SyntaxErrorView>(
                SyntaxErrorView::UnexpectedToken(TokenView::ClosePar),
            ),
            lex_at(s, i).1,
        ),
        form_spec(s, i) == (
            Err::<Option<ExprView>, SyntaxErrorView>(
                SyntaxErrorView::UnexpectedToken(TokenView::ClosePar),
            ),
            lex_at(s, i).1,
        ),
        i < lex_at(s, i).1,
{
    lemma_lex_advances(s, i);
    assert(step_spec(s, i, skip_quote) == (
        Ok::<Either<ExprView, TokenView>, SyntaxErrorView>(Either::Right(TokenView::ClosePar)),
        lex_at(s, i).1,
    ));
    assert(step_spec(s, i, false) == (
        Ok::<Either<ExprView, TokenView>, SyntaxErrorView>(Either::Right(TokenView::ClosePar)),
        lex_at(s, i).1,
    ));
}

/// Where no form is open, the parser never hands a closing parenthesis to
/// its caller; apart from that it does what one step does.
pub proof fn law_parse_never_yields_close_paren(s: Seq<char>, i: int, skip_quote: bool)
    ensures
        !(parse_spec(s, i, skip_quote).0 matches Ok(Either::Right(TokenView::ClosePar))),
        parse_spec(s, i, skip_quote).1 == step_spec(s, i, skip_quote).1,
        !(step_spec(s, i, skip_quote).0 matches Ok(Either::Right(TokenView::ClosePar)))
            ==> parse_spec(s, i, skip_quote) == step_spec(s, i, skip_quote),
{
}

/// A name that the environment does not bind evaluates to `Nil`; looking a
/// name up is never an error.
pub proof fn law_undefined_name_is_nil(facts: FloatFacts, env: Bindings, name: Seq<char>, depth: nat)
    ensures
        eval_spec(facts, env, ExprView::LookupExpr(name), depth) is Ok,
        !env.contains_key(name) ==> eval_spec(facts, env, ExprView::LookupExpr(name), depth) == Ok::<
            (Bindings, ValueView),
            EvalErrorView,
        >((env, ValueView::Nil)),
{
}

/// A binding form that has a value returns `Nil` and an environment that
/// binds the name: to a closure that knows its own name where the
/// right-hand side is a function literal, and else to the value of the
/// right-hand side, on top of the environment that the right-hand side
/// returned. A reference to the name in that environment yields what was
/// bound.
pub proof fn law_let_binds_name(
    facts: FloatFacts,
    env: Bindings,
    name: Seq<char>,
    rhs: ExprView,
    depth: nat,
    later: nat,
)
    requires
        eval_spec(facts, env, ExprView::LetExpr(name, Box::new(rhs)), depth) is Ok,
    ensures
        ({
            let done = eval_spec(facts, env, ExprView::LetExpr(name, Box::new(rhs)), depth)->Ok_0;
            &&& done.1 == ValueView::Nil
            &&& done.0.contains_key(name)
            &&& eval_spec(facts, done.0, ExprView::LookupExpr(name), later) == Ok::<
                (Bindings, ValueView),
                EvalErrorView,
            >((done.0, done.0[name]))
            &&& match rhs {
                ExprView::LambdaExpr(params, body) => done.0 == env.insert(
                    name,
                    closure_of(env, params, *body, Some(name)),
                ),
                _ => eval_spec(facts, env, rhs, depth) matches Ok(inner) && done.0
                    == inner.0.insert(name, inner.1),
            }
        }),
{
}

/// Evaluation never unbinds a name: every name that is bound before a form
/// is evaluated is bound in the environment that the evaluation returns.
/// So a name bound by `let` is visible to every form evaluated afterwards
/// in the returned environments.
pub proof fn law_bound_names_stay_bound(facts: FloatFacts, env: Bindings, expr: ExprView, depth: nat)
    requires
        eval_spec(facts, env, expr, depth) is Ok,
    ensures
        forall|name: Seq<char>| #[trigger]
            env.contains_key(name) ==> eval_spec(facts, env, expr, depth)->Ok_0.0.contains_key(
                name,
            ),
    decreases expr,
{
    match expr {
        ExprView::LetExpr(name, rhs) => {
            if !(*rhs is LambdaExpr) {
                law_bound_names_stay_bound(facts, env, *rhs, depth);
            }
        },
        ExprView::SExpr(rator, rands) => {
            let f = eval_spec(facts, env, *rator, depth)->Ok_0.1;
            match f {
                ValueView::RuntimeFunction(RuntimeFunctionWrapper::Symbolic(branch)) => {
                    let k = branch_index(branch);
                    assert(eval_spec(facts, env, expr, depth) == eval_branch(
                        facts,
                        env,
                        rands,
                        k,
                        depth,
                    ));
                    law_bound_names_stay_bound(facts, env, rands[k], depth);
                },
                _ => {},
            }
        },
        _ => {},
    }
}

/// The body of a closure that has a name of its own finds the closure
/// itself under that name, whatever the parameters and arguments are.
pub proof fn law_named_closure_sees_itself(c: ClosureView, args: Seq<ValueView>)
    requires
        c.own_name is Some,
    ensures
        child_scope(c, args).contains_key(c.own_name->0),
        lookup_in(child_scope(c, args), c.own_name->0) == ValueView::Lambda(c),
{
}

/// What the first `n` parameters leave of the captured environment: a name
/// that is none of them is bound as before.
proof fn lemma_bind_params_other(
    base: Bindings,
    names: Seq<Seq<char>>,
    args: Seq<ValueView>,
    n: nat,
    name: Seq<char>,
)
    requires
        n <= names.len(),
        forall|j: int| 0 <= j < n ==> names[j] != name,
    ensures
        bind_params(base, names, args, n).contains_key(name) == base.contains_key(name),
        base.contains_key(name) ==> bind_params(base, names, args, n)[name] == base[name],
    decreases n,
{
    if n > 0 {
        lemma_bind_params_other(base, names, args, (n - 1) as nat, name);
    }
}

/// A parameter without an argument is unbound in the body, and resolves to
/// `Nil` there, provided that nothing else binds its name: not the
/// environment that the closure captured, not the closure's own name, and
/// not a parameter that did get an argument.
pub proof fn law_missing_argument_is_nil(c: ClosureView, args: Seq<ValueView>, i: int)
    requires
        args.len() <= i < c.arg_names.len(),
        !c.env.contains_key(c.arg_names[i]),
        c.own_name != Some(c.arg_names[i]),
        forall|j: int| 0 <= j < args.len() ==> c.arg_names[j] != c.arg_names[i],
    ensures
        !child_scope(c, args).contains_key(c.arg_names[i]),
        lookup_in(child_scope(c, args), c.arg_names[i]) == ValueView::Nil,
{
    lemma_bind_params_other(c.env, c.arg_names, args, args.len(), c.arg_names[i]);
}

/// Only the arguments below `n` matter to the first `n` bindings.
proof fn lemma_bind_params_prefix(
    base: Bindings,
    names: Seq<Seq<char>>,
    args: Seq<ValueView>,
    more: Seq<ValueView>,
    n: nat,
)
    requires
        n <= args.len(),
        n <= more.len(),
        forall|j: int| 0 <= j < n ==> args[j] == more[j],
    ensures
        bind_params(base, names, args, n) == bind_params(base, names, more, n),
    decreases n,
{
    if n > 0 {
        lemma_bind_params_prefix(base, names, args, more, (n - 1) as nat);
    }
}

/// Arguments beyond the parameters are ignored: a call with more arguments
/// than parameters runs the body in the same scope, and has the same
/// result, as the call with the surplus left out.
pub proof fn law_extra_arguments_are_ignored(
    facts: FloatFacts,
    c: ClosureView,
    args: Seq<ValueView>,
    depth: nat,
)
    requires
        args.len() >= c.arg_names.len(),
    ensures
        child_scope(c, args) == child_scope(c, args.take(c.arg_names.len() as int)),
        call_closure(facts, c, args, depth) == call_closure(
            facts,
            c,
            args.take(c.arg_names.len() as int),
            depth,
        ),
{
    let n = c.arg_names.len();
    lemma_bind_params_prefix(c.env, c.arg_names, args, args.take(n as int), n);
}

/// The call of the procedure that a name stands for.
pub open spec fn call_of(operator: Seq<char>, operands: Seq<ExprView>) -> ExprView {
    ExprView::SExpr(Box::new(ExprView::LookupExpr(operator)), operands)
}

/// Two operands that leave the environment as it is evaluate to their two
/// values.
pub proof fn lemma_two_operands(
    facts: FloatFacts,
    env: Bindings,
    a: ExprView,
    b: ExprView,
    depth: nat,
)
    requires
        eval_spec(facts, env, a, depth) matches Ok(r) && r.0 == env,
        eval_spec(facts, env, b, depth) matches Ok(r) && r.0 == env,
    ensures
        eval_operands(facts, env, seq![a, b], 0, depth) == Ok::<Seq<ValueView>, EvalErrorView>(
            seq![eval_spec(facts, env, a, depth)->Ok_0.1, eval_spec(facts, env, b, depth)->Ok_0.1],
        ),
{
    let rands = seq![a, b];
    let va = eval_spec(facts, env, a, depth)->Ok_0.1;
    let vb = eval_spec(facts, env, b, depth)->Ok_0.1;
    assert(eval_operands(facts, env, rands, 2, depth) == Ok::<Seq<ValueView>, EvalErrorView>(
        Seq::empty(),
    ));
    assert(seq![vb] + Seq::<ValueView>::empty() =~= seq![vb]);
    assert(eval_operands(facts, env, rands, 1, depth) == Ok::<Seq<ValueView>, EvalErrorView>(
        seq![vb],
    ));
    assert(seq![va] + seq![vb] =~= seq![va, vb]);
}

/// Of two operands, where the first has a value and leaves the environment
/// as it is and the second has none, the error of the second is the error
/// of both.
pub proof fn lemma_second_operand_fails(
    facts: FloatFacts,
    env: Bindings,
    a: ExprView,
    b: ExprView,
    depth: nat,
)
    requires
        eval_spec(facts, env, a, depth) matches Ok(r) && r.0 == env,
        eval_spec(facts, env, b, depth) is Err,
    ensures
        eval_operands(facts, env, seq![a, b], 0, depth) == Err::<Seq<ValueView>, EvalErrorView>(
            eval_spec(facts, env, b, depth)->Err_0,
        ),
{
    let rands = seq![a, b];
    assert(eval_operands(facts, env, rands, 1, depth) == Err::<Seq<ValueView>, EvalErrorView>(
        eval_spec(facts, env, b, depth)->Err_0,
    ));
}

/// The call of a name that stands for a procedure fails with the error of
/// its operands, where they have one.
pub proof fn lemma_call_operands_fail(
    facts: FloatFacts,
    env: Bindings,
    operator: Seq<char>,
    operands: Seq<ExprView>,
    depth: nat,
)
    requires
        lookup_in(env, operator) is Lambda || lookup_in(env, operator) matches ValueView::RuntimeFunction(
            RuntimeFunctionWrapper::Immediate(_),
        ),
        eval_operands(facts, env, operands, 0, depth) is Err,
    ensures
        eval_spec(facts, env, call_of(operator, operands), depth) == Err::<
            (Bindings, ValueView),
            EvalErrorView,
        >(eval_operands(facts, env, operands, 0, depth)->Err_0),
{
    assert(eval_spec(facts, env, ExprView::LookupExpr(operator), depth) == Ok::<
        (Bindings, ValueView),
        EvalErrorView,
    >((env, lookup_in(env, operator))));
}

/// One operand evaluates to its one value.
pub proof fn lemma_one_operand(facts: FloatFacts, env: Bindings, a: ExprView, depth: nat)
    requires
        eval_spec(facts, env, a, depth) is Ok,
    ensures
        eval_operands(facts, env, seq![a], 0, depth) == Ok::<Seq<ValueView>, EvalErrorView>(
            seq![eval_spec(facts, env, a, depth)->Ok_0.1],
        ),
{
    let rands = seq![a];
    let done = eval_spec(facts, env, a, depth)->Ok_0;
    assert(eval_operands(facts, done.0, rands, 1, depth) == Ok::<Seq<ValueView>, EvalErrorView>(
        Seq::empty(),
    ));
    assert(seq![done.1] + Seq::<ValueView>::empty() =~= seq![done.1]);
}

/// The call of a name that stands for a native procedure is that procedure
/// applied to the values of the operands, in the environment of the call.
pub proof fn lemma_native_call(
    facts: FloatFacts,
    env: Bindings,
    operator: Seq<char>,
    operands: Seq<ExprView>,
    depth: nat,
    builtin: Builtin,
    args: Seq<ValueView>,
)
    requires
        lookup_in(env, operator) == ValueView::RuntimeFunction(
            RuntimeFunctionWrapper::Immediate(builtin),
        ),
        eval_operands(facts, env, operands, 0, depth) == Ok::<Seq<ValueView>, EvalErrorView>(args),
    ensures
        eval_spec(facts, env, call_of(operator, operands), depth) == native_outcome(
            env,
            apply_builtin(facts, env, builtin, args),
        ),
{
    assert(eval_spec(facts, env, ExprView::LookupExpr(operator), depth) == Ok::<
        (Bindings, ValueView),
        EvalErrorView,
    >((env, lookup_in(env, operator))));
}

/// The call of a name that stands for a closure is the closure called on
/// the values of the operands; the environment of the call is returned.
pub proof fn lemma_closure_call(
    facts: FloatFacts,
    env: Bindings,
    operator: Seq<char>,
    operands: Seq<ExprView>,
    depth: nat,
    c: ClosureView,
    args: Seq<ValueView>,
)
    requires
        lookup_in(env, operator) == ValueView::Lambda(c),
        eval_operands(facts, env, operands, 0, depth) == Ok::<Seq<ValueView>, EvalErrorView>(args),
    ensures
        eval_spec(facts, env, call_of(operator, operands), depth) == native_outcome(
            env,
            call_closure(facts, c, args, depth),
        ),
{
    assert(eval_spec(facts, env, ExprView::LookupExpr(operator), depth) == Ok::<
        (Bindings, ValueView),
        EvalErrorView,
    >((env, lookup_in(env, operator))));
}

/// The fold of two integers: the operation applied to the first and to what
/// it makes of the second and its base.
pub proof fn lemma_arith_two_ints(facts: FloatFacts, op: ArithOp, a: i32, b: i32)
    ensures
        arith_result(facts, op, seq![ValueView::Int(a), ValueView::Int(b)]) == match int_apply(
            op,
            b,
            int_base(op),
        ) {
            Ok(inner) => match int_apply(op, a, inner) {
                Ok(v) => Ok::<ValueView, EvalErrorView>(ValueView::Int(v)),
                Err(e) => Err(e),
            },
            Err(e) => Err(e),
        },
{
    let args = seq![ValueView::Int(a), ValueView::Int(b)];
    assert(all_ints(args));
    assert(all_numbers(args));
    assert(int_fold(op, args, 2) == Ok::<i32, EvalErrorView>(int_base(op)));
    assert(int_fold(op, args, 1) == int_apply(op, b, int_base(op)));
}

/// The product of the numbers from one to `k`.
pub open spec fn factorial(k: nat) -> nat
    decreases k,
{
    if k == 0 {
        1
    } else {
        k * factorial((k - 1) as nat)
    }
}

/// The body of the factorial, `((= n 0) 1 (* n (fact (- n 1))))`, as the
/// parser makes it.
pub open spec fn factorial_body() -> ExprView {
    ExprView::SExpr(
        Box::new(call_of("="@, seq![ExprView::LookupExpr("n"@), ExprView::IntegerLiteral(0)])),
        seq![ExprView::IntegerLiteral(1), factorial_step()],
    )
}

/// The second branch of the factorial, `(* n (fact (- n 1)))`.
pub open spec fn factorial_step() -> ExprView {
    call_of(
        "*"@,
        seq![
            ExprView::LookupExpr("n"@),
            call_of(
                "fact"@,
                seq![
                    call_of(
                        "-"@,
                        seq![ExprView::LookupExpr("n"@), ExprView::IntegerLiteral(1)],
                    ),
                ],
            ),
        ],
    )
}

/// The closure that `(let (fact n) ((= n 0) 1 (* n (fact (- n 1)))))` binds
/// `fact` to when it is evaluated in `env`: it captures `env`, which need
/// not bind `fact`, and knows its own name.
pub open spec fn factorial_closure(env: Bindings) -> ClosureView {
    ClosureView {
        env,
        arg_names: seq!["n"@],
        body: factorial_body(),
        own_name: Some("fact"@),
    }
}

/// Whether an environment binds `=`, `*`, `-`, `true` and `false` to the
/// native procedures of these names.
pub open spec fn has_natives(env: Bindings) -> bool {
    &&& lookup_in(env, "="@) == ValueView::RuntimeFunction(
        RuntimeFunctionWrapper::Immediate(Builtin::Equal),
    )
    &&& lookup_in(env, "*"@) == ValueView::RuntimeFunction(
        RuntimeFunctionWrapper::Immediate(Builtin::Arith(ArithOp::Mul)),
    )
    &&& lookup_in(env, "-"@) == ValueView::RuntimeFunction(
        RuntimeFunctionWrapper::Immediate(Builtin::Arith(ArithOp::Sub)),
    )
    &&& lookup_in(env, "true"@) == ValueView::RuntimeFunction(
        RuntimeFunctionWrapper::Symbolic(Branch::True),
    )
    &&& lookup_in(env, "false"@) == ValueView::RuntimeFunction(
        RuntimeFunctionWrapper::Symbolic(Branch::False),
    )
}

/// The environment of the native procedures binds `=`, `*`, `-`, `true`
/// and `false` to the procedures of these names.
pub proof fn law_native_bindings_have_natives()
    ensures
        has_natives(native_bindings()),
{
    reveal_strlit("+");
    reveal_strlit("-");
    reveal_strlit("*");
    reveal_strlit("/");
    reveal_strlit("=");
    reveal_strlit("exit");
    reveal_strlit("true");
    reveal_strlit("false");
    reveal_strlit("nil");
    assert("+"@[0] == '+' && "-"@[0] == '-' && "*"@[0] == '*' && "/"@[0] == '/' && "="@[0] == '=');
    assert("exit"@.len() == 4 && "true"@.len() == 4 && "false"@.len() == 5 && "nil"@.len() == 3);
    assert("exit"@[0] == 'e' && "true"@[0] == 't');
    assert("-"@ != "*"@ && "-"@ != "/"@ && "-"@ != "="@ && "-"@ != "exit"@ && "-"@ != "true"@
        && "-"@ != "false"@ && "-"@ != "nil"@);
    assert("*"@ != "/"@ && "*"@ != "="@ && "*"@ != "exit"@ && "*"@ != "true"@ && "*"@
        != "false"@ && "*"@ != "nil"@);
    assert("="@ != "exit"@ && "="@ != "true"@ && "="@ != "false"@ && "="@ != "nil"@);
    assert("true"@ != "false"@ && "true"@ != "nil"@ && "true"@ != "exit"@);
    assert("false"@ != "nil"@);
}

/// The factorials up to that of twelve fit in 32 bits.
pub proof fn lemma_factorial_fits(k: nat)
    requires
        k <= 12,
    ensures
        1 <= factorial(k) <= 479001600,
        k >= 1 ==> factorial(k) == k * factorial((k - 1) as nat),
{
    assert(factorial(0) == 1);
    assert(factorial(1) == 1);
    assert(factorial(2) == 2);
    assert(factorial(3) == 6);
    assert(factorial(4) == 24);
    assert(factorial(5) == 120);
    assert(factorial(6) == 720);
    assert(factorial(7) == 5040);
    assert(factorial(8) == 40320);
    assert(factorial(9) == 362880);
    assert(factorial(10) == 3628800);
    assert(factorial(11) == 39916800);
    assert(factorial(12) == 479001600);
}

/// In the scope of a call of the factorial, `n` is the argument, `fact` is
/// the closure itself, and the native procedures are those of the captured
/// environment.
proof fn lemma_factorial_scope(env: Bindings, n: i32)
    requires
        has_natives(env),
    ensures
        ({
            let c = factorial_closure(env);
            let scope = child_scope(c, seq![ValueView::Int(n)]);
            &&& lookup_in(scope, "n"@) == ValueView::Int(n)
            &&& lookup_in(scope, "fact"@) == ValueView::Lambda(c)
            &&& has_natives(scope)
        }),
{
    reveal_strlit("n");
    reveal_strlit("fact");
    reveal_strlit("=");
    reveal_strlit("*");
    reveal_strlit("-");
    reveal_strlit("true");
    reveal_strlit("false");
    let c = factorial_closure(env);
    let args = seq![ValueView::Int(n)];
    let scope = child_scope(c, args);
    reveal_with_fuel(bind_params, 2);
    assert(scope == env.insert("n"@, ValueView::Int(n)).insert("fact"@, ValueView::Lambda(c)));
    assert("n"@[0] == 'n' && "fact"@[0] == 'f' && "="@[0] == '=' && "*"@[0] == '*' && "-"@[0]
        == '-' && "true"@[0] == 't');
    assert("="@ != "n"@ && "="@ != "fact"@);
    assert("*"@ != "n"@ && "*"@ != "fact"@);
    assert("-"@ != "n"@ && "-"@ != "fact"@);
    assert("true"@ != "n"@ && "true"@ != "fact"@);
    assert("false"@.len() == 5 && "fact"@.len() == 4 && "n"@.len() == 1);
    assert("false"@ != "n"@ && "false"@ != "fact"@);
    assert("n"@ != "fact"@);
}

/// The factorial by self-reference: the closure that the binding form
/// `(let (fact n) ((= n 0) 1 (* n (fact (- n 1)))))` makes over an
/// environment with the native procedures, called on `k`, yields the
/// factorial of `k`, for every `k` whose factorial fits in 32 bits and at
/// every depth above `k`. The body finds `fact` bound to the closure
/// itself, whether or not the captured environment binds it.
pub proof fn law_factorial(facts: FloatFacts, env: Bindings, k: nat, depth: nat)
    requires
        has_natives(env),
        k <= 12,
        depth > k,
    ensures
        call_closure(facts, factorial_closure(env), seq![ValueView::Int(k as i32)], depth) == Ok::<
            ValueView,
            EvalErrorView,
        >(ValueView::Int(factorial(k) as i32)),
    decreases k,
{
    let c = factorial_closure(env);
    let n = k as i32;
    let scope = child_scope(c, seq![ValueView::Int(n)]);
    let d = (depth - 1) as nat;
    lemma_factorial_scope(env, n);
    lemma_factorial_fits(k);
    let name_n = ExprView::LookupExpr("n"@);
    let zero = ExprView::IntegerLiteral(0);
    let one = ExprView::IntegerLiteral(1);
    let here = |v: ValueView| Ok::<(Bindings, ValueView), EvalErrorView>((scope, v));
    assert(eval_spec(facts, scope, name_n, d) == here(ValueView::Int(n)));
    assert(eval_spec(facts, scope, zero, d) == here(ValueView::Int(0)));
    assert(eval_spec(facts, scope, one, d) == here(ValueView::Int(1)));

    // (= n 0)
    let cond = call_of("="@, seq![name_n, zero]);
    let cond_args = seq![ValueView::Int(n), ValueView::Int(0)];
    lemma_two_operands(facts, scope, name_n, zero, d);
    lemma_native_call(facts, scope, "="@, seq![name_n, zero], d, Builtin::Equal, cond_args);
    let branch = if k == 0 {
        Branch::True
    } else {
        Branch::False
    };
    assert(eval_spec(facts, scope, cond, d) == here(
        ValueView::RuntimeFunction(RuntimeFunctionWrapper::Symbolic(branch)),
    ));

    // ((= n 0) 1 (* n (fact (- n 1))))
    let rands = seq![one, factorial_step()];
    assert(factorial_body() == ExprView::SExpr(Box::new(cond), rands));
    assert(eval_spec(facts, scope, factorial_body(), d) == eval_branch(
        facts,
        scope,
        rands,
        branch_index(branch),
        d,
    ));
    if k == 0 {
        assert(eval_branch(facts, scope, rands, 0, d) == here(ValueView::Int(1)));
    } else {
        // (- n 1)
        let less = call_of("-"@, seq![name_n, one]);
        lemma_two_operands(facts, scope, name_n, one, d);
        lemma_native_call(
            facts,
            scope,
            "-"@,
            seq![name_n, one],
            d,
            Builtin::Arith(ArithOp::Sub),
            seq![ValueView::Int(n), ValueView::Int(1)],
        );
        lemma_arith_two_ints(facts, ArithOp::Sub, n, 1);
        let m = (n - 1) as i32;
        assert(eval_spec(facts, scope, less, d) == here(ValueView::Int(m)));

        // (fact (- n 1))
        let again = call_of("fact"@, seq![less]);
        lemma_one_operand(facts, scope, less, d);
        lemma_closure_call(facts, scope, "fact"@, seq![less], d, c, seq![ValueView::Int(m)]);
        law_factorial(facts, env, (k - 1) as nat, d);
        lemma_factorial_fits((k - 1) as nat);
        let f = factorial((k - 1) as nat) as i32;
        assert(eval_spec(facts, scope, again, d) == here(ValueView::Int(f)));

        // (* n (fact (- n 1)))
        lemma_two_operands(facts, scope, name_n, again, d);
        lemma_native_call(
            facts,
            scope,
            "*"@,
            seq![name_n, again],
            d,
            Builtin::Arith(ArithOp::Mul),
            seq![ValueView::Int(n), ValueView::Int(f)],
        );
        lemma_arith_two_ints(facts, ArithOp::Mul, n, f);
        assert(n * f == factorial(k)) by (nonlinear_arith)
            requires
                n == k,
                f == factorial((k - 1) as nat),
                factorial(k) == k * factorial((k - 1) as nat),
        ;
        assert(factorial_step() == call_of("*"@, seq![name_n, again]));
        assert(eval_spec(facts, scope, factorial_step(), d) == here(
            ValueView::Int(factorial(k) as i32),
        ));
        assert(eval_branch(facts, scope, rands, 1, d) == here(
            ValueView::Int(factorial(k) as i32),
        ));
    }
}

/// The factorial needs a depth above its argument: at a depth of `k` or
/// less, the call on `k` stops with the error `DepthExceeded`.
pub proof fn law_factorial_needs_depth(facts: FloatFacts, env: Bindings, k: nat, depth: nat)
    requires
        has_natives(env),
        k <= 12,
        depth <= k,
    ensures
        call_closure(facts, factorial_closure(env), seq![ValueView::Int(k as i32)], depth) == Err::<
            ValueView,
            EvalErrorView,
        >(EvalErrorView::DepthExceeded),
    decreases depth,
{
    if depth > 0 {
        let c = factorial_closure(env);
        let n = k as i32;
        let scope = child_scope(c, seq![ValueView::Int(n)]);
        let d = (depth - 1) as nat;
        lemma_factorial_scope(env, n);
        let name_n = ExprView::LookupExpr("n"@);
        let zero = ExprView::IntegerLiteral(0);
        let one = ExprView::IntegerLiteral(1);
        let here = |v: ValueView| Ok::<(Bindings, ValueView), EvalErrorView>((scope, v));
        let stop = Err::<(Bindings, ValueView), EvalErrorView>(EvalErrorView::DepthExceeded);
        assert(eval_spec(facts, scope, name_n, d) == here(ValueView::Int(n)));
        assert(eval_spec(facts, scope, zero, d) == here(ValueView::Int(0)));
        assert(eval_spec(facts, scope, one, d) == here(ValueView::Int(1)));

        // (= n 0) is false, since the argument is at least the depth
        let cond = call_of("="@, seq![name_n, zero]);
        let cond_args = seq![ValueView::Int(n), ValueView::Int(0)];
        lemma_two_operands(facts, scope, name_n, zero, d);
        lemma_native_call(facts, scope, "="@, seq![name_n, zero], d, Builtin::Equal, cond_args);
        assert(eval_spec(facts, scope, cond, d) == here(
            ValueView::RuntimeFunction(RuntimeFunctionWrapper::Symbolic(Branch::False)),
        ));
        let rands = seq![one, factorial_step()];
        assert(factorial_body() == ExprView::SExpr(Box::new(cond), rands));
        assert(eval_spec(facts, scope, factorial_body(), d) == eval_branch(
            facts,
            scope,
            rands,
            1,
            d,
        ));

        // (- n 1)
        let less = call_of("-"@, seq![name_n, one]);
        lemma_two_operands(facts, scope, name_n, one, d);
        lemma_native_call(
            facts,
            scope,
            "-"@,
            seq![name_n, one],
            d,
            Builtin::Arith(ArithOp::Sub),
            seq![ValueView::Int(n), ValueView::Int(1)],
        );
        lemma_arith_two_ints(facts, ArithOp::Sub, n, 1);
        let m = (n - 1) as i32;
        assert(eval_spec(facts, scope, less, d) == here(ValueView::Int(m)));

        // (fact (- n 1)) stops, one level deeper
        let again = call_of("fact"@, seq![less]);
        lemma_one_operand(facts, scope, less, d);
        lemma_closure_call(facts, scope, "fact"@, seq![less], d, c, seq![ValueView::Int(m)]);
        law_factorial_needs_depth(facts, env, (k - 1) as nat, d);
        assert(eval_spec(facts, scope, again, d) == stop);

        // and so does (* n (fact (- n 1)))
        lemma_second_operand_fails(facts, scope, name_n, again, d);
        lemma_call_operands_fail(facts, scope, "*"@, seq![name_n, again], d);
        assert(factorial_step() == call_of("*"@, seq![name_n, again]));
        assert(eval_spec(facts, scope, factorial_step(), d) == stop);
        assert(eval_branch(facts, scope, rands, 1, d) == stop);
    }
}

/// After the binding form of the factorial has been evaluated in an
/// environment with the native procedures, `(fact k)` evaluates to the
/// factorial of `k` in the environment that the form returned.
pub proof fn law_factorial_after_let(facts: FloatFacts, env: Bindings, k: nat, depth: nat, later: nat)
    requires
        has_natives(env),
        k <= 12,
        later > k,
    ensures
        ({
            let form = ExprView::LetExpr(
                "fact"@,
                Box::new(ExprView::LambdaExpr(seq!["n"@], Box::new(factorial_body()))),
            );
            let call = call_of("fact"@, seq![ExprView::IntegerLiteral(k as i32)]);
            &&& eval_spec(facts, env, form, depth) matches Ok(bound)
            &&& bound.1 == ValueView::Nil
            &&& bound.0 == env.insert("fact"@, ValueView::Lambda(factorial_closure(env)))
            &&& eval_spec(facts, bound.0, call, later) == Ok::<(Bindings, ValueView), EvalErrorView>(
                (bound.0, ValueView::Int(factorial(k) as i32)),
            )
        }),
{
    let c = factorial_closure(env);
    let after = env.insert("fact"@, ValueView::Lambda(c));
    let literal = ExprView::IntegerLiteral(k as i32);
    assert(eval_spec(facts, after, literal, later) == Ok::<(Bindings, ValueView), EvalErrorView>(
        (after, ValueView::Int(k as i32)),
    ));
    lemma_one_operand(facts, after, literal, later);
    lemma_closure_call(
        facts,
        after,
        "fact"@,
        seq![literal],
        later,
        c,
        seq![ValueView::Int(k as i32)],
    );
    law_factorial(facts, env, k, later);
}

} // verus!
