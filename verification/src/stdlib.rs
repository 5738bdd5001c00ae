//! The native procedures, the environment that holds them, and the loading
//! of source texts into an environment.

use crate::env::{no_bindings, share, table_insert, table_new, Bindings, Env};
use crate::expressions::{forms_view, Expression};
use crate::floats::{
    float_eq, ArithOp, FloatFacts, FloatQuery, FloatTable, FLOAT_ONE, FLOAT_ZERO,
};
use crate::parser::{form_spec, Parser, SyntaxError, SyntaxErrorView};
use crate::runtime::{outcome_of, values_view, EvalResult};
use crate::semantics::{
    all_ints, apply_builtin, arith_result, as_float, equal_result, eval_branch,
    eval_spec, float_fact, float_fold, int_apply, int_fold, is_number, truncated_quotient,
    values_equal, EvalError, EvalErrorView, Outcome,
};
use crate::values::{Branch, Builtin, RuntimeFunctionWrapper, Value, ValueView};
use either::Either;
use std::rc::Rc;
use vstd::arithmetic::div_mod::{
    lemma_div_basics, lemma_div_is_ordered_by_denominator, lemma_div_pos_is_pos,
};
use vstd::prelude::*;

verus! {

/// The type `either::Either`, with its two variants `Left` and `Right` as
/// the crate declares them.
#[verifier::external_type_specification]
#[verifier::reject_recursive_types(L)]
#[verifier::reject_recursive_types(R)]
pub struct ExEither<L, R>(Either<L, R>);

/// The mathematical value of a result whose error is an [`EvalError`].
pub open spec fn checked<T>(r: Result<T, EvalError>) -> Result<T, EvalErrorView> {
    match r {
        Ok(v) => Ok(v),
        Err(e) => Err(e@),
    }
}

/// The sum of two integers, wrapped around at the ends of the 32-bit range.
pub fn add_i(a: i32, b: i32) -> (r: i32)
    ensures
        int_apply(ArithOp::Add, a, b) == Ok::<i32, EvalErrorView>(r),
{
    a.wrapping_add(b)
}

/// The difference of two integers, wrapped around at the ends of the
/// 32-bit range.
pub fn sub_i(a: i32, b: i32) -> (r: i32)
    ensures
        int_apply(ArithOp::Sub, a, b) == Ok::<i32, EvalErrorView>(r),
{
    a.wrapping_sub(b)
}

/// The product of two integers, wrapped around at the ends of the 32-bit
/// range.
pub fn mul_i(a: i32, b: i32) -> (r: i32)
    ensures
        int_apply(ArithOp::Mul, a, b) == Ok::<i32, EvalErrorView>(r),
{
    a.wrapping_mul(b)
}

/// The quotient of two integers, rounded towards zero. Division by zero is
/// an error. The least integer divided by minus one is the least integer.
pub fn div_i(a: i32, b: i32) -> (r: Result<i32, EvalError>)
    ensures
        checked(r) == int_apply(ArithOp::Div, a, b),
{
    if b == 0 {
        Err(EvalError::DivisionByZero)
    } else if a == i32::MIN && b == -1 {
        Ok(i32::MIN)
    } else {
        proof {
            lemma_quotient_fits(a as int, b as int);
        }
        match a.checked_div(b) {
            Some(q) => Ok(q),
            // the quotient fits, so the division has a result
            None => Ok(i32::MIN),
        }
    }
}

/// The quotient of two 32-bit integers fits in 32 bits, but for the least
/// of them divided by minus one.
proof fn lemma_quotient_fits(x: int, d: int)
    requires
        i32::MIN <= x <= i32::MAX,
        i32::MIN <= d <= i32::MAX,
        d != 0,
        !(x == i32::MIN && d == -1),
    ensures
        i32::MIN <= truncated_quotient(x, d) <= i32::MAX,
{
    let ax = if x < 0 {
        -x
    } else {
        x
    };
    let ad = if d < 0 {
        -d
    } else {
        d
    };
    // 0 <= ax / ad <= ax / 1 == ax
    lemma_div_pos_is_pos(ax, ad);
    lemma_div_is_ordered_by_denominator(ax, 1, ad);
    lemma_div_basics(ax);
    if ad >= 2 && ax > 0 {
        // ax / ad <= ax / 2 < ax
        lemma_div_is_ordered_by_denominator(ax, 2, ad);
    }
}

/// One step of a fold of integers.
pub fn int_step(op: ArithOp, a: i32, b: i32) -> (r: Result<i32, EvalError>)
    ensures
        checked(r) == int_apply(op, a, b),
{
    match op {
        ArithOp::Add => Ok(add_i(a, b)),
        ArithOp::Sub => Ok(sub_i(a, b)),
        ArithOp::Mul => Ok(mul_i(a, b)),
        ArithOp::Div => div_i(a, b),
    }
}

/// The recorded result of an operation, or the error that names it.
pub fn float_result(floats: &FloatTable, query: FloatQuery) -> (r: Result<u32, EvalError>)
    ensures
        checked(r) == float_fact(floats@, query@),
{
    match floats.get(&query) {
        Some(bits) => Ok(bits),
        None => Err(EvalError::FloatNeeded(query)),
    }
}

/// The fold of the operands as floats, each integer among them converted.
pub fn fold_floats(args: &Vec<Rc<Value>>, op: ArithOp, floats: &FloatTable) -> (r: Result<
    u32,
    EvalError,
>)
    ensures
        checked(r) == float_fold(floats@, op, values_view(args@), 0),
{
    let mut acc: u32 = match op {
        ArithOp::Add => FLOAT_ZERO,
        ArithOp::Sub => FLOAT_ZERO,
        ArithOp::Mul => FLOAT_ONE,
        ArithOp::Div => FLOAT_ONE,
    };
    let mut i: usize = args.len();
    while i > 0
        invariant
            i <= args.len(),
            float_fold(floats@, op, values_view(args@), i as int) == Ok::<u32, EvalErrorView>(acc),
        decreases i,
    {
        i = i - 1;
        let converted = match &*args[i] {
            Value::Float(bits) => Ok(*bits),
            Value::Int(n) => float_result(floats, FloatQuery::FromInt(*n)),
            _ => Err(EvalError::TypeMismatch),
        };
        assert(checked(converted) == as_float(floats@, values_view(args@)[i as int]));
        let step = match converted {
            Ok(x) => float_result(floats, FloatQuery::Arith(op, x, acc)),
            Err(e) => Err(e),
        };
        match step {
            Ok(bits) => {
                acc = bits;
            },
            Err(e) => {
                proof {
                    lemma_float_fold_fails(floats@, op, values_view(args@), 0, i as int);
                }
                return Err(e);
            },
        }
    }
    Ok(acc)
}

/// The value that the result of a fold stands for: an integer on the left,
/// the bits of a float on the right.
pub open spec fn folded(r: Result<Either<i32, u32>, EvalError>) -> Result<ValueView, EvalErrorView> {
    match r {
        Ok(Either::Left(v)) => Ok(ValueView::Int(v)),
        Ok(Either::Right(bits)) => Ok(ValueView::Float(bits)),
        Err(e) => Err(e@),
    }
}

/// The result of an arithmetic procedure: an integer on the left where all
/// operands are integers, the bits of a float on the right where one of
/// them is a float.
pub fn try_fold_ints(args: &Vec<Rc<Value>>, op: ArithOp, floats: &FloatTable) -> (r: Result<
    Either<i32, u32>,
    EvalError,
>)
    ensures
        folded(r) == arith_result(floats@, op, values_view(args@)),
{
    let mut ints: bool = true;
    let mut k: usize = 0;
    while k < args.len()
        invariant
            k <= args.len(),
            forall|j: int| 0 <= j < k ==> is_number(#[trigger] values_view(args@)[j]),
            ints == forall|j: int| 0 <= j < k ==> #[trigger] values_view(args@)[j] is Int,
        decreases args.len() - k,
    {
        match &*args[k] {
            Value::Int(_) => {},
            Value::Float(_) => {
                assert(!(values_view(args@)[k as int] is Int));
                ints = false;
            },
            _ => {
                assert(!is_number(values_view(args@)[k as int]));
                return Err(EvalError::TypeMismatch);
            },
        }
        k = k + 1;
    }
    if !ints {
        return match fold_floats(args, op, floats) {
            Ok(bits) => Ok(Either::Right(bits)),
            Err(e) => Err(e),
        };
    }
    let mut acc: i32 = match op {
        ArithOp::Add => 0,
        ArithOp::Sub => 0,
        ArithOp::Mul => 1,
        ArithOp::Div => 1,
    };
    let mut i: usize = args.len();
    while i > 0
        invariant
            i <= args.len(),
            all_ints(values_view(args@)),
            int_fold(op, values_view(args@), i as int) == Ok::<i32, EvalErrorView>(acc),
        decreases i,
    {
        i = i - 1;
        assert(values_view(args@)[i as int] is Int);
        let num: i32 = match &*args[i] {
            Value::Int(n) => *n,
            _ => 0,
        };
        match int_step(op, num, acc) {
            Ok(v) => {
                acc = v;
            },
            Err(e) => {
                proof {
                    lemma_int_fold_fails(op, values_view(args@), 0, i as int);
                }
                return Err(e);
            },
        }
    }
    Ok(Either::Left(acc))
}

/// A fold of floats that fails from some operand on fails in the same way
/// from every operand before it.
proof fn lemma_float_fold_fails(
    facts: FloatFacts,
    op: ArithOp,
    args: Seq<ValueView>,
    i: int,
    k: int,
)
    requires
        0 <= i <= k,
        float_fold(facts, op, args, k) is Err,
    ensures
        float_fold(facts, op, args, i) == float_fold(facts, op, args, k),
    decreases k - i,
{
    if i < k {
        lemma_float_fold_fails(facts, op, args, i + 1, k);
    }
}

/// A fold of integers that fails from some operand on fails in the same
/// way from every operand before it.
proof fn lemma_int_fold_fails(op: ArithOp, args: Seq<ValueView>, i: int, k: int)
    requires
        0 <= i <= k,
        int_fold(op, args, k) is Err,
    ensures
        int_fold(op, args, i) == int_fold(op, args, k),
    decreases k - i,
{
    if i < k {
        lemma_int_fold_fails(op, args, i + 1, k);
    }
}

/// The result of an arithmetic procedure as a value, with the environment
/// of the call.
fn arith(env: &Rc<Env>, args: &Vec<Rc<Value>>, op: ArithOp, floats: &FloatTable) -> (r: EvalResult)
    ensures
        outcome_of(r) == native_outcome(
            env@,
            apply_builtin(floats@, env@, Builtin::Arith(op), values_view(args@)),
        ),
{
    match try_fold_ints(args, op, floats) {
        Ok(Either::Left(i)) => Ok((share(env), Rc::new(Value::Int(i)))),
        Ok(Either::Right(f)) => Ok((share(env), Rc::new(Value::Float(f)))),
        Err(e) => Err(e),
    }
}

/// What a call of a native procedure returns: its value with the
/// environment of the call, or its error.
pub open spec fn native_outcome(env: Bindings, r: Result<ValueView, EvalErrorView>) -> Outcome {
    match r {
        Ok(v) => Ok((env, v)),
        Err(e) => Err(e),
    }
}

/// `+`: the sum of the operands, zero for none.
pub fn wrapped_add(env: &Rc<Env>, args: Vec<Rc<Value>>, floats: &FloatTable) -> (r: EvalResult)
    ensures
        outcome_of(r) == native_outcome(
            env@,
            apply_builtin(floats@, env@, Builtin::Arith(ArithOp::Add), values_view(args@)),
        ),
{
    arith(env, &args, ArithOp::Add, floats)
}

/// `-`: each operand less the fold of those after it, zero for none.
pub fn wrapped_sub(env: &Rc<Env>, args: Vec<Rc<Value>>, floats: &FloatTable) -> (r: EvalResult)
    ensures
        outcome_of(r) == native_outcome(
            env@,
            apply_builtin(floats@, env@, Builtin::Arith(ArithOp::Sub), values_view(args@)),
        ),
{
    arith(env, &args, ArithOp::Sub, floats)
}

/// `*`: the product of the operands, one for none.
pub fn wrapped_mul(env: &Rc<Env>, args: Vec<Rc<Value>>, floats: &FloatTable) -> (r: EvalResult)
    ensures
        outcome_of(r) == native_outcome(
            env@,
            apply_builtin(floats@, env@, Builtin::Arith(ArithOp::Mul), values_view(args@)),
        ),
{
    arith(env, &args, ArithOp::Mul, floats)
}

/// `/`: each operand divided by the fold of those after it, one for none.
pub fn wrapped_div(env: &Rc<Env>, args: Vec<Rc<Value>>, floats: &FloatTable) -> (r: EvalResult)
    ensures
        outcome_of(r) == native_outcome(
            env@,
            apply_builtin(floats@, env@, Builtin::Arith(ArithOp::Div), values_view(args@)),
        ),
{
    arith(env, &args, ArithOp::Div, floats)
}

/// `exit`: stops the evaluation with [`EvalError::Exit`], whatever the
/// operands. Ending the process is left to the caller.
pub fn wrapped_exit(env: &Rc<Env>, args: Vec<Rc<Value>>) -> (r: EvalResult)
    ensures
        outcome_of(r) == Err::<(Bindings, ValueView), EvalErrorView>(EvalErrorView::Exit),
{
    Err(EvalError::Exit)
}

/// `true`: the result of the first operand; the others stay unevaluated.
pub fn fn_true(
    env: &Rc<Env>,
    args: &Vec<Box<Expression>>,
    floats: &FloatTable,
    depth: usize,
) -> (r: EvalResult)
    ensures
        outcome_of(r) == eval_branch(floats@, env@, forms_view(args@), 0, depth as nat),
    decreases 2 * depth + 1, args, 0nat,
{
    if args.len() < 1 {
        return Err(EvalError::MalformedCall);
    }
    env.eval(&args[0], floats, depth)
}

/// `false`: the result of the second operand; the others stay unevaluated.
pub fn fn_false(
    env: &Rc<Env>,
    args: &Vec<Box<Expression>>,
    floats: &FloatTable,
    depth: usize,
) -> (r: EvalResult)
    ensures
        outcome_of(r) == eval_branch(floats@, env@, forms_view(args@), 1, depth as nat),
    decreases 2 * depth + 1, args, 0nat,
{
    if args.len() < 2 {
        return Err(EvalError::MalformedCall);
    }
    env.eval(&args[1], floats, depth)
}

/// Whether `=` holds of two values.
pub fn same_value(x: &Value, y: &Value) -> (r: bool)
    ensures
        r == values_equal(x@, y@),
{
    match x {
        Value::Nil => match y {
            Value::Nil => true,
            _ => false,
        },
        Value::Int(a) => match y {
            Value::Int(b) => *a == *b,
            _ => false,
        },
        Value::Float(a) => match y {
            Value::Float(b) => float_eq(*a, *b),
            _ => false,
        },
        Value::Str(a) => match y {
            Value::Str(b) => *a == *b,
            _ => false,
        },
        _ => false,
    }
}

/// `=`: compares exactly two values and returns what the environment of
/// the call binds `true` or `false` to.
pub fn fn_eq(env: &Rc<Env>, args: Vec<Rc<Value>>) -> (r: EvalResult)
    ensures
        outcome_of(r) == native_outcome(env@, equal_result(env@, values_view(args@))),
{
    if args.len() != 2 {
        return Err(EvalError::MalformedCall);
    }
    let res = if same_value(&args[1], &args[0]) {
        env.lookup(&String::from_str("true"))
    } else {
        env.lookup(&String::from_str("false"))
    };
    Ok((share(env), res))
}

/// The bindings of the native procedures: the four arithmetic signs, `=`,
/// `exit`, the two branching procedures `true` and `false`, and `nil`.
pub open spec fn native_bindings() -> Bindings {
    no_bindings().insert(
        "+"@,
        ValueView::RuntimeFunction(
            RuntimeFunctionWrapper::Immediate(Builtin::Arith(ArithOp::Add)),
        ),
    ).insert(
        "-"@,
        ValueView::RuntimeFunction(
            RuntimeFunctionWrapper::Immediate(Builtin::Arith(ArithOp::Sub)),
        ),
    ).insert(
        "*"@,
        ValueView::RuntimeFunction(
            RuntimeFunctionWrapper::Immediate(Builtin::Arith(ArithOp::Mul)),
        ),
    ).insert(
        "/"@,
        ValueView::RuntimeFunction(
            RuntimeFunctionWrapper::Immediate(Builtin::Arith(ArithOp::Div)),
        ),
    ).insert(
        "="@,
        ValueView::RuntimeFunction(RuntimeFunctionWrapper::Immediate(Builtin::Equal)),
    ).insert(
        "exit"@,
        ValueView::RuntimeFunction(RuntimeFunctionWrapper::Immediate(Builtin::Exit)),
    ).insert(
        "true"@,
        ValueView::RuntimeFunction(RuntimeFunctionWrapper::Symbolic(Branch::True)),
    ).insert(
        "false"@,
        ValueView::RuntimeFunction(RuntimeFunctionWrapper::Symbolic(Branch::False)),
    ).insert("nil"@, ValueView::Nil)
}

/// A native procedure as a value.
fn native(f: RuntimeFunctionWrapper) -> (v: Rc<Value>)
    ensures
        v@ == ValueView::RuntimeFunction(f),
{
    Rc::new(Value::RuntimeFunction(f))
}

/// The environment that holds the native procedures and nothing else.
pub fn native_environment() -> (env: Rc<Env>)
    ensures
        env@ == native_bindings(),
{
    let mut table = table_new();
    table_insert(
        &mut table,
        String::from_str("+"),
        native(RuntimeFunctionWrapper::Immediate(Builtin::Arith(ArithOp::Add))),
    );
    table_insert(
        &mut table,
        String::from_str("-"),
        native(RuntimeFunctionWrapper::Immediate(Builtin::Arith(ArithOp::Sub))),
    );
    table_insert(
        &mut table,
        String::from_str("*"),
        native(RuntimeFunctionWrapper::Immediate(Builtin::Arith(ArithOp::Mul))),
    );
    table_insert(
        &mut table,
        String::from_str("/"),
        native(RuntimeFunctionWrapper::Immediate(Builtin::Arith(ArithOp::Div))),
    );
    table_insert(
        &mut table,
        String::from_str("="),
        native(RuntimeFunctionWrapper::Immediate(Builtin::Equal)),
    );
    table_insert(
        &mut table,
        String::from_str("exit"),
        native(RuntimeFunctionWrapper::Immediate(Builtin::Exit)),
    );
    table_insert(
        &mut table,
        String::from_str("true"),
        native(RuntimeFunctionWrapper::Symbolic(Branch::True)),
    );
    table_insert(
        &mut table,
        String::from_str("false"),
        native(RuntimeFunctionWrapper::Symbolic(Branch::False)),
    );
    table_insert(&mut table, String::from_str("nil"), Rc::new(Value::Nil));
    Rc::new(Env::from_table(table))
}

/// Why a source text could not be loaded.
#[derive(Debug)]
pub enum LoadError {
    /// One of its forms is malformed.
    Syntax(SyntaxError),
    /// The evaluation of one of its forms stopped without a value.
    Eval(EvalError),
}

/// The mathematical value of a [`LoadError`].
pub enum LoadErrorView {
    Syntax(SyntaxErrorView),
    Eval(EvalErrorView),
}

impl View for LoadError {
    type V = LoadErrorView;

    open spec fn view(&self) -> LoadErrorView {
        match *self {
            LoadError::Syntax(e) => LoadErrorView::Syntax(e@),
            LoadError::Eval(e) => LoadErrorView::Eval(e@),
        }
    }
}

/// The environment after the forms of `s` from position `i` on have been
/// evaluated in order, each in the environment that the one before it
/// returned; or the first error.
pub open spec fn load_spec(facts: FloatFacts, env: Bindings, s: Seq<char>, i: int, depth: nat) -> Result<
    Bindings,
    LoadErrorView,
>
    decreases s.len() - i,
{
    if i < 0 || i >= s.len() {
        Ok(env)
    } else {
        let step = form_spec(s, i);
        match step.0 {
            Err(e) => Err(LoadErrorView::Syntax(e)),
            Ok(None) => Ok(env),
            Ok(Some(expr)) => match eval_spec(facts, env, expr, depth) {
                Err(e) => Err(LoadErrorView::Eval(e)),
                Ok((after, _)) => if i < step.1 <= s.len() {
                    load_spec(facts, after, s, step.1, depth)
                } else {
                    Ok(after)
                },
            },
        }
    }
}

/// The mathematical value of what loading returns.
pub open spec fn loaded(r: Result<Rc<Env>, LoadError>) -> Result<Bindings, LoadErrorView> {
    match r {
        Ok(env) => Ok(env@),
        Err(e) => Err(e@),
    }
}

/// Evaluates the forms of a source text in order, starting in `env`, and
/// returns the environment after the last of them. Stops at the first form
/// that is malformed or has no value.
pub fn load_source(env: Rc<Env>, source: &String, floats: &FloatTable, depth: usize) -> (r: Result<
    Rc<Env>,
    LoadError,
>)
    ensures
        loaded(r) == load_spec(floats@, env@, source@, 0, depth as nat),
{
    let mut p = Parser::new(source, 0);
    let mut current = env;
    while !p.is_finished()
        invariant
            p.text() == source@,
            0 <= p.position() <= source@.len(),
            load_spec(floats@, env@, source@, 0, depth as nat) == load_spec(
                floats@,
                current@,
                source@,
                p.position(),
                depth as nat,
            ),
        decreases source@.len() - p.position(),
    {
        match p.parse_form() {
            Err(e) => {
                return Err(LoadError::Syntax(e));
            },
            Ok(None) => {
                return Ok(current);
            },
            Ok(Some(expr)) => match current.eval(&expr, floats, depth) {
                Err(e) => {
                    return Err(LoadError::Eval(e));
                },
                Ok((after, _)) => {
                    current = after;
                },
            },
        }
    }
    Ok(current)
}

/// Builds the starting environment: the native procedures, extended by the
/// forms of the prelude text.
///
/// The caller reads the prelude. An error while loading it leaves no
/// environment to work in.
pub fn build_standard_library(prelude: &String, floats: &FloatTable, depth: usize) -> (r: Result<
    Rc<Env>,
    LoadError,
>)
    ensures
        loaded(r) == load_spec(floats@, native_bindings(), prelude@, 0, depth as nat),
{
    load_source(native_environment(), prelude, floats, depth)
}

} // verus!
