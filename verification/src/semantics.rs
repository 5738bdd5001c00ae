//! What evaluation means: the result of every form, as a function of the
//! environment, the form, the table of float results and the depth to which
//! calls may nest.

use crate::env::{lookup_in, Bindings};
use crate::expressions::ExprView;
use crate::floats::{float_equal, ArithOp, FloatFacts, FloatQuery, FloatQueryView};
use crate::values::{Branch, Builtin, ClosureView, RuntimeFunctionWrapper, ValueView};
use vstd::prelude::*;

verus! {

/// Why an evaluation stopped without a value.
#[derive(Debug)]
pub enum EvalError {
    /// The operator of a call is no procedure.
    NotCallable,
    /// An operand of an arithmetic procedure is no number.
    TypeMismatch,
    /// A native procedure got the wrong number of operands.
    MalformedCall,
    /// An integer was divided by zero.
    DivisionByZero,
    /// Calls nest deeper than the evaluation was allowed.
    DepthExceeded,
    /// The table lacks the result of this operation.
    FloatNeeded(FloatQuery),
    /// The program called `exit`.
    Exit,
}

/// The mathematical value of an [`EvalError`].
pub enum EvalErrorView {
    NotCallable,
    TypeMismatch,
    MalformedCall,
    DivisionByZero,
    DepthExceeded,
    FloatNeeded(FloatQueryView),
    Exit,
}

impl View for EvalError {
    type V = EvalErrorView;

    open spec fn view(&self) -> EvalErrorView {
        match *self {
            EvalError::NotCallable => EvalErrorView::NotCallable,
            EvalError::TypeMismatch => EvalErrorView::TypeMismatch,
            EvalError::MalformedCall => EvalErrorView::MalformedCall,
            EvalError::DivisionByZero => EvalErrorView::DivisionByZero,
            EvalError::DepthExceeded => EvalErrorView::DepthExceeded,
            EvalError::FloatNeeded(q) => EvalErrorView::FloatNeeded(q@),
            EvalError::Exit => EvalErrorView::Exit,
        }
    }
}

/// The result of evaluating a form: the environment for the forms that
/// follow and the value, or the reason why there is none.
pub type Outcome = Result<(Bindings, ValueView), EvalErrorView>;

/// The recorded result of an operation, or the error that names the
/// operation where the table has no result for it.
pub open spec fn float_fact(facts: FloatFacts, query: FloatQueryView) -> Result<u32, EvalErrorView> {
    if facts.contains_key(query) {
        Ok(facts[query])
    } else {
        Err(EvalErrorView::FloatNeeded(query))
    }
}

/// `base` with the first `n` parameters bound to the first `n` arguments,
/// in order, so that of two parameters with one name the later one counts.
pub open spec fn bind_params(
    base: Bindings,
    names: Seq<Seq<char>>,
    args: Seq<ValueView>,
    n: nat,
) -> Bindings
    decreases n,
{
    if n == 0 {
        base
    } else {
        bind_params(base, names, args, (n - 1) as nat).insert(names[n - 1], args[n - 1])
    }
}

/// How many parameters of a call get an argument.
pub open spec fn bound_count(names: Seq<Seq<char>>, args: Seq<ValueView>) -> nat {
    if names.len() <= args.len() {
        names.len()
    } else {
        args.len()
    }
}

/// The environment in which the body of a closure runs: the environment
/// that the closure captured, overlaid with its parameters bound to the
/// arguments and, last, with its own name bound to the closure itself.
///
/// Parameters without an argument stay unbound, and arguments without a
/// parameter are dropped.
pub open spec fn child_scope(c: ClosureView, args: Seq<ValueView>) -> Bindings {
    let scope = bind_params(c.env, c.arg_names, args, bound_count(c.arg_names, args));
    match c.own_name {
        Some(name) => scope.insert(name, ValueView::Lambda(c)),
        None => scope,
    }
}

/// Whether a form may stand as the operator of a call: a call, a name, a
/// function literal or a binding.
pub open spec fn is_operator_form(e: ExprView) -> bool {
    e is SExpr || e is LookupExpr || e is LambdaExpr || e is LetExpr
}

/// Which operand a branching procedure evaluates.
pub open spec fn branch_index(b: Branch) -> int {
    match b {
        Branch::True => 0,
        Branch::False => 1,
    }
}

/// The number with which a fold of integers ends.
pub open spec fn int_base(op: ArithOp) -> i32 {
    match op {
        ArithOp::Add => 0,
        ArithOp::Sub => 0,
        ArithOp::Mul => 1,
        ArithOp::Div => 1,
    }
}

/// The bits of the number with which a fold of floats ends.
pub open spec fn float_base(op: ArithOp) -> u32 {
    match op {
        ArithOp::Add => 0,
        ArithOp::Sub => 0,
        ArithOp::Mul => 0x3f80_0000,
        ArithOp::Div => 0x3f80_0000,
    }
}

/// The quotient of two integers rounded towards zero, for a divisor that is
/// not zero.
pub open spec fn truncated_quotient(x: int, d: int) -> int {
    if x == 0 {
        0
    } else if x > 0 && d > 0 {
        x / d
    } else if x < 0 && d < 0 {
        (-x) / (-d)
    } else if x < 0 {
        -((-x) / d)
    } else {
        -(x / (-d))
    }
}

/// One step of a fold of integers. Sums, differences and products wrap
/// around at the ends of the 32-bit range, and so does the one quotient
/// that leaves it. Division by zero is an error.
pub open spec fn int_apply(op: ArithOp, a: i32, b: i32) -> Result<i32, EvalErrorView> {
    match op {
        ArithOp::Add => Ok(vstd::wrapping::i32_specs::wrapping_add(a, b)),
        ArithOp::Sub => Ok(vstd::wrapping::i32_specs::wrapping_sub(a, b)),
        ArithOp::Mul => Ok(vstd::wrapping::i32_specs::wrapping_mul(a, b)),
        ArithOp::Div => if b == 0 {
            Err(EvalErrorView::DivisionByZero)
        } else if a == i32::MIN && b == -1 {
            Ok(i32::MIN)
        } else {
            Ok(truncated_quotient(a as int, b as int) as i32)
        },
    }
}

/// The fold of the operands from the `i`-th on, all of them integers: the
/// operation applied to the `i`-th operand and to the fold of those after
/// it, and the base of the operation where none is left. So `(- 7 2)` is
/// `7 - (2 - 0)`.
pub open spec fn int_fold(op: ArithOp, args: Seq<ValueView>, i: int) -> Result<i32, EvalErrorView>
    decreases args.len() - i,
{
    if i < 0 || i >= args.len() {
        Ok(int_base(op))
    } else {
        match int_fold(op, args, i + 1) {
            Ok(acc) => int_apply(op, args[i]->Int_0, acc),
            Err(e) => Err(e),
        }
    }
}

/// The bits of a number as a float: its own bits, or for an integer the
/// recorded result of the conversion.
pub open spec fn as_float(facts: FloatFacts, v: ValueView) -> Result<u32, EvalErrorView> {
    match v {
        ValueView::Float(bits) => Ok(bits),
        ValueView::Int(n) => float_fact(facts, FloatQueryView::FromInt(n)),
        _ => Err(EvalErrorView::TypeMismatch),
    }
}

/// The fold of the operands from the `i`-th on as floats: the operation
/// applied to the `i`-th operand and to the fold of those after it, each
/// result taken from the table.
pub open spec fn float_fold(facts: FloatFacts, op: ArithOp, args: Seq<ValueView>, i: int) -> Result<
    u32,
    EvalErrorView,
>
    decreases args.len() - i,
{
    if i < 0 || i >= args.len() {
        Ok(float_base(op))
    } else {
        match float_fold(facts, op, args, i + 1) {
            Ok(acc) => match as_float(facts, args[i]) {
                Ok(x) => float_fact(facts, FloatQueryView::Arith(op, x, acc)),
                Err(e) => Err(e),
            },
            Err(e) => Err(e),
        }
    }
}

pub open spec fn is_number(v: ValueView) -> bool {
    v is Int || v is Float
}

pub open spec fn all_numbers(args: Seq<ValueView>) -> bool {
    forall|i: int| 0 <= i < args.len() ==> is_number(#[trigger] args[i])
}

pub open spec fn all_ints(args: Seq<ValueView>) -> bool {
    forall|i: int| 0 <= i < args.len() ==> #[trigger] args[i] is Int
}

/// The result of an arithmetic procedure. An operand that is no number is
/// a type error. Integers alone fold to an integer. One float among the
/// operands makes the whole fold one of floats.
pub open spec fn arith_result(facts: FloatFacts, op: ArithOp, args: Seq<ValueView>) -> Result<
    ValueView,
    EvalErrorView,
> {
    if !all_numbers(args) {
        Err(EvalErrorView::TypeMismatch)
    } else if all_ints(args) {
        match int_fold(op, args, 0) {
            Ok(v) => Ok(ValueView::Int(v)),
            Err(e) => Err(e),
        }
    } else {
        match float_fold(facts, op, args, 0) {
            Ok(bits) => Ok(ValueView::Float(bits)),
            Err(e) => Err(e),
        }
    }
}

/// Whether `=` holds of two values: they are of one kind, among nil,
/// integers, floats and strings, and hold the same. An integer never equals
/// a float, and a procedure equals nothing.
pub open spec fn values_equal(x: ValueView, y: ValueView) -> bool {
    match x {
        ValueView::Nil => y is Nil,
        ValueView::Int(a) => y matches ValueView::Int(b) && a == b,
        ValueView::Float(a) => y matches ValueView::Float(b) && float_equal(a, b),
        ValueView::Str(a) => y matches ValueView::Str(b) && a == b,
        _ => false,
    }
}

/// The result of `=`: what the environment of the call binds `true` or
/// `false` to. It takes exactly two operands.
pub open spec fn equal_result(env: Bindings, args: Seq<ValueView>) -> Result<ValueView, EvalErrorView> {
    if args.len() != 2 {
        Err(EvalErrorView::MalformedCall)
    } else if values_equal(args[1], args[0]) {
        Ok(lookup_in(env, "true"@))
    } else {
        Ok(lookup_in(env, "false"@))
    }
}

/// The result of a native procedure on the values of its operands.
pub open spec fn apply_builtin(facts: FloatFacts, env: Bindings, b: Builtin, args: Seq<ValueView>) -> Result<
    ValueView,
    EvalErrorView,
> {
    match b {
        Builtin::Arith(op) => arith_result(facts, op, args),
        Builtin::Equal => equal_result(env, args),
        Builtin::Exit => Err(EvalErrorView::Exit),
    }
}

/// The closure that a function literal evaluates to.
pub open spec fn closure_of(
    env: Bindings,
    params: Seq<Seq<char>>,
    body: ExprView,
    own_name: Option<Seq<char>>,
) -> ValueView {
    ValueView::Lambda(ClosureView { env, arg_names: params, body, own_name })
}

/// The result of evaluating `expr` in `env`.
///
/// `depth` is the number of closure calls that may be nested inside one
/// another; a call beyond it is an error.
pub open spec fn eval_spec(facts: FloatFacts, env: Bindings, expr: ExprView, depth: nat) -> Outcome
    decreases depth, expr, 0nat,
{
    match expr {
        ExprView::IntegerLiteral(v) => Ok((env, ValueView::Int(v))),
        ExprView::FloatLiteral(lexeme) => match float_fact(facts, FloatQueryView::Parse(lexeme)) {
            Ok(bits) => Ok((env, ValueView::Float(bits))),
            Err(e) => Err(e),
        },
        ExprView::StringLiteral(text) => Ok((env, ValueView::Str(text))),
        ExprView::LookupExpr(name) => Ok((env, lookup_in(env, name))),
        ExprView::LambdaExpr(params, body) => Ok((env, closure_of(env, params, *body, None))),
        ExprView::LetExpr(name, rhs) => match *rhs {
            ExprView::LambdaExpr(params, body) => Ok(
                (env.insert(name, closure_of(env, params, *body, Some(name))), ValueView::Nil),
            ),
            _ => match eval_spec(facts, env, *rhs, depth) {
                Ok((env1, v)) => Ok((env1.insert(name, v), ValueView::Nil)),
                Err(e) => Err(e),
            },
        },
        ExprView::ListExpr(items) => Ok(
            (
                env,
                if items.len() == 0 {
                    ValueView::Nil
                } else {
                    lookup_in(env, "cons"@)
                },
            ),
        ),
        ExprView::SExpr(rator, rands) => if !is_operator_form(*rator) {
            Err(EvalErrorView::NotCallable)
        } else {
            match eval_spec(facts, env, *rator, depth) {
                Err(e) => Err(e),
                Ok((env1, f)) => match f {
                    ValueView::Lambda(c) => match eval_operands(facts, env1, rands, 0, depth) {
                        Err(e) => Err(e),
                        Ok(args) => if depth == 0 {
                            Err(EvalErrorView::DepthExceeded)
                        } else {
                            match eval_spec(
                                facts,
                                child_scope(c, args),
                                c.body,
                                (depth - 1) as nat,
                            ) {
                                Ok((_, v)) => Ok((env, v)),
                                Err(e) => Err(e),
                            }
                        },
                    },
                    ValueView::RuntimeFunction(RuntimeFunctionWrapper::Symbolic(branch)) => eval_branch(
                        facts,
                        env,
                        rands,
                        branch_index(branch),
                        depth,
                    ),
                    ValueView::RuntimeFunction(RuntimeFunctionWrapper::Immediate(b)) => match eval_operands(
                        facts,
                        env1,
                        rands,
                        0,
                        depth,
                    ) {
                        Err(e) => Err(e),
                        Ok(args) => match apply_builtin(facts, env, b, args) {
                            Ok(v) => Ok((env, v)),
                            Err(e) => Err(e),
                        },
                    },
                    _ => Err(EvalErrorView::NotCallable),
                },
            }
        },
    }
}

/// The result of calling a closure on the values of its operands: the
/// value of its body in its child scope, one level deeper.
pub open spec fn call_closure(facts: FloatFacts, c: ClosureView, args: Seq<ValueView>, depth: nat) -> Result<
    ValueView,
    EvalErrorView,
> {
    if depth == 0 {
        Err(EvalErrorView::DepthExceeded)
    } else {
        match eval_spec(facts, child_scope(c, args), c.body, (depth - 1) as nat) {
            Ok((_, v)) => Ok(v),
            Err(e) => Err(e),
        }
    }
}

/// The values of the operands from the `i`-th on, evaluated from left to
/// right, each in the environment that the one before it returned.
pub open spec fn eval_operands(
    facts: FloatFacts,
    env: Bindings,
    rands: Seq<ExprView>,
    i: int,
    depth: nat,
) -> Result<Seq<ValueView>, EvalErrorView>
    decreases depth, rands, rands.len() - i,
{
    if i < 0 || i >= rands.len() {
        Ok(Seq::empty())
    } else {
        match eval_spec(facts, env, rands[i], depth) {
            Err(e) => Err(e),
            Ok((env1, v)) => match eval_operands(facts, env1, rands, i + 1, depth) {
                Err(e) => Err(e),
                Ok(rest) => Ok(seq![v] + rest),
            },
        }
    }
}

/// The result of the `k`-th operand, the others left unevaluated; an error
/// where there are not that many.
pub open spec fn eval_branch(
    facts: FloatFacts,
    env: Bindings,
    rands: Seq<ExprView>,
    k: int,
    depth: nat,
) -> Outcome
    decreases depth, rands, 0nat,
{
    if 0 <= k < rands.len() {
        eval_spec(facts, env, rands[k], depth)
    } else {
        Err(EvalErrorView::MalformedCall)
    }
}

} // verus!
