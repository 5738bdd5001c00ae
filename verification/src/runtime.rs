//! The evaluator: a walk over the syntax tree that threads the environment
//! from each form to the next.

use crate::env::{lookup_in, share, Bindings, Env};
use crate::expressions::{clone_names, expr_view, forms_view, names_view, Expression};
use crate::floats::{ArithOp, FloatQuery, FloatTable};
use crate::semantics::{
    bind_params, bound_count, call_closure, child_scope, closure_of, eval_operands, eval_spec,
    is_operator_form, EvalError, EvalErrorView, Outcome,
};
use crate::stdlib::{
    float_result, fn_eq, fn_false, fn_true, wrapped_add, wrapped_div, wrapped_exit, wrapped_mul,
    wrapped_sub,
};
use crate::values::{Branch, Builtin, LambdaFunction, RuntimeFunctionWrapper, Value, ValueView};
use std::rc::Rc;
use vstd::prelude::*;

verus! {

/// What an evaluation returns: the environment for the forms that follow
/// and the value, or the reason why there is none.
pub type EvalResult = Result<(Rc<Env>, Rc<Value>), EvalError>;

/// The mathematical value of an [`EvalResult`].
pub open spec fn outcome_of(r: EvalResult) -> Outcome {
    match r {
        Ok((env, v)) => Ok((env@, v@)),
        Err(e) => Err(e@),
    }
}

/// The mathematical value of a value or an error.
pub open spec fn value_of(r: Result<Rc<Value>, EvalError>) -> Result<ValueView, EvalErrorView> {
    match r {
        Ok(v) => Ok(v@),
        Err(e) => Err(e@),
    }
}

/// The mathematical value of a list of values or an error.
pub open spec fn values_of(r: Result<Vec<Rc<Value>>, EvalError>) -> Result<
    Seq<ValueView>,
    EvalErrorView,
> {
    match r {
        Ok(values) => Ok(values_view(values@)),
        Err(e) => Err(e@),
    }
}

/// The mathematical values of a list of values.
pub open spec fn values_view(values: Seq<Rc<Value>>) -> Seq<ValueView> {
    Seq::new(values.len(), |i: int| values[i]@)
}

impl LambdaFunction {
    /// A closure without a name of its own.
    pub fn new_anonymous(env: Rc<Env>, arg_names: Vec<String>, body: Rc<Expression>) -> (f: Self)
        ensures
            ValueView::Lambda(f@) == closure_of(env@, names_view(arg_names@), body@, None),
    {
        LambdaFunction { env, arg_names, body, own_name: None }
    }

    /// A closure whose body can call it by `name`.
    pub fn new_named(
        env: Rc<Env>,
        name: String,
        arg_names: Vec<String>,
        body: Rc<Expression>,
    ) -> (f: Self)
        ensures
            ValueView::Lambda(f@) == closure_of(
                env@,
                names_view(arg_names@),
                body@,
                Some(name@),
            ),
    {
        LambdaFunction { env, arg_names, body, own_name: Some(name) }
    }

    /// The environment in which the body runs for the given arguments.
    pub fn scope(self: &Rc<Self>, arguments: &Vec<Rc<Value>>) -> (e: Rc<Env>)
        ensures
            e@ == child_scope(self@, values_view(arguments@)),
    {
        let scope = self.env.subenv(&self.arg_names, arguments);
        match &self.own_name {
            Some(name) => Rc::new(
                scope.add_name(name.clone(), Rc::new(Value::Lambda(share(self)))),
            ),
            None => Rc::new(scope),
        }
    }

    /// Calls the closure: binds its parameters to the arguments and
    /// evaluates its body, one level deeper than the call.
    pub fn eval(
        self: &Rc<Self>,
        arguments: Vec<Rc<Value>>,
        floats: &FloatTable,
        depth: usize,
    ) -> (r: Result<Rc<Value>, EvalError>)
        ensures
            value_of(r) == call_closure(floats@, self@, values_view(arguments@), depth as nat),
        decreases 2 * depth, self.body, 0nat,
    {
        if depth == 0 {
            return Err(EvalError::DepthExceeded);
        }
        let subenv = self.scope(&arguments);
        match subenv.eval(&self.body, floats, depth - 1) {
            Ok((_, v)) => Ok(v),
            Err(e) => Err(e),
        }
    }
}

impl Env {
    /// Evaluates a form.
    ///
    /// Returns the value of the form and the environment in which the forms
    /// after it are to be evaluated, as [`eval_spec`] defines them. `depth`
    /// is the number of closure calls that may be nested inside one another.
    pub fn eval(self: &Rc<Self>, expr: &Expression, floats: &FloatTable, depth: usize) -> (r: EvalResult)
        ensures
            outcome_of(r) == eval_spec(floats@, self@, expr@, depth as nat),
        decreases 2 * depth + 1, expr, 1nat,
    {
        let env = self;
        match expr {
            Expression::ListExpr(contents) => {
                assert(forms_view(contents@).len() == contents@.len());
                Env::eval_list(env, contents)
            },
            Expression::SExpr(_, _) => Env::eval_sexpr(env, expr, floats, depth),
            Expression::LetExpr(_, _) => Env::eval_let(env, expr, floats, depth),
            Expression::LambdaExpr(arg_list, body) => Env::eval_lambda(env, arg_list, body),
            Expression::LookupExpr(name) => {
                let val = env.lookup(name);
                Ok((share(env), val))
            },
            Expression::IntegerLiteral(v) => Ok((share(env), Rc::new(Value::Int(*v)))),
            Expression::FloatLiteral(lexeme) => match float_result(
                floats,
                FloatQuery::Parse(lexeme.clone()),
            ) {
                Ok(bits) => Ok((share(env), Rc::new(Value::Float(bits)))),
                Err(e) => Err(e),
            },
            Expression::StringLiteral(v) => Ok((share(env), Rc::new(Value::Str(v.clone())))),
        }
    }

    /// A child scope: this environment overlaid with the names bound to the
    /// values, pair by pair and in order, as far as both lists reach.
    pub fn subenv(&self, names: &Vec<String>, values: &Vec<Rc<Value>>) -> (e: Env)
        ensures
            e@ == bind_params(
                self@,
                names_view(names@),
                values_view(values@),
                bound_count(names_view(names@), values_view(values@)),
            ),
    {
        let count: usize = if names.len() <= values.len() {
            names.len()
        } else {
            values.len()
        };
        let mut scope: Env = self.clone();
        let mut i: usize = 0;
        while i < count
            invariant
                i <= count,
                count <= names.len(),
                count <= values.len(),
                scope@ == bind_params(
                    self@,
                    names_view(names@),
                    values_view(values@),
                    i as nat,
                ),
            decreases count - i,
        {
            scope = scope.add_name(names[i].clone(), share(&values[i]));
            i = i + 1;
        }
        scope
    }

    /// Evaluates a quoted list: `Nil` for the empty list, and for every
    /// other what the name `cons` stands for.
    fn eval_list(env: &Rc<Env>, contents: &Vec<Box<Expression>>) -> (r: EvalResult)
        ensures
            outcome_of(r) == Ok::<(Bindings, ValueView), EvalErrorView>(
                (
                    env@,
                    if contents.len() == 0 {
                        ValueView::Nil
                    } else {
                        lookup_in(env@, "cons"@)
                    },
                ),
            ),
    {
        if contents.len() == 0 {
            return Ok((share(env), Rc::new(Value::Nil)));
        }
        let cons = env.lookup(&String::from_str("cons"));
        Ok((share(env), cons))
    }

    /// Evaluates the operands of a call from left to right, each in the
    /// environment that the one before it returned.
    fn eval_operands(
        env: &Rc<Env>,
        rands: &Vec<Box<Expression>>,
        floats: &FloatTable,
        depth: usize,
    ) -> (r: Result<Vec<Rc<Value>>, EvalError>)
        ensures
            values_of(r) == eval_operands(floats@, env@, forms_view(rands@), 0, depth as nat),
        decreases 2 * depth + 1, rands, 0nat,
    {
        let ghost forms = forms_view(rands@);
        let mut current: Rc<Env> = share(env);
        let mut values: Vec<Rc<Value>> = Vec::new();
        let mut i: usize = 0;
        assert(values_view(values@) =~= Seq::empty());
        while i < rands.len()
            invariant
                i <= rands.len(),
                forms == forms_view(rands@),
                eval_operands(floats@, env@, forms, 0, depth as nat) == match eval_operands(
                    floats@,
                    current@,
                    forms,
                    i as int,
                    depth as nat,
                ) {
                    Ok(rest) => Ok::<Seq<ValueView>, EvalErrorView>(values_view(values@) + rest),
                    Err(e) => Err(e),
                },
            decreases rands.len() - i,
        {
            let ghost before = values_view(values@);
            match current.eval(&rands[i], floats, depth) {
                Ok((next, v)) => {
                    current = next;
                    values.push(v);
                    proof {
                        assert(values_view(values@) =~= before + seq![v@]);
                        let tail = eval_operands(floats@, current@, forms, i + 1, depth as nat);
                        if let Ok(rest) = tail {
                            assert(before + (seq![v@] + rest) =~= values_view(values@) + rest);
                        }
                    }
                    i = i + 1;
                },
                Err(e) => {
                    return Err(e);
                },
            }
        }
        assert(values_view(values@) + Seq::<ValueView>::empty() =~= values_view(values@));
        Ok(values)
    }

    /// Evaluates a call: the operator first, then what its value asks for.
    fn eval_sexpr(env: &Rc<Env>, expr: &Expression, floats: &FloatTable, depth: usize) -> (r: EvalResult)
        requires
            expr is SExpr,
        ensures
            outcome_of(r) == eval_spec(floats@, env@, expr@, depth as nat),
        decreases 2 * depth + 1, expr, 0nat,
    {
        match expr {
            Expression::SExpr(rator, rands) => {
                let callable: bool = match &**rator {
                    Expression::SExpr(_, _) => true,
                    Expression::LookupExpr(_) => true,
                    Expression::LambdaExpr(_, _) => true,
                    Expression::LetExpr(_, _) => true,
                    _ => false,
                };
                assert(callable == is_operator_form(expr_view(**rator)));
                if !callable {
                    return Err(EvalError::NotCallable);
                }
                let (after, func) = match env.eval(rator, floats, depth) {
                    Ok(pair) => pair,
                    Err(e) => {
                        return Err(e);
                    },
                };
                match &*func {
                    Value::Lambda(lambda) => {
                        let arguments = match Env::eval_operands(&after, rands, floats, depth) {
                            Ok(values) => values,
                            Err(e) => {
                                return Err(e);
                            },
                        };
                        match lambda.eval(arguments, floats, depth) {
                            Ok(v) => Ok((share(env), v)),
                            Err(e) => Err(e),
                        }
                    },
                    Value::RuntimeFunction(RuntimeFunctionWrapper::Symbolic(branch)) => match branch {
                        Branch::True => fn_true(env, rands, floats, depth),
                        Branch::False => fn_false(env, rands, floats, depth),
                    },
                    Value::RuntimeFunction(RuntimeFunctionWrapper::Immediate(builtin)) => {
                        let arguments = match Env::eval_operands(&after, rands, floats, depth) {
                            Ok(values) => values,
                            Err(e) => {
                                return Err(e);
                            },
                        };
                        match builtin {
                            Builtin::Arith(ArithOp::Add) => wrapped_add(env, arguments, floats),
                            Builtin::Arith(ArithOp::Sub) => wrapped_sub(env, arguments, floats),
                            Builtin::Arith(ArithOp::Mul) => wrapped_mul(env, arguments, floats),
                            Builtin::Arith(ArithOp::Div) => wrapped_div(env, arguments, floats),
                            Builtin::Equal => fn_eq(env, arguments),
                            Builtin::Exit => wrapped_exit(env, arguments),
                        }
                    },
                    _ => Err(EvalError::NotCallable),
                }
            },
            _ => Err(EvalError::NotCallable),
        }
    }

    /// Evaluates a binding: the value of the right-hand side, or a closure
    /// that knows its own name where that is a function literal, is bound
    /// to the name in a new environment. The value of the form is `Nil`.
    fn eval_let(env: &Rc<Env>, expr: &Expression, floats: &FloatTable, depth: usize) -> (r: EvalResult)
        requires
            expr is LetExpr,
        ensures
            outcome_of(r) == eval_spec(floats@, env@, expr@, depth as nat),
        decreases 2 * depth + 1, expr, 0nat,
    {
        match expr {
            Expression::LetExpr(name, rhs) => match &**rhs {
                Expression::LambdaExpr(arg_list, body) => {
                    let lambda = LambdaFunction::new_named(
                        share(env),
                        name.clone(),
                        clone_names(arg_list),
                        share(body),
                    );
                    let value = Rc::new(Value::Lambda(Rc::new(lambda)));
                    Ok((Rc::new(env.add_name(name.clone(), value)), Rc::new(Value::Nil)))
                },
                _ => match env.eval(rhs, floats, depth) {
                    Ok((after, value)) => Ok(
                        (Rc::new(after.add_name(name.clone(), value)), Rc::new(Value::Nil)),
                    ),
                    Err(e) => Err(e),
                },
            },
            _ => Err(EvalError::NotCallable),
        }
    }

    /// Evaluates a function literal to a closure over this environment.
    fn eval_lambda(env: &Rc<Env>, arg_list: &Vec<String>, body: &Rc<Expression>) -> (r: EvalResult)
        ensures
            outcome_of(r) == Ok::<(Bindings, ValueView), EvalErrorView>(
                (env@, closure_of(env@, names_view(arg_list@), body@, None)),
            ),
    {
        let lambda = Rc::new(
            Value::Lambda(
                Rc::new(
                    LambdaFunction::new_anonymous(share(env), clone_names(arg_list), share(body)),
                ),
            ),
        );
        Ok((share(env), lambda))
    }
}

} // verus!
