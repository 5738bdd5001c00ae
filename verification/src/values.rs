//! Runtime values and environments.

use crate::env::{env_bindings, share, Env};
use crate::expressions::{clone_names, names_view, ExprView, Expression};
use crate::floats::ArithOp;
use std::rc::Rc;
use vstd::prelude::*;

verus! {

/// The native procedures that receive the values of their operands.
#[derive(Copy, Clone, Debug, PartialEq, Eq, Structural)]
pub enum Builtin {
    /// `+`, `-`, `*` and `/`.
    Arith(ArithOp),
    /// `=`.
    Equal,
    /// `exit`.
    Exit,
}

/// The native procedures that receive their operands unevaluated, with the
/// environment of the call: each evaluates one of two branches.
#[derive(Copy, Clone, Debug, PartialEq, Eq, Structural)]
pub enum Branch {
    True,
    False,
}

/// A native procedure, by its calling convention.
#[derive(Copy, Clone, Debug, PartialEq, Eq, Structural)]
pub enum RuntimeFunctionWrapper {
    /// Receives the values of the operands.
    Immediate(Builtin),
    /// Receives the operands as they were written.
    Symbolic(Branch),
}

/// A function with the environment in which it was made.
#[derive(Debug)]
pub struct LambdaFunction {
    pub env: Rc<Env>,
    pub arg_names: Vec<String>,
    pub body: Rc<Expression>,
    /// The name under which the body can call the function itself.
    pub own_name: Option<String>,
}

/// The result of an evaluation.
#[derive(Debug)]
pub enum Value {
    Nil,
    Lambda(Rc<LambdaFunction>),
    RuntimeFunction(RuntimeFunctionWrapper),
    Int(i32),
    /// A single-precision number, by its bits.
    Float(u32),
    Str(String),
}

/// The mathematical value of a [`LambdaFunction`].
pub struct ClosureView {
    pub env: Map<Seq<char>, ValueView>,
    pub arg_names: Seq<Seq<char>>,
    pub body: ExprView,
    pub own_name: Option<Seq<char>>,
}

/// The mathematical value of a [`Value`].
pub enum ValueView {
    Nil,
    Lambda(ClosureView),
    RuntimeFunction(RuntimeFunctionWrapper),
    Int(i32),
    Float(u32),
    Str(Seq<char>),
}

impl View for LambdaFunction {
    type V = ClosureView;

    open spec fn view(&self) -> ClosureView {
        ClosureView {
            env: env_bindings(*self.env),
            arg_names: names_view(self.arg_names@),
            body: self.body@,
            own_name: match self.own_name {
                Some(name) => Some(name@),
                None => None,
            },
        }
    }
}

impl View for Value {
    type V = ValueView;

    open spec fn view(&self) -> ValueView {
        match *self {
            Value::Nil => ValueView::Nil,
            Value::Lambda(f) => ValueView::Lambda(f@),
            Value::RuntimeFunction(f) => ValueView::RuntimeFunction(f),
            Value::Int(v) => ValueView::Int(v),
            Value::Float(bits) => ValueView::Float(bits),
            Value::Str(text) => ValueView::Str(text@),
        }
    }
}

impl Clone for LambdaFunction {
    /// A copy of the closure: it shares the captured environment and the
    /// body.
    fn clone(&self) -> (r: LambdaFunction)
        ensures
            r@ == self@,
    {
        LambdaFunction {
            env: share(&self.env),
            arg_names: clone_names(&self.arg_names),
            body: share(&self.body),
            own_name: match &self.own_name {
                Some(name) => Some(name.clone()),
                None => None,
            },
        }
    }
}

impl Clone for Value {
    /// A copy of the value: a closure is shared, not copied.
    fn clone(&self) -> (r: Value)
        ensures
            r@ == self@,
    {
        match self {
            Value::Nil => Value::Nil,
            Value::Lambda(f) => Value::Lambda(share(f)),
            Value::RuntimeFunction(f) => Value::RuntimeFunction(*f),
            Value::Int(v) => Value::Int(*v),
            Value::Float(bits) => Value::Float(*bits),
            Value::Str(text) => Value::Str(text.clone()),
        }
    }
}

} // verus!
