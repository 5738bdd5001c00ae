use either::Either;
use minilisp::env::Env;
use minilisp::floats::{float_eq, ArithOp, FloatQuery, FloatTable};
use minilisp::parser::SyntaxError;
use minilisp::expressions::clone_names;
use minilisp::semantics::EvalError;
use minilisp::stdlib::{
    add_i, build_standard_library, div_i, fn_eq, fold_floats, int_step, load_source, mul_i,
    native_environment, same_value, sub_i, try_fold_ints, wrapped_add, LoadError,
};
use minilisp::values::Value;
use std::rc::Rc;

fn ints(values: &[i32]) -> Vec<Rc<Value>> {
    values.iter().map(|v| Rc::new(Value::Int(*v))).collect()
}

#[test]
fn integer_steps() {
    assert_eq!(add_i(2, 3), 5);
    assert_eq!(add_i(i32::MAX, 1), i32::MIN);
    assert_eq!(sub_i(2, 3), -1);
    assert_eq!(sub_i(i32::MIN, 1), i32::MAX);
    assert_eq!(mul_i(-4, 3), -12);
    assert_eq!(mul_i(i32::MIN, -1), i32::MIN);
    assert!(matches!(div_i(7, 2), Ok(3)));
    assert!(matches!(div_i(-7, 2), Ok(-3)));
    assert!(matches!(div_i(7, -2), Ok(-3)));
    assert!(matches!(div_i(-7, -2), Ok(3)));
    assert!(matches!(div_i(0, 5), Ok(0)));
    assert!(matches!(div_i(i32::MIN, -1), Ok(i32::MIN)));
    assert!(matches!(div_i(1, 0), Err(EvalError::DivisionByZero)));
    assert!(matches!(int_step(ArithOp::Sub, 10, 4), Ok(6)));
    assert!(matches!(int_step(ArithOp::Div, 10, 0), Err(EvalError::DivisionByZero)));
}

#[test]
fn fold_of_integers_applies_each_operand_to_the_fold_before_it() {
    let floats = FloatTable::new();
    assert!(matches!(
        try_fold_ints(&ints(&[5, 3]), ArithOp::Sub, &floats),
        Ok(Either::Left(2))
    ));
    assert!(matches!(
        try_fold_ints(&ints(&[]), ArithOp::Mul, &floats),
        Ok(Either::Left(1))
    ));
    assert!(matches!(
        try_fold_ints(&ints(&[1, 2, 3]), ArithOp::Add, &floats),
        Ok(Either::Left(6))
    ));
}

#[test]
fn fold_with_a_float_is_a_fold_of_floats() {
    let mut floats = FloatTable::new();
    let one = 1.0f32.to_bits();
    let half = 0.5f32.to_bits();
    floats.insert(FloatQuery::FromInt(1), one);
    floats.insert(FloatQuery::Arith(ArithOp::Mul, half, one), half);
    floats.insert(FloatQuery::Arith(ArithOp::Mul, one, half), half);
    let args = vec![Rc::new(Value::Int(1)), Rc::new(Value::Float(half))];
    match try_fold_ints(&args, ArithOp::Mul, &floats) {
        Ok(Either::Right(bits)) => assert_eq!(bits, half),
        other => panic!("{:?}", other),
    }
    match fold_floats(&args, ArithOp::Mul, &floats) {
        Ok(bits) => assert_eq!(bits, half),
        other => panic!("{:?}", other),
    }
    let empty = FloatTable::new();
    assert!(matches!(
        fold_floats(&args, ArithOp::Mul, &empty),
        Err(EvalError::FloatNeeded(FloatQuery::Arith(ArithOp::Mul, _, _)))
    ));
}

#[test]
fn fold_rejects_what_is_no_number_before_it_computes() {
    let floats = FloatTable::new();
    let args = vec![
        Rc::new(Value::Nil),
        Rc::new(Value::Int(5)),
        Rc::new(Value::Int(0)),
    ];
    assert!(matches!(
        try_fold_ints(&args, ArithOp::Div, &floats),
        Err(EvalError::TypeMismatch)
    ));
}

#[test]
fn native_call_returns_the_environment_of_the_call() {
    let env = native_environment();
    let floats = FloatTable::new();
    match wrapped_add(&env, ints(&[1, 2]), &floats) {
        Ok((after, v)) => {
            assert!(Rc::ptr_eq(&after, &env));
            assert!(matches!(&*v, Value::Int(3)));
        }
        Err(e) => panic!("{:?}", e),
    }
    match fn_eq(&env, ints(&[1, 2])) {
        Ok((after, _)) => assert!(Rc::ptr_eq(&after, &env)),
        Err(e) => panic!("{:?}", e),
    }
}

#[test]
fn same_value_is_the_equality_of_the_language() {
    assert!(same_value(&Value::Nil, &Value::Nil));
    assert!(same_value(&Value::Int(1), &Value::Int(1)));
    assert!(!same_value(&Value::Int(1), &Value::Float(1.0f32.to_bits())));
    assert!(same_value(
        &Value::Float(0.0f32.to_bits()),
        &Value::Float((-0.0f32).to_bits())
    ));
    assert!(!same_value(
        &Value::Float(f32::NAN.to_bits()),
        &Value::Float(f32::NAN.to_bits())
    ));
    assert!(same_value(
        &Value::Str(String::from("a")),
        &Value::Str(String::from("a"))
    ));
    assert!(!same_value(&Value::Str(String::from("a")), &Value::Nil));
}

#[test]
fn float_eq_agrees_with_the_hardware() {
    let samples = [
        0.0f32,
        -0.0,
        1.0,
        -1.0,
        1.5,
        f32::MIN_POSITIVE,
        f32::MAX,
        f32::MIN,
        f32::INFINITY,
        f32::NEG_INFINITY,
        f32::NAN,
        -f32::NAN,
        f32::EPSILON,
        1.0e-45,
    ];
    for a in samples {
        for b in samples {
            assert_eq!(float_eq(a.to_bits(), b.to_bits()), a == b, "{} {}", a, b);
        }
    }
    assert!(!float_eq(0x7f80_0001, 0x7f80_0001));
    assert!(!float_eq(0xffff_ffff, 0xffff_ffff));
    assert!(float_eq(0x7f80_0000, 0x7f80_0000));
}

#[test]
fn float_table_keeps_the_latest_entry() {
    let mut floats = FloatTable::new();
    let query = FloatQuery::Arith(ArithOp::Add, 1, 2);
    assert_eq!(floats.get(&query), None);
    floats.insert(query.clone(), 3);
    floats.insert(FloatQuery::Arith(ArithOp::Sub, 1, 2), 9);
    floats.insert(FloatQuery::Parse(String::from("1.5")), 7);
    assert_eq!(floats.get(&query), Some(3));
    floats.insert(query.clone(), 4);
    assert_eq!(floats.get(&query), Some(4));
    assert_eq!(floats.get(&FloatQuery::Arith(ArithOp::Sub, 1, 2)), Some(9));
    assert_eq!(floats.get(&FloatQuery::Arith(ArithOp::Add, 2, 1)), None);
    assert_eq!(floats.get(&FloatQuery::Parse(String::from("1.5"))), Some(7));
    assert_eq!(floats.get(&FloatQuery::Parse(String::from("1.50"))), None);
    assert_eq!(floats.get(&FloatQuery::FromInt(1)), None);
}

#[test]
fn load_source_threads_the_environment() {
    let floats = FloatTable::new();
    let env = load_source(
        native_environment(),
        &String::from("(let a 1)\n(let (inc n) (+ n 1))\n(let b (inc a))\n"),
        &floats,
        100,
    )
    .unwrap();
    assert!(matches!(&*env.lookup(&String::from("a")), Value::Int(1)));
    assert!(matches!(&*env.lookup(&String::from("b")), Value::Int(2)));
    assert!(matches!(&*env.lookup(&String::from("inc")), Value::Lambda(_)));
}

#[test]
fn load_source_of_nothing_is_the_starting_environment() {
    let floats = FloatTable::new();
    let start = native_environment();
    let env = load_source(start.clone(), &String::from("  \n "), &floats, 100).unwrap();
    assert!(Rc::ptr_eq(&env, &start));
    let env = load_source(start.clone(), &String::new(), &floats, 100).unwrap();
    assert!(Rc::ptr_eq(&env, &start));
}

#[test]
fn load_source_stops_at_the_first_error() {
    let floats = FloatTable::new();
    assert!(matches!(
        load_source(native_environment(), &String::from("(let a 1) (let b"), &floats, 100),
        Err(LoadError::Syntax(SyntaxError::EOF))
    ));
    assert!(matches!(
        load_source(native_environment(), &String::from("(let a 1) ) (let b 2)"), &floats, 100),
        Err(LoadError::Syntax(SyntaxError::UnexpectedToken(_)))
    ));
    assert!(matches!(
        load_source(native_environment(), &String::from("(let a (1 2)) (let b 2)"), &floats, 100),
        Err(LoadError::Eval(EvalError::NotCallable))
    ));
    assert!(matches!(
        load_source(native_environment(), &String::from("(let a 1.5)"), &floats, 100),
        Err(LoadError::Eval(EvalError::FloatNeeded(FloatQuery::Parse(_))))
    ));
}

#[test]
fn standard_library_is_the_natives_and_the_prelude() {
    let floats = FloatTable::new();
    let prelude = String::from("(let (not b) (b false true))\n(let (if c a b) (c a b))\n");
    let env = build_standard_library(&prelude, &floats, 100).unwrap();
    assert!(matches!(&*env.lookup(&String::from("not")), Value::Lambda(_)));
    assert!(matches!(&*env.lookup(&String::from("if")), Value::Lambda(_)));
    assert!(matches!(&*env.lookup(&String::from("+")), Value::RuntimeFunction(_)));
    let env = build_standard_library(&String::new(), &floats, 100).unwrap();
    assert!(matches!(&*env.lookup(&String::from("not")), Value::Nil));
    assert!(matches!(&*env.lookup(&String::from("=")), Value::RuntimeFunction(_)));
}

#[test]
fn clone_names_copies_every_name() {
    let names = vec![String::from("a"), String::from("bc")];
    assert_eq!(clone_names(&names), names);
    assert_eq!(clone_names(&Vec::new()), Vec::<String>::new());
}

#[test]
fn subenv_overlays_pairs_as_far_as_both_lists_reach() {
    let parent = Rc::new(Env::new());
    let names = vec![String::from("a"), String::from("b"), String::from("a")];
    let values = vec![
        Rc::new(Value::Int(1)),
        Rc::new(Value::Int(2)),
        Rc::new(Value::Int(3)),
        Rc::new(Value::Int(4)),
    ];
    let child = parent.subenv(&names, &values);
    assert!(matches!(&*child.lookup(&String::from("a")), Value::Int(3)));
    assert!(matches!(&*child.lookup(&String::from("b")), Value::Int(2)));
    assert!(matches!(&*parent.lookup(&String::from("a")), Value::Nil));
    let short = vec![Rc::new(Value::Int(9))];
    let child = parent.subenv(&names, &short);
    assert!(matches!(&*child.lookup(&String::from("a")), Value::Int(9)));
    assert!(matches!(&*child.lookup(&String::from("b")), Value::Nil));
}

#[test]
fn clone_of_an_environment_holds_the_same_bindings() {
    let env = native_environment();
    let copy: Env = (*env).clone();
    assert!(matches!(&*copy.lookup(&String::from("+")), Value::RuntimeFunction(_)));
    assert!(matches!(&*copy.lookup(&String::from("nosuch")), Value::Nil));
    let names = vec![String::from("a")];
    let values = vec![Rc::new(Value::Int(1))];
    let child = copy.subenv(&names, &values);
    assert!(matches!(&*child.lookup(&String::from("a")), Value::Int(1)));
    assert!(matches!(&*copy.lookup(&String::from("a")), Value::Nil));
}

#[test]
fn clone_of_a_value_is_the_same_value() {
    assert!(matches!(Value::Int(3).clone(), Value::Int(3)));
    assert!(matches!(Value::Nil.clone(), Value::Nil));
    assert!(matches!(Value::Float(7).clone(), Value::Float(7)));
    match Value::Str(String::from("a")).clone() {
        Value::Str(text) => assert_eq!(text, "a"),
        other => panic!("{:?}", other),
    }
    let floats = FloatTable::new();
    let env = load_source(
        native_environment(),
        &String::from("(let (f a b) a)"),
        &floats,
        10,
    )
    .unwrap();
    let f = env.lookup(&String::from("f"));
    match (&*f, (*f).clone()) {
        (Value::Lambda(a), Value::Lambda(b)) => {
            assert!(Rc::ptr_eq(a, &b));
            let copy = (**a).clone();
            assert_eq!(copy.arg_names, a.arg_names);
            assert_eq!(copy.own_name, a.own_name);
            assert!(Rc::ptr_eq(&copy.body, &a.body));
            assert!(Rc::ptr_eq(&copy.env, &a.env));
        }
        other => panic!("{:?}", other),
    }
}
