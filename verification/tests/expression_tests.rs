use pathos::expression::{EvalContext, Expression};
use pathos::passage::{PassageGraph, PassageNode};
use pathos::state::StoryState;
use pathos::value::{FloatArith, Scope, Value};

struct F64;

impl FloatArith for F64 {
    fn float_from_int(&self, i: i64) -> u64 {
        (i as f64).to_bits()
    }
    fn float_add(&self, a: u64, b: u64) -> u64 {
        (f64::from_bits(a) + f64::from_bits(b)).to_bits()
    }
    fn float_sub(&self, a: u64, b: u64) -> u64 {
        (f64::from_bits(a) - f64::from_bits(b)).to_bits()
    }
    fn float_mul(&self, a: u64, b: u64) -> u64 {
        (f64::from_bits(a) * f64::from_bits(b)).to_bits()
    }
    fn float_div(&self, a: u64, b: u64) -> u64 {
        (f64::from_bits(a) / f64::from_bits(b)).to_bits()
    }
    fn float_parse(&self, s: &str) -> u64 {
        s.parse::<f64>().unwrap_or(f64::NAN).to_bits()
    }
    fn float_format(&self, a: u64) -> String {
        f64::from_bits(a).to_string()
    }
    fn float_debug(&self, a: u64) -> String {
        format!("{:?}", f64::from_bits(a))
    }
}


fn state() -> StoryState {
    let mut s = StoryState::default();
    s.set("hp", Value::Int(10), Scope::Global).unwrap();
    s.set("name", Value::String("hero".into()), Scope::Global).unwrap();
    s
}

fn lit(v: Value) -> Box<Expression> {
    Box::new(Expression::Literal(v))
}

fn eval(e: &Expression, s: &StoryState) -> Result<Value, pathos::error::CoreError> {
    e.eval(&EvalContext::new(s), &F64)
}

#[test]
fn literal_int() {
    let e = Expression::Literal(Value::Int(42));
    assert_eq!(eval(&e, &state()).unwrap(), Value::Int(42));
}

#[test]
fn literal_bool() {
    let e = Expression::Literal(Value::Bool(true));
    assert_eq!(eval(&e, &state()).unwrap(), Value::Bool(true));
}

#[test]
fn state_var() {
    let e = Expression::StateVar("hp".into());
    assert_eq!(eval(&e, &state()).unwrap(), Value::Int(10));
}

#[test]
fn state_var_not_found() {
    let e = Expression::StateVar("nonexistent".into());
    assert!(eval(&e, &state()).is_err());
}

#[test]
fn not_true() {
    let e = Expression::Not(lit(Value::Bool(true)));
    assert_eq!(eval(&e, &state()).unwrap(), Value::Bool(false));
}

#[test]
fn and_short_circuit() {
    let e = Expression::And(lit(Value::Bool(false)), Box::new(Expression::StateVar("nonexistent".into())));
    assert_eq!(eval(&e, &state()).unwrap(), Value::Bool(false));
}

#[test]
fn or_short_circuit() {
    let e = Expression::Or(lit(Value::Bool(true)), Box::new(Expression::StateVar("nonexistent".into())));
    assert_eq!(eval(&e, &state()).unwrap(), Value::Bool(true));
}

#[test]
fn add_ints() {
    let e = Expression::Add(lit(Value::Int(2)), lit(Value::Int(3)));
    assert_eq!(eval(&e, &state()).unwrap(), Value::Int(5));
}

#[test]
fn sub_ints() {
    let e = Expression::Sub(lit(Value::Int(10)), lit(Value::Int(3)));
    assert_eq!(eval(&e, &state()).unwrap(), Value::Int(7));
}

#[test]
fn mul_ints() {
    let e = Expression::Mul(lit(Value::Int(4)), lit(Value::Int(5)));
    assert_eq!(eval(&e, &state()).unwrap(), Value::Int(20));
}

#[test]
fn div_ints() {
    let e = Expression::Div(lit(Value::Int(10)), lit(Value::Int(2)));
    assert_eq!(eval(&e, &state()).unwrap(), Value::Int(5));
}

#[test]
fn div_by_zero() {
    let e = Expression::Div(lit(Value::Int(1)), lit(Value::Int(0)));
    assert!(eval(&e, &state()).is_err());
}

#[test]
fn add_int_float() {
    let e = Expression::Add(lit(Value::Int(2)), lit(Value::float(3.5f64.to_bits()).unwrap()));
    let v = eval(&e, &state()).unwrap();
    assert!((f64::from_bits(v.as_float(&F64).unwrap()) - 5.5).abs() < 0.001);
}

#[test]
fn eq_true() {
    let e = Expression::Eq(lit(Value::Int(5)), lit(Value::Int(5)));
    assert_eq!(eval(&e, &state()).unwrap(), Value::Bool(true));
}

#[test]
fn eq_false() {
    let e = Expression::Eq(lit(Value::Int(5)), lit(Value::Int(6)));
    assert_eq!(eval(&e, &state()).unwrap(), Value::Bool(false));
}

#[test]
fn neq() {
    let e = Expression::NotEq(lit(Value::Int(5)), lit(Value::Int(6)));
    assert_eq!(eval(&e, &state()).unwrap(), Value::Bool(true));
}

#[test]
fn lt() {
    let e = Expression::Lt(lit(Value::Int(3)), lit(Value::Int(5)));
    assert_eq!(eval(&e, &state()).unwrap(), Value::Bool(true));
}

#[test]
fn lt_false() {
    let e = Expression::Lt(lit(Value::Int(5)), lit(Value::Int(3)));
    assert_eq!(eval(&e, &state()).unwrap(), Value::Bool(false));
}

#[test]
fn gte() {
    let e = Expression::Gte(lit(Value::Int(5)), lit(Value::Int(5)));
    assert_eq!(eval(&e, &state()).unwrap(), Value::Bool(true));
}

#[test]
fn random_midpoint() {
    let e = Expression::Call {
        name: "random".into(),
        args: vec![Expression::Literal(Value::Int(10)), Expression::Literal(Value::Int(20))],
    };
    assert_eq!(eval(&e, &state()).unwrap(), Value::Int(15));
}

#[test]
fn has_tag_phony() {
    let e = Expression::Call {
        name: "has_tag".into(),
        args: vec![Expression::Literal(Value::String("any".into()))],
    };
    assert_eq!(eval(&e, &state()).unwrap(), Value::Bool(false));
}

#[test]
fn expression_eq() {
    let a = Expression::Literal(Value::Int(1));
    let b = Expression::Literal(Value::Int(1));
    assert_eq!(a, b);
    let c = Expression::Literal(Value::Int(2));
    assert_ne!(a, c);
}

#[test]
fn visited_when_not_visited() {
    let state = state();
    let e = Expression::Call {
        name: "visited".into(),
        args: vec![Expression::Literal(Value::String("cave".into()))],
    };
    assert_eq!(eval(&e, &state).unwrap(), Value::Bool(false));
}

#[test]
fn visited_after_visit() {
    let mut state = state();
    state.mark_visited(&"cave".to_string());
    let e = Expression::Call {
        name: "visited".into(),
        args: vec![Expression::Literal(Value::String("cave".into()))],
    };
    assert_eq!(eval(&e, &state).unwrap(), Value::Bool(true));
}

#[test]
fn count_zero_when_not_visited() {
    let state = state();
    let e = Expression::Call {
        name: "count".into(),
        args: vec![Expression::Literal(Value::String("cave".into()))],
    };
    assert_eq!(eval(&e, &state).unwrap(), Value::Int(0));
}

#[test]
fn count_after_multiple_visits() {
    let mut state = state();
    state.mark_visited(&"cave".to_string());
    state.mark_visited(&"cave".to_string());
    state.mark_visited(&"cave".to_string());
    let e = Expression::Call {
        name: "count".into(),
        args: vec![Expression::Literal(Value::String("cave".into()))],
    };
    assert_eq!(eval(&e, &state).unwrap(), Value::Int(3));
}

#[test]
fn has_tag_with_graph_context() {
    let mut state = state();
    state.current_passage = Some("intro".to_string());
    let graph = PassageGraph {
        nodes: vec![PassageNode {
            id: "intro".to_string(),
            tags: vec!["opening".to_string(), "safe".to_string()],
            body: vec![],
            scripts: vec![],
            hooks: vec![],
        }],
        edges: vec![],
    };
    let e = Expression::Call {
        name: "has_tag".into(),
        args: vec![Expression::Literal(Value::String("opening".into()))],
    };
    assert_eq!(e.eval(&EvalContext::with_graph(&state, &graph), &F64).unwrap(), Value::Bool(true));
    let e2 = Expression::Call {
        name: "has_tag".into(),
        args: vec![Expression::Literal(Value::String("danger".into()))],
    };
    assert_eq!(e2.eval(&EvalContext::with_graph(&state, &graph), &F64).unwrap(), Value::Bool(false));
}

// ── more ────────────────────────────────────────────────────────────────

#[test]
fn integer_division_truncates_toward_zero() {
    let e = Expression::Div(lit(Value::Int(-7)), lit(Value::Int(2)));
    assert_eq!(eval(&e, &state()).unwrap(), Value::Int(-3));
}

#[test]
fn overflow_is_reported_by_try_eval() {
    let e = Expression::Add(lit(Value::Int(i64::MAX)), lit(Value::Int(1)));
    let s = state();
    assert!(e.try_eval(&EvalContext::new(&s), &F64).is_none());
    let ok = Expression::Add(lit(Value::Int(1)), lit(Value::Int(1)));
    assert_eq!(ok.try_eval(&EvalContext::new(&s), &F64).unwrap().unwrap(), Value::Int(2));
}

#[test]
fn error_messages() {
    let s = state();
    let missing = eval(&Expression::StateVar("ghost".into()), &s).unwrap_err();
    assert_eq!(missing.message(), "expression error: state variable not found: ghost");
    let zero = eval(&Expression::Div(lit(Value::Int(1)), lit(Value::Int(0))), &s).unwrap_err();
    assert_eq!(zero.message(), "expression error: division by zero");
}

#[test]
fn strings_do_not_compare_or_add() {
    let s = state();
    let e = Expression::Lt(lit(Value::String("a".into())), lit(Value::String("b".into())));
    let err = eval(&e, &s).unwrap_err();
    assert_eq!(err.message(), "expression error: comparison between incompatible types");
    let c = Expression::Add(Box::new(Expression::StateVar("name".into())), lit(Value::String("!".into())));
    assert_eq!(eval(&c, &s).unwrap(), Value::Float(0.0f64.to_bits()));
}

#[test]
fn mixed_comparison_int_float() {
    let e = Expression::Lte(lit(Value::Int(2)), lit(Value::float(2.0f64.to_bits()).unwrap()));
    assert_eq!(eval(&e, &state()).unwrap(), Value::Bool(true));
    let g = Expression::Gt(lit(Value::float(2.5f64.to_bits()).unwrap()), lit(Value::Int(2)));
    assert_eq!(eval(&g, &state()).unwrap(), Value::Bool(true));
}

#[test]
fn random_with_reversed_bounds_gives_min() {
    let e = Expression::Call {
        name: "random".into(),
        args: vec![Expression::Literal(Value::Int(9)), Expression::Literal(Value::Int(3))],
    };
    assert_eq!(eval(&e, &state()).unwrap(), Value::Int(9));
}

#[test]
fn unknown_function_is_an_error() {
    let e = Expression::Call { name: "nope".into(), args: vec![] };
    assert!(eval(&e, &state()).is_err());
}

#[test]
fn nan_sorts_above_numbers() {
    let nan = Value::Float(f64::NAN.to_bits());
    let e = Expression::Lt(lit(Value::Float(1.0e300f64.to_bits())), lit(nan));
    assert_eq!(eval(&e, &state()).unwrap(), Value::Bool(true));
}

#[test]
fn non_finite_float_results_are_refused() {
    let big = lit(Value::float(1e308f64.to_bits()).unwrap());
    let ten = lit(Value::float(10.0f64.to_bits()).unwrap());
    let e = Expression::Mul(big, ten);
    assert!(matches!(eval(&e, &state()), Err(pathos::error::CoreError::InvalidFloatState)));
    let ok = Expression::Mul(
        lit(Value::float(2.5f64.to_bits()).unwrap()),
        lit(Value::Int(2)),
    );
    match eval(&ok, &state()).unwrap() {
        Value::Float(b) => assert_eq!(f64::from_bits(b), 5.0),
        other => panic!("expected a float, got {:?}", other),
    }
}

#[test]
fn mixed_comparisons_give_booleans() {
    let two = lit(Value::Int(2));
    let half = lit(Value::float(2.5f64.to_bits()).unwrap());
    assert_eq!(eval(&Expression::Lt(two, half), &state()).unwrap(), Value::Bool(true));
    let e = Expression::Gte(lit(Value::float(2.0f64.to_bits()).unwrap()), lit(Value::Int(2)));
    assert_eq!(eval(&e, &state()).unwrap(), Value::Bool(true));
}
