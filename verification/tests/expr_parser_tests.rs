use pathos::expr_parser::{parse_expression, tokenize, Token};
use pathos::expression::Expression;
use pathos::value::{FloatArith, Value};

struct F64;

impl FloatArith for F64 {
    fn float_from_int(&self, i: i64) -> u64 {
        (i as f64).to_bits()
    }
    fn float_add(&self, a: u64, b: u64) -> u64 {
        (f64::from_bits(a) + f64::from_bits(b)).to_bits()
    }
    fn float_sub(&self, a: u64, b: u64) -> u64 {
        (f64::from_bits(a) - f64::from_bits(b)).to_bits()
    }
    fn float_mul(&self, a: u64, b: u64) -> u64 {
        (f64::from_bits(a) * f64::from_bits(b)).to_bits()
    }
    fn float_div(&self, a: u64, b: u64) -> u64 {
        (f64::from_bits(a) / f64::from_bits(b)).to_bits()
    }
    fn float_parse(&self, s: &str) -> u64 {
        s.parse::<f64>().unwrap_or(f64::NAN).to_bits()
    }
    fn float_format(&self, a: u64) -> String {
        f64::from_bits(a).to_string()
    }
    fn float_debug(&self, a: u64) -> String {
        format!("{:?}", f64::from_bits(a))
    }
}


fn parse(s: &str) -> Result<Expression, String> {
    parse_expression(s, &F64)
}

// ── literals ────────────────────────────────────────────────────────

#[test]
fn parse_int_literal() {
    let e = parse("42").unwrap();
    assert_eq!(e, Expression::Literal(Value::Int(42)));
}

#[test]
fn parse_bool_literal_true() {
    let e = parse("true").unwrap();
    assert_eq!(e, Expression::Literal(Value::Bool(true)));
}

#[test]
fn parse_bool_literal_false() {
    let e = parse("false").unwrap();
    assert_eq!(e, Expression::Literal(Value::Bool(false)));
}

#[test]
fn parse_null_literal() {
    let e = parse("null").unwrap();
    assert_eq!(e, Expression::Literal(Value::Null));
}

#[test]
fn parse_string_literal() {
    let e = parse(r#""hello""#).unwrap();
    assert_eq!(e, Expression::Literal(Value::String("hello".into())));
}

#[test]
fn parse_float_literal() {
    let e = parse("3.14").unwrap();
    assert!(matches!(e, Expression::Literal(Value::Float(_))));
}

// ── state refs ──────────────────────────────────────────────────────

#[test]
fn parse_state_ref_simple() {
    let e = parse("$hp").unwrap();
    assert_eq!(e, Expression::StateVar("hp".into()));
}

#[test]
fn parse_state_ref_dotted() {
    let e = parse("$player.hp").unwrap();
    assert_eq!(e, Expression::StateVar("player.hp".into()));
}

// ── unary ───────────────────────────────────────────────────────────

#[test]
fn parse_not() {
    let e = parse("!true").unwrap();
    assert_eq!(e, Expression::Not(Box::new(Expression::Literal(Value::Bool(true)))));
}

#[test]
fn parse_double_not() {
    let e = parse("!!false").unwrap();
    assert!(matches!(e, Expression::Not(_)));
}

// ── arithmetic ──────────────────────────────────────────────────────

#[test]
fn parse_addition() {
    let e = parse("1 + 2").unwrap();
    assert_eq!(e, Expression::Add(
        Box::new(Expression::Literal(Value::Int(1))),
        Box::new(Expression::Literal(Value::Int(2))),
    ));
}

#[test]
fn parse_multiplication_precedence() {
    // 1 + 2 * 3  →  1 + (2 * 3)
    let e = parse("1 + 2 * 3").unwrap();
    assert!(matches!(e, Expression::Add(_, _)));
    if let Expression::Add(left, right) = &e {
        assert_eq!(**left, Expression::Literal(Value::Int(1)));
        assert_eq!(**right, Expression::Mul(
            Box::new(Expression::Literal(Value::Int(2))),
            Box::new(Expression::Literal(Value::Int(3))),
        ));
    }
}

#[test]
fn parse_subtraction() {
    let e = parse("10 - 3").unwrap();
    assert_eq!(e, Expression::Sub(
        Box::new(Expression::Literal(Value::Int(10))),
        Box::new(Expression::Literal(Value::Int(3))),
    ));
}

#[test]
fn parse_mul_div_precedence() {
    let e = parse("8 / 2 * 3").unwrap();
    // left-associative: (8 / 2) * 3
    assert!(matches!(e, Expression::Mul(_, _)));
}

// ── comparisons ─────────────────────────────────────────────────────

#[test]
fn parse_comparison_lt() {
    let e = parse("$hp < 5").unwrap();
    assert!(matches!(e, Expression::Lt(_, _)));
}

#[test]
fn parse_comparison_gte() {
    let e = parse("$wisdom >= 3").unwrap();
    assert!(matches!(e, Expression::Gte(_, _)));
}

#[test]
fn parse_equality() {
    let e = parse("$name == \"hero\"").unwrap();
    assert!(matches!(e, Expression::Eq(_, _)));
}

#[test]
fn parse_not_equals() {
    let e = parse("$hp != 0").unwrap();
    assert!(matches!(e, Expression::NotEq(_, _)));
}

// ── logical ─────────────────────────────────────────────────────────

#[test]
fn parse_and() {
    let e = parse("$hp > 0 && $wisdom > 2").unwrap();
    assert!(matches!(e, Expression::And(_, _)));
}

#[test]
fn parse_or() {
    let e = parse("$hp <= 0 || $courage > 5").unwrap();
    assert!(matches!(e, Expression::Or(_, _)));
}

#[test]
fn parse_logical_precedence() {
    // a || b && c  →  a || (b && c)
    let e = parse("true || false && true").unwrap();
    assert!(matches!(e, Expression::Or(_, _)));
}

// ── parens ──────────────────────────────────────────────────────────

#[test]
fn parse_parens() {
    let e = parse("(1 + 2) * 3").unwrap();
    assert!(matches!(e, Expression::Mul(_, _)));
}

#[test]
fn parse_nested_parens() {
    let e = parse("((true))").unwrap();
    assert_eq!(e, Expression::Literal(Value::Bool(true)));
}

// ── function calls ──────────────────────────────────────────────────

#[test]
fn parse_function_call_no_args() {
    // random() is technically invalid but should parse
    let e = parse("random()").unwrap();
    assert!(matches!(e, Expression::Call { name, .. } if name == "random"));
}

#[test]
fn parse_function_call_with_args() {
    let e = parse("random(1, 10)").unwrap();
    match e {
        Expression::Call { name, args } => {
            assert_eq!(name, "random");
            assert_eq!(args.len(), 2);
        }
        _ => panic!("expected Call"),
    }
}

#[test]
fn parse_has_tag() {
    let e = parse("has_tag(\"forest\")").unwrap();
    assert!(matches!(e, Expression::Call { name, .. } if name == "has_tag"));
}

// ── error cases ─────────────────────────────────────────────────────

#[test]
fn parse_error_unexpected_token() {
    assert!(parse("$hp @ 5").is_err());
}

#[test]
fn parse_error_unclosed_paren() {
    assert!(parse("(1 + 2").is_err());
}

// ── complex expressions ─────────────────────────────────────────────

#[test]
fn parse_complex_condition() {
    // $hp > 0 && ($wisdom > 2 || $courage > 5)
    let e = parse("$hp > 0 && ($wisdom > 2 || $courage > 5)").unwrap();
    assert!(matches!(e, Expression::And(_, _)));
}

#[test]
fn parse_visitor_count() {
    let e = parse("visited(\"dark_forest\")").unwrap();
    assert!(matches!(e, Expression::Call { name, .. } if name == "visited"));
}

#[test]
fn parse_count_call() {
    let e = parse("count(\"forest\")").unwrap();
    assert!(matches!(e, Expression::Call { name, .. } if name == "count"));
}


// ── more ────────────────────────────────────────────────────────────────

#[test]
fn parse_error_messages() {
    assert_eq!(parse("").unwrap_err(), "unexpected end of input");
    assert_eq!(parse("1 +").unwrap_err(), "unexpected end of input");
    assert_eq!(parse("1 2").unwrap_err(), "unexpected token: Int(2)");
    assert_eq!(parse("(1 + 2").unwrap_err(), "expected ')'");
    assert_eq!(parse("foo").unwrap_err(), "unknown identifier: foo");
}

#[test]
fn parse_negative_literal_and_lte() {
    let e = parse("-3 <= $x").unwrap();
    assert_eq!(
        e,
        Expression::Lte(
            Box::new(Expression::Literal(Value::Int(-3))),
            Box::new(Expression::StateVar("x".into())),
        )
    );
}

#[test]
fn parse_single_quoted_string() {
    assert_eq!(parse("'hi'").unwrap(), Expression::Literal(Value::String("hi".into())));
}

#[test]
fn parse_float_literal_value() {
    match parse("2.5").unwrap() {
        Expression::Literal(Value::Float(bits)) => assert_eq!(f64::from_bits(bits), 2.5),
        other => panic!("expected a float literal, got {:?}", other),
    }
}

#[test]
fn parse_left_associative_subtraction() {
    let e = parse("10 - 3 - 2").unwrap();
    assert_eq!(
        e,
        Expression::Sub(
            Box::new(Expression::Sub(
                Box::new(Expression::Literal(Value::Int(10))),
                Box::new(Expression::Literal(Value::Int(3))),
            )),
            Box::new(Expression::Literal(Value::Int(2))),
        )
    );
}

#[test]
fn parse_error_shows_token_debug_text() {
    assert_eq!(parse("1 \"a\\\"b\"").unwrap_err(), "unexpected token: StringLit(\"a\\\\\\\"b\")");
    assert_eq!(parse("1 $hp").unwrap_err(), "unexpected token: StateRef(\"hp\")");
}

#[test]
fn minus_after_an_operand_subtracts() {
    assert_eq!(dbg_of(tokenize("10-3")), dbg_of(vec![Token::Int(10), Token::Minus, Token::Int(3)]));
    assert_eq!(
        parse("10-3").unwrap(),
        Expression::Sub(
            Box::new(Expression::Literal(Value::Int(10))),
            Box::new(Expression::Literal(Value::Int(3))),
        )
    );
    assert_eq!(
        dbg_of(tokenize("$x -1")),
        dbg_of(vec![Token::StateRef("x".into()), Token::Minus, Token::Int(1)])
    );
    assert_eq!(
        dbg_of(tokenize("(2)-1")),
        dbg_of(vec![Token::LParen, Token::Int(2), Token::RParen, Token::Minus, Token::Int(1)])
    );
    assert_eq!(dbg_of(tokenize("2 * -3")), dbg_of(vec![Token::Int(2), Token::Star, Token::Int(-3)]));
    assert_eq!(dbg_of(tokenize("-3")), dbg_of(vec![Token::Int(-3)]));
}

fn dbg_of(ts: Vec<Token>) -> String {
    format!("{:?}", ts)
}
