//! Expressions of `{if:}` conditions and link guards, and their evaluation.
use vstd::prelude::*;
use crate::error::{CoreError, ErrorModel};
use crate::passage::PassageGraph;
use crate::state::{StateModel, StoryState, count_of, current_has_tag, model_lookup};
use crate::text::{concat2, string_eq, string_eq_str};
use crate::value::{
    FloatArith, Scope, Value, ValueModel, float_is_zero, float_order, float_order_exec, float_zero,
    model_eq, law_value_eq_reflexive, float_finite,
};

verus! {

/// Runtime state that evaluation reads: the story state and, for `has_tag`,
/// the passage graph.
pub struct EvalContext<'a> {
    pub state: &'a StoryState,
    pub graph: Option<&'a PassageGraph>,
}

impl<'a> EvalContext<'a> {
    /// A context with no passage graph.
    pub fn new(state: &'a StoryState) -> (r: Self)
        ensures
            r.state == state,
            r.graph is None,
    {
        EvalContext { state, graph: None }
    }

    /// A context with a passage graph.
    pub fn with_graph(state: &'a StoryState, graph: &'a PassageGraph) -> (r: Self)
        ensures
            r.state == state,
            r.graph == Some(graph),
    {
        EvalContext { state, graph: Some(graph) }
    }
}

/// A boolean or arithmetic expression.
#[derive(Debug)]
pub enum Expression {
    Literal(Value),
    /// State variable access, written `$path`.
    StateVar(String),
    Not(Box<Expression>),
    And(Box<Expression>, Box<Expression>),
    Or(Box<Expression>, Box<Expression>),
    Eq(Box<Expression>, Box<Expression>),
    NotEq(Box<Expression>, Box<Expression>),
    Lt(Box<Expression>, Box<Expression>),
    Lte(Box<Expression>, Box<Expression>),
    Gt(Box<Expression>, Box<Expression>),
    Gte(Box<Expression>, Box<Expression>),
    Add(Box<Expression>, Box<Expression>),
    Sub(Box<Expression>, Box<Expression>),
    Mul(Box<Expression>, Box<Expression>),
    Div(Box<Expression>, Box<Expression>),
    /// Function call: `fn_name(arg1, arg2, ...)`
    Call { name: String, args: Vec<Expression> },
}

// ── the meaning of evaluation ───────────────────────────────────────────

/// What evaluating an expression comes to.
pub enum Outcome {
    /// The result, determined by the expression and the state alone.
    Done(Result<ValueModel, ErrorModel>),
    /// The result goes through the caller's float arithmetic; what is
    /// known of it is the kind.
    FloatDependent(FloatKind),
    /// An integer operation leaves the range of `i64`.
    Overflow,
}

/// What is known of a result that goes through float arithmetic.
pub enum FloatKind {
    /// Float arithmetic on two values: a finite `Float`, or the error
    /// `InvalidFloatState` where the result is not finite.
    Number,
    /// A comparison of an integer with a float: a `Bool`.
    Compare,
    /// Built on such results: a finite `Float` or a `Bool`, or an error.
    Mixed,
}

pub open spec fn ok_value(v: ValueModel) -> Outcome {
    Outcome::Done(Ok(v))
}

pub open spec fn ok_bool(b: bool) -> Outcome {
    Outcome::Done(Ok(ValueModel::Bool(b)))
}

pub open spec fn expr_error(msg: Seq<char>) -> Outcome {
    Outcome::Done(Err(ErrorModel::Expression(msg)))
}

/// `as_bool().unwrap_or(false)`.
pub open spec fn truthy(v: ValueModel) -> bool {
    v == ValueModel::Bool(true)
}

/// An integer result, or an overflow outside the range of `i64`.
pub open spec fn int_result(n: int) -> Outcome {
    if i64::MIN <= n <= i64::MAX {
        ok_value(ValueModel::Int(n as i64))
    } else {
        Outcome::Overflow
    }
}

pub open spec fn abs(x: int) -> int {
    if x < 0 {
        -x
    } else {
        x
    }
}

/// Integer division rounding toward zero.
pub open spec fn trunc_div(x: int, y: int) -> int {
    if (x < 0) == (y < 0) {
        abs(x) / abs(y)
    } else {
        -(abs(x) / abs(y))
    }
}

/// The sign of `x - y`.
pub open spec fn int_order(x: int, y: int) -> int {
    if x < y {
        -1
    } else if x == y {
        0
    } else {
        1
    }
}

/// Whether two values stand in the order `expected` (-1, 0 or 1).
pub open spec fn compare_outcome(a: ValueModel, b: ValueModel, expected: int) -> Outcome {
    match (a, b) {
        (ValueModel::Int(x), ValueModel::Int(y)) => ok_bool(int_order(x as int, y as int) == expected),
        (ValueModel::Float(x), ValueModel::Float(y)) => ok_bool(float_order(x, y) == expected),
        (ValueModel::Int(_), ValueModel::Float(_)) => Outcome::FloatDependent(FloatKind::Compare),
        (ValueModel::Float(_), ValueModel::Int(_)) => Outcome::FloatDependent(FloatKind::Compare),
        _ => expr_error("comparison between incompatible types"@),
    }
}

/// `<=` or `>=`: the strict order, else equality.
pub open spec fn compare_or_equal(a: ValueModel, b: ValueModel, expected: int) -> Outcome {
    match compare_outcome(a, b, expected) {
        Outcome::Done(Ok(ValueModel::Bool(true))) => ok_bool(true),
        Outcome::Done(Ok(_)) => compare_outcome(a, b, 0),
        other => other,
    }
}

/// The divisor counts as zero: an integer or float zero, or a value that is
/// no number.
pub open spec fn divisor_zero(b: ValueModel) -> bool {
    match b {
        ValueModel::Int(y) => y == 0,
        ValueModel::Float(f) => float_zero(f),
        _ => true,
    }
}

/// The result of a binary operator on the values of its operands.
pub open spec fn binary_outcome(e: &Expression, a: ValueModel, b: ValueModel) -> Outcome {
    match e {
        Expression::Eq(_, _) => ok_bool(model_eq(a, b)),
        Expression::NotEq(_, _) => ok_bool(!model_eq(a, b)),
        Expression::Lt(_, _) => compare_outcome(a, b, -1),
        Expression::Lte(_, _) => compare_or_equal(a, b, -1),
        Expression::Gt(_, _) => compare_outcome(a, b, 1),
        Expression::Gte(_, _) => compare_or_equal(a, b, 1),
        Expression::Add(_, _) => match (a, b) {
            (ValueModel::Int(x), ValueModel::Int(y)) => int_result(x + y),
            _ => Outcome::FloatDependent(FloatKind::Number),
        },
        Expression::Sub(_, _) => match (a, b) {
            (ValueModel::Int(x), ValueModel::Int(y)) => int_result(x - y),
            _ => Outcome::FloatDependent(FloatKind::Number),
        },
        Expression::Mul(_, _) => match (a, b) {
            (ValueModel::Int(x), ValueModel::Int(y)) => int_result(x * y),
            _ => Outcome::FloatDependent(FloatKind::Number),
        },
        Expression::Div(_, _) => if divisor_zero(b) {
            expr_error("division by zero"@)
        } else {
            match (a, b) {
                (ValueModel::Int(x), ValueModel::Int(y)) => int_result(trunc_div(x as int, y as int)),
                _ => Outcome::FloatDependent(FloatKind::Number),
            }
        },
        _ => Outcome::Overflow,
    }
}

/// The operator evaluates both operands before it applies.
pub open spec fn is_binary(e: &Expression) -> bool {
    match e {
        Expression::Eq(_, _) | Expression::NotEq(_, _) | Expression::Lt(_, _) | Expression::Lte(
            _,
            _,
        ) | Expression::Gt(_, _) | Expression::Gte(_, _) | Expression::Add(_, _) | Expression::Sub(
            _,
            _,
        ) | Expression::Mul(_, _) | Expression::Div(_, _) => true,
        _ => false,
    }
}

/// Evaluate two operands in turn, then apply `e`'s operator.
pub open spec fn both(e: &Expression, oa: Outcome, ob: Outcome) -> Outcome {
    match oa {
        Outcome::Done(Ok(a)) => match ob {
            Outcome::Done(Ok(b)) => binary_outcome(e, a, b),
            Outcome::FloatDependent(_) => Outcome::FloatDependent(FloatKind::Mixed),
            other => other,
        },
        Outcome::Done(Err(m)) => Outcome::Done(Err(m)),
        Outcome::FloatDependent(_) => if ob is Overflow {
            Outcome::Overflow
        } else {
            Outcome::FloatDependent(FloatKind::Mixed)
        },
        Outcome::Overflow => Outcome::Overflow,
    }
}

/// Short-circuit `and` (`conj`) or `or` (`!conj`).
pub open spec fn logic(conj: bool, oa: Outcome, ob: Outcome) -> Outcome {
    match oa {
        Outcome::Done(Ok(a)) => if truthy(a) != conj {
            ok_bool(!conj)
        } else {
            match ob {
                Outcome::Done(Ok(b)) => ok_bool(truthy(b)),
                Outcome::FloatDependent(_) => Outcome::FloatDependent(FloatKind::Mixed),
                other => other,
            }
        },
        Outcome::Done(Err(m)) => Outcome::Done(Err(m)),
        Outcome::FloatDependent(_) => if ob is Overflow {
            Outcome::Overflow
        } else {
            Outcome::FloatDependent(FloatKind::Mixed)
        },
        Outcome::Overflow => Outcome::Overflow,
    }
}

/// The integer that an argument's outcome gives, or `d`.
pub open spec fn arg_int(o: Outcome, d: int) -> int {
    match o {
        Outcome::Done(Ok(ValueModel::Int(x))) => x as int,
        _ => d,
    }
}

/// The string that an argument's outcome gives, or the empty string.
pub open spec fn arg_str(o: Outcome) -> Seq<char> {
    match o {
        Outcome::Done(Ok(ValueModel::Str(s))) => s,
        _ => Seq::empty(),
    }
}

/// `random(low, high)`: the midpoint, rounded down, when `high > low`, else `low`.
pub open spec fn random_outcome(o0: Outcome, o1: Outcome) -> Outcome {
    let low = arg_int(o0, 0);
    let high = arg_int(o1, 1);
    if o0 is Overflow || o1 is Overflow {
        Outcome::Overflow
    } else if high > low {
        if high - low > i64::MAX {
            Outcome::Overflow
        } else {
            int_result(low + (high - low) / 2)
        }
    } else {
        int_result(low)
    }
}

/// `count(passage)`: the number of visits, at most `i64::MAX`.
pub open spec fn count_value(st: StateModel, id: Seq<char>) -> int {
    let n = count_of(st.visits, id);
    if n > i64::MAX {
        i64::MAX as int
    } else {
        n as int
    }
}

/// The outcome of a function call, given the outcomes of its first two
/// arguments (a missing argument counts as `null`).
pub open spec fn call_outcome(
    name: Seq<char>,
    o0: Outcome,
    o1: Outcome,
    st: StateModel,
    graph: Option<&PassageGraph>,
) -> Outcome {
    if name == "random"@ {
        random_outcome(o0, o1)
    } else if name == "has_tag"@ || name == "visited"@ || name == "count"@ {
        if o0 is Overflow {
            Outcome::Overflow
        } else if name == "has_tag"@ {
            ok_bool(current_has_tag(st, arg_str(o0), graph))
        } else if name == "visited"@ {
            ok_bool(count_of(st.visits, arg_str(o0)) > 0)
        } else {
            int_result(count_value(st, arg_str(o0)))
        }
    } else {
        expr_error("unknown function: "@ + name)
    }
}

/// The outcome of evaluating `e` in the state `st` with the passage graph
/// `graph`.
pub open spec fn eval_spec(e: &Expression, st: StateModel, graph: Option<&PassageGraph>) -> Outcome
    decreases e,
{
    match e {
        Expression::Literal(v) => ok_value(v.model()),
        Expression::StateVar(p) => match model_lookup(st, p@, Scope::Global) {
            Some(v) => ok_value(v),
            None => expr_error("state variable not found: "@ + p@),
        },
        Expression::Not(a) => match eval_spec(a, st, graph) {
            Outcome::Done(Ok(v)) => ok_bool(!truthy(v)),
            Outcome::FloatDependent(_) => Outcome::FloatDependent(FloatKind::Mixed),
            other => other,
        },
        Expression::And(a, b) => logic(true, eval_spec(a, st, graph), eval_spec(b, st, graph)),
        Expression::Or(a, b) => logic(false, eval_spec(a, st, graph), eval_spec(b, st, graph)),
        Expression::Eq(a, b) => both(e, eval_spec(a, st, graph), eval_spec(b, st, graph)),
        Expression::NotEq(a, b) => both(e, eval_spec(a, st, graph), eval_spec(b, st, graph)),
        Expression::Lt(a, b) => both(e, eval_spec(a, st, graph), eval_spec(b, st, graph)),
        Expression::Lte(a, b) => both(e, eval_spec(a, st, graph), eval_spec(b, st, graph)),
        Expression::Gt(a, b) => both(e, eval_spec(a, st, graph), eval_spec(b, st, graph)),
        Expression::Gte(a, b) => both(e, eval_spec(a, st, graph), eval_spec(b, st, graph)),
        Expression::Add(a, b) => both(e, eval_spec(a, st, graph), eval_spec(b, st, graph)),
        Expression::Sub(a, b) => both(e, eval_spec(a, st, graph), eval_spec(b, st, graph)),
        Expression::Mul(a, b) => both(e, eval_spec(a, st, graph), eval_spec(b, st, graph)),
        Expression::Div(a, b) => both(e, eval_spec(a, st, graph), eval_spec(b, st, graph)),
        Expression::Call { name, args } => {
            let o0 = if args@.len() > 0 {
                eval_spec(&args@[0], st, graph)
            } else {
                ok_value(ValueModel::Null)
            };
            let o1 = if args@.len() > 1 {
                eval_spec(&args@[1], st, graph)
            } else {
                ok_value(ValueModel::Null)
            };
            call_outcome(name@, o0, o1, st, graph)
        },
    }
}

/// The result `r` is what the outcome `o` says.
/// A value whose computation went through floating point: a finite float,
/// or a boolean (from a comparison).
pub open spec fn float_result(x: Value) -> bool {
    (x matches Value::Float(b) && float_finite(b)) || x is Bool
}

pub open spec fn meets(r: Result<Value, CoreError>, o: Outcome) -> bool {
    match o {
        Outcome::Done(Ok(v)) => r matches Ok(x) && x.model() == v,
        Outcome::Done(Err(m)) => r matches Err(x) && x.model() == m,
        Outcome::FloatDependent(FloatKind::Number) => (r matches Ok(x) && x matches Value::Float(b)
            && float_finite(b)) || (r matches Err(e) && e.model() is InvalidFloatState),
        Outcome::FloatDependent(FloatKind::Compare) => r matches Ok(x) && x is Bool,
        Outcome::FloatDependent(FloatKind::Mixed) => r matches Ok(x) ==> float_result(x),
        Outcome::Overflow => true,
    }
}

/// Integer division rounding toward zero.
fn div_toward_zero(x: i64, y: i64) -> (r: i64)
    requires
        y != 0,
        !(x == i64::MIN && y == -1),
    ensures
        r == trunc_div(x as int, y as int),
{
    if y > 0 {
        let q = x / y;
        assert(q == trunc_div(x as int, y as int));
        q
    } else if y == i64::MIN {
        if x == i64::MIN {
            1
        } else {
            proof {
                vstd::arithmetic::div_mod::lemma_basic_div(abs(x as int), abs(y as int));
            }
            assert(0 == trunc_div(x as int, y as int));
            0
        }
    } else {
        if y == -1 {
            assert(abs(x as int) / 1 == abs(x as int));
            return -x;
        }
        let ny: i64 = -y;
        let q = x / ny;
        assert(q == trunc_div(x as int, ny as int));
        assert(abs(q as int) <= abs(x as int) / 2) by (nonlinear_arith)
            requires
                q == trunc_div(x as int, ny as int),
                ny >= 2,
        {
        }
        assert(-q == trunc_div(x as int, y as int));
        -q
    }
}

fn float_value(bits: u64) -> (r: Result<Value, CoreError>)
    ensures
        r matches Ok(v) ==> v is Float,
        float_finite(bits) ==> (r matches Ok(v) && v == Value::Float(bits)),
        !float_finite(bits) ==> (r matches Err(e) && e.model() == ErrorModel::InvalidFloatState),
{
    match Value::float(bits) {
        Some(v) => Ok(v),
        None => Err(CoreError::InvalidFloatState),
    }
}

/// The bits that float arithmetic takes for an operand: a float's own, the
/// `FloatArith`'s conversion of an integer, 0 for anything else.
pub open spec fn float_operand<F: FloatArith + ?Sized>(arith: &F, v: ValueModel, x: u64) -> bool {
    match v {
        ValueModel::Float(b) => x == b,
        ValueModel::Int(i) => call_ensures(F::float_from_int, (arith, i), x),
        _ => x == 0,
    }
}

/// `z` is what the `FloatArith` gives for the operator of `e` on `x` and
/// `y`, in that order: `x + y`, `x - y`, `x * y` or `x / y`.
pub open spec fn float_op<F: FloatArith + ?Sized>(arith: &F, e: &Expression, x: u64, y: u64, z: u64) -> bool {
    match e {
        Expression::Add(_, _) => call_ensures(F::float_add, (arith, x, y), z),
        Expression::Sub(_, _) => call_ensures(F::float_sub, (arith, x, y), z),
        Expression::Mul(_, _) => call_ensures(F::float_mul, (arith, x, y), z),
        Expression::Div(_, _) => call_ensures(F::float_div, (arith, x, y), z),
        _ => false,
    }
}

/// The value of a float result `z`: the float where it is finite, else the
/// error `InvalidFloatState`.
pub open spec fn float_answer(r: Result<Value, CoreError>, z: u64) -> bool {
    if float_finite(z) {
        r matches Ok(Value::Float(w)) && w == z
    } else {
        r matches Err(e) && e.model() is InvalidFloatState
    }
}

/// The result of float arithmetic on the values `a` and `b`: what the
/// `FloatArith` gives for the left operand's bits and the right one's, in
/// that order.
pub open spec fn float_arith_result<F: FloatArith + ?Sized>(
    arith: &F,
    e: &Expression,
    a: ValueModel,
    b: ValueModel,
    r: Result<Value, CoreError>,
) -> bool {
    exists|x: u64, y: u64, z: u64|
        float_operand(arith, a, x) && float_operand(arith, b, y) && #[trigger] float_op(arith, e, x, y, z)
            && float_answer(r, z)
}

/// `r` is the boolean that says whether `x` and `y` stand in the order
/// `expected` (-1, 0 or 1).
pub open spec fn order_answer(x: u64, y: u64, expected: int, r: Result<Value, CoreError>) -> bool {
    r matches Ok(Value::Bool(t)) && t == (float_order(x, y) == expected)
}

/// A comparison of `a` with `b` in float arithmetic: whether the float bits
/// of the left operand and of the right one, in that order, stand in the
/// order `expected`.
pub open spec fn float_compare<F: FloatArith + ?Sized>(
    arith: &F,
    a: ValueModel,
    b: ValueModel,
    expected: int,
    r: Result<Value, CoreError>,
) -> bool {
    exists|x: u64, y: u64|
        float_operand(arith, a, x) && float_operand(arith, b, y) && #[trigger] order_answer(x, y, expected, r)
}

/// `<=` (`expected` -1) or `>=` (1) in float arithmetic: `true` where the
/// strict comparison holds, else whether a second comparison finds equality.
pub open spec fn float_compare_or_equal<F: FloatArith + ?Sized>(
    arith: &F,
    a: ValueModel,
    b: ValueModel,
    expected: int,
    r: Result<Value, CoreError>,
) -> bool {
    ||| float_compare(arith, a, b, expected, r) && r matches Ok(Value::Bool(true))
    ||| float_compare(arith, a, b, expected, Ok(Value::Bool(false))) && float_compare(arith, a, b, 0, r)
}

/// The result of the comparison `e` on `a` and `b` in float arithmetic.
pub open spec fn float_comparison_result<F: FloatArith + ?Sized>(
    arith: &F,
    e: &Expression,
    a: ValueModel,
    b: ValueModel,
    r: Result<Value, CoreError>,
) -> bool {
    match e {
        Expression::Lt(_, _) => float_compare(arith, a, b, -1, r),
        Expression::Gt(_, _) => float_compare(arith, a, b, 1, r),
        Expression::Lte(_, _) => float_compare_or_equal(arith, a, b, -1, r),
        Expression::Gte(_, _) => float_compare_or_equal(arith, a, b, 1, r),
        _ => false,
    }
}

/// The value of a finished outcome (`null` for any other).
pub open spec fn done_value(o: Outcome) -> ValueModel {
    match o {
        Outcome::Done(Ok(v)) => v,
        _ => ValueModel::Null,
    }
}

/// `as_float().unwrap_or(0.0)`.
fn float_bits<F: FloatArith + ?Sized>(v: &Value, arith: &F) -> (r: u64)
    ensures
        v is Float ==> r == v->Float_0,
        !(v is Float || v is Int) ==> r == 0,
        float_operand(arith, v.model(), r),
{
    match v.as_float(arith) {
        Some(b) => b,
        None => 0,
    }
}

impl Expression {
    /// Compare two values; `expected` is -1, 0 or 1.
    fn compare_values<F: FloatArith + ?Sized>(a: &Value, b: &Value, expected: i8, arith: &F) -> (r: Result<
        Value,
        CoreError,
    >)
        ensures
            meets(r, compare_outcome(a.model(), b.model(), expected as int)),
            r matches Ok(x) ==> x is Bool,
            compare_outcome(a.model(), b.model(), expected as int) == Outcome::FloatDependent(
                FloatKind::Compare,
            ) ==> float_compare(arith, a.model(), b.model(), expected as int, r),
    {
        match (a, b) {
            (Value::Int(x), Value::Int(y)) => {
                let ord: i8 = if *x < *y {
                    -1
                } else if *x == *y {
                    0
                } else {
                    1
                };
                Ok(Value::Bool(ord == expected))
            },
            (Value::Float(x), Value::Float(y)) => Ok(
                Value::Bool(float_order_exec(*x, *y) == expected),
            ),
            (Value::Int(x), Value::Float(y)) => {
                let fx = arith.float_from_int(*x);
                let r = Ok(Value::Bool(float_order_exec(fx, *y) == expected));
                assert(order_answer(fx, *y, expected as int, r));
                r
            },
            (Value::Float(x), Value::Int(y)) => {
                let fy = arith.float_from_int(*y);
                let r = Ok(Value::Bool(float_order_exec(*x, fy) == expected));
                assert(order_answer(*x, fy, expected as int, r));
                r
            },
            _ => Err(CoreError::Expression(String::from_str("comparison between incompatible types"))),
        }
    }

    /// `<=` and `>=`.
    fn compare_or_eq<F: FloatArith + ?Sized>(a: &Value, b: &Value, expected: i8, arith: &F) -> (r: Result<
        Value,
        CoreError,
    >)
        ensures
            meets(r, compare_or_equal(a.model(), b.model(), expected as int)),
            r matches Ok(x) ==> x is Bool,
            compare_or_equal(a.model(), b.model(), expected as int) == Outcome::FloatDependent(
                FloatKind::Compare,
            ) ==> float_compare_or_equal(arith, a.model(), b.model(), expected as int, r),
    {
        match Self::compare_values(a, b, expected, arith) {
            Ok(Value::Bool(true)) => Ok(Value::Bool(true)),
            Ok(_) => Self::compare_values(a, b, 0, arith),
            Err(e) => Err(e),
        }
    }

    /// Apply a binary operator to the values of its operands; `None` where
    /// an integer result leaves the range of `i64`.
    fn apply_binary<F: FloatArith + ?Sized>(&self, a: &Value, b: &Value, arith: &F) -> (r: Option<
        Result<Value, CoreError>,
    >)
        requires
            is_binary(self),
        ensures
            r is None ==> binary_outcome(self, a.model(), b.model()) is Overflow,
            r matches Some(x) ==> meets(x, binary_outcome(self, a.model(), b.model())),
            r matches Some(Ok(x)) ==> (float_result(x) || (a is Int && b is Int)),
            binary_outcome(self, a.model(), b.model()) == Outcome::FloatDependent(FloatKind::Compare) ==> (
            r matches Some(x) && float_comparison_result(arith, self, a.model(), b.model(), x)),
            binary_outcome(self, a.model(), b.model()) == Outcome::FloatDependent(FloatKind::Number) ==> (
            r matches Some(x) && float_arith_result(arith, self, a.model(), b.model(), x)),
    {
        match self {
            Expression::Eq(_, _) => Some(Ok(Value::Bool(a.equals(b)))),
            Expression::NotEq(_, _) => Some(Ok(Value::Bool(!a.equals(b)))),
            Expression::Lt(_, _) => Some(Self::compare_values(a, b, -1, arith)),
            Expression::Lte(_, _) => Some(Self::compare_or_eq(a, b, -1, arith)),
            Expression::Gt(_, _) => Some(Self::compare_values(a, b, 1, arith)),
            Expression::Gte(_, _) => Some(Self::compare_or_eq(a, b, 1, arith)),
            Expression::Add(_, _) => match (a, b) {
                (Value::Int(x), Value::Int(y)) => match x.checked_add(*y) {
                    Some(n) => Some(Ok(Value::Int(n))),
                    None => None,
                },
                _ => {
                    let x = float_bits(a, arith);
                    let y = float_bits(b, arith);
                    let z = arith.float_add(x, y);
                    let res = float_value(z);
                    assert(float_op(arith, self, x, y, z));
                    Some(res)
                },
            },
            Expression::Sub(_, _) => match (a, b) {
                (Value::Int(x), Value::Int(y)) => match x.checked_sub(*y) {
                    Some(n) => Some(Ok(Value::Int(n))),
                    None => None,
                },
                _ => {
                    let x = float_bits(a, arith);
                    let y = float_bits(b, arith);
                    let z = arith.float_sub(x, y);
                    let res = float_value(z);
                    assert(float_op(arith, self, x, y, z));
                    Some(res)
                },
            },
            Expression::Mul(_, _) => match (a, b) {
                (Value::Int(x), Value::Int(y)) => match x.checked_mul(*y) {
                    Some(n) => Some(Ok(Value::Int(n))),
                    None => None,
                },
                _ => {
                    let x = float_bits(a, arith);
                    let y = float_bits(b, arith);
                    let z = arith.float_mul(x, y);
                    let res = float_value(z);
                    assert(float_op(arith, self, x, y, z));
                    Some(res)
                },
            },
            _ => {
                let zero = match b {
                    Value::Int(y) => *y == 0,
                    Value::Float(f) => float_is_zero(*f),
                    _ => true,
                };
                if zero {
                    return Some(Err(CoreError::Expression(String::from_str("division by zero"))));
                }
                match (a, b) {
                    (Value::Int(x), Value::Int(y)) => {
                        if *x == i64::MIN && *y == -1 {
                            assert(trunc_div(x as int, y as int) == 0x8000_0000_0000_0000);
                            None
                        } else {
                            Some(Ok(Value::Int(div_toward_zero(*x, *y))))
                        }
                    },
                    _ => {
                        let x = float_bits(a, arith);
                        let y = float_bits(b, arith);
                        let z = arith.float_div(x, y);
                        let res = float_value(z);
                        assert(float_op(arith, self, x, y, z));
                        Some(res)
                    },
                }
            },
        }
    }
}

impl Expression {
    /// The left operand of a binary operator.
    pub open spec fn left(self) -> Expression {
        match self {
            Expression::Eq(a, _) => *a,
            Expression::NotEq(a, _) => *a,
            Expression::Lt(a, _) => *a,
            Expression::Lte(a, _) => *a,
            Expression::Gt(a, _) => *a,
            Expression::Gte(a, _) => *a,
            Expression::Add(a, _) => *a,
            Expression::Sub(a, _) => *a,
            Expression::Mul(a, _) => *a,
            Expression::Div(a, _) => *a,
            _ => self,
        }
    }

    /// The right operand of a binary operator.
    pub open spec fn right(self) -> Expression {
        match self {
            Expression::Eq(_, b) => *b,
            Expression::NotEq(_, b) => *b,
            Expression::Lt(_, b) => *b,
            Expression::Lte(_, b) => *b,
            Expression::Gt(_, b) => *b,
            Expression::Gte(_, b) => *b,
            Expression::Add(_, b) => *b,
            Expression::Sub(_, b) => *b,
            Expression::Mul(_, b) => *b,
            Expression::Div(_, b) => *b,
            _ => self,
        }
    }
}

/// `as_bool().unwrap_or(false)`.
fn is_true(v: &Value) -> (r: bool)
    ensures
        r == truthy(v.model()),
{
    match v {
        Value::Bool(b) => *b,
        _ => false,
    }
}

impl Expression {
    /// Evaluate the two operands of a binary operator, left first.
    fn eval_operands<F: FloatArith + ?Sized>(&self, ctx: &EvalContext, arith: &F) -> (r: Option<
        Result<(Value, Value), CoreError>,
    >)
        requires
            is_binary(self),
        ensures
            r is None ==> both(
                self,
                eval_spec(&self.left(), ctx.state@, ctx.graph),
                eval_spec(&self.right(), ctx.state@, ctx.graph),
            ) is Overflow,
            r matches Some(x) ==> match eval_spec(&self.left(), ctx.state@, ctx.graph) {
                Outcome::Done(Err(m)) => x matches Err(e) && e.model() == m,
                Outcome::Done(Ok(va)) => match eval_spec(&self.right(), ctx.state@, ctx.graph) {
                    Outcome::Done(Err(m)) => x matches Err(e) && e.model() == m,
                    Outcome::Done(Ok(vb)) => x matches Ok(p) && p.0.model() == va && p.1.model()
                        == vb,
                    Outcome::FloatDependent(_) => x matches Ok(p) ==> p.0.model() == va && float_result(p.1),
                    Outcome::Overflow => true,
                },
                Outcome::FloatDependent(_) => x matches Ok(p) ==> float_result(p.0),
                Outcome::Overflow => true,
            },
        decreases self, 0nat,
    {
        let (a, b) = match self {
            Expression::Eq(a, b) => (a, b),
            Expression::NotEq(a, b) => (a, b),
            Expression::Lt(a, b) => (a, b),
            Expression::Lte(a, b) => (a, b),
            Expression::Gt(a, b) => (a, b),
            Expression::Gte(a, b) => (a, b),
            Expression::Add(a, b) => (a, b),
            Expression::Sub(a, b) => (a, b),
            Expression::Mul(a, b) => (a, b),
            Expression::Div(a, b) => (a, b),
            _ => {
                return Some(Err(CoreError::InvalidFloatState));
            },
        };
        let va = match a.try_eval(ctx, arith) {
            Some(Ok(v)) => v,
            Some(Err(e)) => {
                return Some(Err(e));
            },
            None => {
                return None;
            },
        };
        let vb = match b.try_eval(ctx, arith) {
            Some(Ok(v)) => v,
            Some(Err(e)) => {
                return Some(Err(e));
            },
            None => {
                return None;
            },
        };
        Some(Ok((va, vb)))
    }

    /// Evaluate argument `i` of a call, if there is one; an error counts as
    /// no value.  `None` where an integer result leaves the range of `i64`.
    fn eval_arg<F: FloatArith + ?Sized>(&self, i: usize, ctx: &EvalContext, arith: &F) -> (r: Option<
        Option<Value>,
    >)
        requires
            self is Call,
        ensures
            i >= self->args@.len() ==> r == Some(None::<Value>),
            r is None ==> i < self->args@.len() && eval_spec(&self->args@[i as int], ctx.state@, ctx.graph) is Overflow,
            i < self->args@.len() ==> match eval_spec(&self->args@[i as int], ctx.state@, ctx.graph) {
                Outcome::Done(Ok(v)) => r matches Some(Some(x)) && x.model() == v,
                Outcome::Done(Err(_)) => r matches Some(None),
                Outcome::FloatDependent(_) => r matches Some(Some(x)) ==> float_result(x),
                Outcome::Overflow => true,
            },
        decreases self, 0nat,
    {
        match self {
            Expression::Call { name: _, args } => {
                if i < args.len() {
                    match args[i].try_eval(ctx, arith) {
                        Some(Ok(v)) => Some(Some(v)),
                        Some(Err(_)) => Some(None),
                        None => None,
                    }
                } else {
                    Some(None)
                }
            },
            _ => Some(None),
        }
    }

    /// Evaluate a call of one of the built-in functions.
    fn eval_call<F: FloatArith + ?Sized>(&self, name: &String, ctx: &EvalContext, arith: &F) -> (r: Option<
        Result<Value, CoreError>,
    >)
        requires
            self is Call,
            name@ == self->name@,
        ensures
            r is None ==> eval_spec(self, ctx.state@, ctx.graph) is Overflow,
            r matches Some(x) ==> meets(x, eval_spec(self, ctx.state@, ctx.graph)),
        decreases self, 1nat,
    {
        let ghost args = self->args;
        let ghost o0 = if args@.len() > 0 {
            eval_spec(&args@[0], ctx.state@, ctx.graph)
        } else {
            ok_value(ValueModel::Null)
        };
        let ghost o1 = if args@.len() > 1 {
            eval_spec(&args@[1], ctx.state@, ctx.graph)
        } else {
            ok_value(ValueModel::Null)
        };
        assert(eval_spec(self, ctx.state@, ctx.graph) == call_outcome(name@, o0, o1, ctx.state@, ctx.graph));
        if string_eq_str(name, "random") {
            let a0 = match self.eval_arg(0, ctx, arith) {
                Some(a) => a,
                None => {
                    return None;
                },
            };
            let a1 = match self.eval_arg(1, ctx, arith) {
                Some(a) => a,
                None => {
                    return None;
                },
            };
            let low: i64 = match a0 {
                Some(v) => match v.as_int() {
                    Some(i) => i,
                    None => 0,
                },
                None => 0,
            };
            let high: i64 = match a1 {
                Some(v) => match v.as_int() {
                    Some(i) => i,
                    None => 1,
                },
                None => 1,
            };
            assert(!(o0 is Overflow) ==> low == arg_int(o0, 0));
            assert(!(o1 is Overflow) ==> high == arg_int(o1, 1));
            if high > low {
                let span = match high.checked_sub(low) {
                    Some(d) => d,
                    None => {
                        return None;
                    },
                };
                return Some(Ok(Value::Int(low + span / 2)));
            }
            return Some(Ok(Value::Int(low)));
        }
        let known = string_eq_str(name, "has_tag") || string_eq_str(name, "visited")
            || string_eq_str(name, "count");
        if !known {
            return Some(Err(CoreError::Expression(concat2("unknown function: ", name.as_str()))));
        }
        let arg = match self.eval_arg(0, ctx, arith) {
            Some(a) => a,
            None => {
                return None;
            },
        };
        proof {
            reveal_strlit("");
        }
        let key: &str = match &arg {
            Some(v) => match v.as_str() {
                Some(t) => t,
                None => "",
            },
            None => "",
        };
        assert(!(o0 is Overflow) ==> key@ == arg_str(o0));
        if string_eq_str(name, "has_tag") {
            Some(Ok(Value::Bool(ctx.state.has_tag(key, ctx.graph))))
        } else if string_eq_str(name, "visited") {
            Some(Ok(Value::Bool(ctx.state.is_visited(key))))
        } else {
            let n = ctx.state.visit_count_of(key);
            let c: i64 = if n > 9223372036854775807u64 {
                9223372036854775807i64
            } else {
                n as i64
            };
            Some(Ok(Value::Int(c)))
        }
    }

    /// Evaluate this expression; `None` where an integer operation leaves the
    /// range of `i64`, which can happen only where the outcome is `Overflow`.
    pub fn try_eval<F: FloatArith + ?Sized>(&self, ctx: &EvalContext, arith: &F) -> (r: Option<
        Result<Value, CoreError>,
    >)
        ensures
            r is None ==> eval_spec(self, ctx.state@, ctx.graph) is Overflow,
            r matches Some(x) ==> meets(x, eval_spec(self, ctx.state@, ctx.graph)),
            eval_spec(self, ctx.state@, ctx.graph) == Outcome::FloatDependent(FloatKind::Compare) ==> (
            r matches Some(x) && float_comparison_result(
                arith,
                self,
                done_value(eval_spec(&self.left(), ctx.state@, ctx.graph)),
                done_value(eval_spec(&self.right(), ctx.state@, ctx.graph)),
                x,
            )),
            eval_spec(self, ctx.state@, ctx.graph) == Outcome::FloatDependent(FloatKind::Number) ==> (
            r matches Some(x) && float_arith_result(
                arith,
                self,
                done_value(eval_spec(&self.left(), ctx.state@, ctx.graph)),
                done_value(eval_spec(&self.right(), ctx.state@, ctx.graph)),
                x,
            )),
        decreases self, 2nat,
    {
        match self {
            Expression::Literal(v) => Some(Ok(v.copy())),
            Expression::StateVar(p) => match ctx.state.get(p.as_str(), Scope::Global) {
                Some(v) => Some(Ok(v.copy())),
                None => Some(
                    Err(CoreError::Expression(concat2("state variable not found: ", p.as_str()))),
                ),
            },
            Expression::Not(a) => match a.try_eval(ctx, arith) {
                Some(Ok(v)) => Some(Ok(Value::Bool(!is_true(&v)))),
                other => other,
            },
            Expression::And(a, b) => {
                let va = match a.try_eval(ctx, arith) {
                    Some(Ok(v)) => v,
                    other => {
                        return other;
                    },
                };
                if !is_true(&va) {
                    return Some(Ok(Value::Bool(false)));
                }
                match b.try_eval(ctx, arith) {
                    Some(Ok(v)) => Some(Ok(Value::Bool(is_true(&v)))),
                    other => other,
                }
            },
            Expression::Or(a, b) => {
                let va = match a.try_eval(ctx, arith) {
                    Some(Ok(v)) => v,
                    other => {
                        return other;
                    },
                };
                if is_true(&va) {
                    return Some(Ok(Value::Bool(true)));
                }
                match b.try_eval(ctx, arith) {
                    Some(Ok(v)) => Some(Ok(Value::Bool(is_true(&v)))),
                    other => other,
                }
            },
            Expression::Call { name, args: _ } => self.eval_call(name, ctx, arith),
            _ => match self.eval_operands(ctx, arith) {
                Some(Ok((va, vb))) => self.apply_binary(&va, &vb, arith),
                Some(Err(e)) => Some(Err(e)),
                None => None,
            },
        }
    }

    /// Evaluate this expression against the given runtime context.
    pub fn eval<F: FloatArith + ?Sized>(&self, ctx: &EvalContext, arith: &F) -> (r: Result<Value, CoreError>)
        requires
            !(eval_spec(self, ctx.state@, ctx.graph) is Overflow),
        ensures
            meets(r, eval_spec(self, ctx.state@, ctx.graph)),
            eval_spec(self, ctx.state@, ctx.graph) == Outcome::FloatDependent(FloatKind::Compare)
                ==> float_comparison_result(
                arith,
                self,
                done_value(eval_spec(&self.left(), ctx.state@, ctx.graph)),
                done_value(eval_spec(&self.right(), ctx.state@, ctx.graph)),
                r,
            ),
            eval_spec(self, ctx.state@, ctx.graph) == Outcome::FloatDependent(FloatKind::Number)
                ==> float_arith_result(
                arith,
                self,
                done_value(eval_spec(&self.left(), ctx.state@, ctx.graph)),
                done_value(eval_spec(&self.right(), ctx.state@, ctx.graph)),
                r,
            ),
    {
        match self.try_eval(ctx, arith) {
            Some(r) => r,
            None => Err(CoreError::InvalidFloatState),
        }
    }
}

/// An arithmetic operator on operand values that are not both integers
/// (and, for `/`, a divisor that is not zero) is float arithmetic: what `eval`
/// gives is then the `FloatArith`'s result on the left operand and the right
/// one, in that order (`float_arith_result`).
pub proof fn law_float_arithmetic(e: &Expression, st: StateModel, graph: Option<&PassageGraph>, a: ValueModel, b: ValueModel)
    requires
        e is Add || e is Sub || e is Mul || e is Div,
        eval_spec(&e.left(), st, graph) == Outcome::Done(Ok(a)),
        eval_spec(&e.right(), st, graph) == Outcome::Done(Ok(b)),
        !(a is Int && b is Int),
        e is Div ==> !divisor_zero(b),
    ensures
        eval_spec(e, st, graph) == Outcome::FloatDependent(FloatKind::Number),
        done_value(eval_spec(&e.left(), st, graph)) == a,
        done_value(eval_spec(&e.right(), st, graph)) == b,
{
}

/// A comparison of an integer with a float, either way round, is float
/// arithmetic: what `eval` gives is then the order of the left operand's
/// float bits and the right one's, in that order (`float_comparison_result`).
pub proof fn law_mixed_comparison(e: &Expression, st: StateModel, graph: Option<&PassageGraph>, a: ValueModel, b: ValueModel)
    requires
        e is Lt || e is Lte || e is Gt || e is Gte,
        eval_spec(&e.left(), st, graph) == Outcome::Done(Ok(a)),
        eval_spec(&e.right(), st, graph) == Outcome::Done(Ok(b)),
        (a is Int && b is Float) || (a is Float && b is Int),
    ensures
        eval_spec(e, st, graph) == Outcome::FloatDependent(FloatKind::Compare),
        done_value(eval_spec(&e.left(), st, graph)) == a,
        done_value(eval_spec(&e.right(), st, graph)) == b,
{
}

/// Structural equality of expressions; literals compare as values.
pub open spec fn expr_eq(a: Expression, b: Expression) -> bool
    decreases a,
{
    match (a, b) {
        (Expression::Literal(x), Expression::Literal(y)) => model_eq(x.model(), y.model()),
        (Expression::StateVar(x), Expression::StateVar(y)) => x@ == y@,
        (Expression::Not(x), Expression::Not(y)) => expr_eq(*x, *y),
        (Expression::And(a1, a2), Expression::And(b1, b2)) => expr_eq(*a1, *b1) && expr_eq(*a2, *b2),
        (Expression::Or(a1, a2), Expression::Or(b1, b2)) => expr_eq(*a1, *b1) && expr_eq(*a2, *b2),
        (Expression::Eq(a1, a2), Expression::Eq(b1, b2)) => expr_eq(*a1, *b1) && expr_eq(*a2, *b2),
        (Expression::NotEq(a1, a2), Expression::NotEq(b1, b2)) => expr_eq(*a1, *b1) && expr_eq(*a2, *b2),
        (Expression::Lt(a1, a2), Expression::Lt(b1, b2)) => expr_eq(*a1, *b1) && expr_eq(*a2, *b2),
        (Expression::Lte(a1, a2), Expression::Lte(b1, b2)) => expr_eq(*a1, *b1) && expr_eq(*a2, *b2),
        (Expression::Gt(a1, a2), Expression::Gt(b1, b2)) => expr_eq(*a1, *b1) && expr_eq(*a2, *b2),
        (Expression::Gte(a1, a2), Expression::Gte(b1, b2)) => expr_eq(*a1, *b1) && expr_eq(*a2, *b2),
        (Expression::Add(a1, a2), Expression::Add(b1, b2)) => expr_eq(*a1, *b1) && expr_eq(*a2, *b2),
        (Expression::Sub(a1, a2), Expression::Sub(b1, b2)) => expr_eq(*a1, *b1) && expr_eq(*a2, *b2),
        (Expression::Mul(a1, a2), Expression::Mul(b1, b2)) => expr_eq(*a1, *b1) && expr_eq(*a2, *b2),
        (Expression::Div(a1, a2), Expression::Div(b1, b2)) => expr_eq(*a1, *b1) && expr_eq(*a2, *b2),
        (Expression::Call { name: n1, args: a1 }, Expression::Call { name: n2, args: a2 }) => {
            &&& n1@ == n2@
            &&& a1@.len() == a2@.len()
            &&& forall|i: int| 0 <= i < a1@.len() ==> expr_eq(#[trigger] a1@[i], a2@[i])
        },
        _ => false,
    }
}

/// Every expression equals itself.
pub proof fn law_expr_eq_reflexive(e: Expression)
    ensures
        expr_eq(e, e),
    decreases e,
{
    match e {
        Expression::Literal(v) => law_value_eq_reflexive(v.model()),
        Expression::StateVar(_) => {},
        Expression::Not(x) => law_expr_eq_reflexive(*x),
        Expression::And(a, b) | Expression::Or(a, b) | Expression::Eq(a, b) | Expression::NotEq(a, b)
        | Expression::Lt(a, b) | Expression::Lte(a, b) | Expression::Gt(a, b) | Expression::Gte(a, b)
        | Expression::Add(a, b) | Expression::Sub(a, b) | Expression::Mul(a, b) | Expression::Div(
            a,
            b,
        ) => {
            law_expr_eq_reflexive(*a);
            law_expr_eq_reflexive(*b);
        },
        Expression::Call { name, args } => {
            assert forall|i: int| 0 <= i < args@.len() implies expr_eq(
                #[trigger] args@[i],
                args@[i],
            ) by {
                law_expr_eq_reflexive(args@[i]);
            }
        },
    }
}

impl Expression {
    /// Whether this expression equals `other` (the relation `==`).
    pub fn equals(&self, other: &Expression) -> (r: bool)
        ensures
            r == expr_eq(*self, *other),
        decreases self,
    {
        match (self, other) {
            (Expression::Literal(x), Expression::Literal(y)) => x.equals(y),
            (Expression::StateVar(x), Expression::StateVar(y)) => string_eq(x, y),
            (Expression::Not(x), Expression::Not(y)) => x.equals(y),
            (Expression::And(a1, a2), Expression::And(b1, b2)) => a1.equals(b1) && a2.equals(b2),
            (Expression::Or(a1, a2), Expression::Or(b1, b2)) => a1.equals(b1) && a2.equals(b2),
            (Expression::Eq(a1, a2), Expression::Eq(b1, b2)) => a1.equals(b1) && a2.equals(b2),
            (Expression::NotEq(a1, a2), Expression::NotEq(b1, b2)) => a1.equals(b1) && a2.equals(b2),
            (Expression::Lt(a1, a2), Expression::Lt(b1, b2)) => a1.equals(b1) && a2.equals(b2),
            (Expression::Lte(a1, a2), Expression::Lte(b1, b2)) => a1.equals(b1) && a2.equals(b2),
            (Expression::Gt(a1, a2), Expression::Gt(b1, b2)) => a1.equals(b1) && a2.equals(b2),
            (Expression::Gte(a1, a2), Expression::Gte(b1, b2)) => a1.equals(b1) && a2.equals(b2),
            (Expression::Add(a1, a2), Expression::Add(b1, b2)) => a1.equals(b1) && a2.equals(b2),
            (Expression::Sub(a1, a2), Expression::Sub(b1, b2)) => a1.equals(b1) && a2.equals(b2),
            (Expression::Mul(a1, a2), Expression::Mul(b1, b2)) => a1.equals(b1) && a2.equals(b2),
            (Expression::Div(a1, a2), Expression::Div(b1, b2)) => a1.equals(b1) && a2.equals(b2),
            (Expression::Call { name: n1, args: a1 }, Expression::Call { name: n2, args: a2 }) => {
                if !string_eq(n1, n2) || a1.len() != a2.len() {
                    return false;
                }
                let mut i: usize = 0;
                while i < a1.len()
                    invariant
                        i <= a1.len(),
                        a1.len() == a2.len(),
                        *self == (Expression::Call { name: *n1, args: *a1 }),
                        *other == (Expression::Call { name: *n2, args: *a2 }),
                        n1@ == n2@,
                        forall|j: int| 0 <= j < i ==> expr_eq(#[trigger] a1@[j], a2@[j]),
                    decreases a1.len() - i,
                {
                    proof {
                        assert(decreases_to!(*self => self->args));
                        assert(decreases_to!(self->args => self->args@));
                        assert(decreases_to!(self->args@ => self->args@[i as int]));
                    }
                    if !a1[i].equals(&a2[i]) {
                        assert(!expr_eq(a1@[i as int], a2@[i as int]));
                        return false;
                    }
                    i = i + 1;
                }
                true
            },
            _ => false,
        }
    }
}

impl PartialEq for Expression {
    fn eq(&self, other: &Expression) -> (r: bool) {
        self.equals(other)
    }
}

impl vstd::std_specs::cmp::PartialEqSpecImpl for Expression {
    open spec fn obeys_eq_spec() -> bool {
        true
    }

    open spec fn eq_spec(&self, other: &Expression) -> bool {
        expr_eq(*self, *other)
    }
}

} // verus!
