//! The value type of all engine state.
//!
//! A float is held as the bit pattern of an IEEE-754 binary64 number; the
//! arithmetic on such numbers is handed to a `FloatArith` supplied by the
//! caller.  Objects are association lists whose keys occur once each.
use vstd::prelude::*;
use crate::text::{
    int_text, int_to_string, join_texts, push_str,
    chars_eq, parse_usize, parse_usize_chars, seqs_of, split_chars, split_on, str_chars, string_chars,
    string_eq, string_of, lemma_split_on_nonempty,
};

verus! {

/// Floating-point work that the library hands to its caller.  Every argument
/// and result is the bit pattern of an IEEE-754 binary64 number.
pub trait FloatArith {
    /// The number nearest to `i`.
    fn float_from_int(&self, i: i64) -> u64;

    /// `a + b`.
    fn float_add(&self, a: u64, b: u64) -> u64;

    /// `a - b`.
    fn float_sub(&self, a: u64, b: u64) -> u64;

    /// `a * b`.
    fn float_mul(&self, a: u64, b: u64) -> u64;

    /// `a / b`.
    fn float_div(&self, a: u64, b: u64) -> u64;

    /// The number that the text of a decimal literal denotes (text that
    /// `str::parse::<f64>` accepts).
    fn float_parse(&self, s: &str) -> u64;

    /// The shortest decimal text that reads back as `a` (`Display`).
    fn float_format(&self, a: u64) -> String;

    /// The text that `Debug` writes for `a`.
    fn float_debug(&self, a: u64) -> String;
}

/// Variable scope.
#[derive(Debug, Clone, Copy, PartialEq, Eq, Structural)]
pub enum Scope {
    /// Persists across passages; serialized in save files.
    Global,
    /// Cleared on the next passage navigation.
    Temp,
}

/// The fundamental value type for all engine state.
#[derive(Debug)]
pub enum Value {
    Null,
    Bool(bool),
    Int(i64),
    /// IEEE-754 binary64 bit pattern of a finite number.
    Float(u64),
    String(String),
    Array(Vec<Value>),
    /// Entries of an object, each key once.
    Object(Vec<(String, Value)>),
}

/// The mathematical content of a `Value`.
pub enum ValueModel {
    Null,
    Bool(bool),
    Int(i64),
    Float(u64),
    Str(Seq<char>),
    Array(Seq<ValueModel>),
    Object(Seq<(Seq<char>, ValueModel)>),
}

impl Value {
    pub open spec fn model(&self) -> ValueModel
        decreases self,
    {
        match self {
            Value::Null => ValueModel::Null,
            Value::Bool(b) => ValueModel::Bool(*b),
            Value::Int(i) => ValueModel::Int(*i),
            Value::Float(f) => ValueModel::Float(*f),
            Value::String(s) => ValueModel::Str(s@),
            Value::Array(a) => ValueModel::Array(
                Seq::new(
                    a@.len(),
                    |i: int|
                        if 0 <= i < a@.len() {
                            a@[i].model()
                        } else {
                            ValueModel::Null
                        },
                ),
            ),
            Value::Object(o) => ValueModel::Object(
                Seq::new(
                    o@.len(),
                    |i: int|
                        if 0 <= i < o@.len() {
                            (o@[i].0@, o@[i].1.model())
                        } else {
                            (Seq::empty(), ValueModel::Null)
                        },
                ),
            ),
        }
    }
}

// ── floats ──────────────────────────────────────────────────────────────

/// The bit pattern is neither a NaN nor an infinity.
pub open spec fn float_finite(bits: u64) -> bool {
    (bits >> 52u64) & 0x7ffu64 != 0x7ffu64
}

/// The sign bit of the pattern is set.
pub open spec fn float_negative(bits: u64) -> bool {
    bits >= 0x8000_0000_0000_0000u64
}

/// The text is a number literal written with a leading `-`.
pub open spec fn minus_text(t: Seq<char>) -> bool {
    t.len() > 0 && t[0] == '-'
}

/// `b` is what a decimal literal `t` denotes by the `FloatArith`: the
/// `FloatArith`'s parse of the text after a leading `-`, with the sign that
/// the `-` (or its absence) gives.
pub open spec fn float_parsed<F: FloatArith + ?Sized>(arith: &F, t: Seq<char>, b: u64) -> bool {
    &&& float_negative(b) <==> minus_text(t)
    &&& exists|u: &str, z: u64|
        u@ == (if minus_text(t) { t.skip(1) } else { t }) && #[trigger] call_ensures(F::float_parse, (arith, u), z)
            && b & 0x7fff_ffff_ffff_ffffu64 == z & 0x7fff_ffff_ffff_ffffu64
}

/// `v` is the value of the decimal literal `t`: the float that the
/// `FloatArith` reads from it (`float_parsed`) where that is finite, else null.
pub open spec fn float_read<F: FloatArith + ?Sized>(arith: &F, t: Seq<char>, v: Value) -> bool {
    exists|b: u64| #[trigger] float_parsed(arith, t, b) && if float_finite(b) {
        v == Value::Float(b)
    } else {
        v is Null
    }
}

/// The bits of the number that a decimal literal denotes: the text after a
/// leading `-` goes to the `FloatArith`, and the sign is the literal's.
pub fn parse_float_bits<F: FloatArith + ?Sized>(text: &str, arith: &F) -> (r: u64)
    ensures
        float_parsed(arith, text@, r),
{
    let cs = str_chars(text);
    if cs.len() > 0 && cs[0] == '-' {
        let rest = string_of(&crate::text::sub_chars(&cs, 1, cs.len()));
        assert(rest@ =~= text@.skip(1));
        let u = rest.as_str();
        let z = arith.float_parse(u);
        let r = (z & 0x7fff_ffff_ffff_ffffu64) | 0x8000_0000_0000_0000u64;
        assert(r >= 0x8000_0000_0000_0000u64 && r & 0x7fff_ffff_ffff_ffffu64 == z & 0x7fff_ffff_ffff_ffffu64)
            by (bit_vector)
            requires
                r == (z & 0x7fff_ffff_ffff_ffffu64) | 0x8000_0000_0000_0000u64,
        ;
        assert(call_ensures(F::float_parse, (arith, u), z));
        r
    } else {
        let z = arith.float_parse(text);
        let r = z & 0x7fff_ffff_ffff_ffffu64;
        assert(r < 0x8000_0000_0000_0000u64 && r & 0x7fff_ffff_ffff_ffffu64 == z & 0x7fff_ffff_ffff_ffffu64)
            by (bit_vector)
            requires
                r == z & 0x7fff_ffff_ffff_ffffu64,
        ;
        assert(call_ensures(F::float_parse, (arith, text), z));
        r
    }
}

/// The bit pattern is +0 or -0.
pub open spec fn float_zero(bits: u64) -> bool {
    bits & 0x7fff_ffff_ffff_ffffu64 == 0
}

/// The bit pattern is a NaN.
pub open spec fn float_nan(bits: u64) -> bool {
    (bits >> 52u64) & 0x7ffu64 == 0x7ffu64 && bits & 0x000f_ffff_ffff_ffffu64 != 0
}

/// Equality of numbers as `OrderedFloat` has it: +0 equals -0, and every
/// NaN equals every NaN.
pub open spec fn float_eq(a: u64, b: u64) -> bool {
    if float_nan(a) || float_nan(b) {
        float_nan(a) && float_nan(b)
    } else {
        a == b || (float_zero(a) && float_zero(b))
    }
}

/// Order of numbers as `OrderedFloat` has it, -1, 0 or 1: the usual order,
/// with NaN above everything and equal to itself.
pub open spec fn float_order(a: u64, b: u64) -> int {
    if float_nan(a) || float_nan(b) {
        if float_nan(a) && float_nan(b) {
            0
        } else if float_nan(a) {
            1
        } else {
            -1
        }
    } else {
        float_order_numbers(a, b)
    }
}

/// Order of two non-NaN numbers: -1, 0 or 1.
pub open spec fn float_order_numbers(a: u64, b: u64) -> int {
    let sa = a >> 63u64;
    let sb = b >> 63u64;
    let ma = a & 0x7fff_ffff_ffff_ffffu64;
    let mb = b & 0x7fff_ffff_ffff_ffffu64;
    if ma == 0 && mb == 0 {
        0
    } else if sa == 0 && sb == 0 {
        if ma < mb {
            -1
        } else if ma == mb {
            0
        } else {
            1
        }
    } else if sa != 0 && sb != 0 {
        if ma > mb {
            -1
        } else if ma == mb {
            0
        } else {
            1
        }
    } else if sa == 0 {
        1
    } else {
        -1
    }
}

pub fn float_is_finite(bits: u64) -> (r: bool)
    ensures
        r == float_finite(bits),
{
    (bits >> 52u64) & 0x7ffu64 != 0x7ffu64
}

pub fn float_is_zero(bits: u64) -> (r: bool)
    ensures
        r == float_zero(bits),
{
    bits & 0x7fff_ffff_ffff_ffffu64 == 0
}

pub fn float_is_nan(bits: u64) -> (r: bool)
    ensures
        r == float_nan(bits),
{
    (bits >> 52u64) & 0x7ffu64 == 0x7ffu64 && bits & 0x000f_ffff_ffff_ffffu64 != 0
}

/// The order of two numbers, as `OrderedFloat::cmp` gives it.
pub fn float_order_exec(a: u64, b: u64) -> (r: i8)
    ensures
        r as int == float_order(a, b),
{
    let na = float_is_nan(a);
    let nb = float_is_nan(b);
    if na || nb {
        return if na && nb {
            0
        } else if na {
            1
        } else {
            -1
        };
    }
    let sa = a >> 63u64;
    let sb = b >> 63u64;
    let ma = a & 0x7fff_ffff_ffff_ffffu64;
    let mb = b & 0x7fff_ffff_ffff_ffffu64;
    if ma == 0 && mb == 0 {
        0
    } else if sa == 0 && sb == 0 {
        if ma < mb {
            -1
        } else if ma == mb {
            0
        } else {
            1
        }
    } else if sa != 0 && sb != 0 {
        if ma > mb {
            -1
        } else if ma == mb {
            0
        } else {
            1
        }
    } else if sa == 0 {
        1
    } else {
        -1
    }
}

// ── object entries ──────────────────────────────────────────────────────

/// `i` is the first entry of `e` with key `k`.
pub open spec fn key_first(e: Seq<(Seq<char>, ValueModel)>, k: Seq<char>, i: int) -> bool {
    &&& 0 <= i < e.len()
    &&& e[i].0 == k
    &&& forall|j: int| 0 <= j < i ==> e[j].0 != k
}

/// Index of the entry that a lookup of `k` finds.
pub open spec fn key_index(e: Seq<(Seq<char>, ValueModel)>, k: Seq<char>) -> Option<int> {
    if exists|i: int| key_first(e, k, i) {
        Some(choose|i: int| key_first(e, k, i))
    } else {
        None
    }
}

/// The value stored under `k`.
pub open spec fn lookup(e: Seq<(Seq<char>, ValueModel)>, k: Seq<char>) -> Option<ValueModel> {
    match key_index(e, k) {
        Some(i) => Some(e[i].1),
        None => None,
    }
}

/// Store `v` under `k`: replace the entry for `k`, or add one at the end.
pub open spec fn obj_insert(e: Seq<(Seq<char>, ValueModel)>, k: Seq<char>, v: ValueModel) -> Seq<
    (Seq<char>, ValueModel),
> {
    match key_index(e, k) {
        Some(i) => e.update(i, (k, v)),
        None => e.push((k, v)),
    }
}

/// Remove the entry for `k`.
pub open spec fn obj_remove(e: Seq<(Seq<char>, ValueModel)>, k: Seq<char>) -> Seq<
    (Seq<char>, ValueModel),
> {
    match key_index(e, k) {
        Some(i) => e.remove(i),
        None => e,
    }
}

/// No key occurs twice.
pub open spec fn keys_unique(e: Seq<(Seq<char>, ValueModel)>) -> bool {
    forall|i: int, j: int| 0 <= i < j < e.len() ==> e[i].0 != e[j].0
}

pub proof fn lemma_key_index_at(e: Seq<(Seq<char>, ValueModel)>, k: Seq<char>, i: int)
    requires
        key_first(e, k, i),
    ensures
        key_index(e, k) == Some(i),
{
    let m = choose|m: int| key_first(e, k, m);
    assert(key_first(e, k, m));
    if m < i {
        assert(e[m].0 != k);
    }
    if i < m {
        assert(e[i].0 != k);
    }
}

// ── equality ────────────────────────────────────────────────────────────

/// Equality of values: floats compare as numbers and objects as maps.
pub open spec fn model_eq(a: ValueModel, b: ValueModel) -> bool
    decreases a,
{
    match (a, b) {
        (ValueModel::Float(x), ValueModel::Float(y)) => float_eq(x, y),
        (ValueModel::Array(x), ValueModel::Array(y)) => x.len() == y.len() && forall|i: int|
            0 <= i < x.len() ==> model_eq(#[trigger] x[i], y[i]),
        (ValueModel::Object(x), ValueModel::Object(y)) => {
            &&& forall|j: int| #![trigger y[j]] 0 <= j < y.len() ==> key_index(x, y[j].0) is Some
            &&& forall|i: int|
                #![trigger x[i]]
                key_first(x, x[i].0, i) ==> exists|j: int|
                    key_first(y, x[i].0, j) && model_eq(x[i].1, #[trigger] y[j].1)
        },
        (ValueModel::Str(x), ValueModel::Str(y)) => x == y,
        (ValueModel::Bool(x), ValueModel::Bool(y)) => x == y,
        (ValueModel::Int(x), ValueModel::Int(y)) => x == y,
        (ValueModel::Null, ValueModel::Null) => true,
        _ => false,
    }
}

impl Value {
    proof fn lemma_array_model(&self, i: int)
        requires
            self is Array,
            0 <= i < self->Array_0@.len(),
        ensures
            self.model() matches ValueModel::Array(s) && s.len() == self->Array_0@.len() && s[i]
                == self->Array_0@[i].model(),
    {
    }

    proof fn lemma_object_model(&self, i: int)
        requires
            self is Object,
            0 <= i < self->Object_0@.len(),
        ensures
            self.model() matches ValueModel::Object(s) && s.len() == self->Object_0@.len() && s[i]
                == (self->Object_0@[i].0@, self->Object_0@[i].1.model()),
    {
    }

    /// Index of the entry for `key` in an object's entries.
    fn entry_index(entries: &Vec<(String, Value)>, key: &Vec<char>) -> (r: Option<usize>)
        ensures
            r matches Some(i) ==> key_index(Value::Object(*entries).model()->Object_0, key@) == Some(
                i as int,
            ),
            r is None ==> key_index(Value::Object(*entries).model()->Object_0, key@) is None,
    {
        let ghost e = Value::Object(*entries).model()->Object_0;
        let mut i: usize = 0;
        while i < entries.len()
            invariant
                i <= entries.len(),
                e == Value::Object(*entries).model()->Object_0,
                e.len() == entries.len(),
                forall|j: int| 0 <= j < i ==> e[j].0 != key@,
            decreases entries.len() - i,
        {
            proof {
                Value::Object(*entries).lemma_object_model(i as int);
            }
            let kc = string_chars(&entries[i].0);
            if chars_eq(&kc, key) {
                proof {
                    lemma_key_index_at(e, key@, i as int);
                }
                return Some(i);
            }
            i = i + 1;
        }
        None
    }

    /// Whether this value equals `other` (the relation `==` on values).
    pub fn equals(&self, other: &Value) -> (r: bool)
        ensures
            r == model_eq(self.model(), other.model()),
        decreases self,
    {
        match (self, other) {
            (Value::Null, Value::Null) => true,
            (Value::Bool(x), Value::Bool(y)) => *x == *y,
            (Value::Int(x), Value::Int(y)) => *x == *y,
            (Value::Float(x), Value::Float(y)) => {
                let nx = float_is_nan(*x);
                let ny = float_is_nan(*y);
                if nx || ny {
                    nx && ny
                } else {
                    *x == *y || (float_is_zero(*x) && float_is_zero(*y))
                }
            },
            (Value::String(x), Value::String(y)) => string_eq(x, y),
            (Value::Array(x), Value::Array(y)) => {
                if x.len() != y.len() {
                    return false;
                }
                let mut i: usize = 0;
                while i < x.len()
                    invariant
                        i <= x.len(),
                        x.len() == y.len(),
                        *self == Value::Array(*x),
                        *other == Value::Array(*y),
                        forall|j: int|
                            0 <= j < i ==> model_eq(
                                #[trigger] self.model()->Array_0[j],
                                other.model()->Array_0[j],
                            ),
                    decreases x.len() - i,
                {
                    proof {
                        self.lemma_array_model(i as int);
                        other.lemma_array_model(i as int);
                    }
                    if !x[i].equals(&y[i]) {
                        return false;
                    }
                    i = i + 1;
                }
                proof {
                    let sx = self.model()->Array_0;
                    let sy = other.model()->Array_0;
                    assert forall|j: int| 0 <= j < sx.len() implies model_eq(
                        #[trigger] sx[j],
                        sy[j],
                    ) by {}
                }
                true
            },
            (Value::Object(x), Value::Object(y)) => {
                let ghost ex = self.model()->Object_0;
                let ghost ey = other.model()->Object_0;
                // every key of `other` occurs in `self`
                let mut j: usize = 0;
                while j < y.len()
                    invariant
                        j <= y.len(),
                        *self == Value::Object(*x),
                        *other == Value::Object(*y),
                        ex == self.model()->Object_0,
                        ey == other.model()->Object_0,
                        ey.len() == y.len(),
                        forall|k: int| 0 <= k < j ==> key_index(ex, #[trigger] ey[k].0) is Some,
                    decreases y.len() - j,
                {
                    proof {
                        other.lemma_object_model(j as int);
                    }
                    let kc = string_chars(&y[j].0);
                    if Value::entry_index(x, &kc).is_none() {
                        return false;
                    }
                    j = j + 1;
                }
                // every first entry of `self` has an equal entry in `other`
                let mut i: usize = 0;
                while i < x.len()
                    invariant
                        i <= x.len(),
                        *self == Value::Object(*x),
                        *other == Value::Object(*y),
                        ex == self.model()->Object_0,
                        ey == other.model()->Object_0,
                        ex.len() == x.len(),
                        ey.len() == y.len(),
                        forall|k: int| #![trigger ey[k]] 0 <= k < ey.len() ==> key_index(ex, ey[k].0) is Some,
                        forall|k: int|
                            #![trigger ex[k]]
                            0 <= k < i ==> key_first(ex, ex[k].0, k) ==> exists|m: int|
                                key_first(ey, ex[k].0, m) && model_eq(ex[k].1, #[trigger] ey[m].1),
                    decreases x.len() - i,
                {
                    proof {
                        self.lemma_object_model(i as int);
                    }
                    let kc = string_chars(&x[i].0);
                    let first = Value::entry_index(x, &kc);
                    if first == Some(i) {
                        match Value::entry_index(y, &kc) {
                            None => {
                                proof {
                                    lemma_key_index_at(ex, ex[i as int].0, i as int);
                                    if exists|m: int| key_first(ey, ex[i as int].0, m) {
                                        let m = choose|m: int| key_first(ey, ex[i as int].0, m);
                                        lemma_key_index_at(ey, ex[i as int].0, m);
                                    }
                                }
                                return false;
                            },
                            Some(m) => {
                                proof {
                                    other.lemma_object_model(m as int);
                                }
                                if !x[i].1.equals(&y[m].1) {
                                    proof {
                                        lemma_key_index_at(ex, ex[i as int].0, i as int);
                                        assert forall|m2: int|
                                            key_first(ey, ex[i as int].0, m2) implies !model_eq(
                                            ex[i as int].1,
                                            ey[m2].1,
                                        ) by {
                                            lemma_key_index_at(ey, ex[i as int].0, m2);
                                        }
                                    }
                                    return false;
                                }
                                proof {
                                    assert(kc@ == ex[i as int].0);
                                    assert(exists|q: int| key_first(ey, kc@, q));
                                    let q = choose|q: int| key_first(ey, kc@, q);
                                    assert(q == m);
                                    assert(key_first(ey, ex[i as int].0, m as int));
                                    assert(model_eq(ex[i as int].1, ey[m as int].1));
                                }
                            },
                        }
                    } else {
                        proof {
                            if key_first(ex, ex[i as int].0, i as int) {
                                lemma_key_index_at(ex, ex[i as int].0, i as int);
                            }
                        }
                    }
                    i = i + 1;
                }
                true
            },
            _ => false,
        }
    }
}

impl PartialEq for Value {
    fn eq(&self, other: &Value) -> (r: bool) {
        self.equals(other)
    }
}

impl vstd::std_specs::cmp::PartialEqSpecImpl for Value {
    open spec fn obeys_eq_spec() -> bool {
        true
    }

    open spec fn eq_spec(&self, other: &Value) -> bool {
        model_eq(self.model(), other.model())
    }
}

// ── paths ───────────────────────────────────────────────────────────────

/// The child of `m` that one path segment names: an object key, or an array
/// index written in decimal.
pub open spec fn step_into(m: ValueModel, seg: Seq<char>) -> Option<ValueModel> {
    match m {
        ValueModel::Object(e) => lookup(e, seg),
        ValueModel::Array(a) => match parse_usize(seg) {
            Some(k) => if (k as int) < a.len() {
                Some(a[k as int])
            } else {
                None
            },
            None => None,
        },
        _ => None,
    }
}

/// The value reached by following the segments from `m`.
pub open spec fn get_segs(m: ValueModel, segs: Seq<Seq<char>>) -> Option<ValueModel>
    decreases segs.len(),
{
    if segs.len() == 0 {
        Some(m)
    } else {
        match step_into(m, segs[0]) {
            Some(c) => get_segs(c, segs.drop_first()),
            None => None,
        }
    }
}

/// `Value::get`: the value at a dotted path such as `player.inventory.0.name`;
/// the empty path names the value itself.
pub open spec fn get_path(m: ValueModel, path: Seq<char>) -> Option<ValueModel> {
    if path.len() == 0 {
        Some(m)
    } else {
        get_segs(m, split_on(path, '.'))
    }
}

/// Store `val` under the last segment: an object key is inserted or replaced;
/// an array index replaces an element or, one past the end, appends.
pub open spec fn set_last(m: ValueModel, seg: Seq<char>, val: ValueModel) -> Option<ValueModel> {
    match m {
        ValueModel::Object(e) => Some(ValueModel::Object(obj_insert(e, seg, val))),
        ValueModel::Array(a) => match parse_usize(seg) {
            Some(k) => if (k as int) < a.len() {
                Some(ValueModel::Array(a.update(k as int, val)))
            } else if k as int == a.len() {
                Some(ValueModel::Array(a.push(val)))
            } else {
                None
            },
            None => None,
        },
        _ => None,
    }
}

/// The value after storing `val` at the end of the segments; missing object
/// keys along the way hold new empty objects.
pub open spec fn set_segs(m: ValueModel, segs: Seq<Seq<char>>, val: ValueModel) -> Option<
    ValueModel,
>
    decreases segs.len(),
{
    if segs.len() == 0 {
        Some(val)
    } else if segs.len() == 1 {
        set_last(m, segs[0], val)
    } else {
        match m {
            ValueModel::Object(e) => {
                let child = match lookup(e, segs[0]) {
                    Some(c) => c,
                    None => ValueModel::Object(Seq::empty()),
                };
                match set_segs(child, segs.drop_first(), val) {
                    Some(c2) => Some(ValueModel::Object(obj_insert(e, segs[0], c2))),
                    None => None,
                }
            },
            ValueModel::Array(a) => match parse_usize(segs[0]) {
                Some(k) => if (k as int) < a.len() {
                    match set_segs(a[k as int], segs.drop_first(), val) {
                        Some(c2) => Some(ValueModel::Array(a.update(k as int, c2))),
                        None => None,
                    }
                } else {
                    None
                },
                None => None,
            },
            _ => None,
        }
    }
}

/// `Value::set`: the value after storing `val` at a dotted path, or `None`
/// when the path crosses a non-container or an array index that is out of
/// range or not a number.
pub open spec fn set_path(m: ValueModel, path: Seq<char>, val: ValueModel) -> Option<ValueModel> {
    if path.len() == 0 {
        Some(val)
    } else {
        set_segs(m, split_on(path, '.'), val)
    }
}

/// Models of object entries.
pub open spec fn entries_model(v: Seq<(String, Value)>) -> Seq<(Seq<char>, ValueModel)> {
    Seq::new(v.len(), |i: int| (v[i].0@, v[i].1.model()))
}

/// Models of array items.
pub open spec fn items_model(v: Seq<Value>) -> Seq<ValueModel> {
    Seq::new(v.len(), |i: int| v[i].model())
}

pub proof fn lemma_object_model(v: Vec<(String, Value)>)
    ensures
        Value::Object(v).model() == ValueModel::Object(entries_model(v@)),
{
    assert(Value::Object(v).model()->Object_0 =~= entries_model(v@));
}

pub proof fn lemma_array_model(v: Vec<Value>)
    ensures
        Value::Array(v).model() == ValueModel::Array(items_model(v@)),
{
    assert(Value::Array(v).model()->Array_0 =~= items_model(v@));
}

impl Value {
    /// A value with the same content.
    pub fn copy(&self) -> (r: Value)
        ensures
            r.model() == self.model(),
        decreases self,
    {
        match self {
            Value::Null => Value::Null,
            Value::Bool(b) => Value::Bool(*b),
            Value::Int(i) => Value::Int(*i),
            Value::Float(f) => Value::Float(*f),
            Value::String(s) => Value::String(s.clone()),
            Value::Array(a) => {
                let mut r: Vec<Value> = Vec::new();
                let mut i: usize = 0;
                while i < a.len()
                    invariant
                        i <= a.len(),
                        *self == Value::Array(*a),
                        items_model(r@) == items_model(a@).take(i as int),
                    decreases a.len() - i,
                {
                    proof {
                        lemma_array_model(*a);
                        self.lemma_array_model(i as int);
                    }
                    let c = a[i].copy();
                    let ghost old_r = r@;
                    assert(items_model(old_r).len() == i);
                    assert(old_r.len() == i);
                    r.push(c);
                    assert(r@ == old_r.push(c));
                    assert forall|j: int| 0 <= j < r@.len() implies #[trigger] items_model(r@)[j]
                        == items_model(a@).take(i + 1)[j] by {
                        if j < i {
                            assert(r@[j] == old_r[j]);
                            assert(items_model(old_r)[j] == items_model(a@).take(i as int)[j]);
                        }
                    }
                    assert(items_model(r@) =~= items_model(a@).take(i + 1));
                    i = i + 1;
                }
                proof {
                    lemma_array_model(*a);
                    lemma_array_model(r);
                    assert(items_model(a@).take(a.len() as int) =~= items_model(a@));
                }
                Value::Array(r)
            },
            Value::Object(o) => {
                let mut r: Vec<(String, Value)> = Vec::new();
                let mut i: usize = 0;
                while i < o.len()
                    invariant
                        i <= o.len(),
                        *self == Value::Object(*o),
                        entries_model(r@) == entries_model(o@).take(i as int),
                    decreases o.len() - i,
                {
                    proof {
                        lemma_object_model(*o);
                        self.lemma_object_model(i as int);
                    }
                    let k = o[i].0.clone();
                    let c = o[i].1.copy();
                    let ghost old_r = r@;
                    assert(entries_model(old_r).len() == i);
                    assert(old_r.len() == i);
                    r.push((k, c));
                    assert forall|j: int| 0 <= j < r@.len() implies #[trigger] entries_model(r@)[j]
                        == entries_model(o@).take(i + 1)[j] by {
                        if j < i {
                            assert(r@[j] == old_r[j]);
                            assert(entries_model(old_r)[j] == entries_model(o@).take(i as int)[j]);
                        }
                    }
                    assert(entries_model(r@) =~= entries_model(o@).take(i + 1));
                    i = i + 1;
                }
                proof {
                    lemma_object_model(*o);
                    lemma_object_model(r);
                    assert(entries_model(o@).take(o.len() as int) =~= entries_model(o@));
                }
                Value::Object(r)
            },
        }
    }

    /// Access a nested value by a dotted path such as `player.inventory.0.name`.
    pub fn get(&self, path: &str) -> (r: Option<&Value>)
        ensures
            r matches Some(v) ==> get_path(self.model(), path@) == Some(v.model()),
            r is None ==> get_path(self.model(), path@) is None,
    {
        let pc = str_chars(path);
        if pc.len() == 0 {
            return Some(self);
        }
        let segs = split_chars(&pc, '.');
        let ghost ss = seqs_of(segs@);
        let mut cur: &Value = self;
        let mut i: usize = 0;
        assert(ss.skip(0) =~= ss);
        while i < segs.len()
            invariant
                i <= segs.len(),
                ss == seqs_of(segs@),
                ss == split_on(path@, '.'),
                path@.len() > 0,
                get_segs(self.model(), ss) == get_segs(cur.model(), ss.skip(i as int)),
            decreases segs.len() - i,
        {
            assert(ss.skip(i as int).drop_first() =~= ss.skip(i + 1));
            assert(ss.skip(i as int)[0] == segs@[i as int]@);
            assert(ss.len() == segs.len());
            assert(ss.skip(i as int).len() > 0);
            let ghost seg = segs@[i as int]@;
            assert(get_segs(cur.model(), ss.skip(i as int)) == match step_into(cur.model(), seg) {
                Some(c) => get_segs(c, ss.skip(i + 1)),
                None => None,
            });
            let next: &Value = match cur {
                Value::Object(entries) => {
                    proof {
                        lemma_object_model(*entries);
                    }
                    match Value::entry_index(entries, &segs[i]) {
                        Some(j) => &entries[j].1,
                        None => {
                            assert(step_into(cur.model(), seg) is None);
                            return None;
                        },
                    }
                },
                Value::Array(items) => {
                    proof {
                        lemma_array_model(*items);
                    }
                    match parse_usize_chars(&segs[i]) {
                        Some(k) => {
                            if k < items.len() {
                                &items[k]
                            } else {
                                return None;
                            }
                        },
                        None => {
                            return None;
                        },
                    }
                },
                _ => {
                    assert(step_into(cur.model(), seg) is None);
                    return None;
                },
            };
            cur = next;
            i = i + 1;
        }
        assert(ss.skip(segs.len() as int) =~= Seq::<Seq<char>>::empty());
        Some(cur)
    }
}

impl Value {
    /// Store `val` under key `seg` of object entries (replacing or appending).
    fn entries_insert(entries: Vec<(String, Value)>, seg: &Vec<char>, val: Value) -> (r: Vec<
        (String, Value),
    >)
        ensures
            entries_model(r@) == obj_insert(entries_model(entries@), seg@, val.model()),
    {
        let mut entries = entries;
        let ghost e = entries_model(entries@);
        proof {
            lemma_object_model(entries);
        }
        match Value::entry_index(&entries, seg) {
            Some(j) => {
                let ghost before = entries@;
                let (_k, _old) = entries.remove(j);
                entries.insert(j, (string_of(seg), val));
                assert(entries@ =~= before.update(j as int, entries@[j as int]));
                assert(entries_model(entries@) =~= e.update(j as int, (seg@, val.model())));
            },
            None => {
                let ghost before = entries@;
                entries.push((string_of(seg), val));
                assert(entries_model(entries@) =~= e.push((seg@, val.model())));
            },
        }
        entries
    }

    /// Store `val` under the last path segment; `Err` gives back the value
    /// unchanged.
    fn set_last_owned(v: Value, seg: &Vec<char>, val: Value) -> (r: Result<Value, Value>)
        ensures
            r matches Ok(nv) ==> set_last(v.model(), seg@, val.model()) == Some(nv.model()),
            r matches Err(ov) ==> set_last(v.model(), seg@, val.model()) is None && ov.model()
                == v.model(),
    {
        match v {
            Value::Object(entries) => {
                proof {
                    lemma_object_model(entries);
                }
                let ne = Value::entries_insert(entries, seg, val);
                proof {
                    lemma_object_model(ne);
                }
                Ok(Value::Object(ne))
            },
            Value::Array(items) => {
                proof {
                    lemma_array_model(items);
                }
                let mut items = items;
                match parse_usize_chars(seg) {
                    Some(k) => {
                        if k < items.len() {
                            let ghost before = items@;
                            let _old = items.remove(k);
                            let ghost vm = val.model();
                            items.insert(k, val);
                            assert(items@ =~= before.update(k as int, items@[k as int]));
                            assert(items_model(items@) =~= items_model(before).update(k as int, vm));
                            proof {
                                lemma_array_model(items);
                            }
                            Ok(Value::Array(items))
                        } else if k == items.len() {
                            let ghost before = items@;
                            let ghost vm = val.model();
                            items.push(val);
                            assert(items_model(items@) =~= items_model(before).push(vm));
                            proof {
                                lemma_array_model(items);
                            }
                            Ok(Value::Array(items))
                        } else {
                            Err(Value::Array(items))
                        }
                    },
                    None => Err(Value::Array(items)),
                }
            },
            other => Err(other),
        }
    }

    /// Store `val` at the end of `segs[i..]` below `v`; `Err` gives back the
    /// value unchanged.
    fn set_segs_owned(v: Value, segs: &Vec<Vec<char>>, i: usize, val: Value) -> (r: Result<
        Value,
        Value,
    >)
        requires
            i < segs.len(),
        ensures
            r matches Ok(nv) ==> set_segs(v.model(), seqs_of(segs@).skip(i as int), val.model())
                == Some(nv.model()),
            r matches Err(ov) ==> set_segs(v.model(), seqs_of(segs@).skip(i as int), val.model())
                is None && ov.model() == v.model(),
        decreases segs.len() - i,
    {
        let ghost ss = seqs_of(segs@).skip(i as int);
        assert(ss[0] == segs@[i as int]@);
        assert(ss.drop_first() =~= seqs_of(segs@).skip(i + 1));
        if i + 1 == segs.len() {
            return Value::set_last_owned(v, &segs[i], val);
        }
        match v {
            Value::Object(entries) => {
                proof {
                    lemma_object_model(entries);
                }
                let ghost e = entries_model(entries@);
                let mut entries = entries;
                match Value::entry_index(&entries, &segs[i]) {
                    Some(j) => {
                        let ghost before = entries@;
                        assert(e[j as int] == (before[j as int].0@, before[j as int].1.model()));
                        let (k, child) = entries.remove(j);
                        match Value::set_segs_owned(child, segs, i + 1, val) {
                            Ok(c2) => {
                                let ghost c2m = c2.model();
                                entries.insert(j, (k, c2));
                                assert(entries@ =~= before.update(j as int, entries@[j as int]));
                                assert(entries_model(entries@) =~= obj_insert(e, segs@[i as int]@, c2m));
                                proof {
                                    lemma_object_model(entries);
                                }
                                Ok(Value::Object(entries))
                            },
                            Err(c) => {
                                entries.insert(j, (k, c));
                                assert(entries@ =~= before.update(j as int, entries@[j as int]));
                                assert(entries_model(entries@) =~= e);
                                proof {
                                    lemma_object_model(entries);
                                }
                                Err(Value::Object(entries))
                            },
                        }
                    },
                    None => {
                        let empty: Vec<(String, Value)> = Vec::new();
                        proof {
                            lemma_object_model(empty);
                            assert(entries_model(empty@) =~= Seq::empty());
                        }
                        let fresh = Value::Object(empty);
                        match Value::set_segs_owned(fresh, segs, i + 1, val) {
                            Ok(c2) => {
                                let ghost c2m = c2.model();
                                let ghost before = entries@;
                                entries.push((string_of(&segs[i]), c2));
                                assert(entries_model(entries@) =~= e.push((segs@[i as int]@, c2m)));
                                proof {
                                    lemma_object_model(entries);
                                }
                                Ok(Value::Object(entries))
                            },
                            Err(_c) => {
                                proof {
                                    lemma_object_model(entries);
                                }
                                Err(Value::Object(entries))
                            },
                        }
                    },
                }
            },
            Value::Array(items) => {
                proof {
                    lemma_array_model(items);
                }
                let ghost a = items_model(items@);
                let mut items = items;
                match parse_usize_chars(&segs[i]) {
                    Some(k) => {
                        if k < items.len() {
                            let ghost before = items@;
                            let child = items.remove(k);
                            match Value::set_segs_owned(child, segs, i + 1, val) {
                                Ok(c2) => {
                                    let ghost c2m = c2.model();
                                    items.insert(k, c2);
                                    assert(items@ =~= before.update(k as int, items@[k as int]));
                                    assert(items_model(items@) =~= a.update(k as int, c2m));
                                    proof {
                                        lemma_array_model(items);
                                    }
                                    Ok(Value::Array(items))
                                },
                                Err(c) => {
                                    items.insert(k, c);
                                    assert(items@ =~= before.update(k as int, items@[k as int]));
                                    assert(items_model(items@) =~= a);
                                    proof {
                                        lemma_array_model(items);
                                    }
                                    Err(Value::Array(items))
                                },
                            }
                        } else {
                            Err(Value::Array(items))
                        }
                    },
                    None => Err(Value::Array(items)),
                }
            },
            other => Err(other),
        }
    }

    /// Set a nested value, creating intermediate objects for missing keys.
    /// Returns `None`, and changes nothing, when the path crosses a value that
    /// is neither an object nor an array, or an array index that is not a
    /// number or lies beyond the end.
    pub fn set(&mut self, path: &str, val: Value) -> (r: Option<()>)
        ensures
            r is Some <==> set_path(old(self).model(), path@, val.model()) is Some,
            r is Some ==> set_path(old(self).model(), path@, val.model()) == Some(
                final(self).model(),
            ),
            r is None ==> final(self).model() == old(self).model(),
    {
        let pc = str_chars(path);
        if pc.len() == 0 {
            *self = val;
            return Some(());
        }
        let segs = split_chars(&pc, '.');
        assert(seqs_of(segs@).skip(0) =~= seqs_of(segs@));
        let mut cur = Value::Null;
        std::mem::swap(self, &mut cur);
        match Value::set_segs_owned(cur, &segs, 0, val) {
            Ok(nv) => {
                *self = nv;
                Some(())
            },
            Err(ov) => {
                *self = ov;
                None
            },
        }
    }

    /// Create a `Float`, returning `None` if the bits are a NaN or an infinity.
    pub fn float(bits: u64) -> (r: Option<Value>)
        ensures
            r is Some <==> float_finite(bits),
            r matches Some(v) ==> v == Value::Float(bits),
    {
        if float_is_finite(bits) {
            Some(Value::Float(bits))
        } else {
            None
        }
    }

    /// Interpret this value as an `i64`.
    pub fn as_int(&self) -> (r: Option<i64>)
        ensures
            r == (match *self {
                Value::Int(i) => Some(i),
                _ => None,
            }),
    {
        match self {
            Value::Int(i) => Some(*i),
            _ => None,
        }
    }

    /// Interpret this value as a `bool`.
    pub fn as_bool(&self) -> (r: Option<bool>)
        ensures
            r == (match *self {
                Value::Bool(b) => Some(b),
                _ => None,
            }),
    {
        match self {
            Value::Bool(b) => Some(*b),
            _ => None,
        }
    }

    /// Interpret this value as a `&str`.
    pub fn as_str(&self) -> (r: Option<&str>)
        ensures
            r is Some <==> self is String,
            r matches Some(s) ==> s@ == self->String_0@,
    {
        match self {
            Value::String(s) => Some(s.as_str()),
            _ => None,
        }
    }

    /// Interpret this value as a float: a `Float`'s own bits, or the number
    /// nearest to an `Int`.
    pub fn as_float<F: FloatArith + ?Sized>(&self, arith: &F) -> (r: Option<u64>)
        ensures
            r is Some <==> (self is Float || self is Int),
            self is Float ==> r == Some(self->Float_0),
            self matches Value::Int(i) ==> (r matches Some(x) && call_ensures(F::float_from_int, (arith, *i), x)),
    {
        match self {
            Value::Float(b) => Some(*b),
            Value::Int(i) => Some(arith.float_from_int(*i)),
            _ => None,
        }
    }
}

// ── display ─────────────────────────────────────────────────────────────

/// The value holds a float somewhere.
pub open spec fn has_float(m: ValueModel) -> bool
    decreases m,
{
    match m {
        ValueModel::Float(_) => true,
        ValueModel::Array(a) => exists|i: int| 0 <= i < a.len() && has_float(#[trigger] a[i]),
        ValueModel::Object(e) => exists|i: int| 0 <= i < e.len() && has_float(#[trigger] e[i].1),
        _ => false,
    }
}

/// The text that `Display` writes for a value: `null`, `true`/`false`,
/// decimal integers, strings as they are, `[a, b]` and `{k: v, ...}` in entry
/// order.  A float's text is the `FloatArith`'s and not given here.
pub open spec fn display(m: ValueModel) -> Seq<char>
    decreases m, 1nat,
{
    match m {
        ValueModel::Null => "null"@,
        ValueModel::Bool(b) => if b {
            "true"@
        } else {
            "false"@
        },
        ValueModel::Int(i) => int_text(i as int),
        ValueModel::Float(_) => Seq::empty(),
        ValueModel::Str(s) => s,
        ValueModel::Array(a) => "["@ + join_texts(display_items(a), ", "@) + "]"@,
        ValueModel::Object(e) => "{"@ + join_texts(display_entries(e), ", "@) + "}"@,
    }
}

/// Display texts of array items.
pub open spec fn display_items(a: Seq<ValueModel>) -> Seq<Seq<char>>
    decreases a, 0nat,
{
    Seq::new(
        a.len(),
        |i: int|
            if 0 <= i < a.len() {
                display(a[i])
            } else {
                Seq::empty()
            },
    )
}

/// Display texts `key: value` of object entries.
pub open spec fn display_entries(e: Seq<(Seq<char>, ValueModel)>) -> Seq<Seq<char>>
    decreases e, 0nat,
{
    Seq::new(
        e.len(),
        |i: int|
            if 0 <= i < e.len() {
                e[i].0 + ": "@ + display(e[i].1)
            } else {
                Seq::empty()
            },
    )
}

/// `t` is the text that the `FloatArith` formats for the float `b`.
pub open spec fn float_shown<F: FloatArith + ?Sized>(arith: &F, b: u64, t: Seq<char>) -> bool {
    exists|x: String| #[trigger] call_ensures(F::float_format, (arith, b), x) && x@ == t
}

impl Value {
    /// Append the display text of this value.
    pub fn write_display<F: FloatArith + ?Sized>(&self, out: &mut String, arith: &F)
        ensures
            !has_float(self.model()) ==> final(out)@ == old(out)@ + display(self.model()),
            self is Float ==> float_shown(arith, self->Float_0, final(out)@.skip(old(out)@.len() as int)),
        decreases self,
    {
        match self {
            Value::Null => {
                push_str(out, "null");
                proof {
                    reveal_strlit("null");
                }
            },
            Value::Bool(b) => {
                if *b {
                    push_str(out, "true");
                } else {
                    push_str(out, "false");
                }
            },
            Value::Int(i) => {
                let t = int_to_string(*i);
                push_str(out, t.as_str());
            },
            Value::Float(f) => {
                let ghost before = out@;
                let t = arith.float_format(*f);
                push_str(out, t.as_str());
                assert(out@.skip(before.len() as int) =~= t@);
            },
            Value::String(s) => {
                push_str(out, s.as_str());
            },
            Value::Array(a) => {
                let ghost start = out@;
                let ghost texts = display_items(self.model()->Array_0);
                push_str(out, "[");
                let mut i: usize = 0;
                while i < a.len()
                    invariant
                        i <= a.len(),
                        *self == Value::Array(*a),
                        texts.len() == a.len(),
                        texts == display_items(self.model()->Array_0),
                        !has_float(self.model()) ==> out@ == start + "["@ + join_texts(
                            texts.take(i as int),
                            ", "@,
                        ),
                    decreases a.len() - i,
                {
                    proof {
                        self.lemma_array_model(i as int);
                    }
                    let ghost before = out@;
                    if i > 0 {
                        push_str(out, ", ");
                    }
                    a[i].write_display(out, arith);
                    proof {
                        if !has_float(self.model()) {
                            assert(!has_float(a@[i as int].model()));
                            let t2 = texts.take(i + 1);
                            assert(t2.drop_last() =~= texts.take(i as int));
                            assert(t2.last() == display(a@[i as int].model()));
                            if i == 0 {
                                assert(join_texts(texts.take(0), ", "@) =~= Seq::empty());
                                assert(join_texts(t2, ", "@) == t2[0]);
                                assert(out@ =~= start + "["@ + join_texts(t2, ", "@));
                            } else {
                                assert(out@ =~= start + "["@ + join_texts(t2, ", "@));
                            }
                        }
                    }
                    i = i + 1;
                }
                push_str(out, "]");
                proof {
                    assert(texts.take(a.len() as int) =~= texts);
                    assert(self.model()->Array_0.len() == a.len());
                    assert(display(self.model()) == "["@ + join_texts(texts, ", "@) + "]"@);
                    if !has_float(self.model()) {
                        assert(out@ =~= start + display(self.model()));
                    }
                }
            },
            Value::Object(o) => {
                let ghost start = out@;
                let ghost e = self.model()->Object_0;
                let ghost texts = display_entries(e);
                push_str(out, "{");
                let mut i: usize = 0;
                while i < o.len()
                    invariant
                        i <= o.len(),
                        *self == Value::Object(*o),
                        e == self.model()->Object_0,
                        e.len() == o.len(),
                        texts.len() == o.len(),
                        texts == display_entries(e),
                        !has_float(self.model()) ==> out@ == start + "{"@ + join_texts(
                            texts.take(i as int),
                            ", "@,
                        ),
                    decreases o.len() - i,
                {
                    proof {
                        self.lemma_object_model(i as int);
                    }
                    if i > 0 {
                        push_str(out, ", ");
                    }
                    push_str(out, o[i].0.as_str());
                    push_str(out, ": ");
                    o[i].1.write_display(out, arith);
                    proof {
                        if !has_float(self.model()) {
                            assert(!has_float(e[i as int].1));
                            let t2 = texts.take(i + 1);
                            assert(t2.drop_last() =~= texts.take(i as int));
                            assert(t2.last() == e[i as int].0 + ": "@ + display(e[i as int].1));
                            if i == 0 {
                                assert(join_texts(texts.take(0), ", "@) =~= Seq::empty());
                                assert(join_texts(t2, ", "@) == t2[0]);
                                assert(out@ =~= start + "{"@ + join_texts(t2, ", "@));
                            } else {
                                assert(out@ =~= start + "{"@ + join_texts(t2, ", "@));
                            }
                        }
                    }
                    i = i + 1;
                }
                push_str(out, "}");
                proof {
                    assert(texts.take(o.len() as int) =~= texts);
                    assert(display(self.model()) == "{"@ + join_texts(texts, ", "@) + "}"@);
                    if !has_float(self.model()) {
                        assert(out@ =~= start + display(self.model()));
                    }
                }
            },
        }
    }

    /// The display text of this value.
    pub fn to_string<F: FloatArith + ?Sized>(&self, arith: &F) -> (r: String)
        ensures
            !has_float(self.model()) ==> r@ == display(self.model()),
            self is Float ==> float_shown(arith, self->Float_0, r@),
    {
        let mut s = String::new();
        self.write_display(&mut s, arith);
        assert(s@.skip(0) =~= s@);
        s
    }
}

impl Value {
    /// Remove the entry for `key` from an object; other values are left as
    /// they are.
    pub fn remove_key(&mut self, key: &str)
        ensures
            match old(self).model() {
                ValueModel::Object(e) => final(self).model() == ValueModel::Object(
                    obj_remove(e, key@),
                ),
                _ => final(self).model() == old(self).model(),
            },
    {
        let kc = str_chars(key);
        match self {
            Value::Object(entries) => {
                proof {
                    lemma_object_model(*entries);
                }
                let ghost e = entries_model(entries@);
                match Value::entry_index(entries, &kc) {
                    Some(j) => {
                        let ghost before = entries@;
                        let _gone = entries.remove(j);
                        assert(entries_model(entries@) =~= e.remove(j as int));
                    },
                    None => {},
                }
                proof {
                    lemma_object_model(*entries);
                }
            },
            _ => {},
        }
    }
}


// ── laws ────────────────────────────────────────────────────────────────

proof fn lemma_first_key_exists(e: Seq<(Seq<char>, ValueModel)>, k: Seq<char>, j: int)
    requires
        0 <= j < e.len(),
        e[j].0 == k,
    ensures
        exists|i: int| key_first(e, k, i),
    decreases j,
{
    if exists|m: int| 0 <= m < j && e[m].0 == k {
        let m = choose|m: int| 0 <= m < j && e[m].0 == k;
        lemma_first_key_exists(e, k, m);
    } else {
        assert(key_first(e, k, j));
    }
}

proof fn lemma_key_absent(e: Seq<(Seq<char>, ValueModel)>, k: Seq<char>)
    requires
        key_index(e, k) is None,
    ensures
        forall|j: int| 0 <= j < e.len() ==> e[j].0 != k,
{
    assert forall|j: int| 0 <= j < e.len() implies e[j].0 != k by {
        if e[j].0 == k {
            lemma_first_key_exists(e, k, j);
        }
    }
}

/// A lookup finds what was just stored under the key.
pub proof fn lemma_lookup_insert(e: Seq<(Seq<char>, ValueModel)>, k: Seq<char>, v: ValueModel)
    ensures
        lookup(obj_insert(e, k, v), k) == Some(v),
{
    match key_index(e, k) {
        Some(i) => {
            let m = choose|m: int| key_first(e, k, m);
            assert(key_first(e, k, m));
            assert(m == i);
            let e2 = e.update(i, (k, v));
            assert(key_first(e2, k, i));
            lemma_key_index_at(e2, k, i);
        },
        None => {
            lemma_key_absent(e, k);
            let e2 = e.push((k, v));
            assert(key_first(e2, k, e.len() as int));
            lemma_key_index_at(e2, k, e.len() as int);
        },
    }
}

/// After removing a key from an object whose keys are unique, a lookup of
/// it finds nothing.
pub proof fn lemma_lookup_remove(e: Seq<(Seq<char>, ValueModel)>, k: Seq<char>)
    requires
        keys_unique(e),
    ensures
        lookup(obj_remove(e, k), k) is None,
{
    match key_index(e, k) {
        Some(i) => {
            let m = choose|m: int| key_first(e, k, m);
            assert(key_first(e, k, m));
            let e2 = e.remove(i);
            assert forall|j: int| 0 <= j < e2.len() implies e2[j].0 != k by {
                if j < i {
                    assert(e2[j] == e[j]);
                } else {
                    assert(e2[j] == e[j + 1]);
                    assert(e[i].0 != e[j + 1].0);
                }
            }
            if key_index(e2, k) is Some {
                let c = choose|c: int| key_first(e2, k, c);
                assert(key_first(e2, k, c));
            }
        },
        None => {
            lemma_key_absent(e, k);
            if key_index(e, k) is Some {
            }
        },
    }
}

proof fn lemma_set_get_segs(m: ValueModel, segs: Seq<Seq<char>>, v: ValueModel)
    requires
        segs.len() >= 1,
        set_segs(m, segs, v) is Some,
    ensures
        get_segs(set_segs(m, segs, v)->0, segs) == Some(v),
    decreases segs.len(),
{
    let r = set_segs(m, segs, v)->0;
    let rest = segs.drop_first();
    if segs.len() == 1 {
        match m {
            ValueModel::Object(e) => {
                lemma_lookup_insert(e, segs[0], v);
            },
            ValueModel::Array(a) => {},
            _ => {},
        }
        assert(get_segs(v, rest) == Some(v));
    } else {
        match m {
            ValueModel::Object(e) => {
                let child = match lookup(e, segs[0]) {
                    Some(c) => c,
                    None => ValueModel::Object(Seq::empty()),
                };
                let c2 = set_segs(child, rest, v)->0;
                lemma_lookup_insert(e, segs[0], c2);
                lemma_set_get_segs(child, rest, v);
            },
            ValueModel::Array(a) => {
                let k = parse_usize(segs[0])->0;
                let c2 = set_segs(a[k as int], rest, v)->0;
                lemma_set_get_segs(a[k as int], rest, v);
                assert(a.update(k as int, c2)[k as int] == c2);
            },
            _ => {},
        }
    }
}

/// What a read gives back of a write: where storing `v` at `path` succeeds,
/// reading `path` from the result gives `v`.
pub proof fn law_set_then_get(m: ValueModel, path: Seq<char>, v: ValueModel)
    requires
        set_path(m, path, v) is Some,
    ensures
        get_path(set_path(m, path, v)->0, path) == Some(v),
{
    if path.len() > 0 {
        lemma_split_on_nonempty(path, '.');
        lemma_set_get_segs(m, split_on(path, '.'), v);
    }
}

/// A path without `.` is one segment.
pub proof fn lemma_split_on_absent(s: Seq<char>, d: char)
    requires
        !s.contains(d),
    ensures
        split_on(s, d) == seq![s],
    decreases s.len(),
{
    if s.len() > 0 {
        assert(!s.drop_last().contains(d)) by {
            if s.drop_last().contains(d) {
                let i = choose|i: int| 0 <= i < s.drop_last().len() && s.drop_last()[i] == d;
                assert(s[i] == d);
            }
        }
        lemma_split_on_absent(s.drop_last(), d);
        assert(s.last() != d) by {
            assert(s[s.len() - 1] == s.last());
        }
        assert(s.drop_last().push(s.last()) =~= s);
    } else {
        assert(s =~= Seq::<char>::empty());
    }
}

/// After removing a top-level key (one without `.`) from an object whose
/// keys are unique, reading it finds nothing.
pub proof fn law_remove_then_get(e: Seq<(Seq<char>, ValueModel)>, key: Seq<char>)
    requires
        keys_unique(e),
        key.len() > 0,
        !key.contains('.'),
    ensures
        get_path(ValueModel::Object(obj_remove(e, key)), key) is None,
{
    lemma_split_on_absent(key, '.');
    lemma_lookup_remove(e, key);
    let segs = split_on(key, '.');
    assert(segs[0] == key);
}

/// Nothing but the empty path can be read from `Null`.
pub proof fn law_null_has_nothing(path: Seq<char>)
    requires
        path.len() > 0,
    ensures
        get_path(ValueModel::Null, path) is None,
{
    lemma_split_on_nonempty(path, '.');
}


/// Every value equals itself.
pub proof fn law_value_eq_reflexive(m: ValueModel)
    ensures
        model_eq(m, m),
    decreases m,
{
    match m {
        ValueModel::Array(x) => {
            assert forall|i: int| 0 <= i < x.len() implies model_eq(#[trigger] x[i], x[i]) by {
                law_value_eq_reflexive(x[i]);
            }
        },
        ValueModel::Object(x) => {
            assert forall|j: int| 0 <= j < x.len() implies key_index(x, #[trigger] x[j].0) is Some by {
                lemma_first_key_exists(x, x[j].0, j);
            }
            assert forall|i: int| #![trigger x[i]] key_first(x, x[i].0, i) implies exists|j: int|
                key_first(x, x[i].0, j) && model_eq(x[i].1, #[trigger] x[j].1) by {
                law_value_eq_reflexive(x[i].1);
            }
        },
        _ => {},
    }
}


/// Every object inside the value, itself included, holds each key once.
pub open spec fn value_wf(m: ValueModel) -> bool
    decreases m,
{
    match m {
        ValueModel::Array(a) => forall|i: int| 0 <= i < a.len() ==> value_wf(#[trigger] a[i]),
        ValueModel::Object(e) => keys_unique(e) && forall|i: int|
            #![trigger e[i]]
            0 <= i < e.len() ==> value_wf(e[i].1),
        _ => true,
    }
}

proof fn lemma_insert_wf(e: Seq<(Seq<char>, ValueModel)>, k: Seq<char>, v: ValueModel)
    requires
        value_wf(ValueModel::Object(e)),
        value_wf(v),
    ensures
        value_wf(ValueModel::Object(obj_insert(e, k, v))),
{
    let r = obj_insert(e, k, v);
    match key_index(e, k) {
        Some(i) => {
            let m = choose|m: int| key_first(e, k, m);
            assert(key_first(e, k, m));
            assert(forall|j: int| 0 <= j < r.len() ==> #[trigger] r[j].0 == e[j].0);
            assert(keys_unique(r));
            assert(forall|j: int| #![trigger r[j]] 0 <= j < r.len() ==> value_wf(r[j].1));
        },
        None => {
            lemma_key_absent(e, k);
            assert(keys_unique(r)) by {
                assert forall|a: int, b: int| 0 <= a < b < r.len() implies r[a].0 != r[b].0 by {
                    if b == e.len() {
                        assert(r[a] == e[a]);
                    } else {
                        assert(r[a] == e[a] && r[b] == e[b]);
                    }
                }
            }
            assert(forall|j: int| #![trigger r[j]] 0 <= j < r.len() ==> value_wf(r[j].1)) by {
                assert forall|j: int| #![trigger r[j]] 0 <= j < r.len() implies value_wf(r[j].1) by {
                    if j < e.len() {
                        assert(r[j] == e[j]);
                    }
                }
            }
        },
    }
}

proof fn lemma_lookup_wf(e: Seq<(Seq<char>, ValueModel)>, k: Seq<char>)
    requires
        value_wf(ValueModel::Object(e)),
        lookup(e, k) is Some,
    ensures
        value_wf(lookup(e, k)->0),
{
    let i = choose|i: int| key_first(e, k, i);
    assert(key_first(e, k, i));
}

proof fn lemma_set_segs_wf(m: ValueModel, segs: Seq<Seq<char>>, v: ValueModel)
    requires
        value_wf(m),
        value_wf(v),
        set_segs(m, segs, v) is Some,
    ensures
        value_wf(set_segs(m, segs, v)->0),
    decreases segs.len(),
{
    if segs.len() == 0 {
    } else if segs.len() == 1 {
        match m {
            ValueModel::Object(e) => lemma_insert_wf(e, segs[0], v),
            ValueModel::Array(a) => {
                let k = parse_usize(segs[0])->0;
                if (k as int) < a.len() {
                    let r = a.update(k as int, v);
                    assert(forall|i: int| 0 <= i < r.len() ==> value_wf(#[trigger] r[i]));
                } else {
                    let r = a.push(v);
                    assert(forall|i: int| 0 <= i < r.len() ==> value_wf(#[trigger] r[i])) by {
                        assert forall|i: int| 0 <= i < r.len() implies value_wf(#[trigger] r[i]) by {
                            if i < a.len() {
                                assert(r[i] == a[i]);
                            }
                        }
                    }
                }
            },
            _ => {},
        }
    } else {
        let rest = segs.drop_first();
        match m {
            ValueModel::Object(e) => {
                let child = match lookup(e, segs[0]) {
                    Some(c) => c,
                    None => ValueModel::Object(Seq::empty()),
                };
                if lookup(e, segs[0]) is Some {
                    lemma_lookup_wf(e, segs[0]);
                } else {
                    assert(keys_unique(Seq::<(Seq<char>, ValueModel)>::empty()));
                }
                lemma_set_segs_wf(child, rest, v);
                lemma_insert_wf(e, segs[0], set_segs(child, rest, v)->0);
            },
            ValueModel::Array(a) => {
                let k = parse_usize(segs[0])->0;
                lemma_set_segs_wf(a[k as int], rest, v);
                let r = a.update(k as int, set_segs(a[k as int], rest, v)->0);
                assert(forall|i: int| 0 <= i < r.len() ==> value_wf(#[trigger] r[i]));
            },
            _ => {},
        }
    }
}

/// Storing a value that keeps each key once in a value that does leaves
/// every object holding each key once.
pub proof fn law_set_keeps_keys_unique(m: ValueModel, path: Seq<char>, v: ValueModel)
    requires
        value_wf(m),
        value_wf(v),
        set_path(m, path, v) is Some,
    ensures
        value_wf(set_path(m, path, v)->0),
{
    if path.len() > 0 {
        lemma_set_segs_wf(m, split_on(path, '.'), v);
    }
}

/// Removing a key keeps every object holding each key once.
pub proof fn law_remove_keeps_keys_unique(e: Seq<(Seq<char>, ValueModel)>, k: Seq<char>)
    requires
        value_wf(ValueModel::Object(e)),
    ensures
        value_wf(ValueModel::Object(obj_remove(e, k))),
{
    match key_index(e, k) {
        Some(i) => {
            let m = choose|m: int| key_first(e, k, m);
            assert(key_first(e, k, m));
            let r = e.remove(i);
            assert forall|j: int| 0 <= j < r.len() implies #[trigger] r[j] == if j < i {
                e[j]
            } else {
                e[j + 1]
            } by {}
            assert(keys_unique(r)) by {
                assert forall|a: int, b: int| 0 <= a < b < r.len() implies r[a].0 != r[b].0 by {
                    let ea = if a < i { a } else { a + 1 };
                    let eb = if b < i { b } else { b + 1 };
                    assert(r[a] == e[ea] && r[b] == e[eb]);
                }
            }
            assert(forall|j: int| #![trigger r[j]] 0 <= j < r.len() ==> value_wf(r[j].1)) by {
                assert forall|j: int| #![trigger r[j]] 0 <= j < r.len() implies value_wf(r[j].1) by {
                    let ej = if j < i { j } else { j + 1 };
                    assert(r[j] == e[ej]);
                }
            }
        },
        None => {},
    }
}


/// Nothing but the empty path can be read from an empty object.
pub proof fn law_empty_object_has_nothing(path: Seq<char>)
    requires
        path.len() > 0,
    ensures
        get_path(ValueModel::Object(Seq::empty()), path) is None,
{
    lemma_split_on_nonempty(path, '.');
    let e = Seq::<(Seq<char>, ValueModel)>::empty();
    let k = split_on(path, '.')[0];
    if key_index(e, k) is Some {
        let i = choose|i: int| key_first(e, k, i);
        assert(key_first(e, k, i));
    }
}

} // verus!
