use pathos::value::{FloatArith, Value};

struct F64;

impl FloatArith for F64 {
    fn float_from_int(&self, i: i64) -> u64 {
        (i as f64).to_bits()
    }
    fn float_add(&self, a: u64, b: u64) -> u64 {
        (f64::from_bits(a) + f64::from_bits(b)).to_bits()
    }
    fn float_sub(&self, a: u64, b: u64) -> u64 {
        (f64::from_bits(a) - f64::from_bits(b)).to_bits()
    }
    fn float_mul(&self, a: u64, b: u64) -> u64 {
        (f64::from_bits(a) * f64::from_bits(b)).to_bits()
    }
    fn float_div(&self, a: u64, b: u64) -> u64 {
        (f64::from_bits(a) / f64::from_bits(b)).to_bits()
    }
    fn float_parse(&self, s: &str) -> u64 {
        s.parse::<f64>().unwrap_or(f64::NAN).to_bits()
    }
    fn float_format(&self, a: u64) -> String {
        f64::from_bits(a).to_string()
    }
    fn float_debug(&self, a: u64) -> String {
        format!("{:?}", f64::from_bits(a))
    }
}

fn empty_object() -> Value {
    Value::Object(Vec::new())
}

#[test]
fn float_rejects_nan() {
    assert!(Value::float(f64::NAN.to_bits()).is_none());
}

#[test]
fn float_rejects_infinity() {
    assert!(Value::float(f64::INFINITY.to_bits()).is_none());
    assert!(Value::float(f64::NEG_INFINITY.to_bits()).is_none());
}

#[test]
fn float_accepts_normal() {
    let v = Value::float(3.14f64.to_bits()).unwrap();
    assert!((f64::from_bits(v.as_float(&F64).unwrap()) - 3.14).abs() < 0.001);
}

#[test]
fn set_and_get_top_level() {
    let mut obj = empty_object();
    obj.set("x", Value::Int(42)).unwrap();
    assert_eq!(obj.get("x").unwrap().as_int(), Some(42));
}

#[test]
fn set_and_get_nested() {
    let mut obj = empty_object();
    obj.set("player.hp", Value::Int(100)).unwrap();
    assert_eq!(obj.get("player.hp").unwrap().as_int(), Some(100));
}

#[test]
fn set_and_get_deeply_nested() {
    let mut obj = empty_object();
    obj.set("a.b.c", Value::String("deep".into())).unwrap();
    assert_eq!(obj.get("a.b.c").unwrap().as_str(), Some("deep"));
}

#[test]
fn get_nonexistent_path() {
    let obj = empty_object();
    assert!(obj.get("foo").is_none());
}

#[test]
fn eq_same_type() {
    assert_eq!(Value::Int(1), Value::Int(1));
    assert_ne!(Value::Int(1), Value::Int(2));
    assert_eq!(Value::Bool(true), Value::Bool(true));
    assert_eq!(Value::String("a".into()), Value::String("a".into()));
}

#[test]
fn eq_different_types() {
    assert_ne!(Value::Int(0), Value::Bool(false));
    assert_ne!(Value::Null, Value::String("null".into()));
}

#[test]
fn as_int_from_float() {
    assert_eq!(Value::Float(3.0f64.to_bits()).as_int(), None);
}

#[test]
fn as_float_from_int() {
    assert_eq!(Value::Int(5).as_float(&F64).map(f64::from_bits), Some(5.0));
}

#[test]
fn as_bool() {
    assert_eq!(Value::Bool(true).as_bool(), Some(true));
    assert_eq!(Value::Int(0).as_bool(), None);
}

#[test]
fn display_null() {
    assert_eq!(Value::Null.to_string(&F64), "null");
}

#[test]
fn display_int() {
    assert_eq!(Value::Int(42).to_string(&F64), "42");
}

#[test]
fn display_string() {
    assert_eq!(Value::String("hi".into()).to_string(&F64), "hi");
}

#[test]
fn display_array() {
    let arr = Value::Array(vec![Value::Int(1), Value::Int(2)]);
    assert_eq!(arr.to_string(&F64), "[1, 2]");
}

// ── more ────────────────────────────────────────────────────────────────

#[test]
fn display_object_bool_negative_and_float() {
    let mut obj = empty_object();
    obj.set("a", Value::Bool(false)).unwrap();
    obj.set("b", Value::Int(-7)).unwrap();
    assert_eq!(obj.to_string(&F64), "{a: false, b: -7}");
    assert_eq!(Value::Float(2.5f64.to_bits()).to_string(&F64), "2.5");
}

#[test]
fn set_overwrites_and_keeps_keys_once() {
    let mut obj = empty_object();
    obj.set("k", Value::Int(1)).unwrap();
    obj.set("k", Value::Int(2)).unwrap();
    assert_eq!(obj.get("k").unwrap().as_int(), Some(2));
    match &obj {
        Value::Object(entries) => assert_eq!(entries.len(), 1),
        _ => panic!("expected an object"),
    }
}

#[test]
fn set_through_array_index_and_append() {
    let mut obj = empty_object();
    obj.set("items", Value::Array(vec![Value::Int(1)])).unwrap();
    obj.set("items.0", Value::Int(9)).unwrap();
    obj.set("items.1", Value::Int(10)).unwrap();
    assert_eq!(obj.get("items.0").unwrap().as_int(), Some(9));
    assert_eq!(obj.get("items.1").unwrap().as_int(), Some(10));
    assert!(obj.set("items.5", Value::Null).is_none());
    assert!(obj.set("items.x", Value::Null).is_none());
}

#[test]
fn set_into_scalar_is_refused() {
    let mut v = Value::Int(3);
    assert!(v.set("a", Value::Null).is_none());
    assert_eq!(v, Value::Int(3));
}

#[test]
fn empty_path_names_the_value() {
    let v = Value::Int(3);
    assert_eq!(v.get("").unwrap().as_int(), Some(3));
}

#[test]
fn objects_compare_as_maps() {
    let mut a = empty_object();
    a.set("x", Value::Int(1)).unwrap();
    a.set("y", Value::Int(2)).unwrap();
    let mut b = empty_object();
    b.set("y", Value::Int(2)).unwrap();
    b.set("x", Value::Int(1)).unwrap();
    assert_eq!(a, b);
    b.set("x", Value::Int(3)).unwrap();
    assert_ne!(a, b);
}

#[test]
fn floats_compare_as_numbers() {
    assert_eq!(Value::Float(0.0f64.to_bits()), Value::Float((-0.0f64).to_bits()));
    assert_ne!(Value::Float(1.0f64.to_bits()), Value::Int(1));
}

#[test]
fn remove_key_deletes_entry() {
    let mut obj = empty_object();
    obj.set("a", Value::Int(1)).unwrap();
    obj.remove_key("a");
    assert!(obj.get("a").is_none());
}

#[test]
fn as_str_only_for_strings() {
    assert_eq!(Value::String("s".into()).as_str(), Some("s"));
    assert_eq!(Value::Int(1).as_str(), None);
}

#[test]
fn nan_values_equal_each_other() {
    let quiet = f64::NAN.to_bits();
    let other = quiet | 1;
    assert_eq!(Value::Float(quiet), Value::Float(other));
    assert_ne!(Value::Float(quiet), Value::Float(1.0f64.to_bits()));
}
