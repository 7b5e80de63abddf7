use std::cmp::Ordering;

use tagscript::float::FloatUnit;
use tagscript::element::Element;
use tagscript::env::{find_special, Bindings, FunctionTable};
use tagscript::value::{Abs, DivisionError, Value};

struct Floats;

fn f(bits: u64) -> f64 {
    f64::from_bits(bits)
}

impl FloatUnit for Floats {
    fn from_int(&self, i: i64) -> u64 {
        (i as f64).to_bits()
    }
    fn to_int(&self, x: u64) -> i64 {
        f(x) as i64
    }
    fn to_count(&self, x: u64) -> usize {
        f(x) as usize
    }
    fn sum(&self, a: u64, b: u64) -> u64 {
        (f(a) + f(b)).to_bits()
    }
    fn difference(&self, a: u64, b: u64) -> u64 {
        (f(a) - f(b)).to_bits()
    }
    fn product(&self, a: u64, b: u64) -> u64 {
        (f(a) * f(b)).to_bits()
    }
    fn quotient(&self, a: u64, b: u64) -> u64 {
        (f(a) / f(b)).to_bits()
    }
    fn remainder(&self, a: u64, b: u64) -> u64 {
        (f(a) % f(b)).to_bits()
    }
    fn format(&self, x: u64) -> String {
        f(x).to_string()
    }
    fn parse(&self, text: &str) -> Option<u64> {
        text.parse::<f64>().ok().map(f64::to_bits)
    }
}

fn s(text: &str) -> Value {
    Value::Str(text.to_string())
}

fn fl(x: f64) -> Value {
    Value::Float(x.to_bits())
}

fn text(v: &Value) -> String {
    v.to_text(&Floats)
}

fn same(a: &Value, b: &Value) -> bool {
    match (a, b) {
        (Value::Null, Value::Null) => true,
        (Value::Int(x), Value::Int(y)) => x == y,
        (Value::Float(x), Value::Float(y)) => x == y,
        (Value::Bool(x), Value::Bool(y)) => x == y,
        (Value::Str(x), Value::Str(y)) => x == y,
        _ => false,
    }
}

fn samples() -> Vec<Value> {
    vec![Value::Null, Value::Int(-4), fl(2.5), Value::Bool(true), Value::Bool(false), s("ab"), s("")]
}

#[test]
fn null_is_identity_of_add() {
    for a in samples() {
        let r = a.clone().add(Value::Null, &Floats);
        assert!(same(&r, &a));
        let r = Value::Null.add(a.clone(), &Floats);
        assert!(same(&r, &a));
    }
}

#[test]
fn null_absorbs_multiplication() {
    for x in samples() {
        assert!(matches!(Value::Null.mul(x.clone(), &Floats), Ok(Value::Null)));
        assert!(matches!(x.mul(Value::Null, &Floats), Ok(Value::Null)));
    }
}

#[test]
fn string_times_int_repeats() {
    let r = s("ab").mul(Value::Int(3), &Floats).unwrap();
    assert_eq!(text(&r), "ababab");
    let r = s("ab").mul(Value::Int(-2), &Floats).unwrap();
    assert_eq!(text(&r), "baba");
    let r = Value::Int(2).mul(s("xy"), &Floats).unwrap();
    assert_eq!(text(&r), "xyxy");
    let r = s("ab").mul(Value::Int(0), &Floats).unwrap();
    assert_eq!(text(&r), "");
}

#[test]
fn string_times_float_repeats_by_truncation() {
    let r = s("ab").mul(fl(2.9), &Floats).unwrap();
    assert_eq!(text(&r), "abab");
    let r = s("ab").mul(fl(-1.5), &Floats).unwrap();
    assert_eq!(text(&r), "ba");
}

#[test]
fn string_times_string_is_incompatible() {
    let e = s("a").mul(s("b"), &Floats).unwrap_err();
    assert_eq!(e.message(), "Can't multiply incompatible types: string and string");
}

#[test]
fn division_by_numeric_zero() {
    let zeros = vec![Value::Int(0), fl(0.0), fl(-0.0), Value::Bool(false)];
    for z in zeros {
        for a in samples() {
            assert!(matches!(a.clone().div(z.clone(), &Floats), Err(DivisionError::DivisionByZero)));
            assert!(matches!(a.clone().rem(z.clone(), &Floats), Err(DivisionError::DivisionByZero)));
        }
    }
    assert_eq!(
        Value::Int(1).div(Value::Int(0), &Floats).unwrap_err().message(),
        "Division by zero is not allowed"
    );
}

#[test]
fn division_rules() {
    assert!(matches!(Value::Int(7).div(Value::Int(2), &Floats), Ok(Value::Int(3))));
    assert!(matches!(Value::Int(-7).div(Value::Int(2), &Floats), Ok(Value::Int(-3))));
    assert!(matches!(Value::Int(-7).rem(Value::Int(2), &Floats), Ok(Value::Int(-1))));
    assert!(matches!(Value::Int(i64::MIN).div(Value::Int(-1), &Floats), Ok(Value::Int(i64::MIN))));
    assert!(matches!(Value::Int(i64::MIN).rem(Value::Int(-1), &Floats), Ok(Value::Int(0))));
    assert!(matches!(Value::Null.div(Value::Null, &Floats), Ok(Value::Null)));
    assert!(matches!(Value::Bool(true).div(Value::Bool(true), &Floats), Ok(Value::Int(1))));
    assert!(matches!(Value::Int(5).div(Value::Bool(true), &Floats), Ok(Value::Int(5))));
    let r = Value::Int(1).div(fl(4.0), &Floats).unwrap();
    assert!(same(&r, &fl(0.25)));
    let e = s("a").div(Value::Int(2), &Floats).unwrap_err();
    assert_eq!(e.message(), "Can't divide incompatible types: string and int");
    let e = Value::Null.rem(Value::Int(2), &Floats).unwrap_err();
    assert_eq!(e.message(), "Can't modulo incompatible types: null and int");
}

#[test]
fn addition_rules() {
    assert!(matches!(Value::Int(2).add(Value::Int(3), &Floats), Value::Int(5)));
    assert!(matches!(Value::Int(i64::MAX).add(Value::Int(1), &Floats), Value::Int(i64::MIN)));
    assert!(same(&Value::Int(1).add(fl(0.5), &Floats), &fl(1.5)));
    assert!(matches!(Value::Bool(false).add(Value::Bool(true), &Floats), Value::Bool(true)));
    assert!(matches!(Value::Bool(true).add(Value::Int(4), &Floats), Value::Int(5)));
    assert_eq!(text(&s("a").add(Value::Int(5), &Floats)), "a5");
    assert_eq!(text(&Value::Int(-12).add(s("x"), &Floats)), "-12x");
    assert_eq!(text(&s("x").add(Value::Bool(true), &Floats)), "xtrue");
    assert_eq!(text(&Value::Bool(false).add(s("x"), &Floats)), "falsex");
    assert_eq!(text(&s("x").add(fl(1.5), &Floats)), "x1.5");
    assert_eq!(text(&s("ab").add(s("cd"), &Floats)), "abcd");
}

#[test]
fn subtraction_rules() {
    assert!(matches!(Value::Int(2).sub(Value::Int(5), &Floats), Ok(Value::Int(-3))));
    assert!(matches!(s("a").sub(Value::Null, &Floats), Ok(Value::Str(_))));
    assert!(matches!(Value::Null.sub(Value::Int(4), &Floats), Ok(Value::Int(-4))));
    assert!(matches!(Value::Bool(false).sub(Value::Bool(true), &Floats), Ok(Value::Int(-1))));
    let e = Value::Null.sub(Value::Bool(true), &Floats).unwrap_err();
    assert_eq!(e.message(), "Can't negate incompatible type: bool");
    let e = Value::Int(1).sub(s("a"), &Floats).unwrap_err();
    assert_eq!(e.message(), "Can't subtract incompatible types: int and string");
}

#[test]
fn multiplication_rules() {
    assert!(matches!(Value::Int(6).mul(Value::Int(7), &Floats), Ok(Value::Int(42))));
    assert!(matches!(Value::Bool(true).mul(Value::Int(7), &Floats), Ok(Value::Int(7))));
    assert!(matches!(Value::Bool(false).mul(Value::Int(7), &Floats), Ok(Value::Int(0))));
    assert!(matches!(Value::Bool(false).mul(s("a"), &Floats), Ok(Value::Null)));
    assert!(matches!(Value::Bool(true).mul(Value::Bool(false), &Floats), Ok(Value::Bool(false))));
}

#[test]
fn unary_rules() {
    assert!(matches!(Value::Int(3).neg(), Ok(Value::Int(-3))));
    assert!(same(&fl(1.5).neg().unwrap(), &fl(-1.5)));
    assert_eq!(Value::Bool(true).neg().unwrap_err().message(), "Can't negate incompatible type: bool");
    assert!(matches!(Value::Int(0).not(), Ok(Value::Bool(true))));
    assert!(matches!(fl(0.5).not(), Ok(Value::Bool(false))));
    assert!(matches!(Value::Null.not(), Ok(Value::Null)));
    assert_eq!(s("x").not().unwrap_err().message(), "Can't logically negate incompatible type: string");
    assert!(matches!(Value::Int(-9).abs(), Ok(Value::Int(9))));
    assert!(same(&fl(-2.0).abs().unwrap(), &fl(2.0)));
    assert_eq!(
        s("x").abs().unwrap_err().message(),
        "Can't compute absolute value of incompatible type: string"
    );
}

#[test]
fn coercions() {
    assert_eq!(s("42").as_int(&Floats), Some(42));
    assert_eq!(s("+7").as_int(&Floats), Some(7));
    assert_eq!(s("4x").as_int(&Floats), None);
    assert_eq!(fl(-2.7).as_int(&Floats), Some(-2));
    assert_eq!(Value::Bool(true).as_int(&Floats), Some(1));
    assert_eq!(s("2.5").as_float(&Floats), Some(2.5f64.to_bits()));
    assert_eq!(Value::Int(3).as_float(&Floats), Some(3.0f64.to_bits()));
    assert!(!s("FALSE").as_bool());
    assert!(!s("Off").as_bool());
    assert!(!s("0").as_bool());
    assert!(!s("").as_bool());
    assert!(s("yes").as_bool());
    assert!(!fl(-0.0).as_bool());
    assert!(!Value::Null.as_bool());
    assert_eq!(text(&Value::Null), "null");
    assert_eq!(text(&Value::Bool(false)), "false");
    assert_eq!(text(&Value::Int(i64::MIN)), "-9223372036854775808");
    assert_eq!(text(&fl(1.0)), "1");
    assert_eq!(Value::Str(String::new()).kind_name(), "string");
    assert_eq!(fl(1.0).kind_name(), "float");
    assert!(matches!(s("12").convert_to(&Value::Int(0), &Floats), Some(Value::Int(12))));
    assert!(matches!(Value::Int(12).convert_to(&Value::Bool(false), &Floats), Some(Value::Bool(true))));
    assert_eq!(text(&Value::Int(12).convert_to(&s(""), &Floats).unwrap()), "12");
}

#[test]
fn ordering() {
    assert_eq!(Value::Int(1).partial_cmp(&fl(1.5), &Floats), Some(Ordering::Less));
    assert_eq!(Value::Bool(true).partial_cmp(&Value::Int(1), &Floats), Some(Ordering::Equal));
    assert_eq!(fl(-0.0).partial_cmp(&fl(0.0), &Floats), Some(Ordering::Equal));
    assert_eq!(fl(f64::NAN).partial_cmp(&fl(0.0), &Floats), None);
    assert_eq!(fl(-3.0).partial_cmp(&fl(-2.0), &Floats), Some(Ordering::Less));
    assert_eq!(s("abc").partial_cmp(&s("abd"), &Floats), Some(Ordering::Less));
    assert_eq!(s("b").partial_cmp(&s("ab"), &Floats), Some(Ordering::Greater));
    assert_eq!(Value::Null.partial_cmp(&Value::Int(0), &Floats), None);
    assert_eq!(s("1").partial_cmp(&Value::Int(1), &Floats), None);
}

#[test]
fn abs_trait_and_default() {
    assert!(matches!(Abs::abs(Value::Int(-3)), Ok(Value::Int(3))));
    assert!(matches!(Abs::abs(Value::Int(i64::MIN)), Ok(Value::Int(i64::MIN))));
    assert!(Abs::abs(Value::Bool(true)).is_err());
    assert!(matches!(Value::default(), Value::Null));
    assert!(Value::Null.is_null());
    assert!(!Value::Int(0).is_null());
}

#[test]
fn bindings_replace_and_lookup() {
    let mut b = Bindings::new();
    b.set("x".to_string(), Value::Int(1));
    b.set("y".to_string(), Value::Int(2));
    b.set("x".to_string(), Value::Int(3));
    assert!(matches!(b.get("x"), Some(Value::Int(3))));
    assert!(matches!(b.get("y"), Some(Value::Int(2))));
    assert!(b.get("z").is_none());
    let copy = b.copy();
    b.set("y".to_string(), Value::Null);
    assert!(matches!(copy.get("y"), Some(Value::Int(2))));
    b.add_if_unbound("x".to_string(), Value::Int(9));
    assert!(matches!(b.get("x"), Some(Value::Int(3))));
}

#[test]
fn specials_innermost_first() {
    let mut outer = Bindings::new();
    outer.set("a".to_string(), Value::Int(1));
    outer.set("b".to_string(), Value::Int(2));
    let mut inner = Bindings::new();
    inner.set("a".to_string(), Value::Int(10));
    let frames = vec![outer, inner];
    assert!(matches!(find_special(&frames, "a"), Some(Value::Int(10))));
    assert!(matches!(find_special(&frames, "b"), Some(Value::Int(2))));
    assert!(find_special(&frames, "c").is_none());
}

#[test]
fn function_table_redeclaration() {
    let first = Element::new("function").with_attribute("name", "f");
    let second = Element::new("function").with_attribute("name", "f").with_child(Element::new("null"));
    let mut table = FunctionTable::new();
    table.declare("f".to_string(), &first);
    table.declare("f".to_string(), &second);
    assert_eq!(table.get("f").unwrap().children.len(), 1);
    assert!(table.get("g").is_none());
}

#[test]
fn repeated_attribute_keeps_last() {
    let e = Element::new("x").with_attribute("k", "1").with_attribute("k", "2");
    assert_eq!(e.attribute("k").unwrap(), "2");
    assert_eq!(e.attributes.len(), 1);
    assert!(e.attribute("q").is_none());
}

#[test]
fn value_equality() {
    assert_eq!(Value::Int(3), Value::Int(3));
    assert_ne!(Value::Int(1), fl(1.0));
    assert_eq!(fl(0.0), fl(-0.0));
    assert_ne!(fl(f64::NAN), fl(f64::NAN));
    assert_eq!(s("a"), s("a"));
    assert_ne!(s("a"), s("b"));
    assert_ne!(Value::Null, Value::Bool(false));
    assert_eq!(Value::Null, Value::Null);
}
