//! The dynamically typed values of the language, their coercions and their
//! operators.
use vstd::prelude::*;
use vstd::string::*;
use crate::float::{
    abs_spec, compare, float_equal, float_order, int_order, is_zero_spec, negate_spec, FloatUnit, ONE, ZERO,
};
use crate::text::{
    compare_text, int_text, int_to_text, lower_of, lowercase, parse_i64, parse_in_range,
    repeat_text, repeated, reverse_text, reversed, same_text, text_order,
};

verus! {

/// A value: nothing, a 64-bit integer, a binary64 number (held as its bit
/// pattern, see [`crate::float`]), a boolean or a string.
#[derive(Debug, Clone)]
pub enum Value {
    Null,
    Int(i64),
    Float(u64),
    Bool(bool),
    Str(String),
}

/// The mathematical model of a [`Value`]: a string is its characters.
pub enum ValueV {
    Null,
    Int(i64),
    Float(u64),
    Bool(bool),
    Str(Seq<char>),
}

impl View for Value {
    type V = ValueV;

    open spec fn view(&self) -> ValueV {
        match self {
            Value::Null => ValueV::Null,
            Value::Int(i) => ValueV::Int(*i),
            Value::Float(f) => ValueV::Float(*f),
            Value::Bool(b) => ValueV::Bool(*b),
            Value::Str(s) => ValueV::Str(s@),
        }
    }
}

pub open spec fn option_view(v: Option<Value>) -> Option<ValueV> {
    match v {
        Some(x) => Some(x@),
        None => None,
    }
}

impl Default for Value {
    fn default() -> (r: Value)
        ensures
            r@ == ValueV::Null,
    {
        Value::Null
    }
}

/// Whether two values are the same: of the same kind and equal, floats as
/// `f64`'s `==` has them.
pub open spec fn same_value(a: ValueV, b: ValueV) -> bool {
    match (a, b) {
        (ValueV::Null, ValueV::Null) => true,
        (ValueV::Int(x), ValueV::Int(y)) => x == y,
        (ValueV::Float(x), ValueV::Float(y)) => float_equal(x, y),
        (ValueV::Bool(x), ValueV::Bool(y)) => x == y,
        (ValueV::Str(x), ValueV::Str(y)) => x == y,
        _ => false,
    }
}

impl PartialEq for Value {
    fn eq(&self, other: &Value) -> (r: bool) {
        match (self, other) {
            (Value::Null, Value::Null) => true,
            (Value::Int(x), Value::Int(y)) => *x == *y,
            (Value::Float(x), Value::Float(y)) => crate::float::equal(*x, *y),
            (Value::Bool(x), Value::Bool(y)) => *x == *y,
            (Value::Str(x), Value::Str(y)) => same_text(x.as_str(), y.as_str()),
            _ => false,
        }
    }
}

impl vstd::std_specs::cmp::PartialEqSpecImpl for Value {
    open spec fn obeys_eq_spec() -> bool {
        true
    }

    open spec fn eq_spec(&self, other: &Value) -> bool {
        same_value(self@, other@)
    }
}

/// The absolute value, for types that have one.
pub trait Abs {
    type Output;

    fn abs(self) -> Self::Output;
}

impl Abs for Value {
    type Output = Result<Value, OperationIncompatibleTypesError>;

    fn abs(self) -> Self::Output {
        Value::abs(self)
    }
}

/// An operator applied to values of kinds it does not take.
#[derive(Debug, Clone)]
pub struct OperationIncompatibleTypesError {
    pub operation: String,
    pub a: Value,
    pub b: Option<Value>,
}

impl OperationIncompatibleTypesError {
    pub open spec fn view(&self) -> (Seq<char>, ValueV, Option<ValueV>) {
        (self.operation@, self.a@, option_view(self.b))
    }

    /// `Can't <operation> incompatible type(s): <kind>[ and <kind>]`.
    pub fn message(&self) -> (r: String)
        ensures
            r@ == incompatible_message(self.operation@, self.a@, option_view(self.b)),
    {
        let mut r = String::from_str("Can't ");
        r.append(self.operation.as_str());
        match &self.b {
            Some(right) => {
                r.append(" incompatible types: ");
                r.append(self.a.kind_name().as_str());
                r.append(" and ");
                r.append(right.kind_name().as_str());
            },
            None => {
                r.append(" incompatible type: ");
                r.append(self.a.kind_name().as_str());
            },
        }
        r
    }
}

pub open spec fn incompatible_message(op: Seq<char>, a: ValueV, b: Option<ValueV>) -> Seq<char> {
    match b {
        Some(y) => "Can't "@ + op + " incompatible types: "@ + kind_name_of(a) + " and "@
            + kind_name_of(y),
        None => "Can't "@ + op + " incompatible type: "@ + kind_name_of(a),
    }
}

/// The two ways a division or a remainder can fail.
#[derive(Debug, Clone)]
pub enum DivisionError {
    DivisionByZero,
    IncompatibleTypes(OperationIncompatibleTypesError),
}

impl DivisionError {
    pub fn message(&self) -> (r: String)
        ensures
            self is DivisionByZero ==> r@ == "Division by zero is not allowed"@,
            self matches DivisionError::IncompatibleTypes(e) ==> r@ == incompatible_message(
                e.operation@,
                e.a@,
                option_view(e.b),
            ),
    {
        match self {
            DivisionError::DivisionByZero => String::from_str("Division by zero is not allowed"),
            DivisionError::IncompatibleTypes(e) => e.message(),
        }
    }
}

/// What an operator yields, as far as the bits of its operands decide it.
pub enum Outcome {
    /// Exactly this value.
    Is(ValueV),
    /// A `Float` that the float unit computes.
    SomeFloat,
    /// A `Str` whose text depends on the float unit (a numeral or a count).
    SomeStr,
    /// The incompatible-types error with this operation name and operands.
    Incompatible(Seq<char>, ValueV, Option<ValueV>),
    /// The division-by-zero error.
    ByZero,
}

pub open spec fn yields(r: Value, o: Outcome) -> bool {
    match o {
        Outcome::Is(v) => r@ == v,
        Outcome::SomeFloat => r@ is Float,
        Outcome::SomeStr => r@ is Str,
        _ => false,
    }
}

pub open spec fn yields_or_fails(
    r: Result<Value, OperationIncompatibleTypesError>,
    o: Outcome,
) -> bool {
    match r {
        Ok(v) => yields(v, o),
        Err(e) => o == Outcome::Incompatible(e.operation@, e.a@, option_view(e.b)),
    }
}

pub open spec fn divides_or_fails(r: Result<Value, DivisionError>, o: Outcome) -> bool {
    match r {
        Ok(v) => yields(v, o),
        Err(DivisionError::DivisionByZero) => o == Outcome::ByZero,
        Err(DivisionError::IncompatibleTypes(e)) => o == Outcome::Incompatible(
            e.operation@,
            e.a@,
            option_view(e.b),
        ),
    }
}

pub open spec fn kind_name_of(v: ValueV) -> Seq<char> {
    match v {
        ValueV::Null => "null"@,
        ValueV::Int(_) => "int"@,
        ValueV::Float(_) => "float"@,
        ValueV::Bool(_) => "bool"@,
        ValueV::Str(_) => "string"@,
    }
}

pub open spec fn bool_text(b: bool) -> Seq<char> {
    if b {
        "true"@
    } else {
        "false"@
    }
}

/// The string form of a value; `None` for a `Float`, whose numeral the
/// float unit writes.
pub open spec fn text_of(v: ValueV) -> Option<Seq<char>> {
    match v {
        ValueV::Null => Some("null"@),
        ValueV::Int(i) => Some(int_text(i as int)),
        ValueV::Float(_) => None,
        ValueV::Bool(b) => Some(bool_text(b)),
        ValueV::Str(s) => Some(s),
    }
}

/// The words that make a string false, once lower-cased.
pub open spec fn is_false_word(s: Seq<char>) -> bool {
    s == "false"@ || s == "0"@ || s == "off"@ || s == "no"@ || s.len() == 0
}

pub open spec fn truthy(v: ValueV) -> bool {
    match v {
        ValueV::Null => false,
        ValueV::Int(i) => i != 0,
        ValueV::Float(f) => !is_zero_spec(f),
        ValueV::Bool(b) => b,
        ValueV::Str(s) => !is_false_word(lower_of(s)),
    }
}

pub open spec fn bit(b: bool) -> i64 {
    if b {
        1
    } else {
        0
    }
}

pub open spec fn parsed_int(s: Seq<char>) -> Option<i64> {
    match parse_in_range(s, i64::MIN as int, i64::MAX as int) {
        Some(v) => Some(v as i64),
        None => None,
    }
}

/// The integer coercion; `None` (undecided here) for a `Float`.
pub open spec fn int_of(v: ValueV) -> Option<Option<i64>> {
    match v {
        ValueV::Null => Some(Some(0)),
        ValueV::Int(i) => Some(Some(i)),
        ValueV::Float(_) => None,
        ValueV::Bool(b) => Some(Some(bit(b))),
        ValueV::Str(s) => Some(parsed_int(s)),
    }
}

pub open spec fn neg_int(i: i64) -> i64 {
    if i == i64::MIN {
        i
    } else {
        (-i) as i64
    }
}

pub open spec fn abs_int(i: i64) -> i64 {
    if i < 0 {
        neg_int(i)
    } else {
        i
    }
}

pub open spec fn int_quotient(a: i64, b: i64) -> i64 {
    match a.checked_div(b) {
        Some(q) => q,
        None => a,
    }
}

pub open spec fn int_remainder(a: i64, b: i64) -> i64 {
    match a.checked_rem(b) {
        Some(q) => q,
        None => 0,
    }
}

pub open spec fn is_numeric(v: ValueV) -> bool {
    v is Int || v is Float || v is Bool
}

/// The zeros of the numeric kinds: `0`, `+0.0`, `-0.0` and `false`.
pub open spec fn is_numeric_zero(v: ValueV) -> bool {
    match v {
        ValueV::Int(i) => i == 0,
        ValueV::Float(f) => is_zero_spec(f),
        ValueV::Bool(b) => !b,
        _ => false,
    }
}

pub open spec fn add_outcome(a: ValueV, b: ValueV) -> Outcome {
    match (a, b) {
        (ValueV::Null, _) => Outcome::Is(b),
        (_, ValueV::Null) => Outcome::Is(a),
        (ValueV::Int(x), ValueV::Int(y)) => Outcome::Is(ValueV::Int(x.wrapping_add(y))),
        (ValueV::Bool(x), ValueV::Bool(y)) => Outcome::Is(ValueV::Bool(x || y)),
        (ValueV::Bool(x), ValueV::Int(y)) => Outcome::Is(ValueV::Int(bit(x).wrapping_add(y))),
        (ValueV::Int(y), ValueV::Bool(x)) => Outcome::Is(ValueV::Int(bit(x).wrapping_add(y))),
        (ValueV::Bool(x), ValueV::Str(s)) => Outcome::Is(ValueV::Str(bool_text(x) + s)),
        (ValueV::Str(s), ValueV::Bool(x)) => Outcome::Is(ValueV::Str(s + bool_text(x))),
        (ValueV::Str(s), ValueV::Str(t)) => Outcome::Is(ValueV::Str(s + t)),
        (ValueV::Str(s), ValueV::Int(i)) => Outcome::Is(ValueV::Str(s + int_text(i as int))),
        (ValueV::Int(i), ValueV::Str(s)) => Outcome::Is(ValueV::Str(int_text(i as int) + s)),
        (ValueV::Str(_), ValueV::Float(_)) => Outcome::SomeStr,
        (ValueV::Float(_), ValueV::Str(_)) => Outcome::SomeStr,
        _ => Outcome::SomeFloat,
    }
}

pub open spec fn neg_outcome(a: ValueV) -> Outcome {
    match a {
        ValueV::Null => Outcome::Is(ValueV::Null),
        ValueV::Int(i) => Outcome::Is(ValueV::Int(neg_int(i))),
        ValueV::Float(f) => Outcome::Is(ValueV::Float(negate_spec(f))),
        _ => Outcome::Incompatible("negate"@, a, None),
    }
}

pub open spec fn not_outcome(a: ValueV) -> Outcome {
    match a {
        ValueV::Null => Outcome::Is(ValueV::Null),
        ValueV::Int(i) => Outcome::Is(ValueV::Bool(i == 0)),
        ValueV::Float(f) => Outcome::Is(ValueV::Bool(is_zero_spec(f))),
        ValueV::Bool(b) => Outcome::Is(ValueV::Bool(!b)),
        ValueV::Str(_) => Outcome::Incompatible("logically negate"@, a, None),
    }
}

pub open spec fn abs_outcome(a: ValueV) -> Outcome {
    match a {
        ValueV::Null => Outcome::Is(ValueV::Null),
        ValueV::Int(i) => Outcome::Is(ValueV::Int(abs_int(i))),
        ValueV::Float(f) => Outcome::Is(ValueV::Float(abs_spec(f))),
        _ => Outcome::Incompatible("compute absolute value of"@, a, None),
    }
}

pub open spec fn sub_outcome(a: ValueV, b: ValueV) -> Outcome {
    match (a, b) {
        (_, ValueV::Null) => Outcome::Is(a),
        (ValueV::Str(_), _) => Outcome::Incompatible("subtract"@, a, Some(b)),
        (_, ValueV::Str(_)) => Outcome::Incompatible("subtract"@, a, Some(b)),
        (ValueV::Null, _) => neg_outcome(b),
        (ValueV::Int(x), ValueV::Int(y)) => Outcome::Is(ValueV::Int(x.wrapping_sub(y))),
        (ValueV::Bool(x), ValueV::Bool(y)) => Outcome::Is(ValueV::Int((bit(x) - bit(y)) as i64)),
        (ValueV::Bool(x), ValueV::Int(y)) => Outcome::Is(ValueV::Int(bit(x).wrapping_sub(y))),
        (ValueV::Int(x), ValueV::Bool(y)) => Outcome::Is(ValueV::Int(x.wrapping_sub(bit(y)))),
        _ => Outcome::SomeFloat,
    }
}

/// `s` repeated by the magnitude of `n`, reversed first where `n` is negative.
pub open spec fn scaled_text(s: Seq<char>, n: i64) -> Seq<char> {
    if n < 0 {
        repeated(reversed(s), (-(n as int)) as nat)
    } else {
        repeated(s, n as nat)
    }
}

pub open spec fn mul_outcome(a: ValueV, b: ValueV) -> Outcome {
    match (a, b) {
        (ValueV::Null, _) => Outcome::Is(ValueV::Null),
        (_, ValueV::Null) => Outcome::Is(ValueV::Null),
        (ValueV::Int(x), ValueV::Int(y)) => Outcome::Is(ValueV::Int(x.wrapping_mul(y))),
        (ValueV::Bool(x), ValueV::Bool(y)) => Outcome::Is(ValueV::Bool(x && y)),
        (ValueV::Bool(x), ValueV::Int(i)) => Outcome::Is(ValueV::Int(if x { i } else { 0 })),
        (ValueV::Int(i), ValueV::Bool(x)) => Outcome::Is(ValueV::Int(if x { i } else { 0 })),
        (ValueV::Bool(x), ValueV::Str(_)) => Outcome::Is(if x { b } else { ValueV::Null }),
        (ValueV::Str(_), ValueV::Bool(x)) => Outcome::Is(if x { a } else { ValueV::Null }),
        (ValueV::Str(_), ValueV::Str(_)) => Outcome::Incompatible("multiply"@, a, Some(b)),
        (ValueV::Str(s), ValueV::Int(i)) => Outcome::Is(ValueV::Str(scaled_text(s, i))),
        (ValueV::Int(i), ValueV::Str(s)) => Outcome::Is(ValueV::Str(scaled_text(s, i))),
        (ValueV::Str(_), ValueV::Float(_)) => Outcome::SomeStr,
        (ValueV::Float(_), ValueV::Str(_)) => Outcome::SomeStr,
        _ => Outcome::SomeFloat,
    }
}

/// Division (`remainder == false`) or remainder (`remainder == true`). A
/// numeric zero divisor fails first, whatever the dividend.
pub open spec fn div_outcome(a: ValueV, b: ValueV, remainder: bool) -> Outcome {
    let op = if remainder {
        "modulo"@
    } else {
        "divide"@
    };
    if is_numeric_zero(b) {
        Outcome::ByZero
    } else {
        match (a, b) {
            (ValueV::Null, ValueV::Null) => Outcome::Is(ValueV::Null),
            (ValueV::Int(x), ValueV::Int(y)) => Outcome::Is(
                ValueV::Int(
                    if remainder {
                        int_remainder(x, y)
                    } else {
                        int_quotient(x, y)
                    },
                ),
            ),
            (ValueV::Bool(x), ValueV::Bool(_)) => Outcome::Is(
                ValueV::Int(
                    if remainder {
                        0
                    } else {
                        bit(x)
                    },
                ),
            ),
            (ValueV::Bool(x), ValueV::Int(y)) => Outcome::Is(
                ValueV::Int(
                    if remainder {
                        int_remainder(bit(x), y)
                    } else {
                        int_quotient(bit(x), y)
                    },
                ),
            ),
            (ValueV::Int(x), ValueV::Bool(_)) => Outcome::Is(
                ValueV::Int(
                    if remainder {
                        0
                    } else {
                        x
                    },
                ),
            ),
            _ => if is_numeric(a) && is_numeric(b) {
                Outcome::SomeFloat
            } else {
                Outcome::Incompatible(op, a, Some(b))
            },
        }
    }
}

pub open spec fn bool_bits(b: bool) -> u64 {
    if b {
        ONE
    } else {
        ZERO
    }
}

/// The partial order of values. The outer `None` marks the pairs of an
/// integer and a float, which the float unit's conversion decides.
pub open spec fn order_of(a: ValueV, b: ValueV) -> Option<Option<std::cmp::Ordering>> {
    match (a, b) {
        (ValueV::Null, ValueV::Null) => Some(Some(std::cmp::Ordering::Equal)),
        (ValueV::Int(x), ValueV::Int(y)) => Some(Some(int_order(x as int, y as int))),
        (ValueV::Float(x), ValueV::Float(y)) => Some(float_order(x, y)),
        (ValueV::Int(_), ValueV::Float(_)) => None,
        (ValueV::Float(_), ValueV::Int(_)) => None,
        (ValueV::Bool(x), ValueV::Bool(y)) => Some(Some(int_order(bit(x) as int, bit(y) as int))),
        (ValueV::Bool(x), ValueV::Int(y)) => Some(Some(int_order(bit(x) as int, y as int))),
        (ValueV::Int(x), ValueV::Bool(y)) => Some(Some(int_order(x as int, bit(y) as int))),
        (ValueV::Bool(x), ValueV::Float(y)) => Some(float_order(bool_bits(x), y)),
        (ValueV::Float(x), ValueV::Bool(y)) => Some(float_order(x, bool_bits(y))),
        (ValueV::Str(s), ValueV::Str(t)) => Some(Some(text_order(s, t))),
        _ => Some(None),
    }
}

pub open spec fn respects_order(r: Option<std::cmp::Ordering>, a: ValueV, b: ValueV) -> bool {
    match order_of(a, b) {
        Some(o) => r == o,
        None => true,
    }
}

/// A predicate on orderings, used by the comparison tags.
pub enum Relation {
    Equal,
    NotEqual,
    Less,
    LessOrEqual,
    Greater,
    GreaterOrEqual,
}

/// Whether `relation` holds of two values whose ordering is `o`. Unordered
/// pairs are unequal and satisfy none of the order relations.
pub open spec fn relation_holds(relation: Relation, o: Option<std::cmp::Ordering>) -> bool {
    match relation {
        Relation::Equal => o == Some(std::cmp::Ordering::Equal),
        Relation::NotEqual => o != Some(std::cmp::Ordering::Equal),
        Relation::Less => o == Some(std::cmp::Ordering::Less),
        Relation::LessOrEqual => o == Some(std::cmp::Ordering::Less) || o == Some(
            std::cmp::Ordering::Equal,
        ),
        Relation::Greater => o == Some(std::cmp::Ordering::Greater),
        Relation::GreaterOrEqual => o == Some(std::cmp::Ordering::Greater) || o == Some(
            std::cmp::Ordering::Equal,
        ),
    }
}

pub fn holds(relation: &Relation, o: Option<std::cmp::Ordering>) -> (r: bool)
    ensures
        r == relation_holds(*relation, o),
{
    match relation {
        Relation::Equal => matches!(o, Some(std::cmp::Ordering::Equal)),
        Relation::NotEqual => !matches!(o, Some(std::cmp::Ordering::Equal)),
        Relation::Less => matches!(o, Some(std::cmp::Ordering::Less)),
        Relation::LessOrEqual => matches!(
            o,
            Some(std::cmp::Ordering::Less) | Some(std::cmp::Ordering::Equal)
        ),
        Relation::Greater => matches!(o, Some(std::cmp::Ordering::Greater)),
        Relation::GreaterOrEqual => matches!(
            o,
            Some(std::cmp::Ordering::Greater) | Some(std::cmp::Ordering::Equal)
        ),
    }
}

fn incompatible(op: &str, a: Value, b: Option<Value>) -> (r: OperationIncompatibleTypesError)
    ensures
        r.operation@ == op@,
        r.a == a,
        r.b == b,
{
    OperationIncompatibleTypesError { operation: String::from_str(op), a, b }
}

fn int_neg(i: i64) -> (r: i64)
    ensures
        r == neg_int(i),
{
    if i == i64::MIN {
        i
    } else {
        -i
    }
}

fn int_div(a: i64, b: i64) -> (r: i64)
    requires
        b != 0,
    ensures
        r == int_quotient(a, b),
{
    match a.checked_div(b) {
        Some(q) => q,
        None => a,
    }
}

fn int_rem(a: i64, b: i64) -> (r: i64)
    requires
        b != 0,
    ensures
        r == int_remainder(a, b),
{
    match a.checked_rem(b) {
        Some(q) => q,
        None => 0,
    }
}

fn bit_of(b: bool) -> (r: i64)
    ensures
        r == bit(b),
{
    if b {
        1
    } else {
        0
    }
}

fn bits_of(b: bool) -> (r: u64)
    ensures
        r == bool_bits(b),
{
    if b {
        ONE
    } else {
        ZERO
    }
}

/// `s` repeated by the magnitude of `n`, reversed first where `n` is negative.
fn scale_text(s: &str, n: i64) -> (r: String)
    ensures
        r@ == scaled_text(s@, n),
{
    if n < 0 {
        let count = (-(n as i128)) as u64;
        repeat_text(reverse_text(s).as_str(), count)
    } else {
        repeat_text(s, n as u64)
    }
}

fn scale_text_by_float<F: FloatUnit>(s: &str, f: u64, fpu: &F) -> String {
    if crate::float::is_sign_negative(f) {
        repeat_text(reverse_text(s).as_str(), fpu.to_count(crate::float::abs(f)) as u64)
    } else {
        repeat_text(s, fpu.to_count(f) as u64)
    }
}

impl Value {
    /// A copy with the same model.
    pub fn duplicate(&self) -> (r: Value)
        ensures
            r@ == self@,
    {
        match self {
            Value::Null => Value::Null,
            Value::Int(i) => Value::Int(*i),
            Value::Float(f) => Value::Float(*f),
            Value::Bool(b) => Value::Bool(*b),
            Value::Str(s) => Value::Str(s.clone()),
        }
    }

    pub fn is_null(&self) -> (r: bool)
        ensures
            r == (self@ is Null),
    {
        matches!(self, Value::Null)
    }

    /// The integer coercion: `None` where a string is no integer numeral.
    pub fn as_int<F: FloatUnit>(&self, fpu: &F) -> (r: Option<i64>)
        ensures
            int_of(self@) matches Some(x) ==> r == x,
            self@ is Float ==> r is Some,
    {
        match self {
            Value::Null => Some(0),
            Value::Int(i) => Some(*i),
            Value::Float(f) => Some(fpu.to_int(*f)),
            Value::Bool(b) => Some(bit_of(*b)),
            Value::Str(s) => parse_i64(s.as_str()),
        }
    }

    /// The float coercion, as a bit pattern: `None` where a string is no
    /// float numeral.
    pub fn as_float<F: FloatUnit>(&self, fpu: &F) -> (r: Option<u64>)
        ensures
            self@ is Null ==> r == Some(ZERO),
            self@ matches ValueV::Float(f) ==> r == Some(f),
            self@ matches ValueV::Bool(b) ==> r == Some(bool_bits(b)),
            self@ is Int ==> r is Some,
    {
        match self {
            Value::Null => Some(ZERO),
            Value::Int(i) => Some(fpu.from_int(*i)),
            Value::Float(f) => Some(*f),
            Value::Bool(b) => Some(bits_of(*b)),
            Value::Str(s) => fpu.parse(s.as_str()),
        }
    }

    /// Truthiness: zero, `false`, `Null` and the strings `false`, `0`,
    /// `off`, `no` and the empty string (in any case) are false.
    pub fn as_bool(&self) -> (r: bool)
        ensures
            r == truthy(self@),
    {
        match self {
            Value::Null => false,
            Value::Int(i) => *i != 0,
            Value::Float(f) => !crate::float::is_zero(*f),
            Value::Bool(b) => *b,
            Value::Str(s) => {
                let l = lowercase(s.as_str());
                let t = l.as_str();
                !(same_text(t, "false") || same_text(t, "0") || same_text(t, "off") || same_text(
                    t,
                    "no",
                ) || t.unicode_len() == 0)
            },
        }
    }

    /// The value converted to the kind of `target`.
    pub fn convert_to<F: FloatUnit>(&self, target_type: &Value, fpu: &F) -> (r: Option<Value>)
        ensures
            target_type@ is Null ==> r == Some(Value::Null),
            target_type@ is Int ==> (int_of(self@) matches Some(x) ==> (match x {
                Some(i) => r is Some && r->0@ == ValueV::Int(i),
                None => r is None,
            })),
            target_type@ is Float ==> (r is Some ==> r->0@ is Float),
            target_type@ is Float && !(self@ is Str) ==> r is Some,
            target_type@ is Bool ==> (r is Some && r->0@ == ValueV::Bool(truthy(self@))),
            target_type@ is Str ==> (r is Some && r->0@ is Str),
            target_type@ is Str ==> (text_of(self@) matches Some(t) ==> r->0@ == ValueV::Str(t)),
    {
        match target_type {
            Value::Null => Some(Value::Null),
            Value::Int(_) => match self.as_int(fpu) {
                Some(i) => Some(Value::Int(i)),
                None => None,
            },
            Value::Float(_) => match self.as_float(fpu) {
                Some(f) => Some(Value::Float(f)),
                None => None,
            },
            Value::Bool(_) => Some(Value::Bool(self.as_bool())),
            Value::Str(_) => Some(Value::Str(self.to_text(fpu))),
        }
    }

    pub fn kind_name(&self) -> (r: String)
        ensures
            r@ == kind_name_of(self@),
    {
        match self {
            Value::Null => String::from_str("null"),
            Value::Int(_) => String::from_str("int"),
            Value::Float(_) => String::from_str("float"),
            Value::Bool(_) => String::from_str("bool"),
            Value::Str(_) => String::from_str("string"),
        }
    }

    /// The string form: `null`, the decimal numeral, the float unit's
    /// numeral, `true`/`false`, or the string itself.
    pub fn to_text<F: FloatUnit>(&self, fpu: &F) -> (r: String)
        ensures
            text_of(self@) matches Some(t) ==> r@ == t,
    {
        match self {
            Value::Null => String::from_str("null"),
            Value::Int(i) => int_to_text(*i),
            Value::Float(f) => fpu.format(*f),
            Value::Bool(b) => if *b {
                String::from_str("true")
            } else {
                String::from_str("false")
            },
            Value::Str(s) => s.clone(),
        }
    }

    /// `self + other`.
    pub fn add<F: FloatUnit>(self, other: Value, fpu: &F) -> (r: Value)
        ensures
            yields(r, add_outcome(self@, other@)),
    {
        match (self, other) {
            (Value::Null, b) => b,
            (a, Value::Null) => a,
            (Value::Int(x), Value::Int(y)) => Value::Int(x.wrapping_add(y)),
            (Value::Float(x), Value::Float(y)) => Value::Float(fpu.sum(x, y)),
            (Value::Int(i), Value::Float(f)) => Value::Float(fpu.sum(fpu.from_int(i), f)),
            (Value::Float(f), Value::Int(i)) => Value::Float(fpu.sum(fpu.from_int(i), f)),
            (Value::Bool(x), Value::Bool(y)) => Value::Bool(x || y),
            (Value::Bool(x), Value::Int(y)) => Value::Int(bit_of(x).wrapping_add(y)),
            (Value::Int(y), Value::Bool(x)) => Value::Int(bit_of(x).wrapping_add(y)),
            (Value::Bool(x), Value::Float(f)) => Value::Float(fpu.sum(bits_of(x), f)),
            (Value::Float(f), Value::Bool(x)) => Value::Float(fpu.sum(bits_of(x), f)),
            (Value::Bool(x), Value::Str(s)) => {
                let mut t = if x {
                    String::from_str("true")
                } else {
                    String::from_str("false")
                };
                t.append(s.as_str());
                Value::Str(t)
            },
            (Value::Str(s), Value::Bool(x)) => {
                let mut t = s;
                if x {
                    t.append("true");
                } else {
                    t.append("false");
                }
                Value::Str(t)
            },
            (Value::Str(s), Value::Str(t)) => Value::Str(s.concat(t.as_str())),
            (Value::Str(s), Value::Int(i)) => Value::Str(s.concat(int_to_text(i).as_str())),
            (Value::Int(i), Value::Str(s)) => Value::Str(int_to_text(i).concat(s.as_str())),
            (Value::Str(s), Value::Float(f)) => Value::Str(s.concat(fpu.format(f).as_str())),
            (Value::Float(f), Value::Str(s)) => Value::Str(fpu.format(f).concat(s.as_str())),
        }
    }

    /// `-self`.
    pub fn neg(self) -> (r: Result<Value, OperationIncompatibleTypesError>)
        ensures
            yields_or_fails(r, neg_outcome(self@)),
    {
        match self {
            Value::Null => Ok(Value::Null),
            Value::Int(i) => Ok(Value::Int(int_neg(i))),
            Value::Float(f) => Ok(Value::Float(crate::float::negate(f))),
            Value::Bool(_) => Err(incompatible("negate", self, None)),
            Value::Str(_) => Err(incompatible("negate", self, None)),
        }
    }

    /// Logical negation: a number becomes whether it is zero.
    pub fn not(self) -> (r: Result<Value, OperationIncompatibleTypesError>)
        ensures
            yields_or_fails(r, not_outcome(self@)),
    {
        match self {
            Value::Null => Ok(Value::Null),
            Value::Int(i) => Ok(Value::Bool(i == 0)),
            Value::Float(f) => Ok(Value::Bool(crate::float::is_zero(f))),
            Value::Bool(b) => Ok(Value::Bool(!b)),
            Value::Str(_) => Err(incompatible("logically negate", self, None)),
        }
    }

    /// The absolute value.
    pub fn abs(self) -> (r: Result<Value, OperationIncompatibleTypesError>)
        ensures
            yields_or_fails(r, abs_outcome(self@)),
    {
        match self {
            Value::Null => Ok(Value::Null),
            Value::Int(i) => Ok(Value::Int(if i < 0 { int_neg(i) } else { i })),
            Value::Float(f) => Ok(Value::Float(crate::float::abs(f))),
            Value::Bool(_) => Err(incompatible("compute absolute value of", self, None)),
            Value::Str(_) => Err(incompatible("compute absolute value of", self, None)),
        }
    }

    /// `self - other`.
    pub fn sub<F: FloatUnit>(self, other: Value, fpu: &F) -> (r: Result<
        Value,
        OperationIncompatibleTypesError,
    >)
        ensures
            yields_or_fails(r, sub_outcome(self@, other@)),
    {
        match (self, other) {
            (a, Value::Null) => Ok(a),
            (Value::Str(s), b) => Err(incompatible("subtract", Value::Str(s), Some(b))),
            (a, Value::Str(s)) => Err(incompatible("subtract", a, Some(Value::Str(s)))),
            (Value::Null, b) => b.neg(),
            (Value::Int(x), Value::Int(y)) => Ok(Value::Int(x.wrapping_sub(y))),
            (Value::Float(x), Value::Float(y)) => Ok(Value::Float(fpu.difference(x, y))),
            (Value::Int(i), Value::Float(f)) => Ok(
                Value::Float(fpu.difference(fpu.from_int(i), f)),
            ),
            (Value::Float(f), Value::Int(i)) => Ok(
                Value::Float(fpu.difference(f, fpu.from_int(i))),
            ),
            (Value::Bool(x), Value::Bool(y)) => Ok(Value::Int(bit_of(x) - bit_of(y))),
            (Value::Bool(x), Value::Int(i)) => Ok(Value::Int(bit_of(x).wrapping_sub(i))),
            (Value::Bool(x), Value::Float(f)) => Ok(
                Value::Float(fpu.difference(bits_of(x), f)),
            ),
            (Value::Int(i), Value::Bool(x)) => Ok(Value::Int(i.wrapping_sub(bit_of(x)))),
            (Value::Float(f), Value::Bool(x)) => Ok(
                Value::Float(fpu.difference(f, bits_of(x))),
            ),
        }
    }

    /// `self * other`.
    pub fn mul<F: FloatUnit>(self, other: Value, fpu: &F) -> (r: Result<
        Value,
        OperationIncompatibleTypesError,
    >)
        ensures
            yields_or_fails(r, mul_outcome(self@, other@)),
    {
        match (self, other) {
            (Value::Null, _) => Ok(Value::Null),
            (_, Value::Null) => Ok(Value::Null),
            (Value::Int(x), Value::Int(y)) => Ok(Value::Int(x.wrapping_mul(y))),
            (Value::Float(x), Value::Float(y)) => Ok(Value::Float(fpu.product(x, y))),
            (Value::Int(i), Value::Float(f)) => Ok(Value::Float(fpu.product(fpu.from_int(i), f))),
            (Value::Float(f), Value::Int(i)) => Ok(Value::Float(fpu.product(fpu.from_int(i), f))),
            (Value::Bool(x), Value::Bool(y)) => Ok(Value::Bool(x && y)),
            (Value::Bool(x), Value::Int(i)) => Ok(Value::Int(if x { i } else { 0 })),
            (Value::Int(i), Value::Bool(x)) => Ok(Value::Int(if x { i } else { 0 })),
            (Value::Bool(x), Value::Float(f)) => Ok(Value::Float(fpu.product(bits_of(x), f))),
            (Value::Float(f), Value::Bool(x)) => Ok(Value::Float(fpu.product(bits_of(x), f))),
            (Value::Bool(x), b) => Ok(if x { b } else { Value::Null }),
            (a, Value::Bool(x)) => Ok(if x { a } else { Value::Null }),
            (Value::Str(s), Value::Str(t)) => Err(
                incompatible("multiply", Value::Str(s), Some(Value::Str(t))),
            ),
            (Value::Str(s), Value::Int(i)) => Ok(Value::Str(scale_text(s.as_str(), i))),
            (Value::Int(i), Value::Str(s)) => Ok(Value::Str(scale_text(s.as_str(), i))),
            (Value::Str(s), Value::Float(f)) => Ok(
                Value::Str(scale_text_by_float(s.as_str(), f, fpu)),
            ),
            (Value::Float(f), Value::Str(s)) => Ok(
                Value::Str(scale_text_by_float(s.as_str(), f, fpu)),
            ),
        }
    }

    fn divide<F: FloatUnit>(self, other: Value, remainder: bool, fpu: &F) -> (r: Result<
        Value,
        DivisionError,
    >)
        ensures
            divides_or_fails(r, div_outcome(self@, other@, remainder)),
    {
        let zero = match &other {
            Value::Int(i) => *i == 0,
            Value::Float(f) => crate::float::is_zero(*f),
            Value::Bool(b) => !*b,
            _ => false,
        };
        if zero {
            return Err(DivisionError::DivisionByZero);
        }
        let op = if remainder {
            "modulo"
        } else {
            "divide"
        };
        match (self, other) {
            (Value::Null, Value::Null) => Ok(Value::Null),
            (Value::Int(x), Value::Int(y)) => Ok(
                Value::Int(
                    if remainder {
                        int_rem(x, y)
                    } else {
                        int_div(x, y)
                    },
                ),
            ),
            (Value::Bool(x), Value::Bool(_)) => Ok(
                Value::Int(
                    if remainder {
                        0
                    } else {
                        bit_of(x)
                    },
                ),
            ),
            (Value::Bool(x), Value::Int(y)) => Ok(
                Value::Int(
                    if remainder {
                        int_rem(bit_of(x), y)
                    } else {
                        int_div(bit_of(x), y)
                    },
                ),
            ),
            (Value::Int(x), Value::Bool(_)) => Ok(
                Value::Int(
                    if remainder {
                        0
                    } else {
                        x
                    },
                ),
            ),
            (Value::Float(x), Value::Float(y)) => Ok(Value::Float(float_divide(x, y, remainder, fpu))),
            (Value::Int(i), Value::Float(f)) => Ok(
                Value::Float(float_divide(fpu.from_int(i), f, remainder, fpu)),
            ),
            (Value::Float(f), Value::Int(i)) => Ok(
                Value::Float(float_divide(f, fpu.from_int(i), remainder, fpu)),
            ),
            (Value::Bool(x), Value::Float(f)) => Ok(
                Value::Float(float_divide(bits_of(x), f, remainder, fpu)),
            ),
            (Value::Float(f), Value::Bool(_)) => Ok(
                Value::Float(float_divide(f, ONE, remainder, fpu)),
            ),
            (a, b) => Err(DivisionError::IncompatibleTypes(incompatible(op, a, Some(b)))),
        }
    }

    /// `self / other`: integer division truncates toward zero.
    pub fn div<F: FloatUnit>(self, other: Value, fpu: &F) -> (r: Result<Value, DivisionError>)
        ensures
            divides_or_fails(r, div_outcome(self@, other@, false)),
    {
        self.divide(other, false, fpu)
    }

    /// `self % other`: the remainder has the sign of the dividend.
    pub fn rem<F: FloatUnit>(self, other: Value, fpu: &F) -> (r: Result<Value, DivisionError>)
        ensures
            divides_or_fails(r, div_outcome(self@, other@, true)),
    {
        self.divide(other, true, fpu)
    }

    /// The partial order: `None` for unordered pairs.
    pub fn partial_cmp<F: FloatUnit>(&self, other: &Value, fpu: &F) -> (r: Option<
        std::cmp::Ordering,
    >)
        ensures
            respects_order(r, self@, other@),
    {
        match (self, other) {
            (Value::Null, Value::Null) => Some(std::cmp::Ordering::Equal),
            (Value::Int(x), Value::Int(y)) => Some(order_ints(*x, *y)),
            (Value::Float(x), Value::Float(y)) => compare(*x, *y),
            (Value::Int(i), Value::Float(f)) => compare(fpu.from_int(*i), *f),
            (Value::Float(f), Value::Int(i)) => compare(*f, fpu.from_int(*i)),
            (Value::Bool(x), Value::Bool(y)) => Some(order_ints(bit_of(*x), bit_of(*y))),
            (Value::Bool(x), Value::Int(y)) => Some(order_ints(bit_of(*x), *y)),
            (Value::Int(x), Value::Bool(y)) => Some(order_ints(*x, bit_of(*y))),
            (Value::Bool(x), Value::Float(y)) => compare(bits_of(*x), *y),
            (Value::Float(x), Value::Bool(y)) => compare(*x, bits_of(*y)),
            (Value::Str(s), Value::Str(t)) => Some(compare_text(s.as_str(), t.as_str())),
            _ => None,
        }
    }
}

/// `Null` is the identity of `+` on either side, and `*` with `Null` on
/// either side is `Null`, for every value.
pub proof fn law_null_identity_and_absorption(a: ValueV, x: ValueV)
    ensures
        add_outcome(a, ValueV::Null) == Outcome::Is(a),
        add_outcome(ValueV::Null, a) == Outcome::Is(a),
        mul_outcome(ValueV::Null, x) == Outcome::Is(ValueV::Null),
        mul_outcome(x, ValueV::Null) == Outcome::Is(ValueV::Null),
{
}

/// Division and remainder by a numeric zero (`0`, `0.0`, `-0.0` or
/// `false`) fail with division by zero, never with incompatible types,
/// whatever the dividend.
pub proof fn law_zero_divisor(a: ValueV, b: ValueV)
    requires
        is_numeric_zero(b),
    ensures
        div_outcome(a, b, false) == Outcome::ByZero,
        div_outcome(a, b, true) == Outcome::ByZero,
{
}

fn float_divide<F: FloatUnit>(a: u64, b: u64, remainder: bool, fpu: &F) -> u64 {
    if remainder {
        fpu.remainder(a, b)
    } else {
        fpu.quotient(a, b)
    }
}

fn order_ints(a: i64, b: i64) -> (r: std::cmp::Ordering)
    ensures
        r == int_order(a as int, b as int),
{
    if a < b {
        std::cmp::Ordering::Less
    } else if a > b {
        std::cmp::Ordering::Greater
    } else {
        std::cmp::Ordering::Equal
    }
}

} // verus!
