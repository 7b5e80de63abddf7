//! Operations over the values of a node's children, in order: the N-ary
//! arithmetic folds, chained comparisons, `and`/`or`, and joining.
use vstd::prelude::*;
use vstd::string::*;
use crate::float::FloatUnit;
use crate::value::{
    add_outcome, div_outcome, holds, incompatible_message, kind_name_of, mul_outcome, order_of,
    relation_holds, same_value, sub_outcome, text_of, truthy, Outcome, Relation, Value, ValueV,
};

verus! {

/// The binary arithmetic operators.
#[derive(Debug, Clone, Copy, PartialEq, Eq, Structural)]
pub enum Arith {
    Add,
    Sub,
    Mul,
    Div,
    Rem,
}

pub open spec fn views(vs: Seq<Value>) -> Seq<ValueV> {
    vs.map_values(|v: Value| v@)
}

pub open spec fn step_outcome(k: Arith, a: ValueV, b: ValueV) -> Outcome {
    match k {
        Arith::Add => add_outcome(a, b),
        Arith::Sub => sub_outcome(a, b),
        Arith::Mul => mul_outcome(a, b),
        Arith::Div => div_outcome(a, b, false),
        Arith::Rem => div_outcome(a, b, true),
    }
}

/// The left fold of `k` over `vs` from `acc`. An error ends the fold;
/// `None` where a step's result is one that the float unit computes.
pub open spec fn fold_outcome(k: Arith, acc: ValueV, vs: Seq<ValueV>) -> Option<Outcome>
    decreases vs.len(),
{
    if vs.len() == 0 {
        Some(Outcome::Is(acc))
    } else {
        match step_outcome(k, acc, vs[0]) {
            Outcome::Is(v) => fold_outcome(k, v, vs.drop_first()),
            Outcome::SomeFloat => None,
            Outcome::SomeStr => None,
            other => Some(other),
        }
    }
}

pub open spec fn failure_message(o: Outcome) -> Seq<char> {
    match o {
        Outcome::Incompatible(op, a, b) => incompatible_message(op, a, b),
        Outcome::ByZero => "Division by zero is not allowed"@,
        _ => Seq::empty(),
    }
}

/// `r` is what the outcome `o` describes, an error as its message.
pub open spec fn folded(r: Result<Value, String>, o: Outcome) -> bool {
    match o {
        Outcome::Is(v) => r is Ok && r->Ok_0@ == v,
        Outcome::Incompatible(_, _, _) => r is Err && r->Err_0@ == failure_message(o),
        Outcome::ByZero => r is Err && r->Err_0@ == failure_message(o),
        _ => true,
    }
}

fn apply<F: FloatUnit>(k: Arith, a: Value, b: Value, fpu: &F) -> (r: Result<Value, String>)
    ensures
        match step_outcome(k, a@, b@) {
            Outcome::Is(v) => r is Ok && r->Ok_0@ == v,
            Outcome::SomeFloat => r is Ok,
            Outcome::SomeStr => r is Ok,
            o => r is Err && r->Err_0@ == failure_message(o),
        },
{
    match k {
        Arith::Add => Ok(a.add(b, fpu)),
        Arith::Sub => match a.sub(b, fpu) {
            Ok(v) => Ok(v),
            Err(e) => Err(e.message()),
        },
        Arith::Mul => match a.mul(b, fpu) {
            Ok(v) => Ok(v),
            Err(e) => Err(e.message()),
        },
        Arith::Div => match a.div(b, fpu) {
            Ok(v) => Ok(v),
            Err(e) => Err(e.message()),
        },
        Arith::Rem => match a.rem(b, fpu) {
            Ok(v) => Ok(v),
            Err(e) => Err(e.message()),
        },
    }
}

/// Folds `k` over `values[start..]` from `seed`.
pub fn fold_values<F: FloatUnit>(
    k: Arith,
    seed: Value,
    values: &Vec<Value>,
    start: usize,
    fpu: &F,
) -> (r: Result<Value, String>)
    requires
        start <= values@.len(),
    ensures
        fold_outcome(k, seed@, views(values@).skip(start as int)) matches Some(o) ==> folded(r, o),
{
    let ghost whole = fold_outcome(k, seed@, views(values@).skip(start as int));
    let n = values.len();
    let mut acc = seed;
    let mut i: usize = start;
    while i < n
        invariant
            n == values@.len(),
            start <= i <= n,
            whole == fold_outcome(k, seed@, views(values@).skip(start as int)),
            whole is Some ==> whole == fold_outcome(k, acc@, views(values@).skip(i as int)),
        decreases n - i,
    {
        let ghost rest = views(values@).skip(i as int);
        assert(rest[0] == values@[i as int]@);
        assert(rest.drop_first() == views(values@).skip(i + 1));
        let b = values[i].duplicate();
        match apply(k, acc, b, fpu) {
            Ok(v) => {
                acc = v;
            },
            Err(m) => {
                return Err(m);
            },
        }
        i = i + 1;
    }
    assert(views(values@).skip(n as int).len() == 0);
    Ok(acc)
}

/// Whether the relation holds of every pair of neighbours; decided
/// wherever every neighbouring pair's order is.
pub open spec fn chain_decided(vs: Seq<ValueV>) -> bool {
    forall|i: int| 0 <= i < vs.len() - 1 ==> (#[trigger] order_of(vs[i], vs[i + 1])) is Some
}

pub open spec fn chain_holds_spec(rel: Relation, vs: Seq<ValueV>) -> bool {
    forall|i: int|
        0 <= i < vs.len() - 1 ==> relation_holds(rel, (#[trigger] order_of(vs[i], vs[i + 1]))->0)
}

pub fn chain_holds<F: FloatUnit>(rel: &Relation, values: &Vec<Value>, fpu: &F) -> (r: bool)
    ensures
        chain_decided(views(values@)) ==> r == chain_holds_spec(*rel, views(values@)),
{
    let ghost vs = views(values@);
    let n = values.len();
    if n == 0 {
        return true;
    }
    let mut i: usize = 0;
    while i + 1 < n
        invariant
            n == values@.len(),
            n > 0,
            i < n,
            vs == views(values@),
            forall|j: int|
                0 <= j < i ==> order_of(vs[j], vs[j + 1]) is Some ==> relation_holds(
                    *rel,
                    (#[trigger] order_of(vs[j], vs[j + 1]))->0,
                ),
        decreases n - i,
    {
        let o = values[i].partial_cmp(&values[i + 1], fpu);
        assert(vs[i as int] == values@[i as int]@);
        assert(vs[i + 1] == values@[i + 1]@);
        if !holds(rel, o) {
            return false;
        }
        i = i + 1;
    }
    true
}

/// Whether every pair of neighbours is the same value (`equal`), or every
/// pair differs (`!equal`).
pub open spec fn chain_same(vs: Seq<ValueV>, equal: bool) -> bool {
    forall|i: int| 0 <= i < vs.len() - 1 ==> (#[trigger] same_value(vs[i], vs[i + 1])) == equal
}

pub fn chain_equal(values: &Vec<Value>, equal: bool) -> (r: bool)
    ensures
        r == chain_same(views(values@), equal),
{
    let ghost vs = views(values@);
    let n = values.len();
    if n == 0 {
        return true;
    }
    let mut i: usize = 0;
    while i + 1 < n
        invariant
            n == values@.len(),
            n > 0,
            i < n,
            vs == views(values@),
            forall|j: int| 0 <= j < i ==> (#[trigger] same_value(vs[j], vs[j + 1])) == equal,
        decreases n - i,
    {
        assert(vs[i as int] == values@[i as int]@);
        assert(vs[i + 1] == values@[i + 1]@);
        if (values[i] == values[i + 1]) != equal {
            return false;
        }
        i = i + 1;
    }
    true
}

pub fn all_truthy(values: &Vec<Value>) -> (r: bool)
    ensures
        r == forall|i: int| 0 <= i < values@.len() ==> truthy(#[trigger] views(values@)[i]),
{
    assert forall|i: int| 0 <= i < values@.len() implies #[trigger] views(values@)[i]
        == values@[i]@ by {}
    let n = values.len();
    let mut i: usize = 0;
    while i < n
        invariant
            n == values@.len(),
            i <= n,
            forall|j: int| 0 <= j < i ==> truthy(#[trigger] views(values@)[j]),
            forall|j: int| 0 <= j < n ==> #[trigger] views(values@)[j] == values@[j]@,
        decreases n - i,
    {
        if !values[i].as_bool() {
            assert(!truthy(views(values@)[i as int]));
            return false;
        }
        i = i + 1;
    }
    true
}

pub fn any_truthy(values: &Vec<Value>) -> (r: bool)
    ensures
        r == exists|i: int| 0 <= i < values@.len() && truthy(#[trigger] views(values@)[i]),
{
    assert forall|i: int| 0 <= i < values@.len() implies #[trigger] views(values@)[i]
        == values@[i]@ by {}
    let n = values.len();
    let mut i: usize = 0;
    while i < n
        invariant
            n == values@.len(),
            i <= n,
            forall|j: int| 0 <= j < i ==> !truthy(#[trigger] views(values@)[j]),
            forall|j: int| 0 <= j < n ==> #[trigger] views(values@)[j] == values@[j]@,
        decreases n - i,
    {
        if values[i].as_bool() {
            assert(truthy(views(values@)[i as int]));
            return true;
        }
        i = i + 1;
    }
    false
}

/// The parts with `sep` between neighbours.
pub open spec fn joined(parts: Seq<Seq<char>>, sep: Seq<char>) -> Seq<char>
    decreases parts.len(),
{
    if parts.len() == 0 {
        Seq::empty()
    } else if parts.len() == 1 {
        parts[0]
    } else {
        joined(parts.drop_last(), sep) + sep + parts.last()
    }
}

/// The string forms of the values; decided where none is a `Float`.
pub open spec fn texts(vs: Seq<ValueV>) -> Seq<Seq<char>> {
    vs.map_values(|v: ValueV| text_of(v)->0)
}

pub open spec fn no_floats(vs: Seq<ValueV>) -> bool {
    forall|i: int| 0 <= i < vs.len() ==> !((#[trigger] vs[i]) is Float)
}

/// The string forms of the values with `sep` between neighbours.
pub fn join_texts<F: FloatUnit>(values: &Vec<Value>, sep: &str, fpu: &F) -> (r: String)
    ensures
        no_floats(views(values@)) ==> r@ == joined(texts(views(values@)), sep@),
{
    let ghost vs = views(values@);
    let n = values.len();
    let mut r = String::new();
    let mut i: usize = 0;
    while i < n
        invariant
            n == values@.len(),
            i <= n,
            vs == views(values@),
            no_floats(vs) ==> r@ == joined(texts(vs).subrange(0, i as int), sep@),
        decreases n - i,
    {
        if i > 0 {
            r.append(sep);
        }
        let t = values[i].to_text(fpu);
        r.append(t.as_str());
        proof {
            if no_floats(vs) {
                assert(!(vs[i as int] is Float));
                assert(vs[i as int] == values@[i as int]@);
                let p = texts(vs).subrange(0, i + 1);
                assert(p.drop_last() == texts(vs).subrange(0, i as int));
                assert(p.last() == t@);
                if i == 0 {
                    assert(p.len() == 1);
                }
            }
        }
        i = i + 1;
    }
    proof {
        assert(texts(vs).subrange(0, n as int) == texts(vs));
    }
    r
}

/// The kind names of the values, space-separated; `null` for no values.
pub fn kind_names(values: &Vec<Value>) -> (r: String)
    ensures
        values@.len() == 0 ==> r@ == "null"@,
        values@.len() > 0 ==> r@ == joined(
            views(values@).map_values(|v: ValueV| kind_name_of(v)),
            " "@,
        ),
{
    let n = values.len();
    if n == 0 {
        return String::from_str("null");
    }
    let ghost names = views(values@).map_values(|v: ValueV| kind_name_of(v));
    let mut r = String::new();
    let mut i: usize = 0;
    while i < n
        invariant
            n == values@.len(),
            i <= n,
            names == views(values@).map_values(|v: ValueV| kind_name_of(v)),
            r@ == joined(names.subrange(0, i as int), " "@),
        decreases n - i,
    {
        if i > 0 {
            r.append(" ");
        }
        let t = values[i].kind_name();
        r.append(t.as_str());
        proof {
            let p = names.subrange(0, i + 1);
            assert(p.drop_last() == names.subrange(0, i as int));
            assert(p.last() == t@);
            if i == 0 {
                assert(p.len() == 1);
            }
        }
        i = i + 1;
    }
    proof {
        assert(names.subrange(0, n as int) == names);
    }
    r
}

} // verus!
