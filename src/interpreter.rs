//! The tree-walking evaluator.
//!
//! Every evaluation of a node, and every pass of a loop, spends one step of
//! the runtime's step budget, so that each call returns; the embedding
//! program chooses the budget.
use vstd::prelude::*;
use vstd::string::*;
use crate::element::{first_binding, Element};
use crate::env::{find_special, frames_view, special_lookup, Bindings, FunctionTable};
use crate::float::FloatUnit;
use crate::fold::{
    all_truthy, any_truthy, chain_equal, chain_holds, fold_values, join_texts, kind_names, no_floats, views,
    Arith,
};
use crate::opcode::{op_of, Op};
use crate::semantics::{
    FlowV, Machine, PassEnd, attribute_or, binding_map, break_caught, call_frame_spec, caught,
    combine_spec, combines_values, count_tag, elif_ok, ev, ev_all, ev_call, ev_cond, ev_elifs,
    ev_get, ev_if, ev_loop, ev_pass, ev_seq, ev_set, ev_special, ev_text, ev_try, ev_values,
    fail_with, fails, first_tag, flag_or, flow_view, function_map, gives, has_tag, if_parts_only,
    if_shape_ok, is_elif_part, is_if_part, lemma_caught, lemma_quiet_below, lemma_quiet_children,
    loop_end, loop_start, machine, next_depth_spec, outcome_matches, quiet, quiet_functions,
    realizes, result_view, run_spec, space_count, tag_of, trimmed, unary_spec, without_line_end,
};
use crate::text::{
    int_text, contains, ends_with, int_to_text, lower_of, lowercase, parse_i32, parse_i64, parse_u64,
    parse_usize, repeat_text, same_text, starts_with, trim_text,
};
use crate::value::{
    abs_outcome, int_of, neg_outcome, not_outcome, text_of, truthy, Relation, Value, ValueV,
};

verus! {

/// How an evaluation ends other than with a value.
#[derive(Debug)]
pub enum Flow {
    /// `break` or `return`, carrying its value to the enclosing block, branch,
    /// program, function body or loop.
    Break(Value),
    /// `continue`, ending the current pass of the enclosing loop.
    Continue,
    /// `exit`: the program run ends with this status code.
    Exit(i32),
    /// An error, with its message; `try` recovers from these alone.
    Fail(String),
}

/// The console that `print`, `readline` and `delay` use.
pub trait Console {
    /// Writes `text`, then a line break where `newline` holds; without one
    /// the output is flushed. An error comes back as its message.
    fn write(&mut self, text: &str, newline: bool) -> Result<(), String>;

    /// Reads one line, with its line terminator if it had one.
    fn read_line(&mut self) -> Result<String, String>;

    /// Blocks for `millis` milliseconds.
    fn sleep(&mut self, millis: u64);
}

/// What an evaluation shares across the whole program run.
pub struct Runtime<'a, F, C> {
    pub fpu: F,
    pub console: C,
    pub functions: FunctionTable<'a>,
    /// Evaluation steps left; at zero, evaluation fails.
    pub steps: u64,
}

impl<'a, F, C> Runtime<'a, F, C> {
    pub fn new(fpu: F, console: C, steps: u64) -> (r: Runtime<'a, F, C>)
        ensures
            r.functions@.len() == 0,
            quiet_functions(r.functions@),
            r.steps == steps,
    {
        Runtime { fpu, console, functions: FunctionTable::new(), steps }
    }
}

fn catch_break(r: Result<Value, Flow>) -> (out: Result<Value, Flow>)
    ensures
        out == break_caught(r),
{
    match r {
        Err(Flow::Break(v)) => Ok(v),
        other => other,
    }
}

fn fail(message: &str) -> (r: Flow)
    ensures
        r is Fail,
        flow_view(r) == FlowV::Fail(message@),
{
    Flow::Fail(String::from_str(message))
}

/// `before` + `name`, as an error.
fn fail_named(before: &str, name: &str) -> (r: Flow)
    ensures
        flow_view(r) == FlowV::Fail(before@ + name@),
{
    let mut m = String::from_str(before);
    m.append(name);
    Flow::Fail(m)
}

/// `before` + `name` + `after`, as an error.
fn fail_about(before: &str, name: &str, after: &str) -> (r: Flow)
    ensures
        r is Fail,
        flow_view(r) == FlowV::Fail(before@ + name@ + after@),
{
    let mut m = String::from_str(before);
    m.append(name);
    m.append(after);
    Flow::Fail(m)
}

fn next_depth(depth: u32) -> (r: u32)
    ensures
        r > 0,
        r == next_depth_spec(depth),
{
    if depth < u32::MAX {
        depth + 1
    } else {
        depth
    }
}

/// The frames with one more, innermost frame.
pub fn push_frame(frames: &Vec<Bindings>, frame: Bindings) -> (r: Vec<Bindings>)
    ensures
        frames_view(r@) == frames_view(frames@).push(frame@),
{
    let n = frames.len();
    let mut r: Vec<Bindings> = Vec::new();
    let mut i: usize = 0;
    while i < n
        invariant
            n == frames@.len(),
            i <= n,
            r@.len() == i,
            forall|j: int| 0 <= j < i ==> (#[trigger] r@[j])@ == frames@[j]@,
        decreases n - i,
    {
        r.push(frames[i].copy());
        i = i + 1;
    }
    r.push(frame);
    assert(frames_view(r@) =~= frames_view(frames@).push(frame@));
    r
}

/// A frame binding one name.
fn single_frame(key: &str, value: Value) -> (r: Bindings)
    ensures
        r@ == seq![(key@, value@)],
        first_binding(r@, key@) == Some(value@),
{
    Bindings::singleton(key, value)
}

proof fn lemma_first_tag_at(s: Seq<Element>, tag: Seq<char>, i: int)
    requires
        0 <= i < s.len(),
        lower_of(s[i].name@) == tag,
        forall|k: int| 0 <= k < i ==> lower_of((#[trigger] s[k]).name@) != tag,
    ensures
        first_tag(s, tag) == Some(i),
    decreases i,
{
    if i > 0 {
        assert forall|k: int| 0 <= k < i - 1 implies lower_of((#[trigger] s.drop_first()[k]).name@)
            != tag by {
            assert(s.drop_first()[k] == s[k + 1]);
        }
        lemma_first_tag_at(s.drop_first(), tag, i - 1);
    }
}

proof fn lemma_first_tag_none(s: Seq<Element>, tag: Seq<char>)
    requires
        forall|k: int| 0 <= k < s.len() ==> lower_of((#[trigger] s[k]).name@) != tag,
    ensures
        first_tag(s, tag) is None,
    decreases s.len(),
{
    if s.len() > 0 {
        assert forall|k: int| 0 <= k < s.drop_first().len() implies lower_of(
            (#[trigger] s.drop_first()[k]).name@,
        ) != tag by {
            assert(s.drop_first()[k] == s[k + 1]);
        }
        lemma_first_tag_none(s.drop_first(), tag);
    }
}

/// The position of the first child whose lower-cased name is `tag`.
fn child_named(children: &Vec<Element>, tag: &str) -> (r: Option<usize>)
    ensures
        r matches Some(i) ==> i < children@.len() && lower_of(children@[i as int].name@) == tag@,
        r is None ==> !has_tag(children@, tag@),
        match first_tag(children@, tag@) {
            Some(i) => r is Some && r->0 as int == i,
            None => r is None,
        },
{
    let n = children.len();
    let mut i: usize = 0;
    while i < n
        invariant
            n == children@.len(),
            i <= n,
            forall|k: int| 0 <= k < i ==> lower_of((#[trigger] children@[k]).name@) != tag@,
        decreases n - i,
    {
        let l = lowercase(children[i].name.as_str());
        if same_text(l.as_str(), tag) {
            proof {
                lemma_first_tag_at(children@, tag@, i as int);
            }
            return Some(i);
        }
        i = i + 1;
    }
    proof {
        lemma_first_tag_none(children@, tag@);
    }
    None
}

/// How many children have the lower-cased name `tag`.
fn count_named(children: &Vec<Element>, tag: &str) -> (r: usize)
    ensures
        r <= children@.len(),
        r == count_tag(children@, tag@),
{
    let n = children.len();
    let mut count: usize = 0;
    let mut i: usize = 0;
    while i < n
        invariant
            n == children@.len(),
            i <= n,
            count <= i,
            count == count_tag(children@.subrange(0, i as int), tag@),
        decreases n - i,
    {
        let l = lowercase(children[i].name.as_str());
        proof {
            let p = children@.subrange(0, i + 1);
            assert(p.drop_last() == children@.subrange(0, i as int));
            assert(p.last() == children@[i as int]);
        }
        if same_text(l.as_str(), tag) {
            count = count + 1;
        }
        i = i + 1;
    }
    assert(children@.subrange(0, n as int) == children@);
    count
}

/// Checks the shape of an `if`: one `condition`, one `then`, at most one
/// `else`, any number of `elif`s that each hold one `condition` and one
/// `then`, and nothing else.
fn check_if_shape(element: &Element) -> (r: Result<(), Flow>)
    ensures
        r matches Err(f) ==> f is Fail,
        r is Ok <==> if_shape_ok(*element),
        r is Ok ==> element.children@.len() >= 2 && if_parts_only(element.children@),
{
    let children = &element.children;
    if children.len() < 2 {
        return Err(fail("Expected at least 2 children in <if> element"));
    }
    let n = children.len();
    let mut i: usize = 0;
    while i < n
        invariant
            n == children@.len(),
            children@ == element.children@,
            i <= n,
            forall|k: int| 0 <= k < i ==> is_if_part(#[trigger] children@[k]),
        decreases n - i,
    {
        let l = lowercase(children[i].name.as_str());
        let t = l.as_str();
        if !(same_text(t, "condition") || same_text(t, "then") || same_text(t, "elif")
            || same_text(t, "else")) {
            assert(!is_if_part(children@[i as int]));
            assert(!if_shape_ok(*element));
            return Err(
                fail_about("Unexpected child in <if> element: ", children[i].name.as_str(), ""),
            );
        }
        i = i + 1;
    }
    assert(if_parts_only(children@)) by {
        assert forall|k: int| 0 <= k < children@.len() implies {
            let t = lower_of((#[trigger] children@[k]).name@);
            t == "condition"@ || t == "then"@ || t == "elif"@ || t == "else"@
        } by {
            assert(is_if_part(children@[k]));
        }
    }
    if count_named(children, "condition") != 1 {
        return Err(fail("Expected exactly one <condition> child in <if> element"));
    }
    if count_named(children, "then") != 1 {
        return Err(fail("Expected exactly one <then> child in <if> element"));
    }
    if count_named(children, "else") > 1 {
        return Err(fail("Expected at most one <else> child in <if> element"));
    }
    let mut i: usize = 0;
    while i < n
        invariant
            n == children@.len(),
            children@ == element.children@,
            i <= n,
            forall|k: int|
                0 <= k < i && lower_of((#[trigger] children@[k]).name@) == "elif"@ ==> elif_ok(
                    children@[k],
                ),
        decreases n - i,
    {
        let l = lowercase(children[i].name.as_str());
        if same_text(l.as_str(), "elif") {
            let parts = &children[i].children;
            assert(lower_of(children@[i as int].name@) == "elif"@);
            if parts.len() != 2 {
                assert(!elif_ok(children@[i as int]));
                assert(!if_shape_ok(*element));
                return Err(fail("Expected exactly 2 children in <elif> element"));
            }
            let mut j: usize = 0;
            while j < 2
                invariant
                    parts@.len() == 2,
                    j <= 2,
                    i < n,
                    n == children@.len(),
                    children@ == element.children@,
                    parts@ == children@[i as int].children@,
                    lower_of(children@[i as int].name@) == "elif"@,
                    forall|jj: int| 0 <= jj < j ==> is_elif_part(#[trigger] parts@[jj]),
                decreases 2 - j,
            {
                let pl = lowercase(parts[j].name.as_str());
                if !(same_text(pl.as_str(), "condition") || same_text(pl.as_str(), "then")) {
                    assert(!is_elif_part(parts@[j as int]));
                    assert(!elif_ok(children@[i as int]));
                    assert(!if_shape_ok(*element));
                    return Err(
                        fail_about(
                            "Unexpected child in <elif> element: ",
                            parts[j].name.as_str(),
                            "",
                        ),
                    );
                }
                j = j + 1;
            }
            if count_named(parts, "condition") != 1 {
                assert(!elif_ok(children@[i as int]));
                assert(!if_shape_ok(*element));
                return Err(fail("Expected exactly one <condition> child in <elif> element"));
            }
            if count_named(parts, "then") != 1 {
                assert(!elif_ok(children@[i as int]));
                assert(!if_shape_ok(*element));
                return Err(fail("Expected exactly one <then> child in <elif> element"));
            }
            assert(elif_ok(children@[i as int]));
        }
        i = i + 1;
    }
    Ok(())
}

/// The truthiness of an attribute, or `default` where it is absent.
fn flag_attribute(element: &Element, key: &str, default: bool) -> (r: bool)
    ensures
        first_binding(element.attrs(), key@) is None ==> r == default,
        first_binding(element.attrs(), key@) matches Some(s) ==> r == truthy(ValueV::Str(s)),
{
    match element.attribute(key) {
        Some(s) => Value::Str(s.clone()).as_bool(),
        None => default,
    }
}

/// The text of an attribute, or `default` where it is absent.
fn text_attribute(element: &Element, key: &str, default: &str) -> (r: String)
    ensures
        first_binding(element.attrs(), key@) is None ==> r@ == default@,
        first_binding(element.attrs(), key@) matches Some(s) ==> r@ == s,
{
    match element.attribute(key) {
        Some(s) => s.clone(),
        None => String::from_str(default),
    }
}

/// Evaluates `children` in order and returns the last value (`Null` for
/// none); the first child that does not give a value ends the sequence.
pub fn eval_sequence<'a, F: FloatUnit, C: Console>(
    children: &'a Vec<Element>,
    depth: u32,
    variables: &mut Bindings,
    specials: &Vec<Bindings>,
    rt: &mut Runtime<'a, F, C>,
) -> (r: Result<Value, Flow>)
    ensures
        final(rt).steps <= old(rt).steps,
        children@.len() == 0 ==> gives(r, ValueV::Null) && final(variables)@ == old(variables)@,
        realizes(
            ev_seq(children@, 0, ValueV::Null, depth, machine(*old(variables), *old(rt)), frames_view(specials@)),
            r,
            machine(*final(variables), *final(rt)),
        ),
    decreases old(rt).steps, 1nat,
{
    let ghost whole = ev_seq(children@, 0, ValueV::Null, depth, machine(*variables, *rt), frames_view(specials@));
    let n = children.len();
    let mut last = Value::Null;
    let mut i: usize = 0;
    while i < n
        invariant
            n == children@.len(),
            i <= n,
            rt.steps <= old(rt).steps,
            n == 0 ==> last@ == ValueV::Null && variables@ == old(variables)@,
            whole == ev_seq(children@, 0, ValueV::Null, depth, machine(*old(variables), *old(rt)), frames_view(specials@)),
            whole is Some ==> whole == ev_seq(children@, i as int, last@, depth, machine(*variables, *rt), frames_view(specials@)),
        decreases n - i,
    {
        match interpret(&children[i], depth, variables, specials, rt) {
            Ok(v) => {
                last = v;
            },
            Err(e) => {
                return Err(e);
            },
        }
        i = i + 1;
    }
    Ok(last)
}

/// Evaluates every child in order; the first that does not give a value
/// ends the evaluation.
pub fn eval_all<'a, F: FloatUnit, C: Console>(
    children: &'a Vec<Element>,
    depth: u32,
    variables: &mut Bindings,
    specials: &Vec<Bindings>,
    rt: &mut Runtime<'a, F, C>,
) -> (r: Result<Vec<Value>, Flow>)
    ensures
        final(rt).steps <= old(rt).steps,
        r matches Ok(vs) ==> vs@.len() == children@.len(),
        children@.len() == 0 ==> r is Ok && final(variables)@ == old(variables)@,
        ev_all(children@, 0, Seq::empty(), depth, machine(*old(variables), *old(rt)), frames_view(specials@))
            matches Some((res, m)) ==> machine(*final(variables), *final(rt)) == m && match res {
            Ok(vs) => r is Ok && views(r->Ok_0@) == vs,
            Err(f) => r is Err && flow_view(r->Err_0) == f,
        },
    decreases old(rt).steps, 1nat,
{
    let ghost whole = ev_all(children@, 0, Seq::empty(), depth, machine(*variables, *rt), frames_view(specials@));
    assert(views(Seq::<Value>::empty()) =~= Seq::<ValueV>::empty());
    let n = children.len();
    let mut values: Vec<Value> = Vec::new();
    let mut i: usize = 0;
    while i < n
        invariant
            n == children@.len(),
            i <= n,
            values@.len() == i,
            rt.steps <= old(rt).steps,
            n == 0 ==> variables@ == old(variables)@,
            whole == ev_all(children@, 0, Seq::empty(), depth, machine(*old(variables), *old(rt)), frames_view(specials@)),
            whole is Some ==> whole == ev_all(children@, i as int, views(values@), depth, machine(*variables, *rt), frames_view(specials@)),
        decreases n - i,
    {
        match interpret(&children[i], depth, variables, specials, rt) {
            Ok(v) => {
                let ghost before = values@;
                values.push(v);
                assert(views(values@) =~= views(before).push(v@));
            },
            Err(e) => {
                return Err(e);
            },
        }
        i = i + 1;
    }
    Ok(values)
}

fn eval_single<'a, F: FloatUnit, C: Console>(
    element: &'a Element,
    name: &str,
    depth: u32,
    variables: &mut Bindings,
    specials: &Vec<Bindings>,
    rt: &mut Runtime<'a, F, C>,
) -> (r: Result<Value, Flow>)
    ensures
        final(rt).steps <= old(rt).steps,
        element.children@.len() != 1 ==> fails(r),
        realizes(
            if element.children@.len() != 1 {
                fail_with("Expected exactly one child in <"@ + name@ + "> element"@, machine(*old(variables), *old(rt)))
            } else {
                ev(element.children@[0], depth, machine(*old(variables), *old(rt)), frames_view(specials@))
            },
            r,
            machine(*final(variables), *final(rt)),
        ),
    decreases old(rt).steps, 1nat,
{
    if element.children.len() != 1 {
        return Err(fail_about("Expected exactly one child in <", name, "> element"));
    }
    interpret(&element.children[0], depth, variables, specials, rt)
}

/// The `_text` attribute followed by the string forms of the children's
/// values, leaving out `Null` values.
fn eval_text<'a, F: FloatUnit, C: Console>(
    element: &'a Element,
    depth: u32,
    variables: &mut Bindings,
    specials: &Vec<Bindings>,
    rt: &mut Runtime<'a, F, C>,
) -> (r: Result<String, Flow>)
    ensures
        final(rt).steps <= old(rt).steps,
        element.children@.len() == 0 ==> r is Ok,
        ev_text(
            element.children@,
            0,
            attribute_or(element, "_text"@, Seq::empty()),
            depth,
            machine(*old(variables), *old(rt)),
            frames_view(specials@),
        ) matches Some((res, m)) ==> machine(*final(variables), *final(rt)) == m && match res {
            Ok(t) => r is Ok && r->Ok_0@ == t,
            Err(f) => r is Err && flow_view(r->Err_0) == f,
        },
    decreases old(rt).steps, 1nat,
{
    proof {
        reveal_strlit("");
        assert(""@ =~= Seq::<char>::empty());
    }
    let mut text = text_attribute(element, "_text", "");
    let ghost whole = ev_text(
        element.children@,
        0,
        text@,
        depth,
        machine(*variables, *rt),
        frames_view(specials@),
    );
    assert(text@ == attribute_or(element, "_text"@, Seq::empty()));
    let n = element.children.len();
    let mut i: usize = 0;
    while i < n
        invariant
            n == element.children@.len(),
            i <= n,
            rt.steps <= old(rt).steps,
            whole == ev_text(
                element.children@,
                0,
                attribute_or(element, "_text"@, Seq::empty()),
                depth,
                machine(*old(variables), *old(rt)),
                frames_view(specials@),
            ),
            whole is Some ==> whole == ev_text(
                element.children@,
                i as int,
                text@,
                depth,
                machine(*variables, *rt),
                frames_view(specials@),
            ),
        decreases n - i,
    {
        match interpret(&element.children[i], depth, variables, specials, rt) {
            Ok(v) => {
                if !v.is_null() {
                    let t = v.to_text(&rt.fpu);
                    text.append(t.as_str());
                }
            },
            Err(e) => {
                return Err(e);
            },
        }
        i = i + 1;
    }
    Ok(text)
}

/// `get`: the variable named by the `var` attribute (or by the sole child's
/// string form); an unbound name gives the sole child's value, or `Null`.
fn eval_get<'a, F: FloatUnit, C: Console>(
    element: &'a Element,
    depth: u32,
    variables: &mut Bindings,
    specials: &Vec<Bindings>,
    rt: &mut Runtime<'a, F, C>,
) -> (r: Result<Value, Flow>)
    ensures
        final(rt).steps <= old(rt).steps,
        realizes(
            ev_get(*element, depth, machine(*old(variables), *old(rt)), frames_view(specials@)),
            r,
            machine(*final(variables), *final(rt)),
        ),
    decreases old(rt).steps, 1nat,
{
    match element.attribute("var") {
        Some(name) => match variables.get(name.as_str()) {
            Some(v) => Ok(v),
            None => {
                if element.children.len() == 0 {
                    Ok(Value::Null)
                } else if element.children.len() != 1 {
                    Err(
                        fail(
                            "Expected exactly one child or the `var` attribute in <get> element",
                        ),
                    )
                } else {
                    interpret(&element.children[0], depth, variables, specials, rt)
                }
            },
        },
        None => {
            if element.children.len() != 1 {
                return Err(
                    fail("Expected exactly one child or the `var` attribute in <get> element"),
                );
            }
            match interpret(&element.children[0], depth, variables, specials, rt) {
                Ok(key) => {
                    let key_text = key.to_text(&rt.fpu);
                    match variables.get(key_text.as_str()) {
                        Some(v) => Ok(v),
                        None => Ok(Value::Null),
                    }
                },
                Err(e) => Err(e),
            }
        },
    }
}

/// `set`: binds the `var` attribute's name to the sole child's value and
/// gives that value.
fn eval_set<'a, F: FloatUnit, C: Console>(
    element: &'a Element,
    depth: u32,
    variables: &mut Bindings,
    specials: &Vec<Bindings>,
    rt: &mut Runtime<'a, F, C>,
) -> (r: Result<Value, Flow>)
    ensures
        final(rt).steps <= old(rt).steps,
        realizes(
            ev_set(*element, depth, machine(*old(variables), *old(rt)), frames_view(specials@)),
            r,
            machine(*final(variables), *final(rt)),
        ),
    decreases old(rt).steps, 1nat,
{
    let name = match element.attribute("var") {
        Some(n) => n.clone(),
        None => {
            return Err(fail("Expected the `var` attribute in <set> element"));
        },
    };
    if element.children.len() != 1 {
        return Err(fail("Expected exactly one child in <set> element"));
    }
    match interpret(&element.children[0], depth, variables, specials, rt) {
        Ok(v) => {
            let stored = v.duplicate();
            let ghost before = variables@;
            variables.set(name, stored);
            assert(binding_map(variables@) =~= binding_map(before).insert(name@, v@));
            Ok(v)
        },
        Err(e) => Err(e),
    }
}

/// `special`: the innermost binding of the `name` attribute's name (or of
/// the sole child's string form) among the special frames.
fn eval_special<'a, F: FloatUnit, C: Console>(
    element: &'a Element,
    depth: u32,
    variables: &mut Bindings,
    specials: &Vec<Bindings>,
    rt: &mut Runtime<'a, F, C>,
) -> (r: Result<Value, Flow>)
    ensures
        final(rt).steps <= old(rt).steps,
        realizes(
            ev_special(*element, depth, machine(*old(variables), *old(rt)), frames_view(specials@)),
            r,
            machine(*final(variables), *final(rt)),
        ),
    decreases old(rt).steps, 1nat,
{
    let name = match element.attribute("name") {
        Some(n) => n.clone(),
        None => {
            if element.children.len() != 1 {
                return Err(
                    fail("Expected exactly one child or the `name` attribute in <special> element"),
                );
            }
            match interpret(&element.children[0], depth, variables, specials, rt) {
                Ok(v) => v.to_text(&rt.fpu),
                Err(e) => {
                    return Err(e);
                },
            }
        },
    };
    match find_special(specials, name.as_str()) {
        Some(v) => Ok(v),
        None => Err(fail_about("Special `", name.as_str(), "` not found")),
    }
}





/// The operations that evaluate every child first and then combine the
/// values: `type`, `print`, `join`, the arithmetic folds, `and`, `or`, the
/// comparisons and the string tests.
fn eval_values_op<'a, F: FloatUnit, C: Console>(
    op: Op,
    element: &'a Element,
    name: &str,
    depth: u32,
    variables: &mut Bindings,
    specials: &Vec<Bindings>,
    rt: &mut Runtime<'a, F, C>,
) -> (r: Result<Value, Flow>)
    ensures
        final(rt).steps <= old(rt).steps,
        op == Op::Mul ==> (r is Ok ==> r->Ok_0@ == ValueV::Null),
        (op == Op::And || op == Op::Or || op == Op::Eq || op == Op::Ne || op == Op::Lt || op
            == Op::Le || op == Op::Gt || op == Op::Ge) ==> (element.children@.len() < 2 ==> fails(
            r,
        )) && (r is Ok ==> r->Ok_0@ is Bool),
        (op == Op::StartsWith || op == Op::EndsWith || op == Op::Contains) ==> (
        element.children@.len() != 2 ==> fails(r)) && (r is Ok ==> r->Ok_0@ is Bool),
        (op == Op::Type || op == Op::Join || op == Op::Print) ==> (r is Ok ==> r->Ok_0@ is Str),
        combines_values(op) ==> realizes(
            ev_values(op, *element, name@, depth, machine(*old(variables), *old(rt)), frames_view(specials@)),
            r,
            machine(*final(variables), *final(rt)),
        ),
    decreases old(rt).steps, 2nat,
{
    let n = element.children.len();
    let at_least_two = op == Op::And || op == Op::Or || op == Op::Eq || op == Op::Ne || op
        == Op::Lt || op == Op::Le || op == Op::Gt || op == Op::Ge;
    if at_least_two && n < 2 {
        return Err(fail_about("Expected at least 2 children in <", name, "> element"));
    }
    let exactly_two = op == Op::StartsWith || op == Op::EndsWith || op == Op::Contains;
    if exactly_two && n != 2 {
        return Err(fail_about("Expected exactly 2 children in <", name, "> element"));
    }
    let (newline, separator, start, end) = if op == Op::Print {
        (flag_attribute(element, "newline", true), String::new(), String::new(), String::new())
    } else if op == Op::Join {
        (
            true,
            text_attribute(element, "separator", " "),
            text_attribute(element, "start", ""),
            text_attribute(element, "end", ""),
        )
    } else {
        (true, String::new(), String::new(), String::new())
    };
    proof {
        reveal_strlit(" ");
        reveal_strlit("");
        assert(""@ =~= Seq::<char>::empty());
    }
    assert(op == Op::Join ==> separator@ == attribute_or(element, "separator"@, " "@));
    assert(op == Op::Join ==> start@ == attribute_or(element, "start"@, Seq::empty()));
    assert(op == Op::Join ==> end@ == attribute_or(element, "end"@, Seq::empty()));
    let values = match eval_all(&element.children, depth, variables, specials, rt) {
        Ok(vs) => vs,
        Err(e) => {
            return Err(e);
        },
    };
    let fpu = &rt.fpu;
    combine(op, element, &values, newline, &separator, start, end, fpu, &mut rt.console)
}

/// Combines the children's values for [`eval_values_op`].
fn combine<F: FloatUnit, C: Console>(
    op: Op,
    element: &Element,
    values: &Vec<Value>,
    newline: bool,
    separator: &String,
    start: String,
    end: String,
    fpu: &F,
    console: &mut C,
) -> (r: Result<Value, Flow>)
    requires
        (op == Op::StartsWith || op == Op::EndsWith || op == Op::Contains) ==> values@.len() == 2,
        op == Op::Join ==> separator@ == attribute_or(element, "separator"@, " "@),
        op == Op::Join ==> start@ == attribute_or(element, "start"@, Seq::empty()),
        op == Op::Join ==> end@ == attribute_or(element, "end"@, Seq::empty()),
    ensures
        combine_spec(op, *element, views(values@)) matches Some(res) ==> result_view(r) == res,
        op == Op::Mul ==> (r is Ok ==> r->Ok_0@ == ValueV::Null),
        (op == Op::And || op == Op::Or || op == Op::Eq || op == Op::Ne || op == Op::Lt || op
            == Op::Le || op == Op::Gt || op == Op::Ge || op == Op::StartsWith || op == Op::EndsWith
            || op == Op::Contains) ==> (r is Ok ==> r->Ok_0@ is Bool),
        (op == Op::Type || op == Op::Join || op == Op::Print) ==> (r is Ok ==> r->Ok_0@ is Str),
        op != Op::Print ==> *final(console) == *old(console),
{
    proof {
        reveal_strlit("");
    }
    match op {
        Op::Type => Ok(Value::Str(kind_names(values))),
        Op::Print => {
            let output = join_texts(values, "", fpu);
            assert(""@ == Seq::<char>::empty());
            match console.write(output.as_str(), newline) {
                Ok(()) => Ok(Value::Str(output)),
                Err(m) => Err(Flow::Fail(m)),
            }
        },
        Op::Join => {
            let mut text = start;
            let body = join_texts(values, separator.as_str(), fpu);
            text.append(body.as_str());
            text.append(end.as_str());
            assert(text@ == start@ + body@ + end@);
            Ok(Value::Str(text))
        },
        Op::And => Ok(Value::Bool(all_truthy(values))),
        Op::Or => Ok(Value::Bool(any_truthy(values))),
        Op::Eq => Ok(Value::Bool(chain_equal(values, true))),
        Op::Ne => Ok(Value::Bool(chain_equal(values, false))),
        Op::Lt => Ok(Value::Bool(chain_holds(&Relation::Less, values, fpu))),
        Op::Le => Ok(Value::Bool(chain_holds(&Relation::LessOrEqual, values, fpu))),
        Op::Gt => Ok(Value::Bool(chain_holds(&Relation::Greater, values, fpu))),
        Op::Ge => Ok(Value::Bool(chain_holds(&Relation::GreaterOrEqual, values, fpu))),
        Op::StartsWith | Op::EndsWith | Op::Contains => {
            let left = values[0].to_text(fpu);
            let right = values[1].to_text(fpu);
            assert(views(values@)[0] == values@[0]@ && views(values@)[1] == values@[1]@);
            let b = if op == Op::StartsWith {
                starts_with(left.as_str(), right.as_str())
            } else if op == Op::EndsWith {
                ends_with(left.as_str(), right.as_str())
            } else {
                contains(left.as_str(), right.as_str())
            };
            Ok(Value::Bool(b))
        },
        _ => {
            let (k, from_first) = if op == Op::Add {
                (Arith::Add, false)
            } else if op == Op::Mul {
                (Arith::Mul, false)
            } else if op == Op::Sub {
                (Arith::Sub, true)
            } else if op == Op::Div {
                (Arith::Div, true)
            } else {
                (Arith::Rem, true)
            };
            let (seed, start_at) = if from_first && values.len() > 0 {
                (values[0].duplicate(), 1)
            } else {
                (Value::Null, 0)
            };
            if k == Arith::Mul {
                return Ok(product_from_null(values, fpu));
            }
            proof {
                if from_first && values@.len() > 0 {
                    assert(views(values@)[0] == values@[0]@);
                    assert(views(values@).skip(1) == views(values@).skip(start_at as int));
                } else {
                    assert(views(values@).skip(0) == views(values@));
                }
            }
            match fold_values(k, seed, values, start_at, fpu) {
                Ok(v) => Ok(v),
                Err(m) => Err(Flow::Fail(m)),
            }
        },
    }
}

/// The product fold, seeded with `Null`: `Null` absorbs every factor.
fn product_from_null<F: FloatUnit>(values: &Vec<Value>, fpu: &F) -> (r: Value)
    ensures
        r@ == ValueV::Null,
{
    let n = values.len();
    let mut acc = Value::Null;
    let mut i: usize = 0;
    while i < n
        invariant
            n == values@.len(),
            i <= n,
            acc@ == ValueV::Null,
        decreases n - i,
    {
        match acc.mul(values[i].duplicate(), fpu) {
            Ok(v) => {
                acc = v;
            },
            Err(_) => {
                acc = Value::Null;
            },
        }
        i = i + 1;
    }
    acc
}



/// Evaluates the sole child of a `condition` node.
fn eval_condition<'a, F: FloatUnit, C: Console>(
    condition: &'a Element,
    depth: u32,
    variables: &mut Bindings,
    specials: &Vec<Bindings>,
    rt: &mut Runtime<'a, F, C>,
) -> (r: Result<Value, Flow>)
    ensures
        final(rt).steps <= old(rt).steps,
        realizes(ev_cond(*condition, depth, machine(*old(variables), *old(rt)), frames_view(specials@)), r, machine(*final(variables), *final(rt))),
    decreases old(rt).steps, 1nat,
{
    if condition.children.len() != 1 {
        return Err(fail("Expected exactly one child in <condition> element"));
    }
    interpret(&condition.children[0], depth, variables, specials, rt)
}

/// `if`: the first branch whose condition is true runs, with that
/// condition's value as the special `condition`; a `Break` from the branch
/// becomes the result.
#[verifier::rlimit(60)]
fn eval_if<'a, F: FloatUnit, C: Console>(
    element: &'a Element,
    depth: u32,
    variables: &mut Bindings,
    specials: &Vec<Bindings>,
    rt: &mut Runtime<'a, F, C>,
) -> (r: Result<Value, Flow>)
    ensures
        final(rt).steps <= old(rt).steps,
        element.children@.len() < 2 || !if_parts_only(element.children@) || !has_tag(
            element.children@,
            "condition"@,
        ) || !has_tag(element.children@, "then"@) ==> fails(r),
        realizes(ev_if(*element, depth, machine(*old(variables), *old(rt)), frames_view(specials@)), r, machine(*final(variables), *final(rt))),
    decreases old(rt).steps, 3nat,
{
    match check_if_shape(element) {
        Ok(()) => {},
        Err(e) => {
            return Err(e);
        },
    }
    let children = &element.children;
    let ci = match child_named(children, "condition") {
        Some(i) => i,
        None => {
            return Err(fail("Expected a <condition> child in <if> element"));
        },
    };
    let ti = match child_named(children, "then") {
        Some(i) => i,
        None => {
            return Err(fail("Expected a <then> child in <if> element"));
        },
    };
    proof {
        lemma_quiet_below(children@, ci as int);
        lemma_quiet_below(children@, ti as int);
    }
    let ghost whole = ev_if(*element, depth, machine(*variables, *rt), frames_view(specials@));
    let cv = match eval_condition(&children[ci], depth, variables, specials, rt) {
        Ok(v) => v,
        Err(e) => {
            return Err(e);
        },
    };
    let truth = cv.as_bool();
    let ghost cvv = cv@;
    let frames = push_frame(specials, single_frame("condition", cv));
    assert(frames_view(frames@) == frames_view(specials@).push(seq![("condition"@, cvv)]));
    if truth {
        return {
            let ghost m0 = machine(*variables, *rt);
            let s0 = eval_sequence(&children[ti].children, depth, variables, &frames, rt);
            let out = catch_break(s0);
            proof {
                lemma_caught(ev_seq(children@[ti as int].children@, 0, ValueV::Null, depth, m0, frames_view(frames@)), s0, out, machine(*variables, *rt));
            }
            out
        };
    }
    eval_elifs(element, depth, variables, &frames, rt)
}

/// The `elif` children in order, then the `else` child: the first whose
/// condition is true runs, with its condition as the special `condition`.
fn eval_elifs<'a, F: FloatUnit, C: Console>(
    element: &'a Element,
    depth: u32,
    variables: &mut Bindings,
    frames: &Vec<Bindings>,
    rt: &mut Runtime<'a, F, C>,
) -> (r: Result<Value, Flow>)
    ensures
        final(rt).steps <= old(rt).steps,
        realizes(ev_elifs(*element, 0, depth, machine(*old(variables), *old(rt)), frames_view(frames@)), r, machine(*final(variables), *final(rt))),
    decreases old(rt).steps, 2nat,
{
    let children = &element.children;
    let ghost whole = ev_elifs(*element, 0, depth, machine(*variables, *rt), frames_view(frames@));
    let n = children.len();
    let mut i: usize = 0;
    while i < n
        invariant
            n == children@.len(),
            i <= n,
            rt.steps <= old(rt).steps,
            children@ == element.children@,
            whole == ev_elifs(*element, 0, depth, machine(*old(variables), *old(rt)), frames_view(frames@)),
            whole is Some ==> whole == ev_elifs(*element, i as int, depth, machine(*variables, *rt), frames_view(frames@)),
        decreases n - i,
    {
        let l = lowercase(children[i].name.as_str());
        if same_text(l.as_str(), "elif") {
            let parts = &children[i].children;
            proof {
                lemma_quiet_below(children@, i as int);
            }
            let eci = match child_named(parts, "condition") {
                Some(j) => j,
                None => {
                    return Err(fail("Expected a <condition> child in <elif> element"));
                },
            };
            let eti = match child_named(parts, "then") {
                Some(j) => j,
                None => {
                    return Err(fail("Expected a <then> child in <elif> element"));
                },
            };
            proof {
                lemma_quiet_below(parts@, eci as int);
                lemma_quiet_below(parts@, eti as int);
            }
            let ecv = match eval_condition(&parts[eci], depth, variables, &frames, rt) {
                Ok(v) => v,
                Err(e) => {
                    return Err(e);
                },
            };
            let etruth = ecv.as_bool();
            let ghost ecvv = ecv@;
            let inner = push_frame(&frames, single_frame("condition", ecv));
            assert(frames_view(inner@) == frames_view(frames@).push(seq![("condition"@, ecvv)]));
            if etruth {
                return {
            let ghost m0 = machine(*variables, *rt);
            let s0 = eval_sequence(&parts[eti].children, depth, variables, &inner, rt);
            let out = catch_break(s0);
            proof {
                lemma_caught(ev_seq(parts@[eti as int].children@, 0, ValueV::Null, depth, m0, frames_view(inner@)), s0, out, machine(*variables, *rt));
            }
            out
        };
            }
        }
        i = i + 1;
    }
    match child_named(children, "else") {
        Some(ei) => {
            proof {
                lemma_quiet_below(children@, ei as int);
            }
            {
            let ghost m0 = machine(*variables, *rt);
            let s0 = eval_sequence(&children[ei].children, depth, variables, &frames, rt);
            let out = catch_break(s0);
            proof {
                lemma_caught(ev_seq(children@[ei as int].children@, 0, ValueV::Null, depth, m0, frames_view(frames@)), s0, out, machine(*variables, *rt));
            }
            out
        }
        },
        None => Ok(Value::Null),
    }
}

/// How a pass of a loop ended.
enum PassResult {
    Done,
    Broke(Value),
    Stopped(Flow),
}

spec fn pass_view(p: PassResult) -> PassEnd {
    match p {
        PassResult::Done => PassEnd::Done,
        PassResult::Broke(v) => PassEnd::Broke(v@),
        PassResult::Stopped(f) => PassEnd::Stopped(flow_view(f)),
    }
}

/// One pass over a loop's children: `continue` ends it early, `break`
/// and errors end the loop.
fn eval_pass<'a, F: FloatUnit, C: Console>(
    children: &'a Vec<Element>,
    depth: u32,
    variables: &mut Bindings,
    frames: &Vec<Bindings>,
    rt: &mut Runtime<'a, F, C>,
) -> (r: PassResult)
    ensures
        final(rt).steps <= old(rt).steps,
        ev_pass(children@, 0, depth, machine(*old(variables), *old(rt)), frames_view(frames@))
            matches Some((pe, m)) ==> pass_view(r) == pe && machine(*final(variables), *final(rt)) == m,
        r matches PassResult::Stopped(f) ==> !(f is Break) && !(f is Continue),
    decreases old(rt).steps, 1nat,
{
    let ghost whole = ev_pass(children@, 0, depth, machine(*variables, *rt), frames_view(frames@));
    let n = children.len();
    let mut i: usize = 0;
    while i < n
        invariant
            i <= n,
            n == children@.len(),
            rt.steps <= old(rt).steps,
            whole == ev_pass(children@, 0, depth, machine(*old(variables), *old(rt)), frames_view(frames@)),
            whole is Some ==> whole == ev_pass(children@, i as int, depth, machine(*variables, *rt), frames_view(frames@)),
        decreases n - i,
    {
        match interpret(&children[i], depth, variables, frames, rt) {
            Ok(_) => {
                i = i + 1;
            },
            Err(Flow::Break(v)) => {
                return PassResult::Broke(v);
            },
            Err(Flow::Continue) => {
                return PassResult::Done;
            },
            Err(e) => {
                return PassResult::Stopped(e);
            },
        }
    }
    PassResult::Done
}

/// `loop`: passes over the children with the special `iteration` counting
/// up from the `start` attribute (default 0) until it reaches the `end`
/// attribute, if there is one. `continue` ends a pass; `break` ends the
/// loop with its value.
fn eval_loop<'a, F: FloatUnit, C: Console>(
    element: &'a Element,
    depth: u32,
    variables: &mut Bindings,
    specials: &Vec<Bindings>,
    rt: &mut Runtime<'a, F, C>,
) -> (r: Result<Value, Flow>)
    ensures
        final(rt).steps <= old(rt).steps,
        r matches Err(f) ==> !(f is Break) && !(f is Continue),
        realizes(
            ev_loop(*element, loop_start(element), depth, machine(*old(variables), *old(rt)), frames_view(specials@)),
            r,
            machine(*final(variables), *final(rt)),
        ),
    decreases old(rt).steps, 2nat,
{
    let start: i64 = match element.attribute("start") {
        Some(s) => match parse_i64(s.as_str()) {
            Some(v) => v,
            None => 0,
        },
        None => 0,
    };
    let end: Option<i64> = match element.attribute("end") {
        Some(s) => parse_i64(s.as_str()),
        None => None,
    };
    let ghost sp = frames_view(specials@);
    let ghost whole = ev_loop(*element, start, depth, machine(*variables, *rt), sp);
    let mut iteration = start;
    let mut frames = push_frame(specials, single_frame("iteration", Value::Int(iteration)));
    assert(frames_view(frames@).len() == frames@.len());
    let last = frames.len() - 1;
    let children = &element.children;
    loop
        invariant
            rt.steps <= old(rt).steps,
            frames@.len() == last + 1,
            last == sp.len(),
            frames_view(frames@).subrange(0, last as int) == sp,
            sp == frames_view(specials@),
            children == &element.children,
            end == loop_end(element),
            whole == ev_loop(*element, loop_start(element), depth, machine(*old(variables), *old(rt)), sp),
            whole is Some ==> whole == ev_loop(*element, iteration, depth, machine(*variables, *rt), sp),
        decreases rt.steps,
    {
        let ghost before = frames_view(frames@);
        frames.set(last, single_frame("iteration", Value::Int(iteration)));
        assert(frames_view(frames@) =~= sp.push(seq![("iteration"@, ValueV::Int(iteration))])) by {
            assert(frames_view(frames@).subrange(0, last as int) =~= before.subrange(0, last as int));
        }
        match end {
            Some(e) => {
                if iteration >= e {
                    return Ok(Value::Null);
                }
            },
            None => {},
        }
        if rt.steps == 0 {
            return Err(fail("Evaluation step limit reached"));
        }
        rt.steps = rt.steps - 1;
        match eval_pass(children, depth, variables, &frames, rt) {
            PassResult::Done => {},
            PassResult::Broke(v) => {
                return Ok(v);
            },
            PassResult::Stopped(e) => {
                return Err(e);
            },
        }
        iteration = iteration.wrapping_add(1);
        proof {
            assert(frames_view(frames@).subrange(0, last as int) =~= sp);
        }
    }
}

/// `try`: runs the `do` child's children; an error (and nothing else: a
/// `break`, `continue` or `exit` passes through) runs the `catch` child's
/// children instead, with the error's message as the special `error`.
fn eval_try<'a, F: FloatUnit, C: Console>(
    element: &'a Element,
    depth: u32,
    variables: &mut Bindings,
    specials: &Vec<Bindings>,
    rt: &mut Runtime<'a, F, C>,
) -> (r: Result<Value, Flow>)
    ensures
        final(rt).steps <= old(rt).steps,
        element.children@.len() != 2 ==> fails(r),
        !has_tag(element.children@, "do"@) || !has_tag(element.children@, "catch"@) ==> fails(r),
        realizes(ev_try(*element, depth, machine(*old(variables), *old(rt)), frames_view(specials@)), r, machine(*final(variables), *final(rt))),
    decreases old(rt).steps, 2nat,
{
    let children = &element.children;
    if children.len() != 2 {
        return Err(fail("Expected exactly 2 children in <try> element"));
    }
    let di = match child_named(children, "do") {
        Some(i) => i,
        None => {
            return Err(fail("Expected a <do> child in <try> element"));
        },
    };
    let ci = match child_named(children, "catch") {
        Some(i) => i,
        None => {
            return Err(fail("Expected a <catch> child in <try> element"));
        },
    };
    proof {
        lemma_quiet_below(children@, di as int);
        lemma_quiet_below(children@, ci as int);
    }
    match eval_sequence(&children[di].children, depth, variables, specials, rt) {
        Err(Flow::Fail(message)) => {
            let ghost msg = message@;
            let frames = push_frame(specials, single_frame("error", Value::Str(message)));
            assert(frames_view(frames@) == frames_view(specials@).push(seq![("error"@, ValueV::Str(msg))]));
            eval_sequence(&children[ci].children, depth, variables, &frames, rt)
        },
        other => other,
    }
}

/// The special frame of a call: the call node's attributes as strings,
/// then `child:0`, `child:1`, ... for the arguments, then `child_count`.
pub fn call_frame(element: &Element, args: &Vec<Value>) -> (r: Bindings)
    ensures
        r@ == call_frame_spec(*element, views(args@)),
{
    let mut frame = Bindings::new();
    let ghost attrs = element.attrs().map_values(|p: (Seq<char>, Seq<char>)| (p.0, ValueV::Str(p.1)));
    let n = element.attributes.len();
    let mut i: usize = 0;
    while i < n
        invariant
            i <= n,
            n == element.attributes@.len(),
            attrs == element.attrs().map_values(|p: (Seq<char>, Seq<char>)| (p.0, ValueV::Str(p.1))),
            frame@ == attrs.subrange(0, i as int),
        decreases n - i,
    {
        let key = element.attributes[i].0.clone();
        let value = element.attributes[i].1.clone();
        frame.push(key, Value::Str(value));
        assert(frame@ =~= attrs.subrange(0, i + 1));
        i = i + 1;
    }
    let ghost vs = views(args@);
    let count = args.len();
    let mut j: usize = 0;
    while j < count
        invariant
            j <= count,
            count == args@.len(),
            vs == views(args@),
            attrs.len() == n,
            frame@ == attrs + Seq::new(j as nat, |k: int| ("child:"@ + int_text((k as i64) as int), vs[k])),
        decreases count - j,
    {
        let mut key = String::from_str("child:");
        let index = int_to_text(j as i64);
        key.append(index.as_str());
        let v = args[j].duplicate();
        frame.push(key, v);
        assert(frame@ =~= attrs + Seq::new((j + 1) as nat, |k: int| ("child:"@ + int_text((k as i64) as int), vs[k])));
        j = j + 1;
    }
    frame.push(String::from_str("child_count"), Value::Int(count as i64));
    assert(attrs.subrange(0, n as int) == attrs);
    assert(frame@ =~= call_frame_spec(*element, vs));
    frame
}

/// `call`: runs the named function's body on a copy of the caller's
/// variables, with the call's frame as the only special frame. The caller's
/// variables are changed only by the evaluation of the arguments.
fn eval_call<'a, F: FloatUnit, C: Console>(
    element: &'a Element,
    depth: u32,
    variables: &mut Bindings,
    specials: &Vec<Bindings>,
    rt: &mut Runtime<'a, F, C>,
) -> (r: Result<Value, Flow>)
    ensures
        final(rt).steps <= old(rt).steps,
        element.children@.len() == 0 ==> final(variables)@ == old(variables)@,
        first_binding(element.attrs(), "name"@) is None ==> fails(r),
        realizes(ev_call(*element, depth, machine(*old(variables), *old(rt)), frames_view(specials@)), r, machine(*final(variables), *final(rt))),
    decreases old(rt).steps, 3nat,
{
    let name = match element.attribute("name") {
        Some(n) => n,
        None => {
            return Err(fail("Expected the `name` attribute in <call> element"));
        },
    };
    let function = match rt.functions.get(name.as_str()) {
        Some(f) => f,
        None => {
            return Err(fail_about("Function `", name.as_str(), "` not found"));
        },
    };
    let args = match eval_all(&element.children, depth, variables, specials, rt) {
        Ok(vs) => vs,
        Err(e) => {
            return Err(e);
        },
    };
    let frame = call_frame(element, &args);
    let frames = vec![frame];
    assert(frames_view(frames@) =~= seq![call_frame_spec(*element, views(args@))]);
    run_body(function, depth, &*variables, &frames, rt)
}

/// Runs a function body on a copy of `variables`, which it cannot change.
pub fn run_body<'a, F: FloatUnit, C: Console>(
    function: &'a Element,
    depth: u32,
    variables: &Bindings,
    frames: &Vec<Bindings>,
    rt: &mut Runtime<'a, F, C>,
) -> (r: Result<Value, Flow>)
    ensures
        final(rt).steps <= old(rt).steps,
        r matches Err(f) ==> !(f is Break),
        caught(ev_seq(function.children@, 0, ValueV::Null, depth, machine(*variables, *old(rt)), frames_view(frames@)))
            matches Some((res, m)) ==> result_view(r) == res && function_map(final(rt).functions@) == m.fns
            && final(rt).steps == m.steps,
    decreases old(rt).steps, 2nat,
{
    proof {
        if quiet(*function) {
            lemma_quiet_children(*function);
        }
    }
    let mut local = variables.copy();
    {
            let ghost m0 = machine(local, *rt);
            assert(m0 == machine(*variables, *rt));
            let s0 = eval_sequence(&function.children, depth, &mut local, frames, rt);
            let out = catch_break(s0);
            proof {
                lemma_caught(ev_seq(function.children@, 0, ValueV::Null, depth, m0, frames_view(frames@)), s0, out, machine(local, *rt));
            }
            out
        }
}

/// Runs a program: evaluates `root` at depth 0 with no variables and no
/// special frames. Neither a `break` nor a `continue` escapes: a
/// `continue` outside every loop is an error. The result, the functions
/// declared and the steps left are those of `run_spec`, wherever it
/// decides them; being a function of the tree and the machine, two runs
/// from the same start agree.
pub fn run<'a, F: FloatUnit, C: Console>(root: &'a Element, rt: &mut Runtime<'a, F, C>) -> (r:
    Result<Value, Flow>)
    ensures
        r matches Err(f) ==> (f is Fail || f is Exit),
        old(rt).steps > 0 && tag_of(root) != Op::Program ==> fails(r),
        run_spec(
            *root,
            Machine { vars: Map::empty(), fns: function_map(old(rt).functions@), steps: old(rt).steps as nat },
        ) matches Some((res, m)) ==> result_view(r) == res && function_map(final(rt).functions@) == m.fns
            && final(rt).steps == m.steps,
{
    let mut variables = Bindings::new();
    assert(binding_map(variables@) =~= Map::<Seq<char>, ValueV>::empty());
    let specials: Vec<Bindings> = Vec::new();
    assert(frames_view(specials@) =~= Seq::<Seq<(Seq<char>, ValueV)>>::empty());
    assert(machine(variables, *rt) == Machine {
        vars: Map::empty(),
        fns: function_map(rt.functions@),
        steps: rt.steps as nat,
    });
    match interpret(root, 0, &mut variables, &specials, rt) {
        Err(Flow::Continue) => Err(fail("Tried to continue outside of a loop")),
        Err(Flow::Break(v)) => Ok(v),
        other => other,
    }
}

/// Evaluates one node.
///
/// At depth 0 only `program` is accepted. The variables are those of the
/// current program or function call; `specials` are the special frames in
/// scope, innermost last.
#[verifier::rlimit(100)]
pub fn interpret<'a, F: FloatUnit, C: Console>(
    element: &'a Element,
    depth: u32,
    variables: &mut Bindings,
    specials: &Vec<Bindings>,
    rt: &mut Runtime<'a, F, C>,
) -> (r: Result<Value, Flow>)
    ensures
        final(rt).steps <= old(rt).steps,
        old(rt).steps == 0 ==> fails(r),
        old(rt).steps > 0 && depth == 0 ==> (tag_of(element) != Op::Program ==> fails(r)) && (r matches Err(f) ==> !(f is Break)),
        realizes(ev(*element, depth, machine(*old(variables), *old(rt)), frames_view(specials@)), r, machine(*final(variables), *final(rt))),
    decreases old(rt).steps, 0nat,
{
    if rt.steps == 0 {
        return Err(fail("Evaluation step limit reached"));
    }
    rt.steps = rt.steps - 1;
    let lowered = lowercase(element.name.as_str());
    let name = lowered.as_str();
    let op = op_of(name);
    assert(op == tag_of(element));
    proof {
        if quiet(*element) {
            lemma_quiet_children(*element);
        }
    }
    let next = next_depth(depth);
    if depth == 0 {
        if op == Op::Program {
            return {
            let ghost m0 = machine(*variables, *rt);
            let s0 = eval_sequence(&element.children, next, variables, specials, rt);
            let out = catch_break(s0);
            proof {
                lemma_caught(ev_seq(element.children@, 0, ValueV::Null, next, m0, frames_view(specials@)), s0, out, machine(*variables, *rt));
            }
            out
        };
        }
        return Err(fail("Root element must be <program>"));
    }
    match op {
        Op::Null => Ok(Value::Null),
        Op::True => Ok(Value::Bool(true)),
        Op::False => Ok(Value::Bool(false)),
        Op::Space => {
            let count: usize = match element.attribute("count") {
                Some(c) => match parse_usize(c.as_str()) {
                    Some(k) => k,
                    None => 1,
                },
                None => 1,
            };
            proof {
                reveal_strlit(" ");
                assert(" "@ =~= seq![' ']);
            }
            assert(count as nat == space_count(element));
            Ok(Value::Str(repeat_text(" ", count as u64)))
        },
        Op::Text => match eval_text(element, next, variables, specials, rt) {
            Ok(t) => Ok(Value::Str(t)),
            Err(e) => Err(e),
        },
        Op::Int | Op::Float | Op::Bool | Op::Neg | Op::Not | Op::Abs | Op::Unwrap | Op::Trim => {
            let (start, end) = if op == Op::Trim {
                (flag_attribute(element, "start", true), flag_attribute(element, "end", true))
            } else {
                (true, true)
            };
            let v = match eval_single(element, name, next, variables, specials, rt) {
                Ok(v) => v,
                Err(e) => {
                    return Err(e);
                },
            };
            let r = unary(op, element, v, start, end, &rt.fpu);
            r
        },
        Op::Type | Op::Print | Op::Join | Op::Add | Op::Sub | Op::Mul | Op::Div | Op::Mod
        | Op::And | Op::Or | Op::Eq | Op::Ne | Op::Lt | Op::Le | Op::Gt | Op::Ge
        | Op::StartsWith | Op::EndsWith | Op::Contains => {
            eval_values_op(op, element, name, next, variables, specials, rt)
        },
        Op::Delay => {
            let millis: u64 = match element.attribute("duration") {
                Some(d) => match parse_u64(d.as_str()) {
                    Some(ms) => ms,
                    None => match delay_from_child(element, name, next, variables, specials, rt) {
                        Ok(ms) => ms,
                        Err(e) => {
                            return Err(e);
                        },
                    },
                },
                None => match delay_from_child(element, name, next, variables, specials, rt) {
                    Ok(ms) => ms,
                    Err(e) => {
                        return Err(e);
                    },
                },
            };
            rt.console.sleep(millis);
            Ok(Value::Null)
        },
        Op::ReadLine => match rt.console.read_line() {
            Ok(line) => Ok(Value::Str(strip_line_end(line.as_str()))),
            Err(m) => Err(Flow::Fail(m)),
        },
        Op::Throw => match element.attribute("message") {
            Some(m) => Err(Flow::Fail(m.clone())),
            None => match eval_text(element, next, variables, specials, rt) {
                Ok(t) => {
                    if t.unicode_len() == 0 {
                        Err(fail("An error occurred, but no message was provided."))
                    } else {
                        Err(Flow::Fail(t))
                    }
                },
                Err(e) => Err(e),
            },
        },
        Op::Break => {
            if element.children.len() > 1 {
                return Err(fail_about("Expected at most one child in <", name, "> element"));
            }
            if element.children.len() == 0 {
                return Err(Flow::Break(Value::Null));
            }
            match interpret(&element.children[0], next, variables, specials, rt) {
                Ok(v) => Err(Flow::Break(v)),
                Err(e) => Err(e),
            }
        },
        Op::Continue => {
            if element.children.len() != 0 {
                return Err(fail_about("Expected no children in <", name, "> element"));
            }
            Err(Flow::Continue)
        },
        Op::Exit => {
            if element.children.len() != 0 {
                return Err(fail("Expected no children in <exit> element"));
            }
            let code: i32 = match element.attribute("code") {
                Some(c) => match parse_i32(c.as_str()) {
                    Some(k) => k,
                    None => 0,
                },
                None => 0,
            };
            Err(Flow::Exit(code))
        },
        Op::Get => eval_get(element, next, variables, specials, rt),
        Op::Assign => eval_set(element, next, variables, specials, rt),
        Op::Special => eval_special(element, next, variables, specials, rt),
        Op::Try => eval_try(element, next, variables, specials, rt),
        Op::Block => {
            let ghost m0 = machine(*variables, *rt);
            let s0 = eval_sequence(&element.children, next, variables, specials, rt);
            let out = catch_break(s0);
            proof {
                lemma_caught(ev_seq(element.children@, 0, ValueV::Null, next, m0, frames_view(specials@)), s0, out, machine(*variables, *rt));
            }
            out
        },
        Op::If => eval_if(element, next, variables, specials, rt),
        Op::Loop => eval_loop(element, next, variables, specials, rt),
        Op::Function => {
            let fname = match element.attribute("name") {
                Some(f) => f.clone(),
                None => {
                    return Err(fail("Expected the `name` attribute in <function> element"));
                },
            };
            if fname.as_str().unicode_len() == 0 {
                return Err(fail("Function name cannot be empty in <function> element"));
            }
            let ghost before = rt.functions@;
            let ghost key = fname@;
            rt.functions.declare(fname, element);
            assert(function_map(rt.functions@) =~= function_map(before).insert(key, *element));
            Ok(Value::Null)
        },
        Op::Call => eval_call(element, next, variables, specials, rt),
        Op::Program | Op::Unknown => Err(
            fail_named("Unknown element: ", element.name.as_str()),
        ),
    }
}

/// The duration of a `delay` from its sole child, as an integer.
fn delay_from_child<'a, F: FloatUnit, C: Console>(
    element: &'a Element,
    name: &str,
    depth: u32,
    variables: &mut Bindings,
    specials: &Vec<Bindings>,
    rt: &mut Runtime<'a, F, C>,
) -> (r: Result<u64, Flow>)
    ensures
        final(rt).steps <= old(rt).steps,
    decreases old(rt).steps, 1nat,
{
    if element.children.len() != 1 {
        return Err(
            fail_about(
                "Expected exactly one child or the `duration` attribute in <",
                name,
                "> element",
            ),
        );
    }
    match interpret(&element.children[0], depth, variables, specials, rt) {
        Ok(v) => match v.as_int(&rt.fpu) {
            Some(i) => Ok(i as u64),
            None => Err(fail("Failed to convert value to an integer")),
        },
        Err(e) => Err(e),
    }
}

/// The operations of one operand: conversions, `neg`, `not`, `abs`,
/// `unwrap` and `trim`.
pub fn unary<F: FloatUnit>(
    op: Op,
    element: &Element,
    v: Value,
    start: bool,
    end: bool,
    fpu: &F,
) -> (r: Result<Value, Flow>)
    requires
        op == Op::Trim ==> start == flag_or(element, "start"@, true) && end == flag_or(
            element,
            "end"@,
            true,
        ),
    ensures
        unary_spec(op, *element, v@) matches Some(res) ==> result_view(r) == res,
        op == Op::Float ==> (r is Ok ==> r->Ok_0@ is Float),
        op == Op::Int ==> (int_of(v@) matches Some(x) ==> match x {
            Some(i) => gives(r, ValueV::Int(i)),
            None => fails(r),
        }),
        op == Op::Bool ==> gives(r, ValueV::Bool(truthy(v@))),
        op == Op::Neg ==> outcome_matches(r, neg_outcome(v@)),
        op == Op::Not ==> outcome_matches(r, not_outcome(v@)),
        op == Op::Abs ==> outcome_matches(r, abs_outcome(v@)),
        op == Op::Unwrap ==> (v@ is Null ==> fails(r)) && (!(v@ is Null) ==> gives(r, v@)),
        op == Op::Trim ==> (text_of(v@) matches Some(t) ==> gives(r, ValueV::Str(trimmed(t, start, end)))),
{
    match op {
        Op::Int => match v.as_int(fpu) {
            Some(i) => Ok(Value::Int(i)),
            None => Err(fail("Failed to convert value to an integer")),
        },
        Op::Float => match v.as_float(fpu) {
            Some(f) => Ok(Value::Float(f)),
            None => Err(fail("Failed to convert value to a float")),
        },
        Op::Bool => Ok(Value::Bool(v.as_bool())),
        Op::Neg => match v.neg() {
            Ok(x) => Ok(x),
            Err(e) => Err(Flow::Fail(e.message())),
        },
        Op::Not => match v.not() {
            Ok(x) => Ok(x),
            Err(e) => Err(Flow::Fail(e.message())),
        },
        Op::Abs => match v.abs() {
            Ok(x) => Ok(x),
            Err(e) => Err(Flow::Fail(e.message())),
        },
        Op::Unwrap => {
            if v.is_null() {
                match element.attribute("message") {
                    Some(m) => Err(Flow::Fail(m.clone())),
                    None => Err(fail("Unwrapped value is null")),
                }
            } else {
                Ok(v)
            }
        },
        _ => {
            let t = v.to_text(fpu);
            Ok(Value::Str(trim_text(t.as_str(), start, end)))
        },
    }
}

pub fn strip_line_end(s: &str) -> (r: String)
    ensures
        r@ == without_line_end(s@),
{
    let mut j: usize = s.unicode_len();
    assert(s@.subrange(0, j as int) == s@);
    while j > 0 && (s.get_char(j - 1) == '\n' || s.get_char(j - 1) == '\r')
        invariant
            j <= s@.len(),
            without_line_end(s@) == without_line_end(s@.subrange(0, j as int)),
        decreases j,
    {
        proof {
            let p = s@.subrange(0, j as int);
            assert(p.last() == s@[j - 1]);
            assert(p.drop_last() == s@.subrange(0, j - 1));
        }
        j = j - 1;
    }
    proof {
        let p = s@.subrange(0, j as int);
        if j > 0 {
            assert(p.last() == s@[j - 1]);
        }
    }
    String::from_str(s.substring_char(0, j))
}

} // verus!
