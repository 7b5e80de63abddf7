//! What evaluation gives, stated over the models: the results that each
//! operation's contract describes, and the trees that leave the console
//! alone.
use vstd::prelude::*;
use crate::element::{first_binding, Element};
use crate::env::{frames_view, special_lookup, Bindings};
use crate::fold::{
    chain_decided, chain_holds_spec, chain_same, fold_outcome, joined, no_floats, texts, Arith,
};
use crate::interpreter::{Flow, Runtime};
use crate::float::ZERO;
use crate::opcode::{op_named, Op};
use crate::text::{
    int_text, is_prefix, is_suffix, lower_of, occurs_in, parse_in_range, repeated, strip_end, strip_start,
};
use crate::value::{
    abs_outcome, bool_bits, incompatible_message, int_of, kind_name_of, neg_outcome, not_outcome, text_of,
    truthy, Outcome, Relation, Value, ValueV,
};

verus! {

/// The operation of a node.
pub open spec fn tag_of(e: &Element) -> Op {
    op_named(lower_of(e.name@))
}

/// Whether no node of the tree is `print`, `readline` or `delay`, the
/// operations that use the console.
pub open spec fn quiet(e: Element) -> bool
    decreases e, e.children@.len() + 1,
{
    tag_of(&e) != Op::Print && tag_of(&e) != Op::ReadLine && tag_of(&e) != Op::Delay
        && quiet_children(e, e.children@.len())
}

/// Whether the first `n` children of `e` are quiet.
pub open spec fn quiet_children(e: Element, n: nat) -> bool
    decreases e, n,
{
    if n == 0 || n > e.children@.len() {
        n == 0
    } else {
        quiet_children(e, (n - 1) as nat) && quiet(e.children@[n - 1])
    }
}

pub proof fn lemma_quiet_children_prefix(e: Element, n: nat)
    requires
        n <= e.children@.len(),
        quiet_children(e, n),
    ensures
        forall|i: int| 0 <= i < n ==> #[trigger] quiet(e.children@[i]),
    decreases n,
{
    if n > 0 {
        lemma_quiet_children_prefix(e, (n - 1) as nat);
    }
}

pub open spec fn all_quiet(es: Seq<Element>) -> bool {
    forall|i: int| 0 <= i < es.len() ==> #[trigger] quiet(es[i])
}

pub proof fn lemma_quiet_children(e: Element)
    requires
        quiet(e),
    ensures
        all_quiet(e.children@),
{
    lemma_quiet_children_prefix(e, e.children@.len());
}

/// The children of a quiet element's children are quiet.
pub proof fn lemma_quiet_below(es: Seq<Element>, i: int)
    requires
        0 <= i < es.len(),
    ensures
        all_quiet(es) ==> all_quiet(es[i].children@),
{
    if all_quiet(es) {
        assert(quiet(es[i]));
        lemma_quiet_children(es[i]);
    }
}

/// Whether every declared function's body is quiet.
pub open spec fn quiet_functions<'a>(fns: Seq<(Seq<char>, &'a Element)>) -> bool {
    forall|k: Seq<char>| #[trigger] first_binding(fns, k) matches Some(e) ==> quiet(*e)
}

/// The console is as it was, and the function table is still quiet.
pub open spec fn undisturbed<'a, F, C>(before: Runtime<'a, F, C>, after: Runtime<'a, F, C>) -> bool {
    after.console == before.console && quiet_functions(after.functions@)
}

/// A block's result: a `Break` becomes the block's value.
pub open spec fn break_caught(r: Result<Value, Flow>) -> Result<Value, Flow> {
    match r {
        Err(Flow::Break(v)) => Ok(v),
        _ => r,
    }
}

pub open spec fn gives(r: Result<Value, Flow>, v: ValueV) -> bool {
    &&& r is Ok
    &&& r->Ok_0@ == v
}

pub open spec fn fails(r: Result<Value, Flow>) -> bool {
    &&& r is Err
    &&& r->Err_0 is Fail
}

/// Whether some element's lower-cased name is `tag`.
pub open spec fn has_tag(children: Seq<Element>, tag: Seq<char>) -> bool {
    exists|i: int| 0 <= i < children.len() && lower_of((#[trigger] children[i]).name@) == tag
}

/// Whether every element's lower-cased name is one of those that may stand
/// in an `if`.
pub open spec fn if_parts_only(children: Seq<Element>) -> bool {
    forall|i: int|
        0 <= i < children.len() ==> {
            let t = lower_of((#[trigger] children[i]).name@);
            t == "condition"@ || t == "then"@ || t == "elif"@ || t == "else"@
        }
}

/// The value of an attribute, or `default` where it is absent.
pub open spec fn attribute_or(element: &Element, key: Seq<char>, default: Seq<char>) -> Seq<char> {
    match first_binding(element.attrs(), key) {
        Some(v) => v,
        None => default,
    }
}




/// The status code of an `exit` node: its `code` attribute, or 0.
pub open spec fn exit_code(element: &Element) -> i32 {
    match first_binding(element.attrs(), "code"@) {
        Some(c) => match parse_in_range(c, i32::MIN as int, i32::MAX as int) {
            Some(v) => v as i32,
            None => 0,
        },
        None => 0,
    }
}

/// The number of spaces of a `space` node: its `count` attribute, or 1.
pub open spec fn space_count(element: &Element) -> nat {
    match first_binding(element.attrs(), "count"@) {
        Some(c) => match parse_in_range(c, 0, usize::MAX as int) {
            Some(v) => v as nat,
            None => 1,
        },
        None => 1,
    }
}

/// The operations of one operand.
pub open spec fn unary_op(op: Op) -> bool {
    op == Op::Int || op == Op::Float || op == Op::Bool || op == Op::Neg || op == Op::Not || op
        == Op::Abs || op == Op::Unwrap || op == Op::Trim
}

/// The truthiness of an attribute, or `default` where it is absent.
pub open spec fn flag_or(element: &Element, key: Seq<char>, default: bool) -> bool {
    match first_binding(element.attrs(), key) {
        Some(s) => truthy(ValueV::Str(s)),
        None => default,
    }
}


/// The operations that evaluate every child and then combine the values.
pub open spec fn combines_values(op: Op) -> bool {
    op == Op::Type || op == Op::Print || op == Op::Join || op == Op::Add || op == Op::Sub || op
        == Op::Mul || op == Op::Div || op == Op::Mod || op == Op::And || op == Op::Or || op
        == Op::Eq || op == Op::Ne || op == Op::Lt || op == Op::Le || op == Op::Gt || op == Op::Ge
        || op == Op::StartsWith || op == Op::EndsWith || op == Op::Contains
}


/// The first value of a loop's counter: its `start` attribute, or 0.
pub open spec fn loop_start(element: &Element) -> i64 {
    match first_binding(element.attrs(), "start"@) {
        Some(s) => match parse_in_range(s, i64::MIN as int, i64::MAX as int) {
            Some(v) => v as i64,
            None => 0,
        },
        None => 0,
    }
}

/// The bound of a loop's counter: its `end` attribute, where it is an integer.
pub open spec fn loop_end(element: &Element) -> Option<i64> {
    match first_binding(element.attrs(), "end"@) {
        Some(s) => match parse_in_range(s, i64::MIN as int, i64::MAX as int) {
            Some(v) => Some(v as i64),
            None => None,
        },
        None => None,
    }
}

/// `r` is what outcome `o` describes: the value, or an error with its message.
pub open spec fn outcome_matches(r: Result<Value, Flow>, o: Outcome) -> bool {
    match o {
        Outcome::Is(v) => gives(r, v),
        Outcome::Incompatible(op, a, b) => r matches Err(Flow::Fail(m)) && m@ == incompatible_message(op, a, b),
        _ => true,
    }
}

/// `t` trimmed at the start and at the end as the flags say.
pub open spec fn trimmed(t: Seq<char>, start: bool, end: bool) -> Seq<char> {
    if end {
        strip_end(
            if start {
                strip_start(t)
            } else {
                t
            },
        )
    } else if start {
        strip_start(t)
    } else {
        t
    }
}

/// `s` without the line-feed and carriage-return characters at its end.
pub open spec fn without_line_end(s: Seq<char>) -> Seq<char>
    decreases s.len(),
{
    if s.len() > 0 && (s.last() == '\n' || s.last() == '\r') {
        without_line_end(s.drop_last())
    } else {
        s
    }
}


/// The model of a [`Flow`].
pub enum FlowV {
    Break(ValueV),
    Continue,
    Exit(i32),
    Fail(Seq<char>),
}

pub open spec fn flow_view(f: Flow) -> FlowV {
    match f {
        Flow::Break(v) => FlowV::Break(v@),
        Flow::Continue => FlowV::Continue,
        Flow::Exit(c) => FlowV::Exit(c),
        Flow::Fail(m) => FlowV::Fail(m@),
    }
}

pub open spec fn result_view(r: Result<Value, Flow>) -> Result<ValueV, FlowV> {
    match r {
        Ok(v) => Ok(v@),
        Err(f) => Err(flow_view(f)),
    }
}

/// What evaluation reads and changes: the variables, the declared
/// functions (each name to its `function` node) and the steps left.
pub struct Machine {
    pub vars: Map<Seq<char>, ValueV>,
    pub fns: Map<Seq<char>, Element>,
    pub steps: nat,
}

/// A list of bindings as a map: the first binding of a name wins.
pub open spec fn binding_map(s: Seq<(Seq<char>, ValueV)>) -> Map<Seq<char>, ValueV> {
    Map::new(|k: Seq<char>| first_binding(s, k) is Some, |k: Seq<char>| first_binding(s, k)->0)
}

pub open spec fn function_map<'a>(s: Seq<(Seq<char>, &'a Element)>) -> Map<Seq<char>, Element> {
    Map::new(|k: Seq<char>| first_binding(s, k) is Some, |k: Seq<char>| *first_binding(s, k)->0)
}

pub open spec fn machine<'a, F, C>(vars: Bindings, rt: Runtime<'a, F, C>) -> Machine {
    Machine { vars: binding_map(vars@), fns: function_map(rt.functions@), steps: rt.steps as nat }
}

pub open spec fn with_vars(m: Machine, vars: Map<Seq<char>, ValueV>) -> Machine {
    Machine { vars, fns: m.fns, steps: m.steps }
}

/// What an evaluation gives: its result and the machine after it.
/// `None` where the console, the float unit, or the message of a malformed
/// `if` would decide it.
pub type Step = Option<(Result<ValueV, FlowV>, Machine)>;

/// `r` and the machine `after` are what `step` describes, where it
/// describes something.
pub open spec fn realizes(step: Step, r: Result<Value, Flow>, after: Machine) -> bool {
    step matches Some((res, m)) ==> result_view(r) == res && after == m
}

pub open spec fn fail_with(message: Seq<char>, m: Machine) -> Step {
    Some((Err(FlowV::Fail(message)), m))
}

pub open spec fn next_depth_spec(depth: u32) -> u32 {
    if depth < u32::MAX {
        (depth + 1) as u32
    } else {
        depth
    }
}

/// A `break` becomes the value of the block that it leaves.
pub open spec fn caught(s: Step) -> Step {
    match s {
        Some((Err(FlowV::Break(v)), m)) => Some((Ok(v), m)),
        _ => s,
    }
}

/// Catching a `break` in the result catches it in the step it realizes.
pub proof fn lemma_caught(s: Step, r: Result<Value, Flow>, out: Result<Value, Flow>, after: Machine)
    requires
        realizes(s, r, after),
        out == break_caught(r),
    ensures
        realizes(caught(s), out, after),
{
    match s {
        Some((res, m)) => {
            match r {
                Err(Flow::Break(v)) => {},
                _ => {},
            }
        },
        None => {},
    }
}

/// The position of the first element whose lower-cased name is `tag`.
pub open spec fn first_tag(s: Seq<Element>, tag: Seq<char>) -> Option<int>
    decreases s.len(),
{
    if s.len() == 0 {
        None
    } else if lower_of(s[0].name@) == tag {
        Some(0)
    } else {
        match first_tag(s.drop_first(), tag) {
            Some(i) => Some(i + 1),
            None => None,
        }
    }
}

/// How many elements have the lower-cased name `tag`.
pub open spec fn count_tag(s: Seq<Element>, tag: Seq<char>) -> nat
    decreases s.len(),
{
    if s.len() == 0 {
        0
    } else {
        count_tag(s.drop_last(), tag) + if lower_of(s.last().name@) == tag {
            1nat
        } else {
            0nat
        }
    }
}

pub open spec fn is_if_part(e: Element) -> bool {
    let t = lower_of(e.name@);
    t == "condition"@ || t == "then"@ || t == "elif"@ || t == "else"@
}

/// An `elif` holds one `condition` and one `then` and nothing else.
pub open spec fn elif_ok(x: Element) -> bool {
    x.children@.len() == 2 && (forall|j: int|
        0 <= j < 2 ==> is_elif_part(#[trigger] x.children@[j])) && count_tag(x.children@, "condition"@)
        == 1 && count_tag(x.children@, "then"@) == 1
}

pub open spec fn is_elif_part(e: Element) -> bool {
    lower_of(e.name@) == "condition"@ || lower_of(e.name@) == "then"@
}

/// The shape that an `if` must have.
pub open spec fn if_shape_ok(e: Element) -> bool {
    e.children@.len() >= 2 && (forall|i: int|
        0 <= i < e.children@.len() ==> is_if_part(#[trigger] e.children@[i])) && count_tag(
        e.children@,
        "condition"@,
    ) == 1 && count_tag(e.children@, "then"@) == 1 && count_tag(e.children@, "else"@) <= 1 && (
    forall|i: int|
        0 <= i < e.children@.len() && lower_of((#[trigger] e.children@[i]).name@) == "elif"@
            ==> elif_ok(e.children@[i]))
}

/// The special frame of a call: the call node's attributes as strings,
/// `child:0`, `child:1`, ... for the arguments, then `child_count`.
pub open spec fn call_frame_spec(e: Element, args: Seq<ValueV>) -> Seq<(Seq<char>, ValueV)> {
    e.attrs().map_values(|p: (Seq<char>, Seq<char>)| (p.0, ValueV::Str(p.1))) + Seq::new(
        args.len(),
        |i: int| ("child:"@ + int_text((i as i64) as int), args[i]),
    ) + seq![("child_count"@, ValueV::Int(args.len() as i64))]
}

pub open spec fn fold_result(o: Option<Outcome>) -> Option<Result<ValueV, FlowV>> {
    match o {
        Some(Outcome::Is(v)) => Some(Ok(v)),
        Some(Outcome::Incompatible(op, a, b)) => Some(
            Err(FlowV::Fail(incompatible_message(op, a, b))),
        ),
        Some(Outcome::ByZero) => Some(Err(FlowV::Fail("Division by zero is not allowed"@))),
        _ => None,
    }
}

pub open spec fn outcome_result(o: Outcome) -> Option<Result<ValueV, FlowV>> {
    fold_result(Some(o))
}

/// What an operation that combines its children's values gives for the
/// values `vs`.
pub open spec fn combine_spec(op: Op, e: Element, vs: Seq<ValueV>) -> Option<Result<ValueV, FlowV>> {
    let text = |i: int| text_of(vs[i])->0;
    let bool_of = |b: bool| Some(Ok::<ValueV, FlowV>(ValueV::Bool(b)));
    let order = |rel: Relation| if chain_decided(vs) {
        bool_of(chain_holds_spec(rel, vs))
    } else {
        None
    };
    match op {
        Op::Type => Some(
            Ok(
                ValueV::Str(
                    if vs.len() == 0 {
                        "null"@
                    } else {
                        joined(vs.map_values(|v: ValueV| kind_name_of(v)), " "@)
                    },
                ),
            ),
        ),
        Op::Join => if no_floats(vs) {
            Some(
                Ok(
                    ValueV::Str(
                        attribute_or(&e, "start"@, Seq::empty()) + joined(
                            texts(vs),
                            attribute_or(&e, "separator"@, " "@),
                        ) + attribute_or(&e, "end"@, Seq::empty()),
                    ),
                ),
            )
        } else {
            None
        },
        Op::And => bool_of(forall|i: int| 0 <= i < vs.len() ==> truthy(#[trigger] vs[i])),
        Op::Or => bool_of(exists|i: int| 0 <= i < vs.len() && truthy(#[trigger] vs[i])),
        Op::Eq => bool_of(chain_same(vs, true)),
        Op::Ne => bool_of(chain_same(vs, false)),
        Op::Lt => order(Relation::Less),
        Op::Le => order(Relation::LessOrEqual),
        Op::Gt => order(Relation::Greater),
        Op::Ge => order(Relation::GreaterOrEqual),
        Op::StartsWith => if no_floats(vs) && vs.len() == 2 {
            bool_of(is_prefix(text(1), text(0)))
        } else {
            None
        },
        Op::EndsWith => if no_floats(vs) && vs.len() == 2 {
            bool_of(is_suffix(text(1), text(0)))
        } else {
            None
        },
        Op::Contains => if no_floats(vs) && vs.len() == 2 {
            bool_of(occurs_in(text(1), text(0)))
        } else {
            None
        },
        Op::Add => fold_result(fold_outcome(Arith::Add, ValueV::Null, vs)),
        Op::Mul => Some(Ok(ValueV::Null)),
        Op::Sub | Op::Div | Op::Mod => if vs.len() == 0 {
            Some(Ok(ValueV::Null))
        } else {
            fold_result(
                fold_outcome(
                    if op == Op::Sub {
                        Arith::Sub
                    } else if op == Op::Div {
                        Arith::Div
                    } else {
                        Arith::Rem
                    },
                    vs[0],
                    vs.skip(1),
                ),
            )
        },
        _ => None,
    }
}

/// What an operation of one operand gives for the operand `v`.
pub open spec fn unary_spec(op: Op, e: Element, v: ValueV) -> Option<Result<ValueV, FlowV>> {
    match op {
        Op::Int => match int_of(v) {
            Some(Some(i)) => Some(Ok(ValueV::Int(i))),
            Some(None) => Some(Err(FlowV::Fail("Failed to convert value to an integer"@))),
            None => None,
        },
        Op::Float => match v {
            ValueV::Null => Some(Ok(ValueV::Float(ZERO))),
            ValueV::Float(f) => Some(Ok(ValueV::Float(f))),
            ValueV::Bool(b) => Some(Ok(ValueV::Float(bool_bits(b)))),
            _ => None,
        },
        Op::Bool => Some(Ok(ValueV::Bool(truthy(v)))),
        Op::Neg => outcome_result(neg_outcome(v)),
        Op::Not => outcome_result(not_outcome(v)),
        Op::Abs => outcome_result(abs_outcome(v)),
        Op::Unwrap => if v is Null {
            Some(Err(FlowV::Fail(attribute_or(&e, "message"@, "Unwrapped value is null"@))))
        } else {
            Some(Ok(v))
        },
        Op::Trim => match text_of(v) {
            Some(t) => Some(
                Ok(
                    ValueV::Str(
                        trimmed(t, flag_or(&e, "start"@, true), flag_or(&e, "end"@, true)),
                    ),
                ),
            ),
            None => None,
        },
        _ => None,
    }
}

/// Evaluation of one node below or at the root, one step for the node.
pub open spec fn ev(e: Element, depth: u32, m: Machine, sp: Seq<Seq<(Seq<char>, ValueV)>>) -> Step
    decreases m.steps, 0nat, 0int,
{
    if m.steps == 0 {
        fail_with("Evaluation step limit reached"@, m)
    } else {
        let m1 = Machine { vars: m.vars, fns: m.fns, steps: (m.steps - 1) as nat };
        let name = lower_of(e.name@);
        let op = op_named(name);
        let d = next_depth_spec(depth);
        let ch = e.children@;
        if depth == 0 {
            if op == Op::Program {
                caught(ev_seq(ch, 0, ValueV::Null, d, m1, sp))
            } else {
                fail_with("Root element must be <program>"@, m1)
            }
        } else if op == Op::Null {
            Some((Ok(ValueV::Null), m1))
        } else if op == Op::True {
            Some((Ok(ValueV::Bool(true)), m1))
        } else if op == Op::False {
            Some((Ok(ValueV::Bool(false)), m1))
        } else if op == Op::Space {
            Some((Ok(ValueV::Str(repeated(seq![' '], space_count(&e)))), m1))
        } else if op == Op::Text {
            match ev_text(ch, 0, attribute_or(&e, "_text"@, Seq::empty()), d, m1, sp) {
                Some((Ok(t), m2)) => Some((Ok(ValueV::Str(t)), m2)),
                Some((Err(f), m2)) => Some((Err(f), m2)),
                None => None,
            }
        } else if unary_op(op) {
            if ch.len() != 1 {
                fail_with("Expected exactly one child in <"@ + name + "> element"@, m1)
            } else {
                match ev(ch[0], d, m1, sp) {
                    Some((Ok(v), m2)) => match unary_spec(op, e, v) {
                        Some(res) => Some((res, m2)),
                        None => None,
                    },
                    other => other,
                }
            }
        } else if combines_values(op) {
            ev_values(op, e, name, d, m1, sp)
        } else if op == Op::Throw {
            match first_binding(e.attrs(), "message"@) {
                Some(msg) => fail_with(msg, m1),
                None => match ev_text(ch, 0, attribute_or(&e, "_text"@, Seq::empty()), d, m1, sp) {
                    Some((Ok(t), m2)) => if t.len() == 0 {
                        fail_with("An error occurred, but no message was provided."@, m2)
                    } else {
                        fail_with(t, m2)
                    },
                    Some((Err(f), m2)) => Some((Err(f), m2)),
                    None => None,
                },
            }
        } else if op == Op::Break {
            if ch.len() > 1 {
                fail_with("Expected at most one child in <"@ + name + "> element"@, m1)
            } else if ch.len() == 0 {
                Some((Err(FlowV::Break(ValueV::Null)), m1))
            } else {
                match ev(ch[0], d, m1, sp) {
                    Some((Ok(v), m2)) => Some((Err(FlowV::Break(v)), m2)),
                    other => other,
                }
            }
        } else if op == Op::Continue {
            if ch.len() != 0 {
                fail_with("Expected no children in <"@ + name + "> element"@, m1)
            } else {
                Some((Err(FlowV::Continue), m1))
            }
        } else if op == Op::Exit {
            if ch.len() != 0 {
                fail_with("Expected no children in <exit> element"@, m1)
            } else {
                Some((Err(FlowV::Exit(exit_code(&e))), m1))
            }
        } else if op == Op::Get {
            ev_get(e, d, m1, sp)
        } else if op == Op::Assign {
            ev_set(e, d, m1, sp)
        } else if op == Op::Special {
            ev_special(e, d, m1, sp)
        } else if op == Op::Try {
            ev_try(e, d, m1, sp)
        } else if op == Op::Block {
            caught(ev_seq(ch, 0, ValueV::Null, d, m1, sp))
        } else if op == Op::If {
            ev_if(e, d, m1, sp)
        } else if op == Op::Loop {
            ev_loop(e, loop_start(&e), d, m1, sp)
        } else if op == Op::Function {
            match first_binding(e.attrs(), "name"@) {
                None => fail_with("Expected the `name` attribute in <function> element"@, m1),
                Some(n) => if n.len() == 0 {
                    fail_with("Function name cannot be empty in <function> element"@, m1)
                } else {
                    Some((Ok(ValueV::Null), Machine { vars: m1.vars, fns: m1.fns.insert(n, e), steps: m1.steps }))
                },
            }
        } else if op == Op::Call {
            ev_call(e, d, m1, sp)
        } else if op == Op::Delay || op == Op::ReadLine {
            None
        } else {
            fail_with("Unknown element: "@ + e.name@, m1)
        }
    }
}

/// The children from position `i` on, in order; the last value (`last`
/// where there is none), or the first child's error or signal.
pub open spec fn ev_seq(
    ch: Seq<Element>,
    i: int,
    last: ValueV,
    d: u32,
    m: Machine,
    sp: Seq<Seq<(Seq<char>, ValueV)>>,
) -> Step
    decreases m.steps, 1nat, ch.len() - i,
{
    if i < 0 || i >= ch.len() {
        Some((Ok(last), m))
    } else {
        match ev(ch[i], d, m, sp) {
            Some((Ok(v), m2)) => if m2.steps <= m.steps {
                ev_seq(ch, i + 1, v, d, m2, sp)
            } else {
                None
            },
            other => other,
        }
    }
}

/// The values of the children from position `i` on, after `acc`.
pub open spec fn ev_all(
    ch: Seq<Element>,
    i: int,
    acc: Seq<ValueV>,
    d: u32,
    m: Machine,
    sp: Seq<Seq<(Seq<char>, ValueV)>>,
) -> Option<(Result<Seq<ValueV>, FlowV>, Machine)>
    decreases m.steps, 1nat, ch.len() - i,
{
    if i < 0 || i >= ch.len() {
        Some((Ok(acc), m))
    } else {
        match ev(ch[i], d, m, sp) {
            Some((Ok(v), m2)) => if m2.steps <= m.steps {
                ev_all(ch, i + 1, acc.push(v), d, m2, sp)
            } else {
                None
            },
            Some((Err(f), m2)) => Some((Err(f), m2)),
            None => None,
        }
    }
}

/// `acc` followed by the string forms of the children's values from
/// position `i` on, leaving out `Null`s.
pub open spec fn ev_text(
    ch: Seq<Element>,
    i: int,
    acc: Seq<char>,
    d: u32,
    m: Machine,
    sp: Seq<Seq<(Seq<char>, ValueV)>>,
) -> Option<(Result<Seq<char>, FlowV>, Machine)>
    decreases m.steps, 1nat, ch.len() - i,
{
    if i < 0 || i >= ch.len() {
        Some((Ok(acc), m))
    } else {
        match ev(ch[i], d, m, sp) {
            Some((Ok(v), m2)) => if m2.steps <= m.steps {
                if v is Null {
                    ev_text(ch, i + 1, acc, d, m2, sp)
                } else {
                    match text_of(v) {
                        Some(t) => ev_text(ch, i + 1, acc + t, d, m2, sp),
                        None => None,
                    }
                }
            } else {
                None
            },
            Some((Err(f), m2)) => Some((Err(f), m2)),
            None => None,
        }
    }
}

pub open spec fn at_least_two(op: Op) -> bool {
    op == Op::And || op == Op::Or || op == Op::Eq || op == Op::Ne || op == Op::Lt || op == Op::Le
        || op == Op::Gt || op == Op::Ge
}

pub open spec fn exactly_two(op: Op) -> bool {
    op == Op::StartsWith || op == Op::EndsWith || op == Op::Contains
}

/// An operation that evaluates every child and then combines the values.
pub open spec fn ev_values(
    op: Op,
    e: Element,
    name: Seq<char>,
    d: u32,
    m: Machine,
    sp: Seq<Seq<(Seq<char>, ValueV)>>,
) -> Step
    decreases m.steps, 2nat, 0int,
{
    let n = e.children@.len();
    if at_least_two(op) && n < 2 {
        fail_with("Expected at least 2 children in <"@ + name + "> element"@, m)
    } else if exactly_two(op) && n != 2 {
        fail_with("Expected exactly 2 children in <"@ + name + "> element"@, m)
    } else {
        match ev_all(e.children@, 0, Seq::empty(), d, m, sp) {
            Some((Ok(vs), m2)) => match combine_spec(op, e, vs) {
                Some(res) => Some((res, m2)),
                None => None,
            },
            Some((Err(f), m2)) => Some((Err(f), m2)),
            None => None,
        }
    }
}

pub open spec fn get_message() -> Seq<char> {
    "Expected exactly one child or the `var` attribute in <get> element"@
}

/// `get`: the `var` attribute's variable; unbound, the sole child's value,
/// or `Null` without children. Without the attribute, the variable named
/// by the sole child's string form, or `Null`.
pub open spec fn ev_get(e: Element, d: u32, m: Machine, sp: Seq<Seq<(Seq<char>, ValueV)>>) -> Step
    decreases m.steps, 1nat, 0int,
{
    let ch = e.children@;
    match first_binding(e.attrs(), "var"@) {
        Some(n) => if m.vars.contains_key(n) {
            Some((Ok(m.vars[n]), m))
        } else if ch.len() == 0 {
            Some((Ok(ValueV::Null), m))
        } else if ch.len() != 1 {
            fail_with(get_message(), m)
        } else {
            ev(ch[0], d, m, sp)
        },
        None => if ch.len() != 1 {
            fail_with(get_message(), m)
        } else {
            match ev(ch[0], d, m, sp) {
                Some((Ok(k), m2)) => match text_of(k) {
                    Some(t) => Some(
                        (
                            Ok(
                                if m2.vars.contains_key(t) {
                                    m2.vars[t]
                                } else {
                                    ValueV::Null
                                },
                            ),
                            m2,
                        ),
                    ),
                    None => None,
                },
                other => other,
            }
        },
    }
}

/// `set`: binds the `var` attribute's name to the sole child's value.
pub open spec fn ev_set(e: Element, d: u32, m: Machine, sp: Seq<Seq<(Seq<char>, ValueV)>>) -> Step
    decreases m.steps, 1nat, 0int,
{
    match first_binding(e.attrs(), "var"@) {
        None => fail_with("Expected the `var` attribute in <set> element"@, m),
        Some(n) => if e.children@.len() != 1 {
            fail_with("Expected exactly one child in <set> element"@, m)
        } else {
            match ev(e.children@[0], d, m, sp) {
                Some((Ok(v), m2)) => Some((Ok(v), with_vars(m2, m2.vars.insert(n, v)))),
                other => other,
            }
        },
    }
}

pub open spec fn special_step(sp: Seq<Seq<(Seq<char>, ValueV)>>, n: Seq<char>, m: Machine) -> Step {
    match special_lookup(sp, n) {
        Some(v) => Some((Ok(v), m)),
        None => fail_with("Special `"@ + n + "` not found"@, m),
    }
}

/// `special`: the innermost binding of the `name` attribute's name, or of
/// the sole child's string form.
pub open spec fn ev_special(e: Element, d: u32, m: Machine, sp: Seq<Seq<(Seq<char>, ValueV)>>) -> Step
    decreases m.steps, 1nat, 0int,
{
    match first_binding(e.attrs(), "name"@) {
        Some(n) => special_step(sp, n, m),
        None => if e.children@.len() != 1 {
            fail_with(
                "Expected exactly one child or the `name` attribute in <special> element"@,
                m,
            )
        } else {
            match ev(e.children@[0], d, m, sp) {
                Some((Ok(k), m2)) => match text_of(k) {
                    Some(t) => special_step(sp, t, m2),
                    None => None,
                },
                other => other,
            }
        },
    }
}

/// `try`: the `do` child's children; an error runs the `catch` child's
/// children with the message as the special `error`. A `break`,
/// `continue` or `exit` passes through, and `catch` does not run.
pub open spec fn ev_try(e: Element, d: u32, m: Machine, sp: Seq<Seq<(Seq<char>, ValueV)>>) -> Step
    decreases m.steps, 2nat, 0int,
{
    let ch = e.children@;
    if ch.len() != 2 {
        fail_with("Expected exactly 2 children in <try> element"@, m)
    } else {
        match first_tag(ch, "do"@) {
            None => fail_with("Expected a <do> child in <try> element"@, m),
            Some(di) => match first_tag(ch, "catch"@) {
                None => fail_with("Expected a <catch> child in <try> element"@, m),
                Some(ci) => match ev_seq(ch[di].children@, 0, ValueV::Null, d, m, sp) {
                    Some((Err(FlowV::Fail(msg)), m2)) => if m2.steps <= m.steps {
                        ev_seq(
                            ch[ci].children@,
                            0,
                            ValueV::Null,
                            d,
                            m2,
                            sp.push(seq![("error"@, ValueV::Str(msg))]),
                        )
                    } else {
                        None
                    },
                    other => other,
                },
            },
        }
    }
}

/// The sole child of a `condition` node.
pub open spec fn ev_cond(c: Element, d: u32, m: Machine, sp: Seq<Seq<(Seq<char>, ValueV)>>) -> Step
    decreases m.steps, 1nat, 0int,
{
    if c.children@.len() != 1 {
        fail_with("Expected exactly one child in <condition> element"@, m)
    } else {
        ev(c.children@[0], d, m, sp)
    }
}

/// `if`: the `then` child's children where the condition is true, with
/// the condition's value as the special `condition`; else the `elif`s.
pub open spec fn ev_if(e: Element, d: u32, m: Machine, sp: Seq<Seq<(Seq<char>, ValueV)>>) -> Step
    decreases m.steps, 3nat, 0int,
{
    let ch = e.children@;
    if !if_shape_ok(e) {
        None
    } else {
        match (first_tag(ch, "condition"@), first_tag(ch, "then"@)) {
            (Some(ci), Some(ti)) => match ev_cond(ch[ci], d, m, sp) {
                Some((Ok(cv), m2)) => if m2.steps <= m.steps {
                    let frames = sp.push(seq![("condition"@, cv)]);
                    if truthy(cv) {
                        caught(ev_seq(ch[ti].children@, 0, ValueV::Null, d, m2, frames))
                    } else {
                        ev_elifs(e, 0, d, m2, frames)
                    }
                } else {
                    None
                },
                other => other,
            },
            _ => None,
        }
    }
}

/// The `elif` children from position `i` on, in order, then `else`.
pub open spec fn ev_elifs(
    e: Element,
    i: int,
    d: u32,
    m: Machine,
    frames: Seq<Seq<(Seq<char>, ValueV)>>,
) -> Step
    decreases m.steps, 2nat, e.children@.len() - i,
{
    let ch = e.children@;
    if i < 0 || i >= ch.len() {
        match first_tag(ch, "else"@) {
            Some(ei) => caught(ev_seq(ch[ei].children@, 0, ValueV::Null, d, m, frames)),
            None => Some((Ok(ValueV::Null), m)),
        }
    } else if lower_of(ch[i].name@) == "elif"@ {
        let parts = ch[i].children@;
        match (first_tag(parts, "condition"@), first_tag(parts, "then"@)) {
            (Some(eci), Some(eti)) => match ev_cond(parts[eci], d, m, frames) {
                Some((Ok(ecv), m2)) => if m2.steps <= m.steps {
                    if truthy(ecv) {
                        caught(
                            ev_seq(
                                parts[eti].children@,
                                0,
                                ValueV::Null,
                                d,
                                m2,
                                frames.push(seq![("condition"@, ecv)]),
                            ),
                        )
                    } else {
                        ev_elifs(e, i + 1, d, m2, frames)
                    }
                } else {
                    None
                },
                other => other,
            },
            _ => None,
        }
    } else {
        ev_elifs(e, i + 1, d, m, frames)
    }
}

/// How a pass of a loop ends.
pub enum PassEnd {
    /// All children ran, or a `continue` ended the pass.
    Done,
    /// A `break` ended the loop with this value.
    Broke(ValueV),
    /// An error or an `exit`.
    Stopped(FlowV),
}

/// One pass of a loop over the children from position `i` on.
pub open spec fn ev_pass(
    ch: Seq<Element>,
    i: int,
    d: u32,
    m: Machine,
    frames: Seq<Seq<(Seq<char>, ValueV)>>,
) -> Option<(PassEnd, Machine)>
    decreases m.steps, 1nat, ch.len() - i,
{
    if i < 0 || i >= ch.len() {
        Some((PassEnd::Done, m))
    } else {
        match ev(ch[i], d, m, frames) {
            Some((Ok(_), m2)) => if m2.steps <= m.steps {
                ev_pass(ch, i + 1, d, m2, frames)
            } else {
                None
            },
            Some((Err(FlowV::Break(v)), m2)) => Some((PassEnd::Broke(v), m2)),
            Some((Err(FlowV::Continue), m2)) => Some((PassEnd::Done, m2)),
            Some((Err(f), m2)) => Some((PassEnd::Stopped(f), m2)),
            None => None,
        }
    }
}

/// `loop` from the counter value `it`: stops with `Null` once `it`
/// reaches the `end` attribute; each pass spends a step.
pub open spec fn ev_loop(
    e: Element,
    it: i64,
    d: u32,
    m: Machine,
    sp: Seq<Seq<(Seq<char>, ValueV)>>,
) -> Step
    decreases m.steps, 2nat, 0int,
{
    let frames = sp.push(seq![("iteration"@, ValueV::Int(it))]);
    let at_end = match loop_end(&e) {
        Some(x) => it >= x,
        None => false,
    };
    if at_end {
        Some((Ok(ValueV::Null), m))
    } else if m.steps == 0 {
        fail_with("Evaluation step limit reached"@, m)
    } else {
        let m1 = Machine { vars: m.vars, fns: m.fns, steps: (m.steps - 1) as nat };
        match ev_pass(e.children@, 0, d, m1, frames) {
            Some((PassEnd::Done, m2)) => if m2.steps < m.steps {
                ev_loop(e, it.wrapping_add(1), d, m2, sp)
            } else {
                None
            },
            Some((PassEnd::Broke(v), m2)) => Some((Ok(v), m2)),
            Some((PassEnd::Stopped(f), m2)) => Some((Err(f), m2)),
            None => None,
        }
    }
}

/// `call`: the named function's body, with the call's frame as the only
/// special frame, on a copy of the variables after the arguments; the
/// caller's variables come back unchanged by the body.
pub open spec fn ev_call(e: Element, d: u32, m: Machine, sp: Seq<Seq<(Seq<char>, ValueV)>>) -> Step
    decreases m.steps, 2nat, 0int,
{
    match first_binding(e.attrs(), "name"@) {
        None => fail_with("Expected the `name` attribute in <call> element"@, m),
        Some(n) => if !m.fns.contains_key(n) {
            fail_with("Function `"@ + n + "` not found"@, m)
        } else {
            match ev_all(e.children@, 0, Seq::empty(), d, m, sp) {
                Some((Ok(args), m2)) => if m2.steps <= m.steps {
                    match caught(
                        ev_seq(
                            m.fns[n].children@,
                            0,
                            ValueV::Null,
                            d,
                            m2,
                            seq![call_frame_spec(e, args)],
                        ),
                    ) {
                        Some((res, m3)) => Some((res, with_vars(m3, m2.vars))),
                        None => None,
                    }
                } else {
                    None
                },
                Some((Err(f), m2)) => Some((Err(f), m2)),
                None => None,
            }
        },
    }
}

/// A program run: a `continue` that escapes is an error.
pub open spec fn run_spec(root: Element, m: Machine) -> Step {
    match ev(root, 0, m, Seq::empty()) {
        Some((Err(FlowV::Continue), m2)) => fail_with("Tried to continue outside of a loop"@, m2),
        Some((Err(FlowV::Break(v)), m2)) => Some((Ok(v), m2)),
        other => other,
    }
}

} // verus!
