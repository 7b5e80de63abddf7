use tagscript::element::Element;
use tagscript::float::FloatUnit;
use tagscript::env::Bindings;
use tagscript::interpreter::{interpret, run, Console, Flow, Runtime};
use tagscript::tree::{Event, TreeBuilder};
use tagscript::value::Value;

struct Floats;

fn f(bits: u64) -> f64 {
    f64::from_bits(bits)
}

impl FloatUnit for Floats {
    fn from_int(&self, i: i64) -> u64 {
        (i as f64).to_bits()
    }
    fn to_int(&self, x: u64) -> i64 {
        f(x) as i64
    }
    fn to_count(&self, x: u64) -> usize {
        f(x) as usize
    }
    fn sum(&self, a: u64, b: u64) -> u64 {
        (f(a) + f(b)).to_bits()
    }
    fn difference(&self, a: u64, b: u64) -> u64 {
        (f(a) - f(b)).to_bits()
    }
    fn product(&self, a: u64, b: u64) -> u64 {
        (f(a) * f(b)).to_bits()
    }
    fn quotient(&self, a: u64, b: u64) -> u64 {
        (f(a) / f(b)).to_bits()
    }
    fn remainder(&self, a: u64, b: u64) -> u64 {
        (f(a) % f(b)).to_bits()
    }
    fn format(&self, x: u64) -> String {
        f(x).to_string()
    }
    fn parse(&self, text: &str) -> Option<u64> {
        text.parse::<f64>().ok().map(f64::to_bits)
    }
}

#[derive(Default)]
struct Recorder {
    out: String,
    input: Vec<String>,
    slept: Vec<u64>,
}

impl Console for Recorder {
    fn write(&mut self, text: &str, newline: bool) -> Result<(), String> {
        self.out.push_str(text);
        if newline {
            self.out.push('\n');
        }
        Ok(())
    }
    fn read_line(&mut self) -> Result<String, String> {
        if self.input.is_empty() {
            Ok(String::new())
        } else {
            Ok(self.input.remove(0))
        }
    }
    fn sleep(&mut self, millis: u64) {
        self.slept.push(millis);
    }
}

fn el(name: &str, attrs: &[(&str, &str)], children: Vec<Element>) -> Element {
    let mut e = Element::new(name);
    for (k, v) in attrs {
        e = e.with_attribute(k, v);
    }
    for c in children {
        e = e.with_child(c);
    }
    e
}

fn t(text: &str) -> Element {
    Element::text(text)
}

fn num(n: &str) -> Element {
    el("int", &[], vec![t(n)])
}

fn program(children: Vec<Element>) -> Element {
    el("program", &[], children)
}

fn eval_with(root: &Element, input: Vec<String>) -> (Result<Value, Flow>, Recorder) {
    let console = Recorder { input, ..Recorder::default() };
    let mut rt = Runtime::new(Floats, console, 100_000);
    let r = run(root, &mut rt);
    (r, rt.console)
}

fn eval(root: &Element) -> (Result<Value, Flow>, String) {
    let (r, c) = eval_with(root, Vec::new());
    (r, c.out)
}

fn str_of(r: &Result<Value, Flow>) -> String {
    match r {
        Ok(Value::Str(s)) => s.clone(),
        _ => panic!("expected a string value"),
    }
}

fn failure(r: &Result<Value, Flow>) -> String {
    match r {
        Err(Flow::Fail(m)) => m.clone(),
        _ => panic!("expected an error"),
    }
}

#[test]
fn chained_less_than() {
    let (r, _) = eval(&program(vec![el("lt", &[], vec![num("1"), num("2"), num("3")])]));
    assert!(matches!(r, Ok(Value::Bool(true))));
    let (r, _) = eval(&program(vec![el("lt", &[], vec![num("1"), num("3"), num("2")])]));
    assert!(matches!(r, Ok(Value::Bool(false))));
}

#[test]
fn other_comparisons() {
    let (r, _) = eval(&program(vec![el("eq", &[], vec![num("1"), el("true", &[], vec![])])]));
    assert!(matches!(r, Ok(Value::Bool(false))));
    let (r, _) = eval(&program(vec![el("eq", &[], vec![num("2"), num("2"), num("2")])]));
    assert!(matches!(r, Ok(Value::Bool(true))));
    let (r, _) = eval(&program(vec![el("ge", &[], vec![num("3"), num("3"), num("1")])]));
    assert!(matches!(r, Ok(Value::Bool(true))));
    let (r, _) = eval(&program(vec![el("ne", &[], vec![el("null", &[], vec![]), num("0")])]));
    assert!(matches!(r, Ok(Value::Bool(true))));
    let (r, _) = eval(&program(vec![el("gt", &[], vec![t("b"), num("1")])]));
    assert!(matches!(r, Ok(Value::Bool(false))));
    let (r, _) = eval(&program(vec![el("lt", &[], vec![num("1")])]));
    assert_eq!(failure(&r), "Expected at least 2 children in <lt> element");
}

#[test]
fn loop_runs_to_end() {
    let body = el("print", &[], vec![el("get", &[("var", "i")], vec![])]);
    let (r, out) = eval(&program(vec![el("loop", &[("end", "3")], vec![body])]));
    assert!(matches!(r, Ok(Value::Null)));
    assert_eq!(out, "null\nnull\nnull\n");
    let body = el("print", &[], vec![el("special", &[("name", "iteration")], vec![])]);
    let (r, out) = eval(&program(vec![el("loop", &[("end", "3")], vec![body])]));
    assert!(matches!(r, Ok(Value::Null)));
    assert_eq!(out, "0\n1\n2\n");
}

#[test]
fn loop_continue_and_break() {
    let skip_odd = el(
        "if",
        &[],
        vec![
            el("condition", &[], vec![el("mod", &[], vec![el("special", &[("name", "iteration")], vec![]), num("2")])]),
            el("then", &[], vec![el("continue", &[], vec![])]),
        ],
    );
    let print = el("print", &[], vec![el("special", &[("name", "iteration")], vec![])]);
    let (r, out) = eval(&program(vec![el("loop", &[("start", "1"), ("end", "7")], vec![skip_odd, print])]));
    assert!(matches!(r, Ok(Value::Null)));
    assert_eq!(out, "2\n4\n6\n");
    let print = el("print", &[], vec![el("special", &[("name", "iteration")], vec![])]);
    let stop = el("break", &[], vec![t("done")]);
    let (r, out) = eval(&program(vec![el("loop", &[], vec![print, stop])]));
    assert_eq!(str_of(&r), "done");
    assert_eq!(out, "0\n");
}

#[test]
fn break_inside_if_ends_only_the_branch() {
    let inner = el(
        "if",
        &[],
        vec![
            el("condition", &[], vec![el("true", &[], vec![])]),
            el("then", &[], vec![el("break", &[], vec![t("b")]), t("unreached")]),
        ],
    );
    let (r, _) = eval(&program(vec![el("block", &[], vec![inner, t("after")])]));
    assert_eq!(str_of(&r), "after");
}

#[test]
fn break_leaves_block() {
    let block = el(
        "block",
        &[],
        vec![
            el("break", &[], vec![el("int", &[], vec![el("str", &[], vec![t("7")])])]),
            el("print", &[], vec![t("unreachable")]),
        ],
    );
    let (r, out) = eval(&program(vec![block]));
    assert!(matches!(r, Ok(Value::Int(7))));
    assert_eq!(out, "");
}

#[test]
fn try_catches_thrown_message() {
    let tree = el(
        "try",
        &[],
        vec![
            el("do", &[], vec![el("throw", &[("message", "boom")], vec![])]),
            el("catch", &[], vec![el("special", &[("name", "error")], vec![])]),
        ],
    );
    let (r, _) = eval(&program(vec![tree]));
    assert_eq!(str_of(&r), "boom");
}

#[test]
fn try_lets_break_through() {
    let tree = el(
        "try",
        &[],
        vec![
            el("catch", &[], vec![t("caught")]),
            el("do", &[], vec![el("break", &[], vec![t("out")])]),
        ],
    );
    let block = el("block", &[], vec![tree, t("after")]);
    let (r, _) = eval(&program(vec![block]));
    assert_eq!(str_of(&r), "out");
}

#[test]
fn try_catches_arithmetic_errors() {
    let tree = el(
        "try",
        &[],
        vec![
            el("do", &[], vec![el("div", &[], vec![num("1"), num("0")])]),
            el("catch", &[], vec![el("special", &[("name", "error")], vec![])]),
        ],
    );
    let (r, _) = eval(&program(vec![tree]));
    assert_eq!(str_of(&r), "Division by zero is not allowed");
}

#[test]
fn call_does_not_change_caller_variables() {
    let function = el(
        "function",
        &[("name", "f")],
        vec![el("set", &[("var", "x")], vec![num("2")]), el("get", &[("var", "x")], vec![])],
    );
    let tree = program(vec![
        function,
        el("set", &[("var", "x")], vec![num("1")]),
        el("print", &[], vec![el("call", &[("name", "f")], vec![])]),
        el("get", &[("var", "x")], vec![]),
    ]);
    let (r, out) = eval(&tree);
    assert!(matches!(r, Ok(Value::Int(1))));
    assert_eq!(out, "2\n");
}

#[test]
fn call_frame_holds_arguments_and_attributes() {
    let function = el(
        "function",
        &[("name", "g")],
        vec![el(
            "join",
            &[("separator", ",")],
            vec![
                el("special", &[("name", "child:0")], vec![]),
                el("special", &[("name", "child:1")], vec![]),
                el("special", &[("name", "child_count")], vec![]),
                el("special", &[("name", "tag")], vec![]),
            ],
        )],
    );
    let call = el("call", &[("name", "g"), ("tag", "t1")], vec![num("5"), t("w")]);
    let (r, _) = eval(&program(vec![function, call]));
    assert_eq!(str_of(&r), "5,w,2,t1");
}

#[test]
fn call_does_not_inherit_specials() {
    let function = el("function", &[("name", "h")], vec![el("special", &[("name", "iteration")], vec![])]);
    let lp = el(
        "loop",
        &[("end", "1")],
        vec![el("call", &[("name", "h")], vec![])],
    );
    let (r, _) = eval(&program(vec![function, lp]));
    assert_eq!(failure(&r), "Special `iteration` not found");
}

#[test]
fn unknown_function_fails() {
    let (r, _) = eval(&program(vec![el("call", &[("name", "nope")], vec![])]));
    assert_eq!(failure(&r), "Function `nope` not found");
}

#[test]
fn and_evaluates_every_child() {
    let tree = el("and", &[], vec![el("true", &[], vec![]), el("false", &[], vec![])]);
    let (r, _) = eval(&program(vec![tree]));
    assert!(matches!(r, Ok(Value::Bool(false))));
    let tree = el(
        "and",
        &[],
        vec![el("print", &[], vec![t("a")]), el("print", &[], vec![t("b")])],
    );
    let (r, out) = eval(&program(vec![tree]));
    assert!(matches!(r, Ok(Value::Bool(true))));
    assert_eq!(out, "a\nb\n");
    let tree = el(
        "or",
        &[],
        vec![el("true", &[], vec![]), el("print", &[], vec![t("c")])],
    );
    let (r, out) = eval(&program(vec![tree]));
    assert!(matches!(r, Ok(Value::Bool(true))));
    assert_eq!(out, "c\n");
}

#[test]
fn program_string_round_trip() {
    let tree = program(vec![el("str", &[], vec![t("hello")])]);
    let (r1, o1) = eval(&tree);
    let (r2, o2) = eval(&tree);
    assert_eq!(str_of(&r1), "hello");
    assert_eq!(str_of(&r2), "hello");
    assert_eq!(o1, "");
    assert_eq!(o2, "");
}

#[test]
fn root_must_be_program() {
    let (r, _) = eval(&el("block", &[], vec![]));
    assert_eq!(failure(&r), "Root element must be <program>");
    let (r, _) = eval(&el("PROGRAM", &[], vec![num("3")]));
    assert!(matches!(r, Ok(Value::Int(3))));
    let (r, _) = eval(&program(vec![]));
    assert!(matches!(r, Ok(Value::Null)));
}

#[test]
fn unknown_and_nested_program_fail() {
    let (r, _) = eval(&program(vec![el("Frobnicate", &[], vec![])]));
    assert_eq!(failure(&r), "Unknown element: Frobnicate");
    let (r, _) = eval(&program(vec![program(vec![])]));
    assert_eq!(failure(&r), "Unknown element: program");
}

#[test]
fn continue_outside_loop_fails() {
    let (r, _) = eval(&program(vec![el("next", &[], vec![])]));
    assert_eq!(failure(&r), "Tried to continue outside of a loop");
}

#[test]
fn exit_carries_code() {
    let (r, out) = eval(&program(vec![
        el("exit", &[("code", "3")], vec![]),
        el("print", &[], vec![t("no")]),
    ]));
    assert!(matches!(r, Err(Flow::Exit(3))));
    assert_eq!(out, "");
    let (r, _) = eval(&program(vec![el("exit", &[("code", "x")], vec![])]));
    assert!(matches!(r, Err(Flow::Exit(0))));
}

#[test]
fn text_skips_null_and_prints_numbers() {
    let tree = el(
        "string",
        &[("_text", "n=")],
        vec![num("4"), el("null", &[], vec![]), t("!")],
    );
    let (r, _) = eval(&program(vec![tree]));
    assert_eq!(str_of(&r), "n=4!");
}

#[test]
fn print_without_newline() {
    let tree = el("print", &[("newline", "no")], vec![t("x"), el("null", &[], vec![])]);
    let (r, out) = eval(&program(vec![tree]));
    assert_eq!(str_of(&r), "xnull");
    assert_eq!(out, "xnull");
}

#[test]
fn arithmetic_folds() {
    let (r, _) = eval(&program(vec![el("add", &[], vec![num("1"), num("2"), num("3")])]));
    assert!(matches!(r, Ok(Value::Int(6))));
    let (r, _) = eval(&program(vec![el("sum", &[], vec![])]));
    assert!(matches!(r, Ok(Value::Null)));
    let (r, _) = eval(&program(vec![el("sub", &[], vec![num("10"), num("3"), num("2")])]));
    assert!(matches!(r, Ok(Value::Int(5))));
    let (r, _) = eval(&program(vec![el("quotient", &[], vec![num("20"), num("2"), num("5")])]));
    assert!(matches!(r, Ok(Value::Int(2))));
    let (r, _) = eval(&program(vec![el("mod", &[], vec![num("17"), num("5")])]));
    assert!(matches!(r, Ok(Value::Int(2))));
    let (r, _) = eval(&program(vec![el("mul", &[], vec![num("2"), num("3")])]));
    assert!(matches!(r, Ok(Value::Null)));
    let (r, _) = eval(&program(vec![el("sub", &[], vec![t("a"), num("1")])]));
    assert_eq!(failure(&r), "Can't subtract incompatible types: string and int");
}

#[test]
fn unary_tags() {
    let (r, _) = eval(&program(vec![el("negate", &[], vec![num("5")])]));
    assert!(matches!(r, Ok(Value::Int(-5))));
    let (r, _) = eval(&program(vec![el("absolute", &[], vec![num("-5")])]));
    assert!(matches!(r, Ok(Value::Int(5))));
    let (r, _) = eval(&program(vec![el("not", &[], vec![num("0")])]));
    assert!(matches!(r, Ok(Value::Bool(true))));
    let (r, _) = eval(&program(vec![el("bool", &[], vec![t("Off")])]));
    assert!(matches!(r, Ok(Value::Bool(false))));
    let (r, _) = eval(&program(vec![el("float", &[], vec![t("2.5")])]));
    assert!(matches!(r, Ok(Value::Float(b)) if b == 2.5f64.to_bits()));
    let (r, _) = eval(&program(vec![el("int", &[], vec![t("x")])]));
    assert_eq!(failure(&r), "Failed to convert value to an integer");
    let (r, _) = eval(&program(vec![el("int", &[], vec![])]));
    assert_eq!(failure(&r), "Expected exactly one child in <int> element");
}

#[test]
fn type_names() {
    let tree = el(
        "type",
        &[],
        vec![num("1"), t("s"), el("null", &[], vec![]), el("true", &[], vec![])],
    );
    let (r, _) = eval(&program(vec![tree]));
    assert_eq!(str_of(&r), "int string null bool");
    let (r, _) = eval(&program(vec![el("type", &[], vec![])]));
    assert_eq!(str_of(&r), "null");
}

#[test]
fn space_join_trim() {
    let (r, _) = eval(&program(vec![el("space", &[("count", "3")], vec![])]));
    assert_eq!(str_of(&r), "   ");
    let (r, _) = eval(&program(vec![el("space", &[], vec![])]));
    assert_eq!(str_of(&r), " ");
    let tree = el("join", &[("start", "["), ("end", "]")], vec![num("1"), num("2")]);
    let (r, _) = eval(&program(vec![tree]));
    assert_eq!(str_of(&r), "[1 2]");
    let (r, _) = eval(&program(vec![el("trim", &[], vec![t("  a b \t")])]));
    assert_eq!(str_of(&r), "a b");
    let (r, _) = eval(&program(vec![el("trim", &[("end", "false")], vec![t("  a ")])]));
    assert_eq!(str_of(&r), "a ");
}

#[test]
fn string_predicates() {
    let (r, _) = eval(&program(vec![el("starts-with", &[], vec![t("hello"), t("he")])]));
    assert!(matches!(r, Ok(Value::Bool(true))));
    let (r, _) = eval(&program(vec![el("ends-with", &[], vec![t("hello"), t("he")])]));
    assert!(matches!(r, Ok(Value::Bool(false))));
    let (r, _) = eval(&program(vec![el("contains", &[], vec![num("12345"), num("34")])]));
    assert!(matches!(r, Ok(Value::Bool(true))));
    let (r, _) = eval(&program(vec![el("contains", &[], vec![t("a")])]));
    assert_eq!(failure(&r), "Expected exactly 2 children in <contains> element");
}

#[test]
fn variables_get_and_set() {
    let tree = program(vec![
        el("set", &[("var", "a")], vec![t("b")]),
        el("set", &[("var", "b")], vec![num("9")]),
        el("get", &[], vec![el("get", &[("var", "a")], vec![])]),
    ]);
    let (r, _) = eval(&tree);
    assert!(matches!(r, Ok(Value::Int(9))));
    let (r, _) = eval(&program(vec![el("get", &[("var", "zz")], vec![num("4")])]));
    assert!(matches!(r, Ok(Value::Int(4))));
    let (r, _) = eval(&program(vec![el("set", &[], vec![num("4")])]));
    assert_eq!(failure(&r), "Expected the `var` attribute in <set> element");
}

#[test]
fn if_elif_else() {
    let branch = |cond: Element| {
        el(
            "if",
            &[],
            vec![
                el("condition", &[], vec![cond]),
                el("then", &[], vec![t("first")]),
                el(
                    "elif",
                    &[],
                    vec![
                        el("condition", &[], vec![el("eq", &[], vec![el("special", &[("name", "condition")], vec![]), num("2")])]),
                        el("then", &[], vec![t("second")]),
                    ],
                ),
                el("else", &[], vec![el("special", &[("name", "condition")], vec![])]),
            ],
        )
    };
    let (r, _) = eval(&program(vec![branch(num("1"))]));
    assert_eq!(str_of(&r), "first");
    let (r, _) = eval(&program(vec![branch(t(""))]));
    assert!(matches!(r, Ok(Value::Str(ref s)) if s.is_empty()));
    let bad = el("if", &[], vec![el("condition", &[], vec![t("1")]), el("what", &[], vec![])]);
    let (r, _) = eval(&program(vec![bad]));
    assert_eq!(failure(&r), "Unexpected child in <if> element: what");
}

#[test]
fn unwrap_and_throw() {
    let (r, _) = eval(&program(vec![el("unwrap", &[], vec![el("null", &[], vec![])])]));
    assert_eq!(failure(&r), "Unwrapped value is null");
    let (r, _) = eval(&program(vec![el("expect", &[("message", "need it")], vec![el("null", &[], vec![])])]));
    assert_eq!(failure(&r), "need it");
    let (r, _) = eval(&program(vec![el("throw", &[], vec![])]));
    assert_eq!(failure(&r), "An error occurred, but no message was provided.");
    let (r, _) = eval(&program(vec![el("throw", &[], vec![t("bad "), num("1")])]));
    assert_eq!(failure(&r), "bad 1");
}

#[test]
fn readline_and_delay() {
    let tree = program(vec![
        el("delay", &[("duration", "25")], vec![]),
        el("sleep", &[], vec![num("7")]),
        el("readline", &[], vec![]),
    ]);
    let (r, console) = eval_with(&tree, vec!["typed\r\n".to_string()]);
    assert_eq!(str_of(&r), "typed");
    assert_eq!(console.slept, vec![25, 7]);
}

#[test]
fn special_not_found() {
    let (r, _) = eval(&program(vec![el("special", &[("name", "nothing")], vec![])]));
    assert_eq!(failure(&r), "Special `nothing` not found");
}

#[test]
fn step_limit_stops_endless_loop() {
    let tree = program(vec![el("loop", &[], vec![])]);
    let mut rt = Runtime::new(Floats, Recorder::default(), 50);
    let r = run(&tree, &mut rt);
    assert_eq!(failure(&r), "Evaluation step limit reached");
}

#[test]
fn tree_builder_nests_elements() {
    let mut b = TreeBuilder::new();
    assert!(matches!(b.feed(Event::Start(Element::new("program"))), Ok(None)));
    assert!(matches!(b.feed(Event::Start(Element::new("str"))), Ok(None)));
    assert!(matches!(b.feed(Event::Text("hi".to_string())), Ok(None)));
    assert!(matches!(b.feed(Event::End), Ok(None)));
    assert!(matches!(b.feed(Event::Empty(Element::new("null"))), Ok(None)));
    let root = match b.feed(Event::End) {
        Ok(Some(root)) => root,
        _ => panic!("expected the root"),
    };
    assert_eq!(root.name, "program");
    assert_eq!(root.children.len(), 2);
    assert_eq!(root.children[0].children[0].attribute("_text").unwrap(), "hi");
    let (r, _) = eval(&root);
    assert!(matches!(r, Ok(Value::Null)));
}

#[test]
fn tree_builder_errors() {
    let mut b = TreeBuilder::new();
    assert!(b.feed(Event::End).is_err());
    assert_eq!(TreeBuilder::new().finish().unwrap_err(), "No root element found");
    let mut b = TreeBuilder::new();
    let _ = b.feed(Event::Start(Element::new("program")));
    let _ = b.feed(Event::Start(Element::new("block")));
    let root = b.finish().unwrap();
    assert_eq!(root.name, "program");
    assert_eq!(root.children[0].name, "block");
}

#[test]
fn signals_below_the_root() {
    let brk = el("break", &[], vec![num("4")]);
    let cont = el("continue", &[], vec![]);
    let mut rt = Runtime::new(Floats, Recorder::default(), 1000);
    let mut vars = Bindings::new();
    let specials: Vec<Bindings> = Vec::new();
    assert!(matches!(interpret(&brk, 1, &mut vars, &specials, &mut rt), Err(Flow::Break(Value::Int(4)))));
    assert!(matches!(interpret(&cont, 1, &mut vars, &specials, &mut rt), Err(Flow::Continue)));
    let bad = el("break", &[], vec![num("1"), num("2")]);
    assert!(matches!(interpret(&bad, 1, &mut vars, &specials, &mut rt), Err(Flow::Fail(_))));
}

#[test]
fn elif_conditions_run_only_when_reached() {
    let elif = |n: &str| {
        el(
            "elif",
            &[],
            vec![
                el("condition", &[], vec![el("print", &[], vec![t(n)])]),
                el("then", &[], vec![t(n)]),
            ],
        )
    };
    let tree = el(
        "if",
        &[],
        vec![
            el("condition", &[], vec![el("false", &[], vec![])]),
            el("then", &[], vec![t("zero")]),
            elif("one"),
            elif("two"),
        ],
    );
    let (r, out) = eval(&program(vec![tree]));
    assert_eq!(str_of(&r), "one");
    assert_eq!(out, "one\n");
}

#[test]
fn error_in_catch_propagates() {
    let tree = el(
        "try",
        &[],
        vec![
            el("do", &[], vec![el("throw", &[("message", "first")], vec![])]),
            el("catch", &[], vec![el("throw", &[("message", "second")], vec![])]),
        ],
    );
    let (r, _) = eval(&program(vec![tree]));
    assert_eq!(failure(&r), "second");
    let missing = el("try", &[], vec![el("do", &[], vec![]), el("do", &[], vec![])]);
    let (r, _) = eval(&program(vec![missing]));
    assert_eq!(failure(&r), "Expected a <catch> child in <try> element");
}

#[test]
fn tags_are_case_insensitive() {
    let (r, _) = eval(&program(vec![el("ADD", &[], vec![num("2"), el("Int", &[], vec![t("5")])])]));
    assert!(matches!(r, Ok(Value::Int(7))));
}

#[test]
fn get_with_too_many_children_fails() {
    let (r, _) = eval(&program(vec![el("get", &[("var", "q")], vec![num("1"), num("2")])]));
    assert_eq!(failure(&r), "Expected exactly one child or the `var` attribute in <get> element");
}

#[test]
fn function_declared_inside_call_persists() {
    let outer = el(
        "function",
        &[("name", "outer")],
        vec![el("function", &[("name", "inner")], vec![t("in")])],
    );
    let tree = program(vec![
        outer,
        el("call", &[("name", "outer")], vec![]),
        el("call", &[("name", "inner")], vec![]),
    ]);
    let (r, _) = eval(&tree);
    assert_eq!(str_of(&r), "in");
}
