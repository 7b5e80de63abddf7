//! The operations that tag names stand for.
use vstd::prelude::*;
use vstd::string::*;
use crate::text::same_text;

verus! {

/// What a node does, decided by its lower-cased tag name.
#[derive(Debug, Clone, Copy, PartialEq, Eq, Structural)]
pub enum Op {
    /// The root of a program.
    Program,
    /// A run of spaces.
    Space,
    /// Text joined from the children.
    Text,
    /// The null value.
    Null,
    /// Conversion to an integer.
    Int,
    /// Conversion to a float.
    Float,
    /// Conversion to a boolean.
    Bool,
    /// The literal true.
    True,
    /// The literal false.
    False,
    /// The kind names of the children.
    Type,
    /// A pause.
    Delay,
    /// Output of the children's text.
    Print,
    /// One line of input.
    ReadLine,
    /// White space removed from a text.
    Trim,
    /// The children's texts joined.
    Join,
    /// A value that must not be null.
    Unwrap,
    /// A raised error.
    Throw,
    /// Leaving the enclosing block with a value.
    Break,
    /// The next pass of the enclosing loop.
    Continue,
    /// The end of the program run.
    Exit,
    /// Reading a variable.
    Get,
    /// Writing a variable.
    Assign,
    /// Reading a special name.
    Special,
    /// The sum of the children.
    Add,
    /// Negation.
    Neg,
    /// Logical negation.
    Not,
    /// Whether every child is true.
    And,
    /// Whether some child is true.
    Or,
    /// The absolute value.
    Abs,
    /// The difference of the children.
    Sub,
    /// The product of the children.
    Mul,
    /// The quotient of the children.
    Div,
    /// The remainder of the children.
    Mod,
    /// Whether neighbouring children are equal.
    Eq,
    /// Whether neighbouring children differ.
    Ne,
    /// Whether the children ascend strictly.
    Lt,
    /// Whether the children ascend.
    Le,
    /// Whether the children descend strictly.
    Gt,
    /// Whether the children descend.
    Ge,
    /// A prefix test.
    StartsWith,
    /// A suffix test.
    EndsWith,
    /// A substring test.
    Contains,
    /// Recovery from an error.
    Try,
    /// A sequence that a break leaves.
    Block,
    /// A conditional.
    If,
    /// A loop.
    Loop,
    /// A function declaration.
    Function,
    /// A function call.
    Call,
    /// A tag name that names no operation.
    Unknown,
}

/// The operation that a lower-cased tag name stands for.
pub open spec fn op_named(s: Seq<char>) -> Op {
    if s == "program"@ {
        Op::Program
    } else if s == "space"@ {
        Op::Space
    } else if s.len() == 0 || s == "str"@ || s == "string"@ {
        Op::Text
    } else if s == "null"@ {
        Op::Null
    } else if s == "int"@ || s == "integer"@ {
        Op::Int
    } else if s == "float"@ {
        Op::Float
    } else if s == "bool"@ {
        Op::Bool
    } else if s == "true"@ {
        Op::True
    } else if s == "false"@ {
        Op::False
    } else if s == "type"@ {
        Op::Type
    } else if s == "delay"@ || s == "sleep"@ {
        Op::Delay
    } else if s == "print"@ {
        Op::Print
    } else if s == "readline"@ {
        Op::ReadLine
    } else if s == "trim"@ {
        Op::Trim
    } else if s == "join"@ {
        Op::Join
    } else if s == "unwrap"@ || s == "expect"@ {
        Op::Unwrap
    } else if s == "throw"@ {
        Op::Throw
    } else if s == "return"@ || s == "break"@ {
        Op::Break
    } else if s == "continue"@ || s == "next"@ {
        Op::Continue
    } else if s == "exit"@ {
        Op::Exit
    } else if s == "get"@ {
        Op::Get
    } else if s == "set"@ {
        Op::Assign
    } else if s == "special"@ {
        Op::Special
    } else if s == "add"@ || s == "sum"@ {
        Op::Add
    } else if s == "neg"@ || s == "negate"@ || s == "negative"@ {
        Op::Neg
    } else if s == "not"@ {
        Op::Not
    } else if s == "and"@ {
        Op::And
    } else if s == "or"@ {
        Op::Or
    } else if s == "abs"@ || s == "absolute"@ {
        Op::Abs
    } else if s == "sub"@ || s == "subtract"@ || s == "difference"@ {
        Op::Sub
    } else if s == "mul"@ || s == "multiply"@ || s == "product"@ {
        Op::Mul
    } else if s == "div"@ || s == "divide"@ || s == "quotient"@ {
        Op::Div
    } else if s == "mod"@ || s == "modulo"@ || s == "remainder"@ {
        Op::Mod
    } else if s == "eq"@ || s == "equals"@ || s == "equal"@ {
        Op::Eq
    } else if s == "ne"@ || s == "not-equals"@ || s == "not-equal"@ {
        Op::Ne
    } else if s == "lt"@ || s == "less-than"@ {
        Op::Lt
    } else if s == "le"@ || s == "less-than-or-equal"@ {
        Op::Le
    } else if s == "gt"@ || s == "greater-than"@ {
        Op::Gt
    } else if s == "ge"@ || s == "greater-than-or-equal"@ {
        Op::Ge
    } else if s == "starts-with"@ {
        Op::StartsWith
    } else if s == "ends-with"@ {
        Op::EndsWith
    } else if s == "contains"@ {
        Op::Contains
    } else if s == "try"@ {
        Op::Try
    } else if s == "block"@ {
        Op::Block
    } else if s == "if"@ {
        Op::If
    } else if s == "loop"@ {
        Op::Loop
    } else if s == "function"@ {
        Op::Function
    } else if s == "call"@ {
        Op::Call
    } else {
        Op::Unknown
    }
}

pub fn op_of(s: &str) -> (r: Op)
    ensures
        r == op_named(s@),
{
    if same_text(s, "program") {
        return Op::Program;
    }
    if same_text(s, "space") {
        return Op::Space;
    }
    if s.unicode_len() == 0 || same_text(s, "str") || same_text(s, "string") {
        return Op::Text;
    }
    if same_text(s, "null") {
        return Op::Null;
    }
    if same_text(s, "int") || same_text(s, "integer") {
        return Op::Int;
    }
    if same_text(s, "float") {
        return Op::Float;
    }
    if same_text(s, "bool") {
        return Op::Bool;
    }
    if same_text(s, "true") {
        return Op::True;
    }
    if same_text(s, "false") {
        return Op::False;
    }
    if same_text(s, "type") {
        return Op::Type;
    }
    if same_text(s, "delay") || same_text(s, "sleep") {
        return Op::Delay;
    }
    if same_text(s, "print") {
        return Op::Print;
    }
    if same_text(s, "readline") {
        return Op::ReadLine;
    }
    if same_text(s, "trim") {
        return Op::Trim;
    }
    if same_text(s, "join") {
        return Op::Join;
    }
    if same_text(s, "unwrap") || same_text(s, "expect") {
        return Op::Unwrap;
    }
    if same_text(s, "throw") {
        return Op::Throw;
    }
    if same_text(s, "return") || same_text(s, "break") {
        return Op::Break;
    }
    if same_text(s, "continue") || same_text(s, "next") {
        return Op::Continue;
    }
    if same_text(s, "exit") {
        return Op::Exit;
    }
    if same_text(s, "get") {
        return Op::Get;
    }
    if same_text(s, "set") {
        return Op::Assign;
    }
    if same_text(s, "special") {
        return Op::Special;
    }
    if same_text(s, "add") || same_text(s, "sum") {
        return Op::Add;
    }
    if same_text(s, "neg") || same_text(s, "negate") || same_text(s, "negative") {
        return Op::Neg;
    }
    if same_text(s, "not") {
        return Op::Not;
    }
    if same_text(s, "and") {
        return Op::And;
    }
    if same_text(s, "or") {
        return Op::Or;
    }
    if same_text(s, "abs") || same_text(s, "absolute") {
        return Op::Abs;
    }
    if same_text(s, "sub") || same_text(s, "subtract") || same_text(s, "difference") {
        return Op::Sub;
    }
    if same_text(s, "mul") || same_text(s, "multiply") || same_text(s, "product") {
        return Op::Mul;
    }
    if same_text(s, "div") || same_text(s, "divide") || same_text(s, "quotient") {
        return Op::Div;
    }
    if same_text(s, "mod") || same_text(s, "modulo") || same_text(s, "remainder") {
        return Op::Mod;
    }
    if same_text(s, "eq") || same_text(s, "equals") || same_text(s, "equal") {
        return Op::Eq;
    }
    if same_text(s, "ne") || same_text(s, "not-equals") || same_text(s, "not-equal") {
        return Op::Ne;
    }
    if same_text(s, "lt") || same_text(s, "less-than") {
        return Op::Lt;
    }
    if same_text(s, "le") || same_text(s, "less-than-or-equal") {
        return Op::Le;
    }
    if same_text(s, "gt") || same_text(s, "greater-than") {
        return Op::Gt;
    }
    if same_text(s, "ge") || same_text(s, "greater-than-or-equal") {
        return Op::Ge;
    }
    if same_text(s, "starts-with") {
        return Op::StartsWith;
    }
    if same_text(s, "ends-with") {
        return Op::EndsWith;
    }
    if same_text(s, "contains") {
        return Op::Contains;
    }
    if same_text(s, "try") {
        return Op::Try;
    }
    if same_text(s, "block") {
        return Op::Block;
    }
    if same_text(s, "if") {
        return Op::If;
    }
    if same_text(s, "loop") {
        return Op::Loop;
    }
    if same_text(s, "function") {
        return Op::Function;
    }
    if same_text(s, "call") {
        return Op::Call;
    }
    Op::Unknown
}

} // verus!
