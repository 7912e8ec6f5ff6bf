//! # Program text
//!
//! The textual form of virtual machine programs: one instruction per line,
//! its name followed by its operand. A comment is `//` and its text. Blocks
//! are written without indentation, or, in debug mode, with one tab per open
//! block.
use vstd::prelude::*;
use crate::text::{append_int, append_tabs, int_text, tabs};
use crate::vm::{CoreOp, CoreProgram, StandardOp, StandardProgram, lift};

verus! {

/// The name of a core instruction.
pub open spec fn core_name(op: CoreOp) -> Seq<char> {
    match op {
        CoreOp::Comment(_) => "//"@,
        CoreOp::SetReg(_) => "set"@,
        CoreOp::Function => "function"@,
        CoreOp::Call => "call"@,
        CoreOp::Return => "return"@,
        CoreOp::While => "while"@,
        CoreOp::If => "if"@,
        CoreOp::Else => "else"@,
        CoreOp::End => "end"@,
        CoreOp::Move(_) => "move"@,
        CoreOp::Where => "where"@,
        CoreOp::Deref => "deref"@,
        CoreOp::Refer => "refer"@,
        CoreOp::Index => "index"@,
        CoreOp::BitwiseNand => "nand"@,
        CoreOp::Add => "add"@,
        CoreOp::Sub => "sub"@,
        CoreOp::Mul => "mul"@,
        CoreOp::Div => "div"@,
        CoreOp::Rem => "rem"@,
        CoreOp::IsNonNegative => "gez"@,
        CoreOp::Save => "save"@,
        CoreOp::Restore => "restore"@,
        CoreOp::Get(_) => "get"@,
        CoreOp::Put(_) => "put"@,
    }
}

/// The name of a standard instruction.
pub open spec fn standard_name(op: StandardOp) -> Seq<char> {
    match op {
        StandardOp::CoreOp(c) => core_name(c),
        StandardOp::SetFloat(_) => "set-f"@,
        StandardOp::Peek => "peek"@,
        StandardOp::Poke => "poke"@,
        StandardOp::Add => "add-f"@,
        StandardOp::Sub => "sub-f"@,
        StandardOp::Mul => "mul-f"@,
        StandardOp::Div => "div-f"@,
        StandardOp::Rem => "rem-f"@,
        StandardOp::Pow => "pow-f"@,
        StandardOp::IsNonNegative => "gez-f"@,
        StandardOp::Sin => "sin"@,
        StandardOp::Cos => "cos"@,
        StandardOp::Tan => "tan"@,
        StandardOp::ASin => "asin"@,
        StandardOp::ACos => "acos"@,
        StandardOp::ATan => "atan"@,
        StandardOp::Alloc => "alloc"@,
        StandardOp::Free => "free"@,
        StandardOp::ToInt => "to-int"@,
        StandardOp::ToFloat => "to-float"@,
    }
}

/// The text of one instruction, without indentation or line break.
pub open spec fn op_text(op: StandardOp) -> Seq<char> {
    match op {
        StandardOp::CoreOp(CoreOp::Comment(t)) => "//"@ + t@,
        StandardOp::CoreOp(CoreOp::SetReg(n)) => "set"@ + " "@ + int_text(n as int),
        StandardOp::CoreOp(CoreOp::Move(n)) => "move"@ + " "@ + int_text(n as int),
        StandardOp::CoreOp(CoreOp::Get(n)) => "get"@ + " "@ + int_text(n as int),
        StandardOp::CoreOp(CoreOp::Put(n)) => "put"@ + " "@ + int_text(n as int),
        StandardOp::SetFloat(v) => "set-f"@ + " "@ + v@,
        _ => standard_name(op),
    }
}

/// Whether an instruction opens a block.
pub open spec fn opens(op: StandardOp) -> bool {
    op == StandardOp::CoreOp(CoreOp::Function) || op == StandardOp::CoreOp(CoreOp::While)
        || op == StandardOp::CoreOp(CoreOp::If)
}

/// Whether an instruction is written one level out: `Else` and `End`.
pub open spec fn outdents(op: StandardOp) -> bool {
    op == StandardOp::CoreOp(CoreOp::Else) || op == StandardOp::CoreOp(CoreOp::End)
}

/// The nesting depth after the first `n` instructions (an unmatched `End`
/// stays at 0).
pub open spec fn depth_after(ops: Seq<StandardOp>, n: nat) -> nat
    decreases n,
{
    if n == 0 {
        0
    } else {
        let d = depth_after(ops, (n - 1) as nat);
        let op = ops[n - 1];
        if opens(op) {
            d + 1
        } else if op == StandardOp::CoreOp(CoreOp::End) && d > 0 {
            (d - 1) as nat
        } else {
            d
        }
    }
}

/// The indentation of instruction `i` in debug mode.
pub open spec fn indent_of(ops: Seq<StandardOp>, i: nat) -> nat {
    let d = depth_after(ops, i);
    if outdents(ops[i as int]) && d > 0 {
        (d - 1) as nat
    } else {
        d
    }
}

/// The line of instruction `i`.
pub open spec fn line_of(ops: Seq<StandardOp>, i: nat, debug: bool) -> Seq<char> {
    (if debug {
        tabs(indent_of(ops, i))
    } else {
        Seq::empty()
    }) + op_text(ops[i as int]) + "\n"@
}

/// The text of the first `n` instructions.
pub open spec fn program_text_prefix(ops: Seq<StandardOp>, n: nat, debug: bool) -> Seq<char>
    decreases n,
{
    if n == 0 {
        Seq::empty()
    } else {
        program_text_prefix(ops, (n - 1) as nat, debug) + line_of(ops, (n - 1) as nat, debug)
    }
}

/// The text of a program.
pub open spec fn program_text(ops: Seq<StandardOp>, debug: bool) -> Seq<char> {
    program_text_prefix(ops, ops.len(), debug)
}

/// Append the text of one instruction.
fn append_op_text(text: &mut String, op: &StandardOp)
    ensures
        final(text)@ == old(text)@ + op_text(*op),
{
    let ghost start = text@;
    match op {
        StandardOp::CoreOp(c) => match c {
            CoreOp::Comment(t) => {
                text.append("//");
                text.append(t.as_str());
            },
            CoreOp::SetReg(n) => {
                text.append("set");
                text.append(" ");
                append_int(text, *n);
            },
            CoreOp::Move(n) => {
                text.append("move");
                text.append(" ");
                append_int(text, *n);
            },
            CoreOp::Get(n) => {
                text.append("get");
                text.append(" ");
                append_int(text, *n);
            },
            CoreOp::Put(n) => {
                text.append("put");
                text.append(" ");
                append_int(text, *n);
            },
            CoreOp::Function => text.append("function"),
            CoreOp::Call => text.append("call"),
            CoreOp::Return => text.append("return"),
            CoreOp::While => text.append("while"),
            CoreOp::If => text.append("if"),
            CoreOp::Else => text.append("else"),
            CoreOp::End => text.append("end"),
            CoreOp::Where => text.append("where"),
            CoreOp::Deref => text.append("deref"),
            CoreOp::Refer => text.append("refer"),
            CoreOp::Index => text.append("index"),
            CoreOp::BitwiseNand => text.append("nand"),
            CoreOp::Add => text.append("add"),
            CoreOp::Sub => text.append("sub"),
            CoreOp::Mul => text.append("mul"),
            CoreOp::Div => text.append("div"),
            CoreOp::Rem => text.append("rem"),
            CoreOp::IsNonNegative => text.append("gez"),
            CoreOp::Save => text.append("save"),
            CoreOp::Restore => text.append("restore"),
        },
        StandardOp::SetFloat(v) => {
            text.append("set-f");
            text.append(" ");
            text.append(v.as_str());
        },
        StandardOp::Peek => text.append("peek"),
        StandardOp::Poke => text.append("poke"),
        StandardOp::Add => text.append("add-f"),
        StandardOp::Sub => text.append("sub-f"),
        StandardOp::Mul => text.append("mul-f"),
        StandardOp::Div => text.append("div-f"),
        StandardOp::Rem => text.append("rem-f"),
        StandardOp::Pow => text.append("pow-f"),
        StandardOp::IsNonNegative => text.append("gez-f"),
        StandardOp::Sin => text.append("sin"),
        StandardOp::Cos => text.append("cos"),
        StandardOp::Tan => text.append("tan"),
        StandardOp::ASin => text.append("asin"),
        StandardOp::ACos => text.append("acos"),
        StandardOp::ATan => text.append("atan"),
        StandardOp::Alloc => text.append("alloc"),
        StandardOp::Free => text.append("free"),
        StandardOp::ToInt => text.append("to-int"),
        StandardOp::ToFloat => text.append("to-float"),
    }
    assert(text@ =~= start + op_text(*op));
}

impl StandardProgram {
    /// The text of the program: one instruction per line; in debug mode,
    /// indented by one tab per open block.
    pub fn to_text(&self, debug: bool) -> (r: String)
        ensures
            r@ == program_text(self@, debug),
    {
        let ops = &self.0;
        let mut text = String::new();
        let mut depth: usize = 0;
        let mut i: usize = 0;
        while i < ops.len()
            invariant
                i <= ops.len(),
                ops@ == self@,
                depth <= i,
                depth == depth_after(ops@, i as nat),
                text@ == program_text_prefix(ops@, i as nat, debug),
            decreases ops.len() - i,
        {
            let op = &ops[i];
            let is_open = matches!(op, StandardOp::CoreOp(CoreOp::Function))
                || matches!(op, StandardOp::CoreOp(CoreOp::While))
                || matches!(op, StandardOp::CoreOp(CoreOp::If));
            let is_end = matches!(op, StandardOp::CoreOp(CoreOp::End));
            let is_out = is_end || matches!(op, StandardOp::CoreOp(CoreOp::Else));
            let ghost before = text@;
            if debug {
                let ind = if is_out && depth > 0 { depth - 1 } else { depth };
                append_tabs(&mut text, ind);
            }
            append_op_text(&mut text, op);
            text.append("\n");
            assert(text@ =~= before + line_of(ops@, i as nat, debug));
            if is_open {
                depth = depth + 1;
            } else if is_end && depth > 0 {
                depth = depth - 1;
            }
            i = i + 1;
        }
        text
    }
}

impl CoreProgram {
    /// The text of the program, as the same program of the standard tier
    /// would be written.
    pub fn to_text(&self, debug: bool) -> (r: String)
        ensures
            r@ == program_text(lift(self@), debug),
    {
        StandardProgram::from_core(self).to_text(debug)
    }
}

} // verus!
