//! # C target
//!
//! Lowers a flat virtual machine program to one C translation unit. The
//! machine's state becomes file-level variables; each instruction becomes one
//! statement. A `Function` block becomes a nested C function whose address is
//! stored in the function table at its `End`, so this needs a C compiler that
//! accepts nested functions (GCC).
use vstd::prelude::*;
use crate::text::{append_int, append_nat, append_tabs, int_text, nat_text, tabs};
use crate::vm::{CoreOp, CoreProgram, StandardOp, StandardProgram};

verus! {

/// The C target.
pub struct C;

/// What the C emitter has open: a block and, for a function, its index.
#[derive(Clone, Copy, Debug, PartialEq, Eq)]
pub enum Block {
    Function(usize),
    While,
    If,
    Else,
}

/// The state of an emission: the statements written so far, the blocks
/// still open (innermost last), and the index of the next function.
pub struct Emission {
    pub text: Seq<char>,
    pub blocks: Seq<Block>,
    pub next_fun: nat,
}

pub const CORE_PRELUDE: &'static str = "#include <stdio.h>
union int_or_float {
    long long int i;
    double f;
    union int_or_float *p;
} tape[200000], *refs[1024], *ptr = tape, **ref = refs, reg;
unsigned int ref_ptr = 0;
void (*funs[10000])(void);
int main() {
";

pub const STD_PRELUDE: &'static str = "#include <stdio.h>
#include <string.h>
#include <stdlib.h>
#include <math.h>
union int_or_float {
    long long int i;
    double f;
    union int_or_float *p;
} tape[200000], *refs[1024], *ptr = tape, **ref = refs, reg;
void (*funs[10000])(void);

union int_or_float peek() {
    union int_or_float tmp;
    tmp.i = 0;
    return tmp;
}

void poke(union int_or_float val) {
    return;
}


int main() {
";

/// The statement that starts `main`.
pub const MAIN_START: &'static str = "\treg.i = 0;\n";

/// The statements that end `main`.
pub const MAIN_END: &'static str = "\treturn 0;\n}";

pub open spec fn newline() -> Seq<char> {
    "\n"@
}

/// The C statement of an instruction that neither opens nor closes a block,
/// at indentation `ind`. `Put` writes to standard error on channel 1 and to
/// standard output on every other channel.
pub open spec fn core_text(op: CoreOp, ind: nat) -> Seq<char> {
    match op {
        CoreOp::SetReg(n) => "reg.i = "@ + int_text(n as int) + ";"@,
        CoreOp::Call => "funs[reg.i]();"@,
        CoreOp::Return => "return;"@,
        CoreOp::Save => "*ptr = reg;"@,
        CoreOp::Restore => "reg = *ptr;"@,
        CoreOp::Move(n) => "ptr += "@ + int_text(n as int) + ";"@,
        CoreOp::Where => "reg.p = ptr;"@,
        CoreOp::Deref => "*ref++ = ptr;"@ + newline() + tabs(ind) + "ptr = ptr->p;"@,
        CoreOp::Refer => "ptr = *--ref;"@,
        CoreOp::Index => "reg.p += ptr->i;"@,
        CoreOp::BitwiseNand => "reg.i = ~(reg.i & ptr->i);"@,
        CoreOp::Add => "reg.i += ptr->i;"@,
        CoreOp::Sub => "reg.i -= ptr->i;"@,
        CoreOp::Mul => "reg.i *= ptr->i;"@,
        CoreOp::Div => "reg.i /= ptr->i;"@,
        CoreOp::Rem => "reg.i %= ptr->i;"@,
        CoreOp::IsNonNegative => "reg.i = reg.i >= 0;"@,
        CoreOp::Get(_) => "reg.i = (reg.i = getchar()) == EOF? -1 : reg.i;"@,
        CoreOp::Put(dst) => if dst == 1 {
            "fputc(reg.i, stderr);"@
        } else {
            "putchar(reg.i);"@
        },
        _ => Seq::empty(),
    }
}

/// The C statement of an instruction of the standard tier only.
pub open spec fn standard_text(op: StandardOp) -> Seq<char> {
    match op {
        StandardOp::SetFloat(v) => "reg.f = "@ + v@ + ";"@,
        StandardOp::Peek => "reg = peek();"@,
        StandardOp::Poke => "poke(reg);"@,
        StandardOp::Add => "reg.f += ptr->f;"@,
        StandardOp::Sub => "reg.f -= ptr->f;"@,
        StandardOp::Mul => "reg.f *= ptr->f;"@,
        StandardOp::Div => "reg.f /= ptr->f;"@,
        StandardOp::Rem => "reg.f = fmod(reg.f, ptr->f);"@,
        StandardOp::Pow => "reg.f = powf(reg.f, ptr->f);"@,
        StandardOp::IsNonNegative => "reg.i = reg.f >= 0;"@,
        StandardOp::Sin => "reg.f = sin(reg.f);"@,
        StandardOp::Cos => "reg.f = cos(reg.f);"@,
        StandardOp::Tan => "reg.f = tan(reg.f);"@,
        StandardOp::ASin => "reg.f = asin(reg.f);"@,
        StandardOp::ACos => "reg.f = acos(reg.f);"@,
        StandardOp::ATan => "reg.f = atan(reg.f);"@,
        StandardOp::Alloc => "reg.p = malloc(reg.i * sizeof(*ptr));"@,
        StandardOp::Free => "free(reg.p);"@,
        StandardOp::ToInt => "reg.i = (long long int)reg.f;"@,
        StandardOp::ToFloat => "reg.f = (double)reg.i;"@,
        StandardOp::CoreOp(_) => Seq::empty(),
    }
}

/// The C statement of a pointer move in a standard program.
pub open spec fn standard_move_text(n: int) -> Seq<char> {
    if n >= 0 {
        "ptr += "@ + nat_text(n as nat) + ";"@
    } else {
        "ptr -= "@ + nat_text((-n) as nat) + ";"@
    }
}

/// The header of a function: `void fK() {`.
pub open spec fn function_head(k: nat) -> Seq<char> {
    "void f"@ + nat_text(k) + "() {"@
}

/// The close of a function, which stores it in the table: `} funs[K] = fK;`.
pub open spec fn function_tail(k: nat) -> Seq<char> {
    "} funs["@ + nat_text(k) + "] = f"@ + nat_text(k) + ";"@
}

/// The statement that closes the innermost open block.
pub open spec fn close_text(top: Block) -> Seq<char> {
    match top {
        Block::Function(k) => function_tail(k as nat),
        _ => "}"@,
    }
}

/// The statement that opens a `While` or `If` block.
pub open spec fn opener_text(op: CoreOp) -> Seq<char> {
    if op == CoreOp::While {
        "while (reg.i) {"@
    } else {
        "if (reg.i) {"@
    }
}

/// The emission state with `line` written and `blocks` open.
pub open spec fn emitted(s: Emission, line: Seq<char>, blocks: Seq<Block>, next_fun: nat) -> Emission {
    Emission { text: s.text + line, blocks, next_fun }
}

/// The indentation of the next statement: one tab inside `main`, one more
/// for each open block.
pub open spec fn indent(s: Emission) -> nat {
    s.blocks.len() + 1
}

/// Whether the innermost open block is an `If` without its `Else`.
pub open spec fn in_if(s: Emission) -> bool {
    s.blocks.len() > 0 && s.blocks.last() == Block::If
}

/// Opening a block: a `Function`, `While` or `If`.
pub open spec fn open_block(s: Emission, op: CoreOp) -> Emission {
    let ind = indent(s);
    if op == CoreOp::Function {
        emitted(
            s,
            tabs(ind) + function_head(s.next_fun) + newline(),
            s.blocks.push(Block::Function(s.next_fun as usize)),
            s.next_fun + 1,
        )
    } else {
        emitted(
            s,
            tabs(ind) + opener_text(op) + newline(),
            s.blocks.push(if op == CoreOp::While { Block::While } else { Block::If }),
            s.next_fun,
        )
    }
}

/// One instruction of a core program.
pub open spec fn core_step(s: Emission, op: CoreOp) -> Result<Emission, Seq<char>> {
    let ind = indent(s);
    match op {
        CoreOp::Comment(_) => Ok(s),
        CoreOp::Function | CoreOp::While | CoreOp::If => Ok(open_block(s, op)),
        CoreOp::Else => if in_if(s) {
            Ok(
                emitted(
                    s,
                    tabs(ind) + newline() + tabs((ind - 1) as nat) + "} else {"@ + newline(),
                    s.blocks.drop_last().push(Block::Else),
                    s.next_fun,
                ),
            )
        } else {
            Err("Unexpected else"@)
        },
        CoreOp::End => if s.blocks.len() == 0 {
            Err("Unexpected end"@)
        } else {
            let top = s.blocks.last();
            let line = if top is Function {
                tabs(ind) + newline() + tabs((ind - 1) as nat) + close_text(top) + newline()
            } else {
                tabs(ind) + close_text(top) + newline()
            };
            Ok(emitted(s, line, s.blocks.drop_last(), s.next_fun))
        },
        _ => Ok(emitted(s, tabs(ind) + core_text(op, ind) + newline(), s.blocks, s.next_fun)),
    }
}

/// One instruction of a standard program.
pub open spec fn standard_step(s: Emission, op: StandardOp) -> Result<Emission, Seq<char>> {
    let ind = indent(s);
    match op {
        StandardOp::CoreOp(c) => match c {
            CoreOp::Comment(_) => Ok(s),
            CoreOp::Function | CoreOp::While | CoreOp::If => Ok(open_block(s, c)),
            CoreOp::Else => if in_if(s) {
                Ok(
                    emitted(
                        s,
                        tabs((ind - 1) as nat) + "} else {"@ + newline(),
                        s.blocks.drop_last().push(Block::Else),
                        s.next_fun,
                    ),
                )
            } else {
                Err("Unexpected else"@)
            },
            CoreOp::End => if s.blocks.len() == 0 {
                Err("Unexpected end"@)
            } else {
                let line = tabs((ind - 1) as nat) + close_text(s.blocks.last()) + newline();
                Ok(emitted(s, line, s.blocks.drop_last(), s.next_fun))
            },
            CoreOp::Move(n) => Ok(
                emitted(
                    s,
                    tabs(ind) + standard_move_text(n as int) + newline(),
                    s.blocks,
                    s.next_fun,
                ),
            ),
            _ => Ok(emitted(s, tabs(ind) + core_text(c, ind) + newline(), s.blocks, s.next_fun)),
        },
        _ => Ok(emitted(s, tabs(ind) + standard_text(op) + newline(), s.blocks, s.next_fun)),
    }
}

pub open spec fn start_emission() -> Emission {
    Emission { text: Seq::empty(), blocks: Seq::empty(), next_fun: 0 }
}

/// The emission of the instructions of a core program, in order.
pub open spec fn emit_core(ops: Seq<CoreOp>) -> Result<Emission, Seq<char>>
    decreases ops.len(),
{
    if ops.len() == 0 {
        Ok(start_emission())
    } else {
        match emit_core(ops.drop_last()) {
            Ok(s) => core_step(s, ops.last()),
            Err(e) => Err(e),
        }
    }
}

/// The emission of the instructions of a standard program, in order.
pub open spec fn emit_standard(ops: Seq<StandardOp>) -> Result<Emission, Seq<char>>
    decreases ops.len(),
{
    if ops.len() == 0 {
        Ok(start_emission())
    } else {
        match emit_standard(ops.drop_last()) {
            Ok(s) => standard_step(s, ops.last()),
            Err(e) => Err(e),
        }
    }
}

/// The whole translation unit around the statements of an emission, or an
/// error when a block is left open.
pub open spec fn finish(r: Result<Emission, Seq<char>>, prelude: Seq<char>) -> Result<
    Seq<char>,
    Seq<char>,
> {
    match r {
        Ok(s) => if s.blocks.len() == 0 {
            Ok(prelude + MAIN_START@ + s.text + MAIN_END@)
        } else {
            Err("Unterminated block"@)
        },
        Err(e) => Err(e),
    }
}

/// The C source of a core program, or the reason it is rejected.
pub open spec fn c_core(ops: Seq<CoreOp>) -> Result<Seq<char>, Seq<char>> {
    finish(emit_core(ops), CORE_PRELUDE@)
}

/// The C source of a standard program, or the reason it is rejected.
pub open spec fn c_standard(ops: Seq<StandardOp>) -> Result<Seq<char>, Seq<char>> {
    finish(emit_standard(ops), STD_PRELUDE@)
}

/// The text of a result.
pub open spec fn text_of(r: Result<String, String>) -> Result<Seq<char>, Seq<char>> {
    match r {
        Ok(s) => Ok(s@),
        Err(e) => Err(e@),
    }
}

proof fn lemma_core_error_stays(ops: Seq<CoreOp>, i: int)
    requires
        0 <= i <= ops.len(),
        emit_core(ops.take(i)) is Err,
    ensures
        emit_core(ops) == emit_core(ops.take(i)),
    decreases ops.len() - i,
{
    if i < ops.len() {
        assert(ops.take(i + 1).drop_last() =~= ops.take(i));
        lemma_core_error_stays(ops, i + 1);
    } else {
        assert(ops.take(i) =~= ops);
    }
}

proof fn lemma_standard_error_stays(ops: Seq<StandardOp>, i: int)
    requires
        0 <= i <= ops.len(),
        emit_standard(ops.take(i)) is Err,
    ensures
        emit_standard(ops) == emit_standard(ops.take(i)),
    decreases ops.len() - i,
{
    if i < ops.len() {
        assert(ops.take(i + 1).drop_last() =~= ops.take(i));
        lemma_standard_error_stays(ops, i + 1);
    } else {
        assert(ops.take(i) =~= ops);
    }
}

/// Append the statement of an instruction that neither opens nor closes a block.
fn append_core_text(text: &mut String, op: &CoreOp, ind: usize)
    ensures
        final(text)@ == old(text)@ + core_text(*op, ind as nat),
{
    let ghost start = text@;
    match op {
        CoreOp::SetReg(n) => {
            text.append("reg.i = ");
            append_int(text, *n);
            text.append(";");
        },
        CoreOp::Call => text.append("funs[reg.i]();"),
        CoreOp::Return => text.append("return;"),
        CoreOp::Save => text.append("*ptr = reg;"),
        CoreOp::Restore => text.append("reg = *ptr;"),
        CoreOp::Move(n) => {
            text.append("ptr += ");
            append_int(text, *n);
            text.append(";");
        },
        CoreOp::Where => text.append("reg.p = ptr;"),
        CoreOp::Deref => {
            text.append("*ref++ = ptr;");
            text.append("\n");
            append_tabs(text, ind);
            text.append("ptr = ptr->p;");
        },
        CoreOp::Refer => text.append("ptr = *--ref;"),
        CoreOp::Index => text.append("reg.p += ptr->i;"),
        CoreOp::BitwiseNand => text.append("reg.i = ~(reg.i & ptr->i);"),
        CoreOp::Add => text.append("reg.i += ptr->i;"),
        CoreOp::Sub => text.append("reg.i -= ptr->i;"),
        CoreOp::Mul => text.append("reg.i *= ptr->i;"),
        CoreOp::Div => text.append("reg.i /= ptr->i;"),
        CoreOp::Rem => text.append("reg.i %= ptr->i;"),
        CoreOp::IsNonNegative => text.append("reg.i = reg.i >= 0;"),
        CoreOp::Get(_) => text.append("reg.i = (reg.i = getchar()) == EOF? -1 : reg.i;"),
        CoreOp::Put(dst) => {
            if *dst == 1 {
                text.append("fputc(reg.i, stderr);");
            } else {
                text.append("putchar(reg.i);");
            }
        },
        _ => {},
    }
    assert(text@ =~= start + core_text(*op, ind as nat));
}

/// Append the statement of an instruction of the standard tier only.
fn append_standard_text(text: &mut String, op: &StandardOp)
    ensures
        final(text)@ == old(text)@ + standard_text(*op),
{
    let ghost start = text@;
    match op {
        StandardOp::SetFloat(v) => {
            text.append("reg.f = ");
            text.append(v.as_str());
            text.append(";");
        },
        StandardOp::Peek => text.append("reg = peek();"),
        StandardOp::Poke => text.append("poke(reg);"),
        StandardOp::Add => text.append("reg.f += ptr->f;"),
        StandardOp::Sub => text.append("reg.f -= ptr->f;"),
        StandardOp::Mul => text.append("reg.f *= ptr->f;"),
        StandardOp::Div => text.append("reg.f /= ptr->f;"),
        StandardOp::Rem => text.append("reg.f = fmod(reg.f, ptr->f);"),
        StandardOp::Pow => text.append("reg.f = powf(reg.f, ptr->f);"),
        StandardOp::IsNonNegative => text.append("reg.i = reg.f >= 0;"),
        StandardOp::Sin => text.append("reg.f = sin(reg.f);"),
        StandardOp::Cos => text.append("reg.f = cos(reg.f);"),
        StandardOp::Tan => text.append("reg.f = tan(reg.f);"),
        StandardOp::ASin => text.append("reg.f = asin(reg.f);"),
        StandardOp::ACos => text.append("reg.f = acos(reg.f);"),
        StandardOp::ATan => text.append("reg.f = atan(reg.f);"),
        StandardOp::Alloc => text.append("reg.p = malloc(reg.i * sizeof(*ptr));"),
        StandardOp::Free => text.append("free(reg.p);"),
        StandardOp::ToInt => text.append("reg.i = (long long int)reg.f;"),
        StandardOp::ToFloat => text.append("reg.f = (double)reg.i;"),
        StandardOp::CoreOp(_) => {},
    }
    assert(text@ =~= start + standard_text(*op));
}

/// Append the statement that closes the block `top`.
fn append_close(text: &mut String, top: Block)
    ensures
        final(text)@ == old(text)@ + close_text(top),
{
    let ghost start = text@;
    match top {
        Block::Function(k) => {
            text.append("} funs[");
            append_nat(text, k as u64);
            text.append("] = f");
            append_nat(text, k as u64);
            text.append(";");
        },
        _ => text.append("}"),
    }
    assert(text@ =~= start + close_text(top));
}

/// An emission in progress.
struct Emitter {
    text: String,
    blocks: Vec<Block>,
    fun: usize,
}

impl View for Emitter {
    type V = Emission;

    closed spec fn view(&self) -> Emission {
        Emission { text: self.text@, blocks: self.blocks@, next_fun: self.fun as nat }
    }
}

impl Emitter {
    fn new() -> (r: Self)
        ensures
            r@ == start_emission(),
    {
        let r = Emitter { text: String::new(), blocks: Vec::new(), fun: 0 };
        assert(r@.text =~= start_emission().text);
        assert(r@.blocks =~= start_emission().blocks);
        r
    }

    /// Whether the innermost open block is an `If`.
    fn in_if(&self) -> (r: bool)
        ensures
            r == in_if(self@),
    {
        let n = self.blocks.len();
        n > 0 && matches!(self.blocks[n - 1], Block::If)
    }

    /// Open a `Function`, `While` or `If` block.
    fn open(&mut self, op: &CoreOp)
        requires
            *op == CoreOp::Function || *op == CoreOp::While || *op == CoreOp::If,
            old(self).blocks.len() < usize::MAX,
            old(self).fun < usize::MAX,
        ensures
            final(self)@ == open_block(old(self)@, *op),
    {
        let ghost s = self@;
        let ind = self.blocks.len() + 1;
        append_tabs(&mut self.text, ind);
        match op {
            CoreOp::Function => {
                self.text.append("void f");
                append_nat(&mut self.text, self.fun as u64);
                self.text.append("() {");
                self.blocks.push(Block::Function(self.fun));
                self.fun = self.fun + 1;
            },
            CoreOp::While => {
                self.text.append("while (reg.i) {");
                self.blocks.push(Block::While);
            },
            _ => {
                self.text.append("if (reg.i) {");
                self.blocks.push(Block::If);
            },
        }
        self.text.append("\n");
        assert(self.text@ =~= open_block(s, *op).text);
        assert(self.blocks@ =~= open_block(s, *op).blocks);
    }

    /// Write one instruction of a core program.
    fn core_op(&mut self, op: &CoreOp) -> (r: Result<(), String>)
        requires
            old(self).blocks.len() < usize::MAX,
            old(self).fun < usize::MAX,
        ensures
            match core_step(old(self)@, *op) {
                Ok(s) => r is Ok && final(self)@ == s,
                Err(e) => r matches Err(x) && x@ == e,
            },
    {
        let ghost s = self@;
        let ind = self.blocks.len() + 1;
        match op {
            CoreOp::Comment(_) => {},
            CoreOp::Function | CoreOp::While | CoreOp::If => self.open(op),
            CoreOp::Else => {
                if !self.in_if() {
                    return Err(String::from_str("Unexpected else"));
                }
                append_tabs(&mut self.text, ind);
                self.text.append("\n");
                append_tabs(&mut self.text, ind - 1);
                self.text.append("} else {");
                self.text.append("\n");
                self.blocks.pop();
                self.blocks.push(Block::Else);
                assert(self.text@ =~= core_step(s, *op)->Ok_0.text);
                assert(self.blocks@ =~= core_step(s, *op)->Ok_0.blocks);
            },
            CoreOp::End => {
                if self.blocks.len() == 0 {
                    return Err(String::from_str("Unexpected end"));
                }
                let top = self.blocks.pop().unwrap();
                append_tabs(&mut self.text, ind);
                if matches!(top, Block::Function(_)) {
                    self.text.append("\n");
                    append_tabs(&mut self.text, ind - 1);
                }
                append_close(&mut self.text, top);
                self.text.append("\n");
                assert(self.text@ =~= core_step(s, *op)->Ok_0.text);
            },
            _ => {
                append_tabs(&mut self.text, ind);
                append_core_text(&mut self.text, op, ind);
                self.text.append("\n");
                assert(self.text@ =~= core_step(s, *op)->Ok_0.text);
            },
        }
        Ok(())
    }

    /// Write one instruction of a standard program.
    fn standard_op(&mut self, op: &StandardOp) -> (r: Result<(), String>)
        requires
            old(self).blocks.len() < usize::MAX,
            old(self).fun < usize::MAX,
        ensures
            match standard_step(old(self)@, *op) {
                Ok(s) => r is Ok && final(self)@ == s,
                Err(e) => r matches Err(x) && x@ == e,
            },
    {
        let ghost s = self@;
        let ind = self.blocks.len() + 1;
        match op {
            StandardOp::CoreOp(c) => match c {
                CoreOp::Comment(_) => {},
                CoreOp::Function | CoreOp::While | CoreOp::If => self.open(c),
                CoreOp::Else => {
                    if !self.in_if() {
                        return Err(String::from_str("Unexpected else"));
                    }
                    append_tabs(&mut self.text, ind - 1);
                    self.text.append("} else {");
                    self.text.append("\n");
                    self.blocks.pop();
                    self.blocks.push(Block::Else);
                    assert(self.text@ =~= standard_step(s, *op)->Ok_0.text);
                    assert(self.blocks@ =~= standard_step(s, *op)->Ok_0.blocks);
                },
                CoreOp::End => {
                    if self.blocks.len() == 0 {
                        return Err(String::from_str("Unexpected end"));
                    }
                    let top = self.blocks.pop().unwrap();
                    append_tabs(&mut self.text, ind - 1);
                    append_close(&mut self.text, top);
                    self.text.append("\n");
                    assert(self.text@ =~= standard_step(s, *op)->Ok_0.text);
                },
                CoreOp::Move(n) => {
                    append_tabs(&mut self.text, ind);
                    if *n >= 0 {
                        self.text.append("ptr += ");
                        append_nat(&mut self.text, *n as u64);
                    } else {
                        self.text.append("ptr -= ");
                        append_nat(&mut self.text, (0 - (*n as i128)) as u64);
                    }
                    self.text.append(";");
                    self.text.append("\n");
                    assert(self.text@ =~= standard_step(s, *op)->Ok_0.text);
                },
                _ => {
                    append_tabs(&mut self.text, ind);
                    append_core_text(&mut self.text, c, ind);
                    self.text.append("\n");
                    assert(self.text@ =~= standard_step(s, *op)->Ok_0.text);
                },
            },
            _ => {
                append_tabs(&mut self.text, ind);
                append_standard_text(&mut self.text, op);
                self.text.append("\n");
                assert(self.text@ =~= standard_step(s, *op)->Ok_0.text);
            },
        }
        Ok(())
    }

    /// The translation unit around what was written, or an error when a
    /// block is still open.
    fn finish(self, prelude: &str) -> (r: Result<String, String>)
        ensures
            text_of(r) == finish(Ok(self@), prelude@),
    {
        if self.blocks.len() > 0 {
            return Err(String::from_str("Unterminated block"));
        }
        let mut result = String::from_str(prelude);
        result.append(MAIN_START);
        result.append(self.text.as_str());
        result.append(MAIN_END);
        Ok(result)
    }
}

impl C {
    /// Build the C source of a core program. Comments are left out. An
    /// `Else` outside an `If`, an `End` with no open block, and a block left
    /// open are rejected.
    pub fn build_core(&self, program: &CoreProgram) -> (r: Result<String, String>)
        ensures
            text_of(r) == c_core(program@),
    {
        let ops = &program.0;
        let mut emitter = Emitter::new();
        let mut i: usize = 0;
        while i < ops.len()
            invariant
                i <= ops.len(),
                emitter.blocks.len() <= i,
                emitter.fun <= i,
                ops@ == program@,
                emit_core(ops@.take(i as int)) == Ok::<Emission, Seq<char>>(emitter@),
            decreases ops.len() - i,
        {
            proof {
                assert(ops@.take(i + 1).drop_last() =~= ops@.take(i as int));
            }
            if let Err(e) = emitter.core_op(&ops[i]) {
                proof {
                    lemma_core_error_stays(ops@, i + 1);
                }
                return Err(e);
            }
            i = i + 1;
        }
        proof {
            assert(ops@.take(ops.len() as int) =~= ops@);
        }
        emitter.finish(CORE_PRELUDE)
    }

    /// Build the C source of a standard program. Comments are left out. An
    /// `Else` outside an `If`, an `End` with no open block, and a block left
    /// open are rejected.
    pub fn build_std(&self, program: &StandardProgram) -> (r: Result<String, String>)
        ensures
            text_of(r) == c_standard(program@),
    {
        let ops = &program.0;
        let mut emitter = Emitter::new();
        let mut i: usize = 0;
        while i < ops.len()
            invariant
                i <= ops.len(),
                emitter.blocks.len() <= i,
                emitter.fun <= i,
                ops@ == program@,
                emit_standard(ops@.take(i as int)) == Ok::<Emission, Seq<char>>(emitter@),
            decreases ops.len() - i,
        {
            proof {
                assert(ops@.take(i + 1).drop_last() =~= ops@.take(i as int));
            }
            if let Err(e) = emitter.standard_op(&ops[i]) {
                proof {
                    lemma_standard_error_stays(ops@, i + 1);
                }
                return Err(e);
            }
            i = i + 1;
        }
        proof {
            assert(ops@.take(ops.len() as int) =~= ops@);
        }
        emitter.finish(STD_PRELUDE)
    }
}

} // verus!
