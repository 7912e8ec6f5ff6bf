//! # Machine semantics
//!
//! A mathematical model of the tape machine, for reasoning about the
//! instruction sequences the assembly layer emits. It covers straight-line
//! code with `If`/`Else`/`End` blocks: `While`, `Function`, `Call` and
//! `Return` need the program's block table and are left out (a step on them
//! has no result).
//!
//! `If` blocks are followed with two counters: `depth`, the number of open
//! `If` blocks, and `skip`, the nesting depth of the branch being skipped
//! (0 when instructions run).
use vstd::prelude::*;
use crate::vm::{CoreOp, is_block_op};
use vstd::wrapping::i64_specs;

verus! {

/// The state of the machine.
pub struct Machine {
    /// The cells of the tape.
    pub tape: Seq<i64>,
    /// The data pointer.
    pub ptr: int,
    /// The register.
    pub reg: i64,
    /// The reference stack, top last.
    pub refs: Seq<int>,
    /// Open `If` blocks.
    pub depth: nat,
    /// Nesting depth of the skipped branch; 0 when instructions run.
    pub skip: nat,
    /// Values still to be read by `Get`.
    pub input: Seq<i64>,
    /// Values written by `Put`, with their channel.
    pub output: Seq<(isize, i64)>,
}

impl Machine {
    /// Whether instructions run (no branch is being skipped).
    pub open spec fn active(self) -> bool {
        self.skip == 0
    }

    /// Whether the data pointer is on the tape.
    pub open spec fn on_tape(self) -> bool {
        0 <= self.ptr < self.tape.len()
    }

    /// The value of the current cell.
    pub open spec fn cell(self) -> i64 {
        self.tape[self.ptr]
    }

    /// The same state with another data pointer and reference stack.
    pub open spec fn at(self, ptr: int, refs: Seq<int>) -> Machine {
        Machine { ptr, refs, ..self }
    }

    /// The same state with another register value.
    pub open spec fn with_reg(self, reg: i64) -> Machine {
        Machine { reg, ..self }
    }
}

/// The magnitude of an integer.
pub open spec fn abs(a: int) -> int {
    if a < 0 {
        -a
    } else {
        a
    }
}

/// Integer division rounding toward zero.
pub open spec fn div_trunc(a: int, b: int) -> int {
    let q = abs(a) / abs(b);
    if (a < 0) != (b < 0) {
        -q
    } else {
        q
    }
}

/// The remainder that goes with `div_trunc`: it has the sign of `a`.
pub open spec fn rem_trunc(a: int, b: int) -> int {
    let r = abs(a) % abs(b);
    if a < 0 {
        -r
    } else {
        r
    }
}

/// Wrapping 64-bit division: `i64::MIN / -1` wraps to `i64::MIN`.
pub open spec fn wrapping_div(a: i64, b: i64) -> i64 {
    if a == i64::MIN && b == -1 {
        i64::MIN
    } else {
        div_trunc(a as int, b as int) as i64
    }
}

/// 64-bit remainder, which never overflows.
pub open spec fn wrapping_rem(a: i64, b: i64) -> i64 {
    rem_trunc(a as int, b as int) as i64
}

/// One step of the machine on a block instruction.
pub open spec fn step_block(m: Machine, op: CoreOp) -> Option<Machine> {
    match op {
        CoreOp::If => if m.skip > 0 {
            Some(Machine { skip: m.skip + 1, ..m })
        } else {
            Some(Machine { depth: m.depth + 1, skip: if m.reg != 0 { 0 } else { 1 }, ..m })
        },
        CoreOp::Else => if m.skip == 0 {
            if m.depth > 0 {
                Some(Machine { skip: 1, ..m })
            } else {
                None
            }
        } else if m.skip == 1 {
            Some(Machine { skip: 0, ..m })
        } else {
            Some(m)
        },
        CoreOp::End => if m.skip > 1 {
            Some(Machine { skip: (m.skip - 1) as nat, ..m })
        } else if m.depth > 0 {
            Some(Machine { depth: (m.depth - 1) as nat, skip: 0, ..m })
        } else {
            None
        },
        _ => None,
    }
}

/// One step of the machine on an instruction that reads or writes the current cell.
pub open spec fn step_cell(m: Machine, op: CoreOp) -> Option<Machine> {
    if !m.on_tape() {
        None
    } else {
        match op {
            CoreOp::Deref => Some(Machine { refs: m.refs.push(m.ptr), ptr: m.cell() as int, ..m }),
            CoreOp::Index => Some(m.with_reg(i64_specs::wrapping_add(m.reg, m.cell()))),
            CoreOp::BitwiseNand => Some(m.with_reg(!(m.reg & m.cell()))),
            CoreOp::Add => Some(m.with_reg(i64_specs::wrapping_add(m.reg, m.cell()))),
            CoreOp::Sub => Some(m.with_reg(i64_specs::wrapping_sub(m.reg, m.cell()))),
            CoreOp::Mul => Some(m.with_reg(i64_specs::wrapping_mul(m.reg, m.cell()))),
            CoreOp::Div => if m.cell() == 0 {
                None
            } else {
                Some(m.with_reg(wrapping_div(m.reg, m.cell())))
            },
            CoreOp::Rem => if m.cell() == 0 {
                None
            } else {
                Some(m.with_reg(wrapping_rem(m.reg, m.cell())))
            },
            CoreOp::Save => Some(Machine { tape: m.tape.update(m.ptr, m.reg), ..m }),
            CoreOp::Restore => Some(m.with_reg(m.cell())),
            _ => None,
        }
    }
}

/// One step of the machine.
pub open spec fn step(m: Machine, op: CoreOp) -> Option<Machine> {
    if is_block_op(op) {
        step_block(m, op)
    } else if !m.active() {
        Some(m)
    } else {
        match op {
            CoreOp::Comment(_) => Some(m),
            CoreOp::SetReg(n) => Some(m.with_reg(n as i64)),
            CoreOp::Move(n) => Some(m.at(m.ptr + n, m.refs)),
            CoreOp::Where => Some(m.with_reg(m.ptr as i64)),
            CoreOp::Refer => if m.refs.len() > 0 {
                Some(m.at(m.refs.last(), m.refs.drop_last()))
            } else {
                None
            },
            CoreOp::IsNonNegative => Some(m.with_reg(if m.reg >= 0 { 1 } else { 0 })),
            CoreOp::Get(_) => if m.input.len() > 0 {
                Some(Machine { reg: m.input[0], input: m.input.drop_first(), ..m })
            } else {
                Some(m.with_reg(-1i64))
            },
            CoreOp::Put(dst) => Some(Machine { output: m.output.push((dst, m.reg)), ..m }),
            CoreOp::Call | CoreOp::Return => None,
            _ => step_cell(m, op),
        }
    }
}

/// The state after running `ops` from `m`, if no step fails.
pub open spec fn run(m: Machine, ops: Seq<CoreOp>) -> Option<Machine>
    decreases ops.len(),
{
    if ops.len() == 0 {
        Some(m)
    } else {
        match run(m, ops.drop_last()) {
            Some(t) => step(t, ops.last()),
            None => None,
        }
    }
}

/// Whether `ops` leaves the data pointer, the reference stack and the block
/// counters as it found them, from every state on which it runs.
pub open spec fn keeps_position(ops: Seq<CoreOp>) -> bool {
    forall|m: Machine|
        #![trigger run(m, ops)]
        run(m, ops) is Some ==> {
            let t = run(m, ops).unwrap();
            &&& t.ptr == m.ptr
            &&& t.refs == m.refs
            &&& t.depth == m.depth
            &&& t.skip == m.skip
        }
}

/// Whether no instruction of `ops` opens, continues or closes a block.
pub open spec fn block_free(ops: Seq<CoreOp>) -> bool {
    forall|i: int| 0 <= i < ops.len() ==> !is_block_op(#[trigger] ops[i])
}

/// Running one instruction is one step.
pub proof fn lemma_run_one(m: Machine, op: CoreOp)
    ensures
        run(m, seq![op]) == step(m, op),
{
    assert(seq![op].drop_last() =~= Seq::<CoreOp>::empty());
    assert(run(m, seq![op].drop_last()) == Some(m));
}

/// Running two sequences one after the other.
pub proof fn lemma_run_append(m: Machine, a: Seq<CoreOp>, b: Seq<CoreOp>)
    ensures
        run(m, a + b) == match run(m, a) {
            Some(t) => run(t, b),
            None => None,
        },
    decreases b.len(),
{
    if b.len() == 0 {
        assert(a + b =~= a);
    } else {
        assert((a + b).drop_last() =~= a + b.drop_last());
        assert((a + b).last() == b.last());
        lemma_run_append(m, a, b.drop_last());
    }
}

/// Running an instruction, then a sequence.
pub proof fn lemma_run_cons(m: Machine, op: CoreOp, b: Seq<CoreOp>)
    ensures
        run(m, seq![op] + b) == match step(m, op) {
            Some(t) => run(t, b),
            None => None,
        },
{
    lemma_run_append(m, seq![op], b);
    lemma_run_one(m, op);
}

/// While a branch is skipped, block-free instructions change nothing.
pub proof fn lemma_skipped(m: Machine, ops: Seq<CoreOp>)
    requires
        !m.active(),
        block_free(ops),
    ensures
        run(m, ops) == Some(m),
    decreases ops.len(),
{
    if ops.len() > 0 {
        assert(block_free(ops.drop_last())) by {
            assert forall|i: int| 0 <= i < ops.drop_last().len() implies !is_block_op(
                #[trigger] ops.drop_last()[i],
            ) by {
                assert(ops.drop_last()[i] == ops[i]);
            }
        }
        lemma_skipped(m, ops.drop_last());
        assert(!is_block_op(ops[ops.len() - 1]));
    }
}

/// Block-freedom of a concatenation.
pub proof fn lemma_block_free_append(a: Seq<CoreOp>, b: Seq<CoreOp>)
    requires
        block_free(a),
        block_free(b),
    ensures
        block_free(a + b),
{
    assert forall|i: int| 0 <= i < (a + b).len() implies !is_block_op(#[trigger] (a + b)[i]) by {
        if i < a.len() {
            assert((a + b)[i] == a[i]);
        } else {
            assert((a + b)[i] == b[i - a.len()]);
        }
    }
}

/// Sequences that keep the position compose.
pub proof fn lemma_keeps_append(a: Seq<CoreOp>, b: Seq<CoreOp>)
    requires
        keeps_position(a),
        keeps_position(b),
    ensures
        keeps_position(a + b),
{
    assert forall|m: Machine| #[trigger] run(m, a + b) is Some implies {
        let t = run(m, a + b).unwrap();
        &&& t.ptr == m.ptr
        &&& t.refs == m.refs
        &&& t.depth == m.depth
        &&& t.skip == m.skip
    } by {
        lemma_run_append(m, a, b);
        let u = run(m, a).unwrap();
        assert(run(u, b) is Some);
    }
}

/// An instruction that touches neither the pointer, the reference stack nor
/// the block counters.
pub open spec fn is_stationary(op: CoreOp) -> bool {
    match op {
        CoreOp::Comment(_) | CoreOp::SetReg(_) | CoreOp::Where | CoreOp::Index
        | CoreOp::BitwiseNand | CoreOp::Add | CoreOp::Sub | CoreOp::Mul | CoreOp::Div
        | CoreOp::Rem | CoreOp::IsNonNegative | CoreOp::Save | CoreOp::Restore
        | CoreOp::Get(_) | CoreOp::Put(_) => true,
        _ => false,
    }
}

/// A stationary instruction keeps the position.
pub proof fn lemma_stationary(op: CoreOp)
    requires
        is_stationary(op),
    ensures
        keeps_position(seq![op]),
{
    assert forall|m: Machine| #[trigger] run(m, seq![op]) is Some implies {
        let t = run(m, seq![op]).unwrap();
        &&& t.ptr == m.ptr
        &&& t.refs == m.refs
        &&& t.depth == m.depth
        &&& t.skip == m.skip
    } by {
        lemma_run_one(m, op);
    }
}

/// `If a Else b End` keeps the position when `a` and `b` do.
pub proof fn lemma_keeps_if_else(a: Seq<CoreOp>, b: Seq<CoreOp>)
    requires
        keeps_position(a),
        keeps_position(b),
    ensures
        keeps_position(seq![CoreOp::If] + a + seq![CoreOp::Else] + b + seq![CoreOp::End]),
{
    let ops = seq![CoreOp::If] + a + seq![CoreOp::Else] + b + seq![CoreOp::End];
    assert forall|m: Machine| #[trigger] run(m, ops) is Some implies {
        let t = run(m, ops).unwrap();
        &&& t.ptr == m.ptr
        &&& t.refs == m.refs
        &&& t.depth == m.depth
        &&& t.skip == m.skip
    } by {
        let then_part = seq![CoreOp::If] + a;
        let to_else = then_part + seq![CoreOp::Else];
        let to_end = to_else + b;
        lemma_run_append(m, to_end, seq![CoreOp::End]);
        lemma_run_append(m, to_else, b);
        lemma_run_append(m, then_part, seq![CoreOp::Else]);
        lemma_run_cons(m, CoreOp::If, a);
        let after_if = step(m, CoreOp::If).unwrap();
        let after_a = run(after_if, a).unwrap();
        lemma_run_one(after_a, CoreOp::Else);
        let after_else = step(after_a, CoreOp::Else).unwrap();
        let after_b = run(after_else, b).unwrap();
        lemma_run_one(after_b, CoreOp::End);
    }
}

} // verus!
