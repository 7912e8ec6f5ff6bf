//! # Interpreter
//!
//! Runs a flat core program one instruction at a time. A pre-pass matches
//! every block opener with its `Else` or `End` (the skip table) and numbers
//! the functions in order of definition. The data instructions act on the
//! tape exactly as `machine::step` says; control flow jumps through the skip
//! table, and `Call` through the function table, which a `Function` fills in
//! when execution passes its definition.
//!
//! The interpreter does no I/O itself: `Put` leaves its value in an output
//! buffer, and `Get` on an empty input buffer stops with `NeedsInput` until a
//! value is provided.
use vstd::prelude::*;
use crate::machine::{Machine, abs, lemma_run_cons, run, step, wrapping_div, wrapping_rem};
use crate::vm::{CoreOp, CoreProgram};

verus! {

/// Why the interpreter stopped on a fault, and at which instruction.
#[derive(Clone, Copy, Debug, PartialEq, Eq)]
pub enum InterpreterError {
    /// An `Else` or `End` without its opener, or a block left open.
    UnmatchedBlock { pc: usize },
    /// `Div` or `Rem` by a zero cell.
    DivisionByZero { pc: usize },
    /// A cell was read or written off the tape.
    OutOfTape { pc: usize },
    /// `Refer` with an empty reference stack.
    ReferenceUnderflow { pc: usize },
    /// `Call` of a function that is not defined (yet).
    UnknownFunction { pc: usize, index: i64 },
    /// `Move` beyond the range of a 64-bit address.
    PointerOverflow { pc: usize },
}

/// How a step left the interpreter.
#[derive(Clone, Copy, Debug, PartialEq, Eq)]
pub enum Status {
    /// There are more instructions to run.
    Running,
    /// The program ended.
    Halted,
    /// A `Get` waits for a value: see `provide_input`.
    NeedsInput,
}

/// The result of the block-matching pre-pass over a prefix of a program.
pub struct Matching {
    /// Openers and `Else`s not yet closed, innermost last.
    pub open: Seq<usize>,
    /// For each instruction: the `Else` or `End` of an opener, the `End` of
    /// an `Else`, the opener or `Else` of an `End`; 0 for the others.
    pub partner: Seq<usize>,
    /// For each `Function`, its number; 0 for the others.
    pub fun_id: Seq<usize>,
    /// The number of functions seen.
    pub funs: nat,
}

/// One instruction of the pre-pass: `i` is its index in `ops`.
pub open spec fn match_step(ops: Seq<CoreOp>, s: Matching, i: usize) -> Option<Matching> {
    match ops[i as int] {
        CoreOp::Function => Some(
            Matching {
                open: s.open.push(i),
                partner: s.partner.push(0),
                fun_id: s.fun_id.push(s.funs as usize),
                funs: s.funs + 1,
            },
        ),
        CoreOp::While | CoreOp::If => Some(
            Matching { open: s.open.push(i), partner: s.partner.push(0), fun_id: s.fun_id.push(0), ..s },
        ),
        CoreOp::Else => if s.open.len() > 0 && ops[s.open.last() as int] == CoreOp::If {
            Some(
                Matching {
                    open: s.open.drop_last().push(i),
                    partner: s.partner.update(s.open.last() as int, i).push(0),
                    fun_id: s.fun_id.push(0),
                    ..s
                },
            )
        } else {
            None
        },
        CoreOp::End => if s.open.len() > 0 {
            Some(
                Matching {
                    open: s.open.drop_last(),
                    partner: s.partner.update(s.open.last() as int, i).push(s.open.last()),
                    fun_id: s.fun_id.push(0),
                    ..s
                },
            )
        } else {
            None
        },
        _ => Some(Matching { partner: s.partner.push(0), fun_id: s.fun_id.push(0), ..s }),
    }
}

/// The pre-pass over the first `n` instructions of `ops`.
pub open spec fn match_prefix(ops: Seq<CoreOp>, n: nat) -> Option<Matching>
    decreases n,
{
    if n == 0 {
        Some(Matching { open: Seq::empty(), partner: Seq::empty(), fun_id: Seq::empty(), funs: 0 })
    } else {
        match match_prefix(ops, (n - 1) as nat) {
            Some(s) => match_step(ops, s, (n - 1) as usize),
            None => None,
        }
    }
}

/// The skip table and function numbering of a program whose blocks match.
pub open spec fn matching(ops: Seq<CoreOp>) -> Option<Matching> {
    match match_prefix(ops, ops.len()) {
        Some(s) => if s.open.len() == 0 {
            Some(s)
        } else {
            None
        },
        None => None,
    }
}

/// The state of a running program.
pub struct Vm {
    /// The tape, pointer, register, reference stack and device buffers.
    pub m: Machine,
    /// The index of the next instruction.
    pub pc: nat,
    /// Return addresses, innermost last.
    pub calls: Seq<usize>,
    /// The entry of each function whose definition has been passed.
    pub table: Seq<Option<usize>>,
}

/// The fault of a data instruction that `machine::step` cannot take.
pub open spec fn fault(m: Machine, op: CoreOp, pc: usize) -> InterpreterError {
    match op {
        CoreOp::Refer => InterpreterError::ReferenceUnderflow { pc },
        CoreOp::Div | CoreOp::Rem => if m.on_tape() {
            InterpreterError::DivisionByZero { pc }
        } else {
            InterpreterError::OutOfTape { pc }
        },
        _ => InterpreterError::OutOfTape { pc },
    }
}

/// Leave the current function: back to the caller, or the end of the
/// program from the outermost level.
pub open spec fn vm_return(ops: Seq<CoreOp>, s: Vm) -> Vm {
    if s.calls.len() == 0 {
        Vm { pc: ops.len(), ..s }
    } else {
        Vm { pc: s.calls.last() as nat, calls: s.calls.drop_last(), ..s }
    }
}

/// One step of the program `ops`, with the skip table and numbering `t`.
pub open spec fn vm_step(ops: Seq<CoreOp>, t: Matching, s: Vm) -> Result<(Vm, Status), InterpreterError> {
    if s.pc >= ops.len() {
        Ok((s, Status::Halted))
    } else {
        let pc = s.pc as int;
        let next = Vm { pc: s.pc + 1, ..s };
        let jump = Vm { pc: (t.partner[pc] + 1) as nat, ..s };
        match ops[pc] {
            CoreOp::Function => Ok(
                (
                    Vm { table: s.table.update(t.fun_id[pc] as int, Some((pc + 1) as usize)), ..jump },
                    Status::Running,
                ),
            ),
            CoreOp::While | CoreOp::If => Ok((if s.m.reg != 0 { next } else { jump }, Status::Running)),
            CoreOp::Else => Ok((jump, Status::Running)),
            CoreOp::End => {
                let opener = t.partner[pc] as int;
                if ops[opener] == CoreOp::While {
                    Ok((Vm { pc: opener as nat, ..s }, Status::Running))
                } else if ops[opener] == CoreOp::Function {
                    Ok((vm_return(ops, s), Status::Running))
                } else {
                    Ok((next, Status::Running))
                }
            },
            CoreOp::Call => {
                let k = s.m.reg as int;
                if 0 <= k < s.table.len() && s.table[k] is Some {
                    Ok(
                        (
                            Vm {
                                pc: s.table[k]->Some_0 as nat,
                                calls: s.calls.push((pc + 1) as usize),
                                ..s
                            },
                            Status::Running,
                        ),
                    )
                } else {
                    Err(InterpreterError::UnknownFunction { pc: pc as usize, index: s.m.reg })
                }
            },
            CoreOp::Return => Ok((vm_return(ops, s), Status::Running)),
            CoreOp::Get(_) => if s.m.input.len() == 0 {
                Ok((s, Status::NeedsInput))
            } else {
                Ok((Vm { m: step(s.m, ops[pc])->Some_0, ..next }, Status::Running))
            },
            CoreOp::Move(n) => if i64::MIN <= s.m.ptr + n <= i64::MAX {
                Ok((Vm { m: step(s.m, ops[pc])->Some_0, ..next }, Status::Running))
            } else {
                Err(InterpreterError::PointerOverflow { pc: pc as usize })
            },
            _ => match step(s.m, ops[pc]) {
                Some(m) => Ok((Vm { m, ..next }, Status::Running)),
                None => Err(fault(s.m, ops[pc], pc as usize)),
            },
        }
    }
}

/// The quotient of wrapping 64-bit division.
fn div_i64(a: i64, b: i64) -> (r: i64)
    requires
        b != 0,
    ensures
        r == wrapping_div(a, b),
{
    if a == i64::MIN && b == -1 {
        return i64::MIN;
    }
    let ua: u64 = if a < 0 { (0 - (a as i128)) as u64 } else { a as u64 };
    let ub: u64 = if b < 0 { (0 - (b as i128)) as u64 } else { b as u64 };
    assert(ua as int == abs(a as int));
    assert(ub as int == abs(b as int));
    let q: u64 = ua / ub;
    assert(q <= ua) by (nonlinear_arith)
        requires
            ub >= 1,
            q == ua / ub,
    ;
    assert(q < 0x8000_0000_0000_0000 || ub == 1) by (nonlinear_arith)
        requires
            ub >= 1,
            q == ua / ub,
            ua <= 0x8000_0000_0000_0000,
    ;
    if (a < 0) != (b < 0) {
        (0 - (q as i128)) as i64
    } else {
        q as i64
    }
}

/// The remainder of 64-bit division, with the sign of `a`.
fn rem_i64(a: i64, b: i64) -> (r: i64)
    requires
        b != 0,
    ensures
        r == wrapping_rem(a, b),
{
    let ua: u64 = if a < 0 { (0 - (a as i128)) as u64 } else { a as u64 };
    let ub: u64 = if b < 0 { (0 - (b as i128)) as u64 } else { b as u64 };
    assert(ua as int == abs(a as int));
    assert(ub as int == abs(b as int));
    let q: u64 = ua % ub;
    assert(q < ub) by (nonlinear_arith)
        requires
            ub >= 1,
            q == ua % ub,
    ;
    if a < 0 {
        (0 - (q as i128)) as i64
    } else {
        q as i64
    }
}

proof fn lemma_unmatched_stays(ops: Seq<CoreOp>, k: nat)
    requires
        k <= ops.len(),
        match_prefix(ops, k) is None,
    ensures
        matching(ops) is None,
    decreases ops.len() - k,
{
    if k < ops.len() {
        lemma_unmatched_stays(ops, k + 1);
    }
}

/// Whether the skip table `t` of `n` instructions points inside them and
/// numbers functions below `t.funs`.
pub open spec fn table_in_range(ops: Seq<CoreOp>, t: Matching, n: nat) -> bool {
    &&& t.partner.len() == n
    &&& t.fun_id.len() == n
    &&& forall|j: int| 0 <= j < n ==> #[trigger] t.partner[j] < n
    &&& forall|j: int| 0 <= j < n && ops[j] == CoreOp::Function ==> #[trigger] t.fun_id[j] < t.funs
    &&& forall|j: int| 0 <= j < t.open.len() ==> #[trigger] t.open[j] < n
}

/// The block-matching pre-pass.
fn match_blocks(ops: &Vec<CoreOp>) -> (r: Result<(Vec<usize>, Vec<usize>, usize), InterpreterError>)
    ensures
        match r {
            Ok((partner, fun_id, funs)) => {
                let t = Matching {
                    open: Seq::empty(),
                    partner: partner@,
                    fun_id: fun_id@,
                    funs: funs as nat,
                };
                &&& matching(ops@) == Some(t)
                &&& table_in_range(ops@, t, ops.len() as nat)
            },
            Err(e) => matching(ops@) is None && e is UnmatchedBlock,
        },
{
    let mut open: Vec<usize> = Vec::new();
    let mut partner: Vec<usize> = Vec::new();
    let mut fun_id: Vec<usize> = Vec::new();
    let mut funs: usize = 0;
    let mut i: usize = 0;
    while i < ops.len()
        invariant
            i <= ops.len(),
            funs <= i,
            open.len() <= i,
            match_prefix(ops@, i as nat) == Some(
                Matching { open: open@, partner: partner@, fun_id: fun_id@, funs: funs as nat },
            ),
            table_in_range(
                ops@,
                Matching { open: open@, partner: partner@, fun_id: fun_id@, funs: funs as nat },
                i as nat,
            ),
        decreases ops.len() - i,
    {
        let ghost before = Matching { open: open@, partner: partner@, fun_id: fun_id@, funs: funs as nat };
        match &ops[i] {
            CoreOp::Function => {
                open.push(i);
                partner.push(0);
                fun_id.push(funs);
                funs = funs + 1;
            },
            CoreOp::While | CoreOp::If => {
                open.push(i);
                partner.push(0);
                fun_id.push(0);
            },
            CoreOp::Else => {
                let n = open.len();
                if n == 0 || !matches!(ops[open[n - 1]], CoreOp::If) {
                    proof {
                        lemma_unmatched_stays(ops@, (i + 1) as nat);
                    }
                    return Err(InterpreterError::UnmatchedBlock { pc: i });
                }
                let top = open.pop().unwrap();
                open.push(i);
                partner.set(top, i);
                partner.push(0);
                fun_id.push(0);
            },
            CoreOp::End => {
                if open.len() == 0 {
                    proof {
                        lemma_unmatched_stays(ops@, (i + 1) as nat);
                    }
                    return Err(InterpreterError::UnmatchedBlock { pc: i });
                }
                let top = open.pop().unwrap();
                partner.set(top, i);
                partner.push(top);
                fun_id.push(0);
            },
            _ => {
                partner.push(0);
                fun_id.push(0);
            },
        }
        proof {
            let after = match_step(ops@, before, i).unwrap();
            assert(open@ =~= after.open);
            assert(partner@ =~= after.partner);
            assert(fun_id@ =~= after.fun_id);
        }
        i = i + 1;
    }
    if open.len() > 0 {
        return Err(InterpreterError::UnmatchedBlock { pc: open[open.len() - 1] });
    }
    proof {
        assert(open@ =~= Seq::<usize>::empty());
    }
    Ok((partner, fun_id, funs))
}

/// The data part of a running program: tape, pointer, register, reference
/// stack, and the device buffers.
struct Tape {
    cells: Vec<i64>,
    ptr: i64,
    reg: i64,
    refs: Vec<i64>,
    input: Vec<i64>,
    next_input: usize,
    output: Vec<(isize, i64)>,
}

impl View for Tape {
    type V = Machine;

    closed spec fn view(&self) -> Machine {
        Machine {
            tape: self.cells@,
            ptr: self.ptr as int,
            reg: self.reg,
            refs: self.refs@.map_values(|v: i64| v as int),
            depth: 0,
            skip: 0,
            input: self.input@.subrange(self.next_input as int, self.input.len() as int),
            output: self.output@,
        }
    }
}

impl Tape {
    closed spec fn wf(&self) -> bool {
        self.next_input <= self.input.len()
    }

    fn on_tape(&self) -> (r: bool)
        ensures
            r == self@.on_tape(),
    {
        0 <= self.ptr && (self.ptr as u64) < (self.cells.len() as u64)
    }

    /// One data instruction, as `machine::step` takes it.
    fn exec(&mut self, op: &CoreOp, pc: usize) -> (r: Result<(), InterpreterError>)
        requires
            old(self).wf(),
            !crate::vm::is_block_op(*op),
            *op != CoreOp::Call,
            *op != CoreOp::Return,
            (*op is Get) ==> old(self)@.input.len() > 0,
            (*op is Move) ==> i64::MIN <= old(self)@.ptr + op->Move_0 <= i64::MAX,
        ensures
            final(self).wf(),
            match step(old(self)@, *op) {
                Some(m) => r is Ok && final(self)@ == m,
                None => {
                    &&& r == Err::<(), InterpreterError>(fault(old(self)@, *op, pc))
                    &&& final(self)@ == old(self)@
                },
            },
    {
        let ghost m = self@;
        match op {
            CoreOp::Comment(_) => {},
            CoreOp::SetReg(n) => self.reg = *n as i64,
            CoreOp::Move(n) => self.ptr = self.ptr + *n as i64,
            CoreOp::Where => self.reg = self.ptr,
            CoreOp::Refer => {
                if self.refs.len() == 0 {
                    return Err(InterpreterError::ReferenceUnderflow { pc });
                }
                self.ptr = self.refs.pop().unwrap();
                assert(self.refs@.map_values(|v: i64| v as int) =~= m.refs.drop_last());
            },
            CoreOp::IsNonNegative => self.reg = if self.reg >= 0 { 1 } else { 0 },
            CoreOp::Get(_) => {
                self.reg = self.input[self.next_input];
                self.next_input = self.next_input + 1;
                assert(self@.input =~= m.input.drop_first());
            },
            CoreOp::Put(dst) => self.output.push((*dst, self.reg)),
            _ => {
                if !self.on_tape() {
                    return Err(InterpreterError::OutOfTape { pc });
                }
                assert(0 <= self.ptr < self.cells.len());
                let at = self.ptr as usize;
                assert(at as int == m.ptr);
                let cell = self.cells[at];
                match op {
                    CoreOp::Deref => {
                        self.refs.push(self.ptr);
                        self.ptr = cell;
                        assert(self.refs@.map_values(|v: i64| v as int) =~= m.refs.push(m.ptr));
                    },
                    CoreOp::Index => self.reg = self.reg.wrapping_add(cell),
                    CoreOp::BitwiseNand => self.reg = !(self.reg & cell),
                    CoreOp::Add => self.reg = self.reg.wrapping_add(cell),
                    CoreOp::Sub => self.reg = self.reg.wrapping_sub(cell),
                    CoreOp::Mul => self.reg = self.reg.wrapping_mul(cell),
                    CoreOp::Div => {
                        if cell == 0 {
                            return Err(InterpreterError::DivisionByZero { pc });
                        }
                        self.reg = div_i64(self.reg, cell);
                    },
                    CoreOp::Rem => {
                        if cell == 0 {
                            return Err(InterpreterError::DivisionByZero { pc });
                        }
                        self.reg = rem_i64(self.reg, cell);
                    },
                    CoreOp::Save => self.cells.set(at, self.reg),
                    _ => self.reg = cell,
                }
            },
        }
        assert(self@.tape =~= step(m, *op)->Some_0.tape);
        assert(self@.input =~= step(m, *op)->Some_0.input);
        Ok(())
    }
}

/// The state in which a program starts: a zeroed tape of `tape_size` cells,
/// the pointer on cell 0, and no function defined yet.
pub open spec fn initial_vm(tape_size: nat, funs: nat) -> Vm {
    Vm {
        m: Machine {
            tape: Seq::new(tape_size, |i: int| 0i64),
            ptr: 0,
            reg: 0,
            refs: Seq::empty(),
            depth: 0,
            skip: 0,
            input: Seq::empty(),
            output: Seq::empty(),
        },
        pc: 0,
        calls: Seq::empty(),
        table: Seq::new(funs, |i: int| None),
    }
}

/// Up to `n` steps, stopping early when the program halts, waits for input
/// or faults.
pub open spec fn vm_run(ops: Seq<CoreOp>, t: Matching, s: Vm, n: nat) -> Result<
    (Vm, Status),
    InterpreterError,
>
    decreases n,
{
    if n == 0 {
        Ok((s, Status::Running))
    } else {
        match vm_step(ops, t, s) {
            Ok((v, Status::Running)) => vm_run(ops, t, v, (n - 1) as nat),
            other => other,
        }
    }
}

/// Leave the current function.
fn leave(calls: &mut Vec<usize>, pc: &mut usize, len: usize)
    ensures
        if old(calls).len() == 0 {
            *final(pc) == len && final(calls)@ == old(calls)@
        } else {
            *final(pc) == old(calls)@.last() && final(calls)@ == old(calls)@.drop_last()
        },
{
    if calls.len() == 0 {
        *pc = len;
    } else {
        *pc = calls.pop().unwrap();
    }
}

/// A core program ready to run, with the state of its machine.
pub struct CoreInterpreter {
    ops: Vec<CoreOp>,
    partner: Vec<usize>,
    fun_id: Vec<usize>,
    funs: usize,
    table: Vec<Option<usize>>,
    calls: Vec<usize>,
    pc: usize,
    data: Tape,
}

impl CoreInterpreter {
    /// The program being run.
    pub closed spec fn program(&self) -> Seq<CoreOp> {
        self.ops@
    }

    /// Its skip table and function numbering.
    pub closed spec fn blocks(&self) -> Matching {
        Matching {
            open: Seq::empty(),
            partner: self.partner@,
            fun_id: self.fun_id@,
            funs: self.funs as nat,
        }
    }

    /// The state of the run.
    pub closed spec fn state(&self) -> Vm {
        Vm { m: self.data@, pc: self.pc as nat, calls: self.calls@, table: self.table@ }
    }

    pub closed spec fn wf(&self) -> bool {
        &&& self.data.wf()
        &&& matching(self.ops@) == Some(self.blocks())
        &&& table_in_range(self.ops@, self.blocks(), self.ops.len() as nat)
        &&& self.table.len() == self.funs
        &&& self.pc <= self.ops.len()
        &&& forall|j: int| 0 <= j < self.calls.len() ==> #[trigger] self.calls[j] <= self.ops.len()
        &&& forall|j: int|
            0 <= j < self.table.len() && #[trigger] self.table[j] is Some ==> self.table[j]->Some_0
                <= self.ops.len()
    }

    /// Prepare a program to run on a tape of `tape_size` cells. A program
    /// whose blocks do not match is rejected.
    pub fn new(program: CoreProgram, tape_size: usize) -> (r: Result<Self, InterpreterError>)
        ensures
            match r {
                Ok(it) => {
                    &&& it.wf()
                    &&& it.program() == program@
                    &&& matching(program@) == Some(it.blocks())
                    &&& it.state() == initial_vm(tape_size as nat, it.blocks().funs)
                },
                Err(e) => matching(program@) is None && e is UnmatchedBlock,
            },
    {
        let ops = program.0;
        let (partner, fun_id, funs) = match match_blocks(&ops) {
            Ok(t) => t,
            Err(e) => return Err(e),
        };
        let mut table: Vec<Option<usize>> = Vec::new();
        let mut k: usize = 0;
        while k < funs
            invariant
                k <= funs,
                table@ == Seq::new(k as nat, |i: int| None::<usize>),
            decreases funs - k,
        {
            table.push(None);
            k = k + 1;
            assert(table@ =~= Seq::new(k as nat, |i: int| None::<usize>));
        }
        let mut cells: Vec<i64> = Vec::new();
        let mut c: usize = 0;
        while c < tape_size
            invariant
                c <= tape_size,
                cells@ == Seq::new(c as nat, |i: int| 0i64),
            decreases tape_size - c,
        {
            cells.push(0);
            c = c + 1;
            assert(cells@ =~= Seq::new(c as nat, |i: int| 0i64));
        }
        let data = Tape {
            cells,
            ptr: 0,
            reg: 0,
            refs: Vec::new(),
            input: Vec::new(),
            next_input: 0,
            output: Vec::new(),
        };
        let it = CoreInterpreter { ops, partner, fun_id, funs, table, calls: Vec::new(), pc: 0, data };
        assert(it.state().m.refs =~= Seq::<int>::empty());
        assert(it.state().m.input =~= Seq::<i64>::empty());
        Ok(it)
    }

    /// Run one instruction.
    pub fn step(&mut self) -> (r: Result<Status, InterpreterError>)
        requires
            old(self).wf(),
        ensures
            final(self).wf(),
            final(self).program() == old(self).program(),
            final(self).blocks() == old(self).blocks(),
            match vm_step(old(self).program(), old(self).blocks(), old(self).state()) {
                Ok((v, st)) => r == Ok::<Status, InterpreterError>(st) && final(self).state() == v,
                Err(e) => r == Err::<Status, InterpreterError>(e) && final(self).state() == old(
                    self,
                ).state(),
            },
    {
        if self.pc >= self.ops.len() {
            return Ok(Status::Halted);
        }
        let pc = self.pc;
        let op = &self.ops[pc];
        match op {
            CoreOp::Function => {
                let k = self.fun_id[pc];
                self.table.set(k, Some(pc + 1));
                self.pc = self.partner[pc] + 1;
            },
            CoreOp::While | CoreOp::If => {
                if self.data.reg != 0 {
                    self.pc = pc + 1;
                } else {
                    self.pc = self.partner[pc] + 1;
                }
            },
            CoreOp::Else => {
                self.pc = self.partner[pc] + 1;
            },
            CoreOp::End => {
                let opener = self.partner[pc];
                if matches!(self.ops[opener], CoreOp::While) {
                    self.pc = opener;
                } else if matches!(self.ops[opener], CoreOp::Function) {
                    leave(&mut self.calls, &mut self.pc, self.ops.len());
                } else {
                    self.pc = pc + 1;
                }
            },
            CoreOp::Call => {
                let k = self.data.reg;
                if k < 0 || k as u64 >= self.table.len() as u64 {
                    return Err(InterpreterError::UnknownFunction { pc, index: k });
                }
                match self.table[k as usize] {
                    Some(entry) => {
                        self.calls.push(pc + 1);
                        self.pc = entry;
                    },
                    None => {
                        return Err(InterpreterError::UnknownFunction { pc, index: k });
                    },
                }
            },
            CoreOp::Return => {
                leave(&mut self.calls, &mut self.pc, self.ops.len());
            },
            _ => {
                if matches!(op, CoreOp::Get(_)) && self.data.next_input >= self.data.input.len() {
                    return Ok(Status::NeedsInput);
                }
                if let CoreOp::Move(n) = op {
                    if self.data.ptr.checked_add(*n as i64).is_none() {
                        return Err(InterpreterError::PointerOverflow { pc });
                    }
                }
                match self.data.exec(op, pc) {
                    Ok(()) => self.pc = pc + 1,
                    Err(e) => return Err(e),
                }
            },
        }
        Ok(Status::Running)
    }

    /// Run up to `max_steps` instructions, stopping early when the program
    /// halts, waits for input or faults.
    pub fn run(&mut self, max_steps: usize) -> (r: Result<Status, InterpreterError>)
        requires
            old(self).wf(),
        ensures
            final(self).wf(),
            final(self).program() == old(self).program(),
            match vm_run(old(self).program(), old(self).blocks(), old(self).state(), max_steps as nat) {
                Ok((v, st)) => r == Ok::<Status, InterpreterError>(st) && final(self).state() == v,
                Err(e) => r is Err && r == Err::<Status, InterpreterError>(e),
            },
    {
        let ghost ops = self.program();
        let ghost t = self.blocks();
        let mut left: usize = max_steps;
        while left > 0
            invariant
                self.wf(),
                self.program() == ops,
                self.blocks() == t,
                ops == old(self).program(),
                vm_run(ops, t, self.state(), left as nat) == vm_run(
                    old(self).program(),
                    old(self).blocks(),
                    old(self).state(),
                    max_steps as nat,
                ),
            decreases left,
        {
            match self.step() {
                Ok(Status::Running) => {},
                other => return other,
            }
            left = left - 1;
        }
        Ok(Status::Running)
    }

    /// Hand the program one value for `Get`.
    pub fn provide_input(&mut self, value: i64)
        requires
            old(self).wf(),
        ensures
            final(self).wf(),
            final(self).program() == old(self).program(),
            final(self).blocks() == old(self).blocks(),
            final(self).state() == (Vm {
                m: Machine { input: old(self).state().m.input.push(value), ..old(self).state().m },
                ..old(self).state()
            }),
    {
        self.data.input.push(value);
        assert(self.data@.input =~= old(self).state().m.input.push(value));
    }

    /// Take what `Put` wrote since the last call, with the channels.
    pub fn take_output(&mut self) -> (r: Vec<(isize, i64)>)
        requires
            old(self).wf(),
        ensures
            final(self).wf(),
            final(self).program() == old(self).program(),
            final(self).blocks() == old(self).blocks(),
            r@ == old(self).state().m.output,
            final(self).state() == (Vm {
                m: Machine { output: Seq::empty(), ..old(self).state().m },
                ..old(self).state()
            }),
    {
        let mut out: Vec<(isize, i64)> = Vec::new();
        core::mem::swap(&mut out, &mut self.data.output);
        assert(self.data@.output =~= Seq::<(isize, i64)>::empty());
        out
    }

    /// The register.
    pub fn register(&self) -> (r: i64)
        ensures
            r == self.state().m.reg,
    {
        self.data.reg
    }

    /// The value of cell `i`, if it is on the tape.
    pub fn cell(&self, i: usize) -> (r: Option<i64>)
        ensures
            r == if i < self.state().m.tape.len() {
                Some(self.state().m.tape[i as int])
            } else {
                None::<i64>
            },
    {
        if i < self.data.cells.len() {
            Some(self.data.cells[i])
        } else {
            None
        }
    }

    /// The data pointer.
    pub fn pointer(&self) -> (r: i64)
        ensures
            r as int == self.state().m.ptr,
    {
        self.data.ptr
    }
}

/// Whether no instruction of `ops` opens, continues or closes a block, calls
/// or returns.
pub open spec fn straight_line(ops: Seq<CoreOp>) -> bool {
    forall|i: int|
        0 <= i < ops.len() ==> !crate::vm::is_block_op(#[trigger] ops[i]) && ops[i]
            != CoreOp::Call && ops[i] != CoreOp::Return
}

/// On straight-line code the interpreter computes what the machine model
/// says: a run that halts ends in the machine state that `machine::run`
/// gives for the instructions from the starting point on.
pub proof fn lemma_interpreter_follows_model(ops: Seq<CoreOp>, t: Matching, s: Vm, n: nat)
    requires
        straight_line(ops),
        s.m.active(),
        s.pc <= ops.len(),
        vm_run(ops, t, s, n) matches Ok((_, Status::Halted)),
    ensures
        run(s.m, ops.skip(s.pc as int)) == Some(vm_run(ops, t, s, n)->Ok_0.0.m),
    decreases n,
{
    if s.pc >= ops.len() {
        assert(ops.skip(s.pc as int) =~= Seq::<CoreOp>::empty());
    } else {
        let pc = s.pc as int;
        let op = ops[pc];
        assert(!crate::vm::is_block_op(op) && op != CoreOp::Call && op != CoreOp::Return);
        let (v, st) = vm_step(ops, t, s)->Ok_0;
        assert(st == Status::Running);
        assert(step(s.m, op) == Some(v.m));
        assert(v.pc == s.pc + 1);
        assert(ops.skip(pc) =~= seq![op] + ops.skip(pc + 1));
        lemma_run_cons(s.m, op, ops.skip(pc + 1));
        lemma_interpreter_follows_model(ops, t, v, (n - 1) as nat);
    }
}

} // verus!
