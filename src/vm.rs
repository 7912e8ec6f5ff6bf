//! # Virtual machine instructions
//!
//! The two instruction tiers of the tape machine, and the programs built from
//! them. A core program holds only core instructions; a standard program may
//! also hold the floating-point, allocation and device instructions.
use vstd::prelude::*;

verus! {

/// An instruction of the core tier.
#[derive(Debug, PartialEq, Eq)]
pub enum CoreOp {
    /// A comment; it does nothing.
    Comment(String),
    /// register <- n (integer view).
    SetReg(isize),
    /// Begin a function body; the body ends at the matching `End`.
    Function,
    /// Call the function whose index is in the register.
    Call,
    /// Return from the current function.
    Return,
    /// Repeat the body while the register is non-zero.
    While,
    /// Run the body if the register is non-zero.
    If,
    /// Begin the branch taken when the register was zero at the `If`.
    Else,
    /// Close the innermost `Function`, `While`, `If` or `Else` block.
    End,
    /// pointer <- pointer + n.
    Move(isize),
    /// register <- the address of the current cell.
    Where,
    /// Push the pointer on the reference stack, then follow the address in the current cell.
    Deref,
    /// Pop the pointer off the reference stack.
    Refer,
    /// register (as an address) <- register + current cell.
    Index,
    /// register <- !(register & current cell).
    BitwiseNand,
    /// register <- register + current cell.
    Add,
    /// register <- register - current cell.
    Sub,
    /// register <- register * current cell.
    Mul,
    /// register <- register / current cell.
    Div,
    /// register <- register % current cell.
    Rem,
    /// register <- 1 if register >= 0, else 0.
    IsNonNegative,
    /// current cell <- register.
    Save,
    /// register <- current cell.
    Restore,
    /// register <- a value read from the input channel.
    Get(isize),
    /// Write the register to the output channel.
    Put(isize),
}

/// An instruction of the standard tier: a core instruction, or one of the
/// instructions that only the standard tier has.
#[derive(Debug, PartialEq, Eq)]
pub enum StandardOp {
    /// A core instruction.
    CoreOp(CoreOp),
    /// register <- a floating-point constant, held as its decimal literal.
    SetFloat(String),
    /// register <- a cell read from the device.
    Peek,
    /// Write the register to the device.
    Poke,
    /// Float register <- register + current cell.
    Add,
    /// Float register <- register - current cell.
    Sub,
    /// Float register <- register * current cell.
    Mul,
    /// Float register <- register / current cell.
    Div,
    /// Float register <- register % current cell.
    Rem,
    /// Float register <- register to the power of the current cell.
    Pow,
    /// register <- 1 if the float register >= 0, else 0.
    IsNonNegative,
    /// Float register <- sin(register).
    Sin,
    /// Float register <- cos(register).
    Cos,
    /// Float register <- tan(register).
    Tan,
    /// Float register <- asin(register).
    ASin,
    /// Float register <- acos(register).
    ACos,
    /// Float register <- atan(register).
    ATan,
    /// register <- the address of a fresh block of as many cells as the register holds.
    Alloc,
    /// Release the block whose address is in the register.
    Free,
    /// Integer register <- the float register, truncated.
    ToInt,
    /// Float register <- the integer register.
    ToFloat,
}

impl Clone for CoreOp {
    fn clone(&self) -> (r: Self)
        ensures
            r == *self,
    {
        match self {
            CoreOp::Comment(text) => CoreOp::Comment(text.clone()),
            CoreOp::SetReg(n) => CoreOp::SetReg(*n),
            CoreOp::Move(n) => CoreOp::Move(*n),
            CoreOp::Get(n) => CoreOp::Get(*n),
            CoreOp::Put(n) => CoreOp::Put(*n),
            CoreOp::Function => CoreOp::Function,
            CoreOp::Call => CoreOp::Call,
            CoreOp::Return => CoreOp::Return,
            CoreOp::While => CoreOp::While,
            CoreOp::If => CoreOp::If,
            CoreOp::Else => CoreOp::Else,
            CoreOp::End => CoreOp::End,
            CoreOp::Where => CoreOp::Where,
            CoreOp::Deref => CoreOp::Deref,
            CoreOp::Refer => CoreOp::Refer,
            CoreOp::Index => CoreOp::Index,
            CoreOp::BitwiseNand => CoreOp::BitwiseNand,
            CoreOp::Add => CoreOp::Add,
            CoreOp::Sub => CoreOp::Sub,
            CoreOp::Mul => CoreOp::Mul,
            CoreOp::Div => CoreOp::Div,
            CoreOp::Rem => CoreOp::Rem,
            CoreOp::IsNonNegative => CoreOp::IsNonNegative,
            CoreOp::Save => CoreOp::Save,
            CoreOp::Restore => CoreOp::Restore,
        }
    }
}

impl Clone for StandardOp {
    fn clone(&self) -> (r: Self)
        ensures
            r == *self,
    {
        match self {
            StandardOp::CoreOp(op) => StandardOp::CoreOp(op.clone()),
            StandardOp::SetFloat(v) => StandardOp::SetFloat(v.clone()),
            StandardOp::Peek => StandardOp::Peek,
            StandardOp::Poke => StandardOp::Poke,
            StandardOp::Add => StandardOp::Add,
            StandardOp::Sub => StandardOp::Sub,
            StandardOp::Mul => StandardOp::Mul,
            StandardOp::Div => StandardOp::Div,
            StandardOp::Rem => StandardOp::Rem,
            StandardOp::Pow => StandardOp::Pow,
            StandardOp::IsNonNegative => StandardOp::IsNonNegative,
            StandardOp::Sin => StandardOp::Sin,
            StandardOp::Cos => StandardOp::Cos,
            StandardOp::Tan => StandardOp::Tan,
            StandardOp::ASin => StandardOp::ASin,
            StandardOp::ACos => StandardOp::ACos,
            StandardOp::ATan => StandardOp::ATan,
            StandardOp::Alloc => StandardOp::Alloc,
            StandardOp::Free => StandardOp::Free,
            StandardOp::ToInt => StandardOp::ToInt,
            StandardOp::ToFloat => StandardOp::ToFloat,
        }
    }
}

/// A flat program of core instructions.
#[derive(Clone, Debug, PartialEq, Eq)]
pub struct CoreProgram(pub Vec<CoreOp>);

/// A flat program of standard instructions.
#[derive(Clone, Debug, PartialEq, Eq)]
pub struct StandardProgram(pub Vec<StandardOp>);

impl View for CoreProgram {
    type V = Seq<CoreOp>;

    open spec fn view(&self) -> Seq<CoreOp> {
        self.0@
    }
}

impl View for StandardProgram {
    type V = Seq<StandardOp>;

    open spec fn view(&self) -> Seq<StandardOp> {
        self.0@
    }
}

/// Whether an instruction opens, continues or closes a block.
pub open spec fn is_block_op(op: CoreOp) -> bool {
    match op {
        CoreOp::Function | CoreOp::While | CoreOp::If | CoreOp::Else | CoreOp::End => true,
        _ => false,
    }
}

/// The standard instructions that stand for a sequence of core instructions.
pub open spec fn lift(ops: Seq<CoreOp>) -> Seq<StandardOp> {
    ops.map_values(|op: CoreOp| StandardOp::CoreOp(op))
}

/// Lifting commutes with appending one instruction.
pub proof fn lemma_lift_push(ops: Seq<CoreOp>, op: CoreOp)
    ensures
        lift(ops.push(op)) == lift(ops).push(StandardOp::CoreOp(op)),
{
    assert(lift(ops.push(op)) =~= lift(ops).push(StandardOp::CoreOp(op)));
}

impl CoreProgram {
    /// An empty program.
    pub fn new() -> (r: Self)
        ensures
            r@ == Seq::<CoreOp>::empty(),
    {
        CoreProgram(Vec::new())
    }

    /// Append one instruction.
    pub fn append_core_op(&mut self, op: CoreOp)
        ensures
            final(self)@ == old(self)@.push(op),
    {
        self.0.push(op);
    }

    /// Append `SetReg(n)`.
    pub fn set_register(&mut self, n: isize)
        ensures
            final(self)@ == old(self)@.push(CoreOp::SetReg(n)),
    {
        self.0.push(CoreOp::SetReg(n));
    }

    /// Append `Move(n)`.
    pub fn move_pointer(&mut self, n: isize)
        ensures
            final(self)@ == old(self)@.push(CoreOp::Move(n)),
    {
        self.0.push(CoreOp::Move(n));
    }

    /// Append `Where`.
    pub fn where_is_pointer(&mut self)
        ensures
            final(self)@ == old(self)@.push(CoreOp::Where),
    {
        self.0.push(CoreOp::Where);
    }

    /// Append `Deref`.
    pub fn deref(&mut self)
        ensures
            final(self)@ == old(self)@.push(CoreOp::Deref),
    {
        self.0.push(CoreOp::Deref);
    }

    /// Append `Refer`.
    pub fn refer(&mut self)
        ensures
            final(self)@ == old(self)@.push(CoreOp::Refer),
    {
        self.0.push(CoreOp::Refer);
    }

    /// Append `Save`.
    pub fn save(&mut self)
        ensures
            final(self)@ == old(self)@.push(CoreOp::Save),
    {
        self.0.push(CoreOp::Save);
    }

    /// Append `Restore`.
    pub fn restore(&mut self)
        ensures
            final(self)@ == old(self)@.push(CoreOp::Restore),
    {
        self.0.push(CoreOp::Restore);
    }

    /// Append `IsNonNegative`.
    pub fn whole_int(&mut self)
        ensures
            final(self)@ == old(self)@.push(CoreOp::IsNonNegative),
    {
        self.0.push(CoreOp::IsNonNegative);
    }

    /// register <- current cell + 1, with `SetReg(1)`, `Add`.
    pub fn inc(&mut self)
        ensures
            final(self)@ == old(self)@ + seq![CoreOp::SetReg(1isize), CoreOp::Add],
    {
        self.0.push(CoreOp::SetReg(1));
        self.0.push(CoreOp::Add);
    }

    /// register <- current cell - 1, with `SetReg(-1)`, `Add`.
    pub fn dec(&mut self)
        ensures
            final(self)@ == old(self)@ + seq![CoreOp::SetReg(-1isize), CoreOp::Add],
    {
        self.0.push(CoreOp::SetReg(-1));
        self.0.push(CoreOp::Add);
    }

    /// Append `If`.
    pub fn begin_if(&mut self)
        ensures
            final(self)@ == old(self)@.push(CoreOp::If),
    {
        self.0.push(CoreOp::If);
    }

    /// Append `Else`.
    pub fn begin_else(&mut self)
        ensures
            final(self)@ == old(self)@.push(CoreOp::Else),
    {
        self.0.push(CoreOp::Else);
    }

    /// Append `End`.
    pub fn end(&mut self)
        ensures
            final(self)@ == old(self)@.push(CoreOp::End),
    {
        self.0.push(CoreOp::End);
    }
}

impl StandardProgram {
    /// The same program, seen as a standard program.
    pub fn from_core(program: &CoreProgram) -> (r: Self)
        ensures
            r@ == lift(program@),
    {
        let mut ops: Vec<StandardOp> = Vec::new();
        let mut i: usize = 0;
        while i < program.0.len()
            invariant
                i <= program.0.len(),
                ops@ == lift(program@.take(i as int)),
            decreases program.0.len() - i,
        {
            ops.push(StandardOp::CoreOp(program.0[i].clone()));
            i = i + 1;
            assert(ops@ =~= lift(program@.take(i as int)));
        }
        assert(program@.take(program.0.len() as int) =~= program@);
        StandardProgram(ops)
    }

    /// The program as a core program, if it holds only core instructions.
    /// A program with an instruction of the standard tier only cannot be
    /// brought down to the core tier.
    pub fn to_core(&self) -> (r: Option<CoreProgram>)
        ensures
            r is Some <==> forall|i: int| 0 <= i < self@.len() ==> #[trigger] self@[i] is CoreOp,
            r matches Some(p) ==> lift(p@) == self@,
    {
        let mut ops: Vec<CoreOp> = Vec::new();
        let mut i: usize = 0;
        while i < self.0.len()
            invariant
                i <= self.0.len(),
                lift(ops@) == self@.take(i as int),
                forall|j: int| 0 <= j < i ==> #[trigger] self@[j] is CoreOp,
            decreases self.0.len() - i,
        {
            match &self.0[i] {
                StandardOp::CoreOp(op) => {
                    let c = op.clone();
                    proof {
                        lemma_lift_push(ops@, c);
                    }
                    ops.push(c);
                },
                _ => return None,
            }
            assert(lift(ops@) =~= self@.take(i + 1));
            i = i + 1;
        }
        assert(self@.take(self.0.len() as int) =~= self@);
        Some(CoreProgram(ops))
    }
}

} // verus!
