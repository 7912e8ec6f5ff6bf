//! # Assembly memory locations
//!
//! A `Location` names a cell of the tape: a fixed address, the cell whose
//! address is stored in another location, or a cell at a constant offset from
//! another location.
//!
//! Every operation on a location is emitted between `to`, which moves the data
//! pointer onto the location, and `from`, which moves it back to where it was.
//! `from` retraces an indirection with `Refer`, so the reference stack brings
//! the pointer back without recomputing the address.
//!
//! Pointers are not integers: the size of a cell is left to the machine, so a
//! pointer cell must be moved with `next` and `prev`, never with `inc` and
//! `dec`.
use vstd::prelude::*;
use crate::vm::{CoreOp, CoreProgram};

verus! {

/// The address of the stack pointer register.
pub const SP: usize = 0;

/// The address of a temporary register. It can be used as a trash can.
pub const TMP: usize = 1;

/// The address of the frame pointer register.
pub const FP: usize = 2;

/// The address of the "A" general purpose register.
pub const A: usize = 3;

/// The address of the "B" general purpose register.
pub const B: usize = 4;

/// The address of the "C" general purpose register.
pub const C: usize = 5;

/// The address of the "D" general purpose register.
pub const D: usize = 6;

/// The address of the "E" general purpose register.
pub const E: usize = 7;

/// The address of the "F" general purpose register.
pub const F: usize = 8;

/// The address of the bottom of the stack.
pub const BOTTOM_OF_STACK: usize = 8;

/// A location in memory (on the tape of the virtual machine).
#[derive(Debug, PartialEq, Eq, PartialOrd, Ord, Hash)]
pub enum Location {
    /// A fixed position in the tape (a constant address known at compile time).
    Address(usize),
    /// Use the value of a cell on the tape as an address.
    /// For example, `Indirect(Address(SP))` is the location of the top item on the stack.
    Indirect(Box<Location>),
    /// Go to a position in memory, and then move the pointer according to an offset.
    /// For example, `Offset(Address(8), -2)` designates the same cell as `Address(6)`.
    Offset(Box<Location>, isize),
}

impl Clone for Location {
    fn clone(&self) -> (r: Self)
        ensures
            r == *self,
        decreases self,
    {
        match self {
            Location::Address(k) => Location::Address(*k),
            Location::Indirect(l) => Location::Indirect(Box::new((**l).clone())),
            Location::Offset(l, d) => Location::Offset(Box::new((**l).clone()), *d),
        }
    }
}

/// The `Move` instruction that undoes `Move(n)`.
pub open spec fn move_back(n: isize) -> CoreOp {
    CoreOp::Move((-n) as isize)
}

impl Location {
    /// Whether every pointer movement of this location fits a `Move` both
    /// ways: addresses at most `isize::MAX`, offsets above `isize::MIN`.
    pub open spec fn wf(self) -> bool
        decreases self,
    {
        match self {
            Location::Address(k) => k <= isize::MAX,
            Location::Indirect(l) => l.wf(),
            Location::Offset(l, d) => l.wf() && d != isize::MIN,
        }
    }

    /// The instructions that move the pointer onto this location.
    pub open spec fn to_ops(self) -> Seq<CoreOp>
        decreases self,
    {
        match self {
            Location::Address(k) => seq![CoreOp::Move(k as isize)],
            Location::Indirect(l) => l.to_ops().push(CoreOp::Deref),
            Location::Offset(l, d) => l.to_ops().push(CoreOp::Move(d)),
        }
    }

    /// The instructions that move the pointer back from this location.
    pub open spec fn from_ops(self) -> Seq<CoreOp>
        decreases self,
    {
        match self {
            Location::Address(k) => seq![move_back(k as isize)],
            Location::Indirect(l) => seq![CoreOp::Refer] + l.from_ops(),
            Location::Offset(l, d) => seq![move_back(d)] + l.from_ops(),
        }
    }

    /// `ops` run on this location: `to`, `ops`, `from`.
    pub open spec fn around(self, ops: Seq<CoreOp>) -> Seq<CoreOp> {
        self.to_ops() + ops + self.from_ops()
    }

    pub open spec fn save_ops(self) -> Seq<CoreOp> {
        self.around(seq![CoreOp::Save])
    }

    pub open spec fn restore_ops(self) -> Seq<CoreOp> {
        self.around(seq![CoreOp::Restore])
    }

    pub open spec fn copy_ops(self, other: Location) -> Seq<CoreOp> {
        self.restore_ops() + other.save_ops()
    }

    pub open spec fn copy_address_ops(self, dst: Location) -> Seq<CoreOp> {
        self.around(seq![CoreOp::Where]) + dst.save_ops()
    }

    pub open spec fn set_ops(self, n: isize) -> Seq<CoreOp> {
        seq![CoreOp::SetReg(n)] + self.save_ops()
    }

    pub open spec fn push_ops(self) -> Seq<CoreOp> {
        let sp = Location::Address(SP);
        sp.deref_spec().offset_spec(1).copy_address_ops(sp) + self.copy_ops(sp.deref_spec())
    }

    pub open spec fn pop_ops(self) -> Seq<CoreOp> {
        let sp = Location::Address(SP);
        sp.deref_spec().copy_ops(self) + sp.deref_spec().offset_spec(-1isize).copy_address_ops(sp)
    }

    pub open spec fn next_ops(self, count: isize) -> Seq<CoreOp> {
        self.deref_spec().offset_spec(count).copy_address_ops(self)
    }

    pub open spec fn prev_ops(self, count: isize) -> Seq<CoreOp> {
        self.deref_spec().offset_spec((-count) as isize).copy_address_ops(self)
    }

    pub open spec fn whole_int_ops(self) -> Seq<CoreOp> {
        self.around(seq![CoreOp::Restore, CoreOp::IsNonNegative, CoreOp::Save])
    }

    pub open spec fn inc_ops(self) -> Seq<CoreOp> {
        self.around(seq![CoreOp::Restore, CoreOp::SetReg(1), CoreOp::Add, CoreOp::Save])
    }

    pub open spec fn dec_ops(self) -> Seq<CoreOp> {
        self.around(seq![CoreOp::Restore, CoreOp::SetReg(-1isize), CoreOp::Add, CoreOp::Save])
    }

    /// `self = self op src`.
    pub open spec fn binop_ops(self, op: CoreOp, src: Location) -> Seq<CoreOp> {
        self.restore_ops() + src.around(seq![op]) + self.save_ops()
    }

    pub open spec fn not_ops(self) -> Seq<CoreOp> {
        self.around(
            seq![
                CoreOp::Restore,
                CoreOp::If,
                CoreOp::SetReg(0),
                CoreOp::Else,
                CoreOp::SetReg(1),
                CoreOp::End,
                CoreOp::Save,
            ],
        )
    }

    pub open spec fn and_ops(self, src: Location) -> Seq<CoreOp> {
        self.to_ops() + seq![CoreOp::Restore, CoreOp::If] + self.from_ops() + src.restore_ops()
            + self.to_ops() + seq![CoreOp::Else, CoreOp::SetReg(0), CoreOp::End, CoreOp::Save]
            + self.from_ops()
    }

    pub open spec fn or_ops(self, src: Location) -> Seq<CoreOp> {
        self.to_ops() + seq![CoreOp::Restore, CoreOp::If, CoreOp::SetReg(1), CoreOp::Else]
            + self.from_ops() + src.restore_ops() + self.to_ops() + seq![
            CoreOp::End,
            CoreOp::Save,
        ] + self.from_ops()
    }

    pub open spec fn is_greater_than_ops(self, src: Location) -> Seq<CoreOp> {
        let tmp = Location::Address(TMP);
        self.copy_ops(tmp) + tmp.binop_ops(CoreOp::Sub, src) + tmp.dec_ops() + tmp.whole_int_ops()
            + self.save_ops()
    }

    pub open spec fn is_greater_or_equal_to_ops(self, src: Location) -> Seq<CoreOp> {
        let tmp = Location::Address(TMP);
        self.copy_ops(tmp) + tmp.binop_ops(CoreOp::Sub, src) + tmp.whole_int_ops()
            + self.save_ops()
    }

    pub open spec fn is_less_than_ops(self, src: Location) -> Seq<CoreOp> {
        let tmp = Location::Address(TMP);
        src.copy_ops(tmp) + tmp.binop_ops(CoreOp::Sub, self) + tmp.dec_ops() + tmp.whole_int_ops()
            + self.save_ops()
    }

    pub open spec fn is_less_or_equal_to_ops(self, src: Location) -> Seq<CoreOp> {
        let tmp = Location::Address(TMP);
        src.copy_ops(tmp) + tmp.binop_ops(CoreOp::Sub, self) + tmp.whole_int_ops()
            + self.save_ops()
    }

    pub open spec fn offset_spec(self, d: isize) -> Location {
        Location::Offset(Box::new(self), d)
    }

    pub open spec fn deref_spec(self) -> Location {
        Location::Indirect(Box::new(self))
    }

    /// Get the location offset by a constant number of cells from a starting location.
    /// For example, `Offset(Address(8), -2)` designates the same cell as `Address(6)`.
    pub fn offset(&self, offset: isize) -> (r: Self)
        ensures
            r == self.offset_spec(offset),
            r.wf() == (self.wf() && offset != isize::MIN),
    {
        Location::Offset(Box::new(self.clone()), offset)
    }

    /// Get the location of the value pointed to by this location.
    pub fn deref(&self) -> (r: Self)
        ensures
            r == self.deref_spec(),
            r.wf() == self.wf(),
    {
        Location::Indirect(Box::new(self.clone()))
    }

    /// Move the pointer to this location.
    pub fn to(&self, result: &mut CoreProgram)
        requires
            self.wf(),
        ensures
            final(result)@ == old(result)@ + self.to_ops(),
        decreases self,
    {
        match self {
            Location::Address(addr) => result.move_pointer(*addr as isize),
            Location::Indirect(loc) => {
                loc.to(result);
                result.deref();
            },
            Location::Offset(loc, offset) => {
                loc.to(result);
                result.move_pointer(*offset);
            },
        }
    }

    /// Move the pointer from this location.
    pub fn from(&self, result: &mut CoreProgram)
        requires
            self.wf(),
        ensures
            final(result)@ == old(result)@ + self.from_ops(),
        decreases self,
    {
        match self {
            Location::Address(addr) => result.move_pointer(-(*addr as isize)),
            Location::Indirect(loc) => {
                result.refer();
                loc.from(result);
            },
            Location::Offset(loc, offset) => {
                result.move_pointer(-*offset);
                loc.from(result);
            },
        }
    }
    /// Push the value of this location to the stack.
    pub fn push(&self, result: &mut CoreProgram)
        requires
            self.wf(),
        ensures
            final(result)@ == old(result)@ + self.push_ops(),
    {
        let ghost start = result@;
        let sp = Location::Address(SP);
        sp.deref().offset(1).copy_address_to(&sp, result);
        self.copy_to(&sp.deref(), result);
        assert(result@ =~= start + self.push_ops());
    }

    /// Pop the top item off the stack and store it in this location.
    pub fn pop(&self, result: &mut CoreProgram)
        requires
            self.wf(),
        ensures
            final(result)@ == old(result)@ + self.pop_ops(),
    {
        let ghost start = result@;
        let sp = Location::Address(SP);
        sp.deref().copy_to(self, result);
        sp.deref().offset(-1).copy_address_to(&sp, result);
        assert(result@ =~= start + self.pop_ops());
    }

    /// Copy the address of this location to another location.
    pub fn copy_address_to(&self, dst: &Self, result: &mut CoreProgram)
        requires
            self.wf(),
            dst.wf(),
        ensures
            final(result)@ == old(result)@ + self.copy_address_ops(*dst),
    {
        let ghost start = result@;
        self.to(result);
        result.where_is_pointer();
        self.from(result);
        dst.save_to(result);
        assert(result@ =~= start + self.copy_address_ops(*dst));
    }

    /// Take the pointer value of this location, and make it point
    /// `count` number of cells to the right of its original position.
    pub fn next(&self, count: isize, result: &mut CoreProgram)
        requires
            self.wf(),
            count != isize::MIN,
        ensures
            final(result)@ == old(result)@ + self.next_ops(count),
    {
        self.deref().offset(count).copy_address_to(self, result);
    }

    /// Take the pointer value of this location, and make it point
    /// `count` number of cells to the left of its original position.
    pub fn prev(&self, count: isize, result: &mut CoreProgram)
        requires
            self.wf(),
            count != isize::MIN,
        ensures
            final(result)@ == old(result)@ + self.prev_ops(count),
    {
        self.deref().offset(-count).copy_address_to(self, result);
    }

    /// Take the value at this location. If it is a whole number (>= 0),
    /// then the value of this location is now 1. Otherwise, the value is 0.
    pub fn whole_int(&self, result: &mut CoreProgram)
        requires
            self.wf(),
        ensures
            final(result)@ == old(result)@ + self.whole_int_ops(),
    {
        let ghost start = result@;
        self.to(result);
        result.restore();
        result.whole_int();
        result.save();
        self.from(result);
        assert(result@ =~= start + self.whole_int_ops());
    }

    /// Save the value of the virtual machine's register to this location.
    pub fn save_to(&self, result: &mut CoreProgram)
        requires
            self.wf(),
        ensures
            final(result)@ == old(result)@ + self.save_ops(),
    {
        let ghost start = result@;
        self.to(result);
        result.save();
        self.from(result);
        assert(result@ =~= start + self.save_ops());
    }

    /// Restore the value from this location into the virtual machine's register.
    pub fn restore_from(&self, result: &mut CoreProgram)
        requires
            self.wf(),
        ensures
            final(result)@ == old(result)@ + self.restore_ops(),
    {
        let ghost start = result@;
        self.to(result);
        result.restore();
        self.from(result);
        assert(result@ =~= start + self.restore_ops());
    }

    /// Increment the value of this location.
    pub fn inc(&self, result: &mut CoreProgram)
        requires
            self.wf(),
        ensures
            final(result)@ == old(result)@ + self.inc_ops(),
    {
        let ghost start = result@;
        self.to(result);
        result.restore();
        result.inc();
        result.save();
        self.from(result);
        assert(result@ =~= start + self.inc_ops());
    }

    /// Decrement the value of this location.
    pub fn dec(&self, result: &mut CoreProgram)
        requires
            self.wf(),
        ensures
            final(result)@ == old(result)@ + self.dec_ops(),
    {
        let ghost start = result@;
        self.to(result);
        result.restore();
        result.dec();
        result.save();
        self.from(result);
        assert(result@ =~= start + self.dec_ops());
    }

    /// Perform a core instruction as an abstract binary operation:
    /// `self` is the destination, and `src` is the source.
    fn binop(&self, op: CoreOp, src: &Self, result: &mut CoreProgram)
        requires
            self.wf(),
            src.wf(),
        ensures
            final(result)@ == old(result)@ + self.binop_ops(op, *src),
    {
        let ghost start = result@;
        self.restore_from(result);
        src.to(result);
        result.append_core_op(op);
        src.from(result);
        self.save_to(result);
        assert(result@ =~= start + self.binop_ops(op, *src));
    }

    /// If this cell is non-zero, then the value of this location is now 0.
    /// Otherwise, the value of this location is now 1.
    pub fn not(&self, result: &mut CoreProgram)
        requires
            self.wf(),
        ensures
            final(result)@ == old(result)@ + self.not_ops(),
    {
        let ghost start = result@;
        self.to(result);
        result.restore();
        result.begin_if();
        result.set_register(0);
        result.begin_else();
        result.set_register(1);
        result.end();
        result.save();
        self.from(result);
        assert(result@ =~= start + self.not_ops());
    }

    /// Perform boolean and on the value of this cell and a source cell.
    pub fn and(&self, src: &Self, result: &mut CoreProgram)
        requires
            self.wf(),
            src.wf(),
        ensures
            final(result)@ == old(result)@ + self.and_ops(*src),
    {
        let ghost start = result@;
        self.to(result);
        result.restore();
        result.begin_if();
        self.from(result);
        src.restore_from(result);
        self.to(result);
        result.begin_else();
        result.set_register(0);
        result.end();
        result.save();
        self.from(result);
        assert(result@ =~= start + self.and_ops(*src));
    }

    /// Perform boolean or on the value of this cell and a source cell.
    pub fn or(&self, src: &Self, result: &mut CoreProgram)
        requires
            self.wf(),
            src.wf(),
        ensures
            final(result)@ == old(result)@ + self.or_ops(*src),
    {
        let ghost start = result@;
        self.to(result);
        result.restore();
        result.begin_if();
        result.set_register(1);
        result.begin_else();
        self.from(result);
        src.restore_from(result);
        self.to(result);
        result.end();
        result.save();
        self.from(result);
        assert(result@ =~= start + self.or_ops(*src));
    }

    /// This cell = this cell > source cell.
    pub fn is_greater_than(&self, src: &Self, result: &mut CoreProgram)
        requires
            self.wf(),
            src.wf(),
        ensures
            final(result)@ == old(result)@ + self.is_greater_than_ops(*src),
    {
        let ghost start = result@;
        let tmp = Location::Address(TMP);
        self.copy_to(&tmp, result);
        tmp.sub(src, result);
        tmp.dec(result);
        tmp.whole_int(result);
        self.save_to(result);
        assert(result@ =~= start + self.is_greater_than_ops(*src));
    }

    /// This cell = this cell >= source cell.
    pub fn is_greater_or_equal_to(&self, src: &Self, result: &mut CoreProgram)
        requires
            self.wf(),
            src.wf(),
        ensures
            final(result)@ == old(result)@ + self.is_greater_or_equal_to_ops(*src),
    {
        let ghost start = result@;
        let tmp = Location::Address(TMP);
        self.copy_to(&tmp, result);
        tmp.sub(src, result);
        tmp.whole_int(result);
        self.save_to(result);
        assert(result@ =~= start + self.is_greater_or_equal_to_ops(*src));
    }

    /// This cell = this cell < source cell.
    pub fn is_less_than(&self, src: &Self, result: &mut CoreProgram)
        requires
            self.wf(),
            src.wf(),
        ensures
            final(result)@ == old(result)@ + self.is_less_than_ops(*src),
    {
        let ghost start = result@;
        let tmp = Location::Address(TMP);
        src.copy_to(&tmp, result);
        tmp.sub(self, result);
        tmp.dec(result);
        tmp.whole_int(result);
        self.save_to(result);
        assert(result@ =~= start + self.is_less_than_ops(*src));
    }

    /// This cell = this cell <= source cell.
    pub fn is_less_or_equal_to(&self, src: &Self, result: &mut CoreProgram)
        requires
            self.wf(),
            src.wf(),
        ensures
            final(result)@ == old(result)@ + self.is_less_or_equal_to_ops(*src),
    {
        let ghost start = result@;
        let tmp = Location::Address(TMP);
        src.copy_to(&tmp, result);
        tmp.sub(self, result);
        tmp.whole_int(result);
        self.save_to(result);
        assert(result@ =~= start + self.is_less_or_equal_to_ops(*src));
    }

    /// This cell += source cell.
    pub fn add(&self, other: &Self, result: &mut CoreProgram)
        requires
            self.wf(),
            other.wf(),
        ensures
            final(result)@ == old(result)@ + self.binop_ops(CoreOp::Add, *other),
    {
        self.binop(CoreOp::Add, other, result);
    }

    /// This cell -= source cell.
    pub fn sub(&self, other: &Self, result: &mut CoreProgram)
        requires
            self.wf(),
            other.wf(),
        ensures
            final(result)@ == old(result)@ + self.binop_ops(CoreOp::Sub, *other),
    {
        self.binop(CoreOp::Sub, other, result);
    }

    /// This cell *= source cell.
    pub fn mul(&self, other: &Self, result: &mut CoreProgram)
        requires
            self.wf(),
            other.wf(),
        ensures
            final(result)@ == old(result)@ + self.binop_ops(CoreOp::Mul, *other),
    {
        self.binop(CoreOp::Mul, other, result);
    }

    /// This cell /= source cell.
    pub fn div(&self, other: &Self, result: &mut CoreProgram)
        requires
            self.wf(),
            other.wf(),
        ensures
            final(result)@ == old(result)@ + self.binop_ops(CoreOp::Div, *other),
    {
        self.binop(CoreOp::Div, other, result);
    }

    /// This cell %= source cell.
    pub fn rem(&self, other: &Self, result: &mut CoreProgram)
        requires
            self.wf(),
            other.wf(),
        ensures
            final(result)@ == old(result)@ + self.binop_ops(CoreOp::Rem, *other),
    {
        self.binop(CoreOp::Rem, other, result);
    }

    /// This cell = a constant value.
    pub fn set(&self, val: isize, result: &mut CoreProgram)
        requires
            self.wf(),
        ensures
            final(result)@ == old(result)@ + self.set_ops(val),
    {
        let ghost start = result@;
        result.set_register(val);
        self.save_to(result);
        assert(result@ =~= start + self.set_ops(val));
    }

    /// Store the value of this cell into another cell.
    pub fn copy_to(&self, other: &Self, result: &mut CoreProgram)
        requires
            self.wf(),
            other.wf(),
        ensures
            final(result)@ == old(result)@ + self.copy_ops(*other),
    {
        let ghost start = result@;
        self.restore_from(result);
        other.save_to(result);
        assert(result@ =~= start + self.copy_ops(*other));
    }

}

} // verus!
