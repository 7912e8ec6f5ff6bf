//! # Laws of the location algebra
//!
//! What the instruction sequences of `Location` do to the machine: they bring
//! the data pointer and the reference stack back to where they were, offsets
//! add up, each operation acts on the cell its location designates, and the
//! comparisons leave 1 or 0 as their names say.
use vstd::prelude::*;
use crate::location::{Location, TMP, SP};
use crate::machine::{
    Machine,
    block_free,
    keeps_position,
    is_stationary,
    lemma_block_free_append,
    lemma_keeps_append,
    lemma_keeps_if_else,
    lemma_run_append,
    lemma_run_cons,
    lemma_run_one,
    lemma_skipped,
    lemma_stationary,
    run,
    step,
};
use crate::interpreter::{Matching, Status, Vm, lemma_interpreter_follows_model, straight_line, vm_run};
use crate::vm::CoreOp;
use vstd::wrapping::i64_specs;

verus! {

/// The pointer movements of a location hold no block instruction.
pub proof fn lemma_moves_block_free(l: Location)
    ensures
        block_free(l.to_ops()),
        block_free(l.from_ops()),
    decreases l,
{
    match l {
        Location::Address(k) => {},
        Location::Indirect(inner) => {
            lemma_moves_block_free(*inner);
            lemma_block_free_append(inner.to_ops(), seq![CoreOp::Deref]);
            lemma_block_free_append(seq![CoreOp::Refer], inner.from_ops());
            assert(inner.to_ops().push(CoreOp::Deref) =~= inner.to_ops() + seq![CoreOp::Deref]);
        },
        Location::Offset(inner, d) => {
            lemma_moves_block_free(*inner);
            lemma_block_free_append(inner.to_ops(), seq![CoreOp::Move(d)]);
            lemma_block_free_append(seq![crate::location::move_back(d)], inner.from_ops());
            assert(inner.to_ops().push(CoreOp::Move(d)) =~= inner.to_ops() + seq![CoreOp::Move(d)]);
        },
    }
}

/// `to` changes only the data pointer and the reference stack; `from`, run
/// from where `to` arrived, brings both back, whatever happened to the
/// tape, the register and the rest of the machine (`t2`) in between.
pub proof fn lemma_to_then_from(l: Location, m: Machine, t2: Machine)
    requires
        l.wf(),
        m.active(),
        t2.active(),
        run(m, l.to_ops()) is Some,
    ensures
        ({
            let t = run(m, l.to_ops()).unwrap();
            &&& t == m.at(t.ptr, t.refs)
            &&& run(t2.at(t.ptr, t.refs), l.from_ops()) == Some(t2.at(m.ptr, m.refs))
        }),
    decreases l,
{
    match l {
        Location::Address(k) => {
            lemma_run_one(m, CoreOp::Move(k as isize));
            let t = run(m, l.to_ops()).unwrap();
            lemma_run_one(t2.at(t.ptr, t.refs), crate::location::move_back(k as isize));
        },
        Location::Indirect(inner) => {
            assert(l.to_ops() =~= inner.to_ops() + seq![CoreOp::Deref]);
            lemma_run_append(m, inner.to_ops(), seq![CoreOp::Deref]);
            let u = run(m, inner.to_ops()).unwrap();
            lemma_run_one(u, CoreOp::Deref);
            lemma_to_then_from(*inner, m, t2);
            let t = run(m, l.to_ops()).unwrap();
            lemma_run_cons(t2.at(t.ptr, t.refs), CoreOp::Refer, inner.from_ops());
            assert(t.refs.drop_last() =~= u.refs);
            assert(t2.at(t.ptr, t.refs).at(u.ptr, u.refs) == t2.at(u.ptr, u.refs));
        },
        Location::Offset(inner, d) => {
            assert(l.to_ops() =~= inner.to_ops() + seq![CoreOp::Move(d)]);
            lemma_run_append(m, inner.to_ops(), seq![CoreOp::Move(d)]);
            let u = run(m, inner.to_ops()).unwrap();
            lemma_run_one(u, CoreOp::Move(d));
            lemma_to_then_from(*inner, m, t2);
            let t = run(m, l.to_ops()).unwrap();
            lemma_run_cons(t2.at(t.ptr, t.refs), crate::location::move_back(d), inner.from_ops());
            assert(t2.at(t.ptr, t.refs).at(u.ptr, u.refs) == t2.at(u.ptr, u.refs));
        },
    }
}

/// Instructions that move nothing keep the position.
pub proof fn lemma_stationary_seq(ops: Seq<CoreOp>)
    requires
        forall|i: int| 0 <= i < ops.len() ==> is_stationary(#[trigger] ops[i]),
    ensures
        keeps_position(ops),
    decreases ops.len(),
{
    if ops.len() == 0 {
        assert forall|m: Machine| #[trigger] run(m, ops) is Some implies {
            let t = run(m, ops).unwrap();
            &&& t.ptr == m.ptr
            &&& t.refs == m.refs
            &&& t.depth == m.depth
            &&& t.skip == m.skip
        } by {}
    } else {
        let init = ops.drop_last();
        assert forall|i: int| 0 <= i < init.len() implies is_stationary(#[trigger] init[i]) by {
            assert(init[i] == ops[i]);
        }
        lemma_stationary_seq(init);
        assert(is_stationary(ops[ops.len() - 1]));
        lemma_stationary(ops.last());
        assert(ops =~= init + seq![ops.last()]);
        lemma_keeps_append(init, seq![ops.last()]);
    }
}

/// `ops` run on a location keep the position when `ops` do.
pub proof fn lemma_around_keeps(l: Location, ops: Seq<CoreOp>)
    requires
        l.wf(),
        keeps_position(ops),
    ensures
        keeps_position(l.around(ops)),
{
    assert forall|m: Machine| #[trigger] run(m, l.around(ops)) is Some implies {
        let t = run(m, l.around(ops)).unwrap();
        &&& t.ptr == m.ptr
        &&& t.refs == m.refs
        &&& t.depth == m.depth
        &&& t.skip == m.skip
    } by {
        lemma_run_append(m, l.to_ops() + ops, l.from_ops());
        lemma_run_append(m, l.to_ops(), ops);
        lemma_moves_block_free(l);
        if m.active() {
            lemma_to_then_from(l, m, m);
            let t = run(m, l.to_ops()).unwrap();
            assert(run(t, ops) is Some);
            let u = run(t, ops).unwrap();
            lemma_to_then_from(l, m, u);
            assert(u.at(t.ptr, t.refs) == u);
        } else {
            lemma_skipped(m, l.to_ops());
            let u = run(m, ops).unwrap();
            lemma_skipped(u, l.from_ops());
        }
    }
}

/// Running a three-instruction sequence.
proof fn lemma_run_three(m: Machine, a: CoreOp, b: CoreOp, c: CoreOp)
    ensures
        run(m, seq![a, b, c]) == match step(m, a) {
            Some(t1) => match step(t1, b) {
                Some(t2) => step(t2, c),
                None => None,
            },
            None => None,
        },
{
    assert(seq![a, b, c] =~= seq![a] + seq![b, c]);
    lemma_run_cons(m, a, seq![b, c]);
    if step(m, a) is Some {
        let t1 = step(m, a).unwrap();
        assert(seq![b, c] =~= seq![b] + seq![c]);
        lemma_run_cons(t1, b, seq![c]);
        if step(t1, b) is Some {
            lemma_run_one(step(t1, b).unwrap(), c);
        }
    }
}

/// Running a four-instruction sequence.
proof fn lemma_run_four(m: Machine, a: CoreOp, b: CoreOp, c: CoreOp, d: CoreOp)
    ensures
        run(m, seq![a, b, c, d]) == match step(m, a) {
            Some(t1) => run(t1, seq![b, c, d]),
            None => None,
        },
{
    assert(seq![a, b, c, d] =~= seq![a] + seq![b, c, d]);
    lemma_run_cons(m, a, seq![b, c, d]);
}

/// Running a two-instruction sequence.
proof fn lemma_run_two(m: Machine, a: CoreOp, b: CoreOp)
    ensures
        run(m, seq![a, b]) == match step(m, a) {
            Some(t1) => step(t1, b),
            None => None,
        },
{
    assert(seq![a, b] =~= seq![a] + seq![b]);
    lemma_run_cons(m, a, seq![b]);
    if step(m, a) is Some {
        lemma_run_one(step(m, a).unwrap(), b);
    }
}

/// The short-circuit `and` keeps the position.
pub proof fn lemma_and_keeps(l: Location, src: Location)
    requires
        l.wf(),
        src.wf(),
    ensures
        keeps_position(l.and_ops(src)),
{
    let a = seq![CoreOp::Restore, CoreOp::If];
    let c = seq![CoreOp::Else, CoreOp::SetReg(0), CoreOp::End, CoreOp::Save];
    let seq_to = l.to_ops();
    let seq_if = seq_to + a;
    let seq_back = seq_if + l.from_ops();
    let seq_read = seq_back + src.restore_ops();
    let seq_again = seq_read + l.to_ops();
    let seq_close = seq_again + c;
    let mid = l.from_ops() + src.restore_ops() + l.to_ops();
    lemma_moves_block_free(l);
    lemma_moves_block_free(src);
    lemma_block_free_append(src.to_ops(), seq![CoreOp::Restore]);
    lemma_block_free_append(src.to_ops() + seq![CoreOp::Restore], src.from_ops());
    lemma_block_free_append(l.from_ops(), src.restore_ops());
    lemma_block_free_append(l.from_ops() + src.restore_ops(), l.to_ops());
    lemma_stationary(CoreOp::Restore);
    lemma_around_keeps(src, seq![CoreOp::Restore]);
    assert forall|m: Machine| #[trigger] run(m, l.and_ops(src)) is Some implies {
        let t = run(m, l.and_ops(src)).unwrap();
        &&& t.ptr == m.ptr
        &&& t.refs == m.refs
        &&& t.depth == m.depth
        &&& t.skip == m.skip
    } by {
        lemma_run_append(m, seq_close, l.from_ops());
        lemma_run_append(m, seq_again, c);
        lemma_run_append(m, seq_read, l.to_ops());
        lemma_run_append(m, seq_back, src.restore_ops());
        lemma_run_append(m, seq_if, l.from_ops());
        lemma_run_append(m, seq_to, a);
        if m.active() {
            lemma_to_then_from(l, m, m);
            let t1 = run(m, seq_to).unwrap();
            lemma_run_two(t1, CoreOp::Restore, CoreOp::If);
            let t2 = run(m, seq_if).unwrap();
            lemma_run_four(run(m, seq_again).unwrap(), CoreOp::Else, CoreOp::SetReg(0), CoreOp::End, CoreOp::Save);
            if t2.active() {
                lemma_to_then_from(l, m, t2);
                assert(t2.at(t1.ptr, t1.refs) == t2);
                let t3 = run(m, seq_back).unwrap();
                let t4 = run(m, seq_read).unwrap();
                lemma_to_then_from(l, t4, t4);
                let t5 = run(m, seq_again).unwrap();
                let e = step(t5, CoreOp::Else).unwrap();
                lemma_run_three(e, CoreOp::SetReg(0), CoreOp::End, CoreOp::Save);
                let t6 = run(m, seq_close).unwrap();
                lemma_to_then_from(l, t4, t6);
                assert(t6.at(t5.ptr, t5.refs) == t6);
            } else {
                lemma_skipped(t2, l.from_ops());
                lemma_skipped(t2, src.restore_ops());
                lemma_skipped(t2, l.to_ops());
                let e = step(t2, CoreOp::Else).unwrap();
                lemma_run_three(e, CoreOp::SetReg(0), CoreOp::End, CoreOp::Save);
                let t6 = run(m, seq_close).unwrap();
                lemma_to_then_from(l, m, t6);
                assert(t6.at(t1.ptr, t1.refs) == t6);
            }
        } else {
            lemma_skipped(m, l.to_ops());
            lemma_run_two(m, CoreOp::Restore, CoreOp::If);
            let t2 = run(m, seq_if).unwrap();
            lemma_skipped(t2, l.from_ops());
            lemma_skipped(t2, src.restore_ops());
            lemma_skipped(t2, l.to_ops());
            lemma_run_four(t2, CoreOp::Else, CoreOp::SetReg(0), CoreOp::End, CoreOp::Save);
            let e = step(t2, CoreOp::Else).unwrap();
            lemma_run_three(e, CoreOp::SetReg(0), CoreOp::End, CoreOp::Save);
            let t6 = run(m, seq_close).unwrap();
            lemma_skipped(t6, l.from_ops());
        }
    }
}

/// The short-circuit `or` keeps the position.
pub proof fn lemma_or_keeps(l: Location, src: Location)
    requires
        l.wf(),
        src.wf(),
    ensures
        keeps_position(l.or_ops(src)),
{
    let a = seq![CoreOp::Restore, CoreOp::If, CoreOp::SetReg(1), CoreOp::Else];
    let c = seq![CoreOp::End, CoreOp::Save];
    let seq_to = l.to_ops();
    let seq_if = seq_to + a;
    let seq_back = seq_if + l.from_ops();
    let seq_read = seq_back + src.restore_ops();
    let seq_again = seq_read + l.to_ops();
    let seq_close = seq_again + c;
    lemma_moves_block_free(l);
    lemma_moves_block_free(src);
    lemma_block_free_append(src.to_ops(), seq![CoreOp::Restore]);
    lemma_block_free_append(src.to_ops() + seq![CoreOp::Restore], src.from_ops());
    lemma_stationary(CoreOp::Restore);
    lemma_around_keeps(src, seq![CoreOp::Restore]);
    assert forall|m: Machine| #[trigger] run(m, l.or_ops(src)) is Some implies {
        let t = run(m, l.or_ops(src)).unwrap();
        &&& t.ptr == m.ptr
        &&& t.refs == m.refs
        &&& t.depth == m.depth
        &&& t.skip == m.skip
    } by {
        lemma_run_append(m, seq_close, l.from_ops());
        lemma_run_append(m, seq_again, c);
        lemma_run_append(m, seq_read, l.to_ops());
        lemma_run_append(m, seq_back, src.restore_ops());
        lemma_run_append(m, seq_if, l.from_ops());
        lemma_run_append(m, seq_to, a);
        if m.active() {
            lemma_to_then_from(l, m, m);
            let t1 = run(m, seq_to).unwrap();
            lemma_run_four(t1, CoreOp::Restore, CoreOp::If, CoreOp::SetReg(1), CoreOp::Else);
            let r = step(t1, CoreOp::Restore).unwrap();
            lemma_run_three(r, CoreOp::If, CoreOp::SetReg(1), CoreOp::Else);
            let t2 = run(m, seq_if).unwrap();
            lemma_run_two(run(m, seq_again).unwrap(), CoreOp::End, CoreOp::Save);
            if t2.active() {
                lemma_to_then_from(l, m, t2);
                assert(t2.at(t1.ptr, t1.refs) == t2);
                let t4 = run(m, seq_read).unwrap();
                lemma_to_then_from(l, t4, t4);
                let t5 = run(m, seq_again).unwrap();
                let t6 = run(m, seq_close).unwrap();
                lemma_to_then_from(l, t4, t6);
                assert(t6.at(t5.ptr, t5.refs) == t6);
            } else {
                lemma_skipped(t2, l.from_ops());
                lemma_skipped(t2, src.restore_ops());
                lemma_skipped(t2, l.to_ops());
                let t6 = run(m, seq_close).unwrap();
                lemma_to_then_from(l, m, t6);
                assert(t6.at(t1.ptr, t1.refs) == t6);
            }
        } else {
            lemma_skipped(m, l.to_ops());
            lemma_run_four(m, CoreOp::Restore, CoreOp::If, CoreOp::SetReg(1), CoreOp::Else);
            lemma_run_three(m, CoreOp::If, CoreOp::SetReg(1), CoreOp::Else);
            let t2 = run(m, seq_if).unwrap();
            lemma_skipped(t2, l.from_ops());
            lemma_skipped(t2, src.restore_ops());
            lemma_skipped(t2, l.to_ops());
            lemma_run_two(t2, CoreOp::End, CoreOp::Save);
            let t6 = run(m, seq_close).unwrap();
            lemma_skipped(t6, l.from_ops());
        }
    }
}

/// The single-cell operations on a location keep the position.
proof fn lemma_cell_ops_keep(l: Location)
    requires
        l.wf(),
    ensures
        keeps_position(l.save_ops()),
        keeps_position(l.restore_ops()),
        keeps_position(l.whole_int_ops()),
        keeps_position(l.inc_ops()),
        keeps_position(l.dec_ops()),
        keeps_position(l.not_ops()),
        forall|dst: Location| dst.wf() ==> keeps_position(#[trigger] l.copy_ops(dst)),
        forall|dst: Location| dst.wf() ==> keeps_position(#[trigger] l.copy_address_ops(dst)),
{
    let save = seq![CoreOp::Save];
    let restore = seq![CoreOp::Restore];
    let whole = seq![CoreOp::Restore, CoreOp::IsNonNegative, CoreOp::Save];
    let inc = seq![CoreOp::Restore, CoreOp::SetReg(1), CoreOp::Add, CoreOp::Save];
    let dec = seq![CoreOp::Restore, CoreOp::SetReg(-1isize), CoreOp::Add, CoreOp::Save];
    let wher = seq![CoreOp::Where];
    lemma_stationary_seq(save);
    lemma_stationary_seq(restore);
    lemma_stationary_seq(whole);
    lemma_stationary_seq(inc);
    lemma_stationary_seq(dec);
    lemma_stationary_seq(wher);
    lemma_around_keeps(l, save);
    lemma_around_keeps(l, restore);
    lemma_around_keeps(l, whole);
    lemma_around_keeps(l, inc);
    lemma_around_keeps(l, dec);
    lemma_around_keeps(l, wher);
    let branches = seq![CoreOp::If] + seq![CoreOp::SetReg(0)] + seq![CoreOp::Else] + seq![
        CoreOp::SetReg(1),
    ] + seq![CoreOp::End];
    lemma_stationary_seq(seq![CoreOp::SetReg(0)]);
    lemma_stationary_seq(seq![CoreOp::SetReg(1)]);
    lemma_keeps_if_else(seq![CoreOp::SetReg(0)], seq![CoreOp::SetReg(1)]);
    lemma_keeps_append(restore, branches);
    lemma_keeps_append(restore + branches, save);
    assert(restore + branches + save =~= seq![
        CoreOp::Restore,
        CoreOp::If,
        CoreOp::SetReg(0),
        CoreOp::Else,
        CoreOp::SetReg(1),
        CoreOp::End,
        CoreOp::Save,
    ]);
    lemma_around_keeps(l, restore + branches + save);
    assert forall|dst: Location| dst.wf() implies keeps_position(#[trigger] l.copy_ops(dst)) by {
        lemma_around_keeps(dst, save);
        lemma_keeps_append(l.restore_ops(), dst.save_ops());
    }
    assert forall|dst: Location| dst.wf() implies keeps_position(
        #[trigger] l.copy_address_ops(dst),
    ) by {
        lemma_around_keeps(dst, save);
        lemma_keeps_append(l.around(wher), dst.save_ops());
    }
}

/// `self = self op src` keeps the position.
proof fn lemma_binop_keeps(l: Location, op: CoreOp, src: Location)
    requires
        l.wf(),
        src.wf(),
        is_stationary(op),
    ensures
        keeps_position(l.binop_ops(op, src)),
{
    lemma_cell_ops_keep(l);
    lemma_stationary(op);
    lemma_around_keeps(src, seq![op]);
    lemma_keeps_append(l.restore_ops(), src.around(seq![op]));
    lemma_keeps_append(l.restore_ops() + src.around(seq![op]), l.save_ops());
}

/// Every composite operation on a location leaves the data pointer where it
/// found it, on every machine state on which the operation runs to its end.
/// The reference stack and the open `If` blocks are left as they were too.
/// `src` is the second operand of the binary operations, and `n` the
/// constant of `set`, `next` and `prev`.
pub proof fn lemma_pointer_restoration(l: Location, src: Location, n: isize)
    requires
        l.wf(),
        src.wf(),
        n != isize::MIN,
    ensures
        keeps_position(l.to_ops() + l.from_ops()),
        keeps_position(l.set_ops(n)),
        keeps_position(l.save_ops()),
        keeps_position(l.restore_ops()),
        keeps_position(l.copy_ops(src)),
        keeps_position(l.copy_address_ops(src)),
        keeps_position(l.push_ops()),
        keeps_position(l.pop_ops()),
        keeps_position(l.inc_ops()),
        keeps_position(l.dec_ops()),
        keeps_position(l.whole_int_ops()),
        keeps_position(l.not_ops()),
        keeps_position(l.and_ops(src)),
        keeps_position(l.or_ops(src)),
        keeps_position(l.binop_ops(CoreOp::Add, src)),
        keeps_position(l.binop_ops(CoreOp::Sub, src)),
        keeps_position(l.binop_ops(CoreOp::Mul, src)),
        keeps_position(l.binop_ops(CoreOp::Div, src)),
        keeps_position(l.binop_ops(CoreOp::Rem, src)),
        keeps_position(l.is_greater_than_ops(src)),
        keeps_position(l.is_greater_or_equal_to_ops(src)),
        keeps_position(l.is_less_than_ops(src)),
        keeps_position(l.is_less_or_equal_to_ops(src)),
        keeps_position(l.next_ops(n)),
        keeps_position(l.prev_ops(n)),
{
    let tmp = Location::Address(TMP);
    let sp = Location::Address(SP);
    lemma_stationary_seq(Seq::<CoreOp>::empty());
    lemma_around_keeps(l, Seq::<CoreOp>::empty());
    assert(l.around(Seq::<CoreOp>::empty()) =~= l.to_ops() + l.from_ops());
    lemma_cell_ops_keep(l);
    lemma_cell_ops_keep(src);
    lemma_cell_ops_keep(tmp);
    lemma_stationary(CoreOp::SetReg(n));
    lemma_keeps_append(seq![CoreOp::SetReg(n)], l.save_ops());
    // push and pop
    let top = sp.deref_spec();
    assert(sp.wf());
    assert(top.wf());
    assert(top.offset_spec(1).wf());
    assert(top.offset_spec(-1isize).wf());
    lemma_cell_ops_keep(top);
    lemma_cell_ops_keep(top.offset_spec(1));
    lemma_cell_ops_keep(top.offset_spec(-1isize));
    lemma_keeps_append(top.offset_spec(1).copy_address_ops(sp), l.copy_ops(top));
    lemma_keeps_append(top.copy_ops(l), top.offset_spec(-1isize).copy_address_ops(sp));
    // boolean operations
    lemma_and_keeps(l, src);
    lemma_or_keeps(l, src);
    // arithmetic
    lemma_binop_keeps(l, CoreOp::Add, src);
    lemma_binop_keeps(l, CoreOp::Sub, src);
    lemma_binop_keeps(l, CoreOp::Mul, src);
    lemma_binop_keeps(l, CoreOp::Div, src);
    lemma_binop_keeps(l, CoreOp::Rem, src);
    // comparisons
    lemma_binop_keeps(tmp, CoreOp::Sub, src);
    lemma_binop_keeps(tmp, CoreOp::Sub, l);
    let gt1 = l.copy_ops(tmp) + tmp.binop_ops(CoreOp::Sub, src);
    lemma_keeps_append(l.copy_ops(tmp), tmp.binop_ops(CoreOp::Sub, src));
    lemma_keeps_append(gt1, tmp.dec_ops());
    lemma_keeps_append(gt1 + tmp.dec_ops(), tmp.whole_int_ops());
    lemma_keeps_append(gt1 + tmp.dec_ops() + tmp.whole_int_ops(), l.save_ops());
    lemma_keeps_append(gt1, tmp.whole_int_ops());
    lemma_keeps_append(gt1 + tmp.whole_int_ops(), l.save_ops());
    let lt1 = src.copy_ops(tmp) + tmp.binop_ops(CoreOp::Sub, l);
    lemma_keeps_append(src.copy_ops(tmp), tmp.binop_ops(CoreOp::Sub, l));
    lemma_keeps_append(lt1, tmp.dec_ops());
    lemma_keeps_append(lt1 + tmp.dec_ops(), tmp.whole_int_ops());
    lemma_keeps_append(lt1 + tmp.dec_ops() + tmp.whole_int_ops(), l.save_ops());
    lemma_keeps_append(lt1, tmp.whole_int_ops());
    lemma_keeps_append(lt1 + tmp.whole_int_ops(), l.save_ops());
    // pointer walks
    assert(l.deref_spec().wf());
    assert(l.deref_spec().offset_spec(n).wf());
    assert(l.deref_spec().offset_spec((-n) as isize).wf());
    lemma_cell_ops_keep(l.deref_spec().offset_spec(n));
    lemma_cell_ops_keep(l.deref_spec().offset_spec((-n) as isize));
}

/// Moving onto a location and back leaves the machine exactly as it was,
/// reference stack included, whenever the move onto it succeeds.
pub proof fn lemma_indirection_pairing(l: Location, m: Machine)
    requires
        l.wf(),
    ensures
        run(m, l.to_ops() + l.from_ops()) == if run(m, l.to_ops()) is Some {
            Some(m)
        } else {
            None
        },
        run(m, l.to_ops() + l.from_ops()) is Some ==> run(m, l.to_ops()
            + l.from_ops()).unwrap().refs.len() == m.refs.len(),
{
    lemma_run_append(m, l.to_ops(), l.from_ops());
    if run(m, l.to_ops()) is Some {
        if m.active() {
            lemma_to_then_from(l, m, m);
            assert(m.at(m.ptr, m.refs) == m);
        } else {
            lemma_moves_block_free(l);
            lemma_skipped(m, l.to_ops());
            lemma_skipped(m, l.from_ops());
        }
    }
}

/// Two moves in a row act as one move by their sum.
proof fn lemma_moves_add(m: Machine, a: isize, b: isize)
    requires
        isize::MIN <= a + b <= isize::MAX,
    ensures
        run(m, seq![CoreOp::Move(a), CoreOp::Move(b)]) == run(m, seq![CoreOp::Move((a + b) as isize)]),
{
    lemma_run_two(m, CoreOp::Move(a), CoreOp::Move(b));
    lemma_run_one(m, CoreOp::Move((a + b) as isize));
}

/// Offsetting a location by `a`, then by `b`, designates the same cell as
/// offsetting it by `a + b`: moving onto it, moving back from it, and any
/// instructions run on it, act alike on every machine state.
pub proof fn lemma_offset_algebra(l: Location, a: isize, b: isize, ops: Seq<CoreOp>, m: Machine)
    requires
        l.wf(),
        a != isize::MIN,
        b != isize::MIN,
        isize::MIN < a + b <= isize::MAX,
    ensures
        ({
            let twice = l.offset_spec(a).offset_spec(b);
            let once = l.offset_spec((a + b) as isize);
            &&& run(m, twice.to_ops()) == run(m, once.to_ops())
            &&& run(m, twice.from_ops()) == run(m, once.from_ops())
            &&& run(m, twice.around(ops)) == run(m, once.around(ops))
        }),
{
    let twice = l.offset_spec(a).offset_spec(b);
    let once = l.offset_spec((a + b) as isize);
    assert(l.offset_spec(a).to_ops() == l.to_ops().push(CoreOp::Move(a)));
    assert(l.offset_spec(a).from_ops() == seq![crate::location::move_back(a)] + l.from_ops());
    assert(twice.to_ops() =~= l.to_ops() + seq![CoreOp::Move(a), CoreOp::Move(b)]);
    assert(once.to_ops() =~= l.to_ops() + seq![CoreOp::Move((a + b) as isize)]);
    lemma_run_append(m, l.to_ops(), seq![CoreOp::Move(a), CoreOp::Move(b)]);
    lemma_run_append(m, l.to_ops(), seq![CoreOp::Move((a + b) as isize)]);
    if run(m, l.to_ops()) is Some {
        lemma_moves_add(run(m, l.to_ops()).unwrap(), a, b);
    }
    let back = seq![crate::location::move_back(b), crate::location::move_back(a)];
    assert(twice.from_ops() =~= back + l.from_ops());
    assert(once.from_ops() =~= seq![crate::location::move_back((a + b) as isize)] + l.from_ops());
    lemma_run_append(m, back, l.from_ops());
    lemma_run_append(m, seq![crate::location::move_back((a + b) as isize)], l.from_ops());
    lemma_moves_add(m, (-b) as isize, (-a) as isize);
    assert(forall|t: Machine| #[trigger] run(t, twice.from_ops()) == run(t, once.from_ops())) by {
        assert forall|t: Machine| #[trigger] run(t, twice.from_ops()) == run(t, once.from_ops()) by {
            lemma_run_append(t, back, l.from_ops());
            lemma_run_append(
                t,
                seq![crate::location::move_back((a + b) as isize)],
                l.from_ops(),
            );
            lemma_moves_add(t, (-b) as isize, (-a) as isize);
        }
    }
    lemma_run_append(m, twice.to_ops() + ops, twice.from_ops());
    lemma_run_append(m, once.to_ops() + ops, once.from_ops());
    lemma_run_append(m, twice.to_ops(), ops);
    lemma_run_append(m, once.to_ops(), ops);
}

/// An offset from a fixed address is the fixed address moved by the offset.
pub proof fn lemma_offset_of_address(k: usize, d: isize, ops: Seq<CoreOp>, m: Machine)
    requires
        k <= isize::MAX,
        d != isize::MIN,
        0 <= k + d <= isize::MAX,
    ensures
        ({
            let shifted = Location::Address(k).offset_spec(d);
            let fixed = Location::Address((k + d) as usize);
            &&& run(m, shifted.to_ops()) == run(m, fixed.to_ops())
            &&& run(m, shifted.from_ops()) == run(m, fixed.from_ops())
            &&& run(m, shifted.around(ops)) == run(m, fixed.around(ops))
        }),
{
    let shifted = Location::Address(k).offset_spec(d);
    let fixed = Location::Address((k + d) as usize);
    assert(Location::Address(k).to_ops() == seq![CoreOp::Move(k as isize)]);
    assert(Location::Address(k).from_ops() == seq![crate::location::move_back(k as isize)]);
    assert(shifted.to_ops() =~= seq![CoreOp::Move(k as isize), CoreOp::Move(d)]);
    lemma_moves_add(m, k as isize, d);
    assert(shifted.from_ops() =~= seq![
        crate::location::move_back(d),
        crate::location::move_back(k as isize),
    ]);
    assert forall|t: Machine| #[trigger] run(t, shifted.from_ops()) == run(t, fixed.from_ops()) by {
        lemma_moves_add(t, (-d) as isize, (-k) as isize);
    }
    lemma_run_append(m, shifted.to_ops() + ops, shifted.from_ops());
    lemma_run_append(m, fixed.to_ops() + ops, fixed.from_ops());
    lemma_run_append(m, shifted.to_ops(), ops);
    lemma_run_append(m, fixed.to_ops(), ops);
}

/// The cell that `l` designates when the data pointer is at `base`.
pub open spec fn cell_of(l: Location, tape: Seq<i64>, base: int) -> int
    decreases l,
{
    match l {
        Location::Address(k) => base + k,
        Location::Indirect(inner) => tape[cell_of(*inner, tape, base)] as int,
        Location::Offset(inner, d) => cell_of(*inner, tape, base) + d,
    }
}

/// Whether every address that `l` reads on the way is on the tape.
pub open spec fn reachable(l: Location, tape: Seq<i64>, base: int) -> bool
    decreases l,
{
    match l {
        Location::Address(_) => true,
        Location::Indirect(inner) => {
            &&& reachable(*inner, tape, base)
            &&& 0 <= cell_of(*inner, tape, base) < tape.len()
        },
        Location::Offset(inner, _) => reachable(*inner, tape, base),
    }
}

/// `to` succeeds exactly when the location is reachable, and then puts the
/// data pointer on the cell it designates.
pub proof fn lemma_to_reaches(l: Location, m: Machine)
    requires
        l.wf(),
        m.active(),
    ensures
        (run(m, l.to_ops()) is Some) == reachable(l, m.tape, m.ptr),
        run(m, l.to_ops()) is Some ==> run(m, l.to_ops()).unwrap().ptr == cell_of(
            l,
            m.tape,
            m.ptr,
        ),
    decreases l,
{
    match l {
        Location::Address(k) => {
            assert(l.to_ops() == seq![CoreOp::Move(k as isize)]);
            lemma_run_one(m, CoreOp::Move(k as isize));
            assert((k as isize) as int == k);
        },
        Location::Indirect(inner) => {
            assert(l.to_ops() =~= inner.to_ops() + seq![CoreOp::Deref]);
            lemma_run_append(m, inner.to_ops(), seq![CoreOp::Deref]);
            lemma_to_reaches(*inner, m);
            if run(m, inner.to_ops()) is Some {
                let u = run(m, inner.to_ops()).unwrap();
                lemma_to_then_from(*inner, m, m);
                assert(u.tape == m.tape);
                lemma_run_one(u, CoreOp::Deref);
                if step(u, CoreOp::Deref) is Some {
                    assert(step(u, CoreOp::Deref).unwrap().ptr == u.tape[u.ptr] as int);
                }
                assert(run(m, l.to_ops()) == step(u, CoreOp::Deref));
                assert(cell_of(l, m.tape, m.ptr) == m.tape[cell_of(*inner, m.tape, m.ptr)] as int);
            }
        },
        Location::Offset(inner, d) => {
            assert(l.to_ops() =~= inner.to_ops() + seq![CoreOp::Move(d)]);
            lemma_run_append(m, inner.to_ops(), seq![CoreOp::Move(d)]);
            lemma_to_reaches(*inner, m);
            if run(m, inner.to_ops()) is Some {
                let u = run(m, inner.to_ops()).unwrap();
                lemma_to_then_from(*inner, m, m);
                lemma_run_one(u, CoreOp::Move(d));
                assert(run(m, l.to_ops()).unwrap().ptr == u.ptr + d);
                assert(cell_of(l, m.tape, m.ptr) == cell_of(*inner, m.tape, m.ptr) + d);
            }
        },
    }
}

/// One stationary instruction run on a location acts on the cell the
/// location designates, and leaves the pointer and reference stack as they
/// were.
pub proof fn lemma_around_one(l: Location, op: CoreOp, m: Machine)
    requires
        l.wf(),
        m.active(),
        is_stationary(op),
    ensures
        run(m, l.around(seq![op])) == if reachable(l, m.tape, m.ptr) {
            match step(m.at(cell_of(l, m.tape, m.ptr), m.refs), op) {
                Some(u) => Some(u.at(m.ptr, m.refs)),
                None => None,
            }
        } else {
            None
        },
{
    lemma_to_reaches(l, m);
    lemma_run_append(m, l.to_ops() + seq![op], l.from_ops());
    lemma_run_append(m, l.to_ops(), seq![op]);
    if reachable(l, m.tape, m.ptr) {
        lemma_to_then_from(l, m, m);
        let t = run(m, l.to_ops()).unwrap();
        let c = cell_of(l, m.tape, m.ptr);
        lemma_run_one(t, op);
        let here = m.at(c, m.refs);
        assert(t == here.at(c, t.refs));
        if step(here, op) is Some {
            let u = step(here, op).unwrap();
            assert(step(t, op) == Some(u.at(c, t.refs)));
            lemma_to_then_from(l, m, u);
            assert(u.at(c, t.refs).at(t.ptr, t.refs) == u.at(c, t.refs));
            assert(u.at(t.ptr, t.refs).at(m.ptr, m.refs) == u.at(m.ptr, m.refs));
        } else {
            assert(step(t, op) is None);
        }
    }
}

/// `set` writes its constant into the cell the location designates.
pub proof fn lemma_set_writes(l: Location, n: isize, m: Machine)
    requires
        l.wf(),
        m.active(),
    ensures
        run(m, l.set_ops(n)) == if reachable(l, m.tape, m.ptr) && 0 <= cell_of(l, m.tape, m.ptr)
            < m.tape.len() {
            Some(
                Machine {
                    tape: m.tape.update(cell_of(l, m.tape, m.ptr), n as i64),
                    reg: n as i64,
                    ..m
                },
            )
        } else {
            None
        },
{
    lemma_run_cons(m, CoreOp::SetReg(n), l.save_ops());
    let r = step(m, CoreOp::SetReg(n)).unwrap();
    lemma_around_one(l, CoreOp::Save, r);
}

/// `copy_address_to` writes the address of the cell `l` designates into the
/// cell `dst` designates: the primitive of pointer arithmetic.
pub proof fn lemma_copy_address_writes(l: Location, dst: Location, m: Machine)
    requires
        l.wf(),
        dst.wf(),
        m.active(),
        reachable(l, m.tape, m.ptr),
    ensures
        run(m, l.copy_address_ops(dst)) == if reachable(dst, m.tape, m.ptr) && 0 <= cell_of(
            dst,
            m.tape,
            m.ptr,
        ) < m.tape.len() {
            Some(
                Machine {
                    tape: m.tape.update(
                        cell_of(dst, m.tape, m.ptr),
                        cell_of(l, m.tape, m.ptr) as i64,
                    ),
                    reg: cell_of(l, m.tape, m.ptr) as i64,
                    ..m
                },
            )
        } else {
            None
        },
{
    lemma_run_append(m, l.around(seq![CoreOp::Where]), dst.save_ops());
    lemma_around_one(l, CoreOp::Where, m);
    let w = run(m, l.around(seq![CoreOp::Where])).unwrap();
    lemma_around_one(dst, CoreOp::Save, w);
}

/// `next(l, n)` moves the pointer stored in the cell `l` designates `n`
/// cells forward: that cell then holds its old value plus `n`.
pub proof fn lemma_next_moves(l: Location, n: isize, m: Machine)
    requires
        l.wf(),
        n != isize::MIN,
        m.active(),
        reachable(l, m.tape, m.ptr),
        0 <= cell_of(l, m.tape, m.ptr) < m.tape.len(),
    ensures
        ({
            let c = cell_of(l, m.tape, m.ptr);
            run(m, l.next_ops(n)) == Some(
                Machine {
                    tape: m.tape.update(c, (m.tape[c] + n) as i64),
                    reg: (m.tape[c] + n) as i64,
                    ..m
                },
            )
        }),
{
    let target = l.deref_spec().offset_spec(n);
    assert(l.deref_spec().wf());
    assert(target.wf());
    assert(reachable(l.deref_spec(), m.tape, m.ptr));
    assert(reachable(target, m.tape, m.ptr));
    assert(cell_of(l.deref_spec(), m.tape, m.ptr) == m.tape[cell_of(l, m.tape, m.ptr)] as int);
    assert(cell_of(target, m.tape, m.ptr) == m.tape[cell_of(l, m.tape, m.ptr)] + n);
    lemma_copy_address_writes(target, l, m);
}

/// Run by the interpreter to its end, straight-line code that keeps the
/// position (every composite operation without an `If`, by
/// `lemma_pointer_restoration`) leaves the data pointer and the reference
/// stack where they were.
pub proof fn lemma_interpreter_restores_pointer(ops: Seq<CoreOp>, t: Matching, s: Vm, n: nat)
    requires
        straight_line(ops),
        keeps_position(ops),
        s.m.active(),
        s.pc == 0,
        vm_run(ops, t, s, n) matches Ok((_, Status::Halted)),
    ensures
        vm_run(ops, t, s, n)->Ok_0.0.m.ptr == s.m.ptr,
        vm_run(ops, t, s, n)->Ok_0.0.m.refs == s.m.refs,
{
    lemma_interpreter_follows_model(ops, t, s, n);
    assert(ops.skip(0) =~= ops);
}

/// Whether every instruction of `ops` is stationary.
pub open spec fn all_stationary(ops: Seq<CoreOp>) -> bool {
    forall|i: int| 0 <= i < ops.len() ==> is_stationary(#[trigger] ops[i])
}

/// Stationary instructions neither read nor move the reference stack.
proof fn lemma_stationary_any_refs(m: Machine, ops: Seq<CoreOp>, refs: Seq<int>)
    requires
        all_stationary(ops),
    ensures
        run(m.at(m.ptr, refs), ops) == match run(m, ops) {
            Some(u) => Some(u.at(u.ptr, refs)),
            None => None,
        },
    decreases ops.len(),
{
    if ops.len() > 0 {
        let init = ops.drop_last();
        assert(all_stationary(init)) by {
            assert forall|i: int| 0 <= i < init.len() implies is_stationary(#[trigger] init[i]) by {
                assert(init[i] == ops[i]);
            }
        }
        lemma_stationary_any_refs(m, init, refs);
        assert(is_stationary(ops[ops.len() - 1]));
        lemma_stationary(ops.last());
        if run(m, init) is Some {
            let u = run(m, init).unwrap();
            lemma_run_one(u, ops.last());
            lemma_run_one(u.at(u.ptr, refs), ops.last());
            if step(u, ops.last()) is Some {
                let w = step(u, ops.last()).unwrap();
                assert(run(u, seq![ops.last()]) == Some(w));
                assert(w.ptr == u.ptr);
            }
        }
    }
}

/// Stationary instructions run on a location act on the cell it designates.
pub proof fn lemma_around_cell(l: Location, ops: Seq<CoreOp>, m: Machine)
    requires
        l.wf(),
        m.active(),
        all_stationary(ops),
    ensures
        run(m, l.around(ops)) == if reachable(l, m.tape, m.ptr) {
            match run(m.at(cell_of(l, m.tape, m.ptr), m.refs), ops) {
                Some(u) => Some(u.at(m.ptr, m.refs)),
                None => None,
            }
        } else {
            None
        },
{
    lemma_to_reaches(l, m);
    lemma_run_append(m, l.to_ops() + ops, l.from_ops());
    lemma_run_append(m, l.to_ops(), ops);
    lemma_stationary_seq(ops);
    if reachable(l, m.tape, m.ptr) {
        lemma_to_then_from(l, m, m);
        let t = run(m, l.to_ops()).unwrap();
        let c = cell_of(l, m.tape, m.ptr);
        let here = m.at(c, m.refs);
        assert(t == here.at(c, t.refs));
        lemma_stationary_any_refs(here, ops, t.refs);
        if run(here, ops) is Some {
            let u = run(here, ops).unwrap();
            assert(u.ptr == c);
            assert(u.active());
            lemma_to_then_from(l, m, u);
            assert(u.at(u.ptr, t.refs) == u.at(t.ptr, t.refs));
            assert(u.at(t.ptr, t.refs).at(m.ptr, m.refs) == u.at(m.ptr, m.refs));
        }
    }
}

/// Whether the fixed address `k` is on the tape when the pointer is at `m.ptr`.
pub open spec fn fixed_on_tape(m: Machine, k: usize) -> bool {
    k <= isize::MAX && 0 <= m.ptr + k < m.tape.len()
}

/// The value of the fixed address `k`.
pub open spec fn fixed(m: Machine, k: usize) -> i64 {
    m.tape[m.ptr + k]
}

proof fn lemma_fixed_restore(k: usize, m: Machine)
    requires
        m.active(),
        fixed_on_tape(m, k),
    ensures
        run(m, Location::Address(k).restore_ops()) == Some(m.with_reg(fixed(m, k))),
{
    lemma_stationary_seq(seq![CoreOp::Restore]);
    lemma_around_cell(Location::Address(k), seq![CoreOp::Restore], m);
    lemma_run_one(m.at(m.ptr + k, m.refs), CoreOp::Restore);
    assert(m.with_reg(fixed(m, k)).at(m.ptr + k, m.refs).at(m.ptr, m.refs) == m.with_reg(fixed(m, k)));
}

proof fn lemma_fixed_save(k: usize, m: Machine)
    requires
        m.active(),
        fixed_on_tape(m, k),
    ensures
        run(m, Location::Address(k).save_ops()) == Some(
            Machine { tape: m.tape.update(m.ptr + k, m.reg), ..m },
        ),
{
    lemma_around_cell(Location::Address(k), seq![CoreOp::Save], m);
    lemma_run_one(m.at(m.ptr + k, m.refs), CoreOp::Save);
}

proof fn lemma_fixed_dec(k: usize, m: Machine)
    requires
        m.active(),
        fixed_on_tape(m, k),
    ensures
        ({
            let v = i64_specs::wrapping_add(fixed(m, k), -1i64);
            run(m, Location::Address(k).dec_ops()) == Some(
                Machine { tape: m.tape.update(m.ptr + k, v), reg: v, ..m },
            )
        }),
{
    let ops = seq![CoreOp::Restore, CoreOp::SetReg(-1isize), CoreOp::Add, CoreOp::Save];
    lemma_around_cell(Location::Address(k), ops, m);
    let here = m.at(m.ptr + k, m.refs);
    lemma_run_four(here, CoreOp::Restore, CoreOp::SetReg(-1isize), CoreOp::Add, CoreOp::Save);
    let r = step(here, CoreOp::Restore).unwrap();
    lemma_run_three(r, CoreOp::SetReg(-1isize), CoreOp::Add, CoreOp::Save);
}

proof fn lemma_fixed_whole_int(k: usize, m: Machine)
    requires
        m.active(),
        fixed_on_tape(m, k),
    ensures
        ({
            let v: i64 = if fixed(m, k) >= 0 { 1 } else { 0 };
            run(m, Location::Address(k).whole_int_ops()) == Some(
                Machine { tape: m.tape.update(m.ptr + k, v), reg: v, ..m },
            )
        }),
{
    let ops = seq![CoreOp::Restore, CoreOp::IsNonNegative, CoreOp::Save];
    lemma_around_cell(Location::Address(k), ops, m);
    lemma_run_three(m.at(m.ptr + k, m.refs), CoreOp::Restore, CoreOp::IsNonNegative, CoreOp::Save);
}

/// Whether the path of `l` reads no address from the cell `q`.
pub open spec fn avoids(l: Location, tape: Seq<i64>, base: int, q: int) -> bool
    decreases l,
{
    match l {
        Location::Address(_) => true,
        Location::Indirect(inner) => avoids(*inner, tape, base, q) && cell_of(*inner, tape, base)
            != q,
        Location::Offset(inner, _) => avoids(*inner, tape, base, q),
    }
}

/// Writing a cell that a location's path does not read leaves the cell it
/// designates where it was.
pub proof fn lemma_avoids_update(l: Location, tape: Seq<i64>, base: int, q: int, v: i64)
    requires
        0 <= q < tape.len(),
        reachable(l, tape, base),
        avoids(l, tape, base, q),
    ensures
        reachable(l, tape.update(q, v), base),
        cell_of(l, tape.update(q, v), base) == cell_of(l, tape, base),
        avoids(l, tape.update(q, v), base, q),
    decreases l,
{
    match l {
        Location::Address(_) => {},
        Location::Indirect(inner) => {
            lemma_avoids_update(*inner, tape, base, q, v);
        },
        Location::Offset(inner, _) => {
            lemma_avoids_update(*inner, tape, base, q, v);
        },
    }
}

/// Whether `l` and `src` designate cells on the tape that are not the cell
/// at `TMP`, along paths that do not read the cell at `TMP`.
pub open spec fn clear_of_tmp(l: Location, src: Location, m: Machine) -> bool {
    let t = m.ptr + TMP;
    &&& fixed_on_tape(m, TMP)
    &&& readable(l, m)
    &&& readable(src, m)
    &&& cell_of(l, m.tape, m.ptr) != t
    &&& cell_of(src, m.tape, m.ptr) != t
    &&& avoids(l, m.tape, m.ptr, t)
    &&& avoids(src, m.tape, m.ptr, t)
}

/// `copy_to` of `l` then `sub` of `src` into `TMP`: `TMP` holds the
/// difference.
proof fn lemma_difference(l: Location, src: Location, m: Machine)
    requires
        l.wf(),
        src.wf(),
        m.active(),
        clear_of_tmp(l, src, m),
    ensures
        ({
            let tmp = Location::Address(TMP);
            let a = m.tape[cell_of(l, m.tape, m.ptr)];
            let b = m.tape[cell_of(src, m.tape, m.ptr)];
            run(m, l.copy_ops(tmp) + tmp.binop_ops(CoreOp::Sub, src)) == Some(
                written(m, m.ptr + TMP, i64_specs::wrapping_sub(a, b)),
            )
        }),
{
    let tmp = Location::Address(TMP);
    let t = m.ptr + TMP;
    let a = m.tape[cell_of(l, m.tape, m.ptr)];
    let cs = cell_of(src, m.tape, m.ptr);
    assert(tmp.wf());
    lemma_run_append(m, l.copy_ops(tmp), tmp.binop_ops(CoreOp::Sub, src));
    lemma_copy_writes(l, tmp, m);
    let m1 = written(m, t, a);
    assert(run(m, l.copy_ops(tmp)) == Some(m1));
    lemma_run_append(m1, tmp.restore_ops() + src.around(seq![CoreOp::Sub]), tmp.save_ops());
    lemma_run_append(m1, tmp.restore_ops(), src.around(seq![CoreOp::Sub]));
    lemma_fixed_restore(TMP, m1);
    let m2 = m1.with_reg(a);
    lemma_avoids_update(src, m.tape, m.ptr, t, a);
    lemma_around_one(src, CoreOp::Sub, m2);
    lemma_run_one(m2.at(cs, m2.refs), CoreOp::Sub);
    let d = i64_specs::wrapping_sub(a, m.tape[cs]);
    let m3 = m2.with_reg(d);
    assert(run(m2, src.around(seq![CoreOp::Sub])) == Some(m3));
    lemma_fixed_save(TMP, m3);
    assert(m1.tape.update(t, d) =~= m.tape.update(t, d));
}

/// The tail shared by the comparisons: an optional `dec` of `TMP`, its
/// `whole_int`, and the save of the result into `l`.
proof fn lemma_sign_to(l: Location, dec: bool, m: Machine)
    requires
        l.wf(),
        m.active(),
        fixed_on_tape(m, TMP),
        readable(l, m),
        avoids(l, m.tape, m.ptr, m.ptr + TMP),
    ensures
        ({
            let tmp = Location::Address(TMP);
            let v = if dec { i64_specs::wrapping_add(fixed(m, TMP), -1i64) } else { fixed(m, TMP) };
            let r: i64 = if v >= 0 { 1 } else { 0 };
            let ops = if dec {
                tmp.dec_ops() + tmp.whole_int_ops() + l.save_ops()
            } else {
                tmp.whole_int_ops() + l.save_ops()
            };
            run(m, ops) matches Some(w) && w.ptr == m.ptr && w.refs == m.refs && w.tape[cell_of(
                l,
                m.tape,
                m.ptr,
            )] == r
        }),
{
    let tmp = Location::Address(TMP);
    let t = m.ptr + TMP;
    let mut w = m;
    if dec {
        lemma_run_append(m, tmp.dec_ops() + tmp.whole_int_ops(), l.save_ops());
        lemma_run_append(m, tmp.dec_ops(), tmp.whole_int_ops());
        lemma_fixed_dec(TMP, m);
        w = run(m, tmp.dec_ops()).unwrap();
        lemma_avoids_update(l, m.tape, m.ptr, t, w.reg);
    } else {
        lemma_run_append(m, tmp.whole_int_ops(), l.save_ops());
    }
    lemma_fixed_whole_int(TMP, w);
    let u = run(w, tmp.whole_int_ops()).unwrap();
    lemma_avoids_update(l, w.tape, w.ptr, t, u.reg);
    lemma_around_one(l, CoreOp::Save, u);
    lemma_run_one(u.at(cell_of(l, m.tape, m.ptr), u.refs), CoreOp::Save);
}

/// With `a` in the cell of `l` and `b` in the cell of `src`, and `a - b - 1`
/// in range, `is_greater_than` leaves 1 in the cell of `l` when `a > b`, 0
/// otherwise.
pub proof fn lemma_is_greater_than(l: Location, src: Location, m: Machine)
    requires
        l.wf(),
        src.wf(),
        m.active(),
        clear_of_tmp(l, src, m),
        i64::MIN <= m.tape[cell_of(l, m.tape, m.ptr)] - m.tape[cell_of(src, m.tape, m.ptr)] - 1,
        m.tape[cell_of(l, m.tape, m.ptr)] - m.tape[cell_of(src, m.tape, m.ptr)] <= i64::MAX,
    ensures
        ({
            let a = m.tape[cell_of(l, m.tape, m.ptr)];
            let b = m.tape[cell_of(src, m.tape, m.ptr)];
            run(m, l.is_greater_than_ops(src)) matches Some(w) && w.ptr == m.ptr && w.tape[cell_of(
                l,
                m.tape,
                m.ptr,
            )] == if a > b { 1i64 } else { 0i64 }
        }),
{
    let tmp = Location::Address(TMP);
    let head = l.copy_ops(tmp) + tmp.binop_ops(CoreOp::Sub, src);
    let tail = tmp.dec_ops() + tmp.whole_int_ops() + l.save_ops();
    assert(l.is_greater_than_ops(src) =~= head + tail);
    lemma_run_append(m, head, tail);
    lemma_difference(l, src, m);
    let d = run(m, head).unwrap();
    lemma_avoids_update(l, m.tape, m.ptr, m.ptr + TMP, d.reg);
    lemma_sign_to(l, true, d);
}

/// With `a` in the cell of `l` and `b` in the cell of `src`, and `a - b` in
/// range, `is_greater_or_equal_to` leaves 1 in the cell of `l` when
/// `a >= b`, 0 otherwise.
pub proof fn lemma_is_greater_or_equal_to(l: Location, src: Location, m: Machine)
    requires
        l.wf(),
        src.wf(),
        m.active(),
        clear_of_tmp(l, src, m),
        i64::MIN <= m.tape[cell_of(l, m.tape, m.ptr)] - m.tape[cell_of(src, m.tape, m.ptr)]
            <= i64::MAX,
    ensures
        ({
            let a = m.tape[cell_of(l, m.tape, m.ptr)];
            let b = m.tape[cell_of(src, m.tape, m.ptr)];
            run(m, l.is_greater_or_equal_to_ops(src)) matches Some(w) && w.ptr == m.ptr
                && w.tape[cell_of(l, m.tape, m.ptr)] == if a >= b { 1i64 } else { 0i64 }
        }),
{
    let tmp = Location::Address(TMP);
    let head = l.copy_ops(tmp) + tmp.binop_ops(CoreOp::Sub, src);
    let tail = tmp.whole_int_ops() + l.save_ops();
    assert(l.is_greater_or_equal_to_ops(src) =~= head + tail);
    lemma_run_append(m, head, tail);
    lemma_difference(l, src, m);
    let d = run(m, head).unwrap();
    lemma_avoids_update(l, m.tape, m.ptr, m.ptr + TMP, d.reg);
    lemma_sign_to(l, false, d);
}

/// With `a` in the cell of `l` and `b` in the cell of `src`, and `b - a - 1`
/// in range, `is_less_than` leaves 1 in the cell of `l` when `a < b`, 0
/// otherwise.
pub proof fn lemma_is_less_than(l: Location, src: Location, m: Machine)
    requires
        l.wf(),
        src.wf(),
        m.active(),
        clear_of_tmp(l, src, m),
        i64::MIN <= m.tape[cell_of(src, m.tape, m.ptr)] - m.tape[cell_of(l, m.tape, m.ptr)] - 1,
        m.tape[cell_of(src, m.tape, m.ptr)] - m.tape[cell_of(l, m.tape, m.ptr)] <= i64::MAX,
    ensures
        ({
            let a = m.tape[cell_of(l, m.tape, m.ptr)];
            let b = m.tape[cell_of(src, m.tape, m.ptr)];
            run(m, l.is_less_than_ops(src)) matches Some(w) && w.ptr == m.ptr && w.tape[cell_of(
                l,
                m.tape,
                m.ptr,
            )] == if a < b { 1i64 } else { 0i64 }
        }),
{
    let tmp = Location::Address(TMP);
    let head = src.copy_ops(tmp) + tmp.binop_ops(CoreOp::Sub, l);
    let tail = tmp.dec_ops() + tmp.whole_int_ops() + l.save_ops();
    assert(l.is_less_than_ops(src) =~= head + tail);
    lemma_run_append(m, head, tail);
    lemma_difference(src, l, m);
    let d = run(m, head).unwrap();
    lemma_avoids_update(l, m.tape, m.ptr, m.ptr + TMP, d.reg);
    lemma_sign_to(l, true, d);
}

/// With `a` in the cell of `l` and `b` in the cell of `src`, and `b - a` in
/// range, `is_less_or_equal_to` leaves 1 in the cell of `l` when `a <= b`,
/// 0 otherwise.
pub proof fn lemma_is_less_or_equal_to(l: Location, src: Location, m: Machine)
    requires
        l.wf(),
        src.wf(),
        m.active(),
        clear_of_tmp(l, src, m),
        i64::MIN <= m.tape[cell_of(src, m.tape, m.ptr)] - m.tape[cell_of(l, m.tape, m.ptr)]
            <= i64::MAX,
    ensures
        ({
            let a = m.tape[cell_of(l, m.tape, m.ptr)];
            let b = m.tape[cell_of(src, m.tape, m.ptr)];
            run(m, l.is_less_or_equal_to_ops(src)) matches Some(w) && w.ptr == m.ptr
                && w.tape[cell_of(l, m.tape, m.ptr)] == if a <= b { 1i64 } else { 0i64 }
        }),
{
    let tmp = Location::Address(TMP);
    let head = src.copy_ops(tmp) + tmp.binop_ops(CoreOp::Sub, l);
    let tail = tmp.whole_int_ops() + l.save_ops();
    assert(l.is_less_or_equal_to_ops(src) =~= head + tail);
    lemma_run_append(m, head, tail);
    lemma_difference(src, l, m);
    let d = run(m, head).unwrap();
    lemma_avoids_update(l, m.tape, m.ptr, m.ptr + TMP, d.reg);
    lemma_sign_to(l, false, d);
}

/// The number of indirections in a location.
pub open spec fn indirections(l: Location) -> nat
    decreases l,
{
    match l {
        Location::Address(_) => 0,
        Location::Indirect(inner) => indirections(*inner) + 1,
        Location::Offset(inner, _) => indirections(*inner),
    }
}

/// How many times `op` occurs in `ops`.
pub open spec fn count(ops: Seq<CoreOp>, op: CoreOp) -> nat
    decreases ops.len(),
{
    if ops.len() == 0 {
        0
    } else {
        count(ops.drop_last(), op) + if ops.last() == op { 1nat } else { 0nat }
    }
}

pub proof fn lemma_count_append(a: Seq<CoreOp>, b: Seq<CoreOp>, op: CoreOp)
    ensures
        count(a + b, op) == count(a, op) + count(b, op),
    decreases b.len(),
{
    if b.len() == 0 {
        assert(a + b =~= a);
    } else {
        assert((a + b).drop_last() =~= a + b.drop_last());
        lemma_count_append(a, b.drop_last(), op);
    }
}

pub proof fn lemma_count_take(s: Seq<CoreOp>, k: int, op: CoreOp)
    requires
        0 <= k <= s.len(),
    ensures
        count(s.take(k), op) <= count(s, op),
    decreases s.len() - k,
{
    if k < s.len() {
        assert(s.take(k + 1).drop_last() =~= s.take(k));
        lemma_count_take(s, k + 1, op);
    } else {
        assert(s.take(k) =~= s);
    }
}

proof fn lemma_count_one(a: CoreOp, op: CoreOp)
    ensures
        count(seq![a], op) == if a == op { 1nat } else { 0nat },
{
    assert(seq![a].drop_last() =~= Seq::<CoreOp>::empty());
    assert(count(Seq::<CoreOp>::empty(), op) == 0);
}

/// `to` holds one `Deref` per indirection and no `Refer`; `from` holds one
/// `Refer` per indirection and no `Deref`.
pub proof fn lemma_indirection_counts(l: Location)
    ensures
        count(l.to_ops(), CoreOp::Deref) == indirections(l),
        count(l.to_ops(), CoreOp::Refer) == 0,
        count(l.from_ops(), CoreOp::Refer) == indirections(l),
        count(l.from_ops(), CoreOp::Deref) == 0,
    decreases l,
{
    match l {
        Location::Address(k) => {
            lemma_count_one(CoreOp::Move(k as isize), CoreOp::Deref);
            lemma_count_one(CoreOp::Move(k as isize), CoreOp::Refer);
            lemma_count_one(crate::location::move_back(k as isize), CoreOp::Deref);
            lemma_count_one(crate::location::move_back(k as isize), CoreOp::Refer);
        },
        Location::Indirect(inner) => {
            lemma_indirection_counts(*inner);
            assert(l.to_ops() =~= inner.to_ops() + seq![CoreOp::Deref]);
            lemma_count_append(inner.to_ops(), seq![CoreOp::Deref], CoreOp::Deref);
            lemma_count_append(inner.to_ops(), seq![CoreOp::Deref], CoreOp::Refer);
            lemma_count_one(CoreOp::Deref, CoreOp::Deref);
            lemma_count_one(CoreOp::Deref, CoreOp::Refer);
            lemma_count_append(seq![CoreOp::Refer], inner.from_ops(), CoreOp::Refer);
            lemma_count_append(seq![CoreOp::Refer], inner.from_ops(), CoreOp::Deref);
            lemma_count_one(CoreOp::Refer, CoreOp::Deref);
            lemma_count_one(CoreOp::Refer, CoreOp::Refer);
        },
        Location::Offset(inner, d) => {
            lemma_indirection_counts(*inner);
            assert(l.to_ops() =~= inner.to_ops() + seq![CoreOp::Move(d)]);
            lemma_count_append(inner.to_ops(), seq![CoreOp::Move(d)], CoreOp::Deref);
            lemma_count_append(inner.to_ops(), seq![CoreOp::Move(d)], CoreOp::Refer);
            lemma_count_one(CoreOp::Move(d), CoreOp::Deref);
            lemma_count_one(CoreOp::Move(d), CoreOp::Refer);
            let back = crate::location::move_back(d);
            lemma_count_append(seq![back], inner.from_ops(), CoreOp::Refer);
            lemma_count_append(seq![back], inner.from_ops(), CoreOp::Deref);
            lemma_count_one(back, CoreOp::Deref);
            lemma_count_one(back, CoreOp::Refer);
        },
    }
}

/// Whether every instruction of `ops` is a `Move`, `Deref` or `Refer`.
pub open spec fn pointer_ops(ops: Seq<CoreOp>) -> bool {
    forall|i: int| 0 <= i < ops.len() ==> (#[trigger] ops[i] is Move || ops[i] == CoreOp::Deref
        || ops[i] == CoreOp::Refer)
}

proof fn lemma_pointer_ops_append(a: Seq<CoreOp>, b: Seq<CoreOp>)
    requires
        pointer_ops(a),
        pointer_ops(b),
    ensures
        pointer_ops(a + b),
{
    assert forall|i: int| 0 <= i < (a + b).len() implies (#[trigger] (a + b)[i] is Move || (a
        + b)[i] == CoreOp::Deref || (a + b)[i] == CoreOp::Refer) by {
        if i < a.len() {
            assert((a + b)[i] == a[i]);
        } else {
            assert((a + b)[i] == b[i - a.len()]);
        }
    }
}

proof fn lemma_moves_are_pointer_ops(l: Location)
    ensures
        pointer_ops(l.to_ops()),
        pointer_ops(l.from_ops()),
    decreases l,
{
    match l {
        Location::Address(k) => {},
        Location::Indirect(inner) => {
            lemma_moves_are_pointer_ops(*inner);
            lemma_pointer_ops_append(inner.to_ops(), seq![CoreOp::Deref]);
            assert(l.to_ops() =~= inner.to_ops() + seq![CoreOp::Deref]);
            lemma_pointer_ops_append(seq![CoreOp::Refer], inner.from_ops());
        },
        Location::Offset(inner, d) => {
            lemma_moves_are_pointer_ops(*inner);
            lemma_pointer_ops_append(inner.to_ops(), seq![CoreOp::Move(d)]);
            assert(l.to_ops() =~= inner.to_ops() + seq![CoreOp::Move(d)]);
            lemma_pointer_ops_append(seq![crate::location::move_back(d)], inner.from_ops());
        },
    }
}

/// Pointer instructions push once per `Deref` and pop once per `Refer`.
proof fn lemma_pointer_ops_depth(m: Machine, ops: Seq<CoreOp>)
    requires
        m.active(),
        pointer_ops(ops),
        run(m, ops) is Some,
    ensures
        run(m, ops).unwrap().active(),
        run(m, ops).unwrap().refs.len() + count(ops, CoreOp::Refer) == m.refs.len() + count(
            ops,
            CoreOp::Deref,
        ),
    decreases ops.len(),
{
    if ops.len() > 0 {
        let init = ops.drop_last();
        assert(pointer_ops(init)) by {
            assert forall|i: int| 0 <= i < init.len() implies (#[trigger] init[i] is Move || init[i]
                == CoreOp::Deref || init[i] == CoreOp::Refer) by {
                assert(init[i] == ops[i]);
            }
        }
        assert(ops.last() == ops[ops.len() - 1]);
        lemma_pointer_ops_depth(m, init);
    }
}

/// Between `to` and the end of `from`, the reference stack never drops
/// below the depth it started at: after every prefix of the instructions
/// that runs, it is at least as deep.
pub proof fn lemma_reference_stack_bounded(l: Location, m: Machine, k: int)
    requires
        l.wf(),
        m.active(),
        0 <= k <= (l.to_ops() + l.from_ops()).len(),
        run(m, (l.to_ops() + l.from_ops()).take(k)) is Some,
    ensures
        run(m, (l.to_ops() + l.from_ops()).take(k)).unwrap().refs.len() >= m.refs.len(),
{
    let to = l.to_ops();
    let from = l.from_ops();
    let p = (to + from).take(k);
    lemma_indirection_counts(l);
    lemma_moves_are_pointer_ops(l);
    lemma_pointer_ops_append(to, from);
    assert(pointer_ops(p)) by {
        assert forall|i: int| 0 <= i < p.len() implies (#[trigger] p[i] is Move || p[i]
            == CoreOp::Deref || p[i] == CoreOp::Refer) by {
            assert(p[i] == (to + from)[i]);
        }
    }
    lemma_pointer_ops_depth(m, p);
    if k <= to.len() {
        assert(p =~= to.take(k));
        lemma_count_take(to, k, CoreOp::Refer);
    } else {
        let j = k - to.len();
        assert(p =~= to + from.take(j));
        lemma_count_append(to, from.take(j), CoreOp::Refer);
        lemma_count_append(to, from.take(j), CoreOp::Deref);
        lemma_count_take(from, j, CoreOp::Refer);
        lemma_count_take(from, j, CoreOp::Deref);
    }
}

proof fn lemma_block_free_count(ops: Seq<CoreOp>, op: CoreOp)
    requires
        block_free(ops),
        crate::vm::is_block_op(op),
    ensures
        count(ops, op) == 0,
    decreases ops.len(),
{
    if ops.len() > 0 {
        assert(block_free(ops.drop_last())) by {
            assert forall|i: int| 0 <= i < ops.drop_last().len() implies !crate::vm::is_block_op(
                #[trigger] ops.drop_last()[i],
            ) by {
                assert(ops.drop_last()[i] == ops[i]);
            }
        }
        assert(!crate::vm::is_block_op(ops[ops.len() - 1]));
        lemma_block_free_count(ops.drop_last(), op);
    }
}

/// `not`, `and` and `or` each hold exactly one `If`, one `Else` and one
/// `End`.
pub proof fn lemma_boolean_blocks(l: Location, src: Location)
    ensures
        count(l.not_ops(), CoreOp::If) == 1 && count(l.not_ops(), CoreOp::Else) == 1 && count(
            l.not_ops(),
            CoreOp::End,
        ) == 1,
        count(l.and_ops(src), CoreOp::If) == 1 && count(l.and_ops(src), CoreOp::Else) == 1
            && count(l.and_ops(src), CoreOp::End) == 1,
        count(l.or_ops(src), CoreOp::If) == 1 && count(l.or_ops(src), CoreOp::Else) == 1 && count(
            l.or_ops(src),
            CoreOp::End,
        ) == 1,
{
    lemma_moves_block_free(l);
    lemma_moves_block_free(src);
    lemma_block_free_append(src.to_ops(), seq![CoreOp::Restore]);
    lemma_block_free_append(src.to_ops() + seq![CoreOp::Restore], src.from_ops());
    let to = l.to_ops();
    let from = l.from_ops();
    let rs = src.restore_ops();
    let not_mid = seq![
        CoreOp::Restore,
        CoreOp::If,
        CoreOp::SetReg(0),
        CoreOp::Else,
        CoreOp::SetReg(1),
        CoreOp::End,
        CoreOp::Save,
    ];
    let and_a = seq![CoreOp::Restore, CoreOp::If];
    let and_c = seq![CoreOp::Else, CoreOp::SetReg(0), CoreOp::End, CoreOp::Save];
    let or_a = seq![CoreOp::Restore, CoreOp::If, CoreOp::SetReg(1), CoreOp::Else];
    let or_c = seq![CoreOp::End, CoreOp::Save];
    assert(not_mid =~= seq![CoreOp::Restore] + seq![CoreOp::If] + seq![CoreOp::SetReg(0)] + seq![
        CoreOp::Else,
    ] + seq![CoreOp::SetReg(1)] + seq![CoreOp::End] + seq![CoreOp::Save]);
    assert(and_a =~= seq![CoreOp::Restore] + seq![CoreOp::If]);
    assert(and_c =~= seq![CoreOp::Else] + seq![CoreOp::SetReg(0)] + seq![CoreOp::End] + seq![
        CoreOp::Save,
    ]);
    assert(or_a =~= seq![CoreOp::Restore] + seq![CoreOp::If] + seq![CoreOp::SetReg(1)] + seq![
        CoreOp::Else,
    ]);
    assert(or_c =~= seq![CoreOp::End] + seq![CoreOp::Save]);
    let blocks = seq![CoreOp::If, CoreOp::Else, CoreOp::End];
    assert forall|j: int| 0 <= j < 3 implies ({
        let op = #[trigger] blocks[j];
        &&& count(l.not_ops(), op) == 1
        &&& count(l.and_ops(src), op) == 1
        &&& count(l.or_ops(src), op) == 1
    }) by {
        let op = blocks[j];
        lemma_block_free_count(to, op);
        lemma_block_free_count(from, op);
        lemma_block_free_count(rs, op);
        let ones = seq![
            CoreOp::Restore,
            CoreOp::If,
            CoreOp::SetReg(0),
            CoreOp::SetReg(1),
            CoreOp::Else,
            CoreOp::End,
            CoreOp::Save,
        ];
        assert forall|i: int| 0 <= i < 7 implies #[trigger] count(seq![ones[i]], op) == if ones[i]
            == op { 1nat } else { 0nat } by {
            lemma_count_one(ones[i], op);
        }
        assert(count(seq![ones[0]], op) == 0);
        assert(count(seq![ones[1]], op) == if op == CoreOp::If { 1nat } else { 0nat });
        assert(count(seq![ones[2]], op) == 0);
        assert(count(seq![ones[3]], op) == 0);
        assert(count(seq![ones[4]], op) == if op == CoreOp::Else { 1nat } else { 0nat });
        assert(count(seq![ones[5]], op) == if op == CoreOp::End { 1nat } else { 0nat });
        assert(count(seq![ones[6]], op) == 0);
        let r = seq![CoreOp::Restore];
        let i = seq![CoreOp::If];
        let z = seq![CoreOp::SetReg(0)];
        let o = seq![CoreOp::SetReg(1)];
        let e = seq![CoreOp::Else];
        let n = seq![CoreOp::End];
        let v = seq![CoreOp::Save];
        lemma_count_append(r, i, op);
        lemma_count_append(r + i, z, op);
        lemma_count_append(r + i + z, e, op);
        lemma_count_append(r + i + z + e, o, op);
        lemma_count_append(r + i + z + e + o, n, op);
        lemma_count_append(r + i + z + e + o + n, v, op);
        lemma_count_append(e, z, op);
        lemma_count_append(e + z, n, op);
        lemma_count_append(e + z + n, v, op);
        lemma_count_append(r + i, o, op);
        lemma_count_append(r + i + o, e, op);
        lemma_count_append(n, v, op);
        lemma_count_append(to, not_mid, op);
        lemma_count_append(to + not_mid, from, op);
        lemma_count_append(to, and_a, op);
        lemma_count_append(to + and_a, from, op);
        lemma_count_append(to + and_a + from, rs, op);
        lemma_count_append(to + and_a + from + rs, to, op);
        lemma_count_append(to + and_a + from + rs + to, and_c, op);
        lemma_count_append(to + and_a + from + rs + to + and_c, from, op);
        lemma_count_append(to, or_a, op);
        lemma_count_append(to + or_a, from, op);
        lemma_count_append(to + or_a + from, rs, op);
        lemma_count_append(to + or_a + from + rs, to, op);
        lemma_count_append(to + or_a + from + rs + to, or_c, op);
        lemma_count_append(to + or_a + from + rs + to + or_c, from, op);
    }
    assert(blocks[0] == CoreOp::If);
    assert(blocks[1] == CoreOp::Else);
    assert(blocks[2] == CoreOp::End);
}

/// `prev(l, n)` moves the pointer stored in the cell `l` designates `n`
/// cells back: that cell then holds its old value minus `n`.
pub proof fn lemma_prev_moves(l: Location, n: isize, m: Machine)
    requires
        l.wf(),
        n != isize::MIN,
        m.active(),
        reachable(l, m.tape, m.ptr),
        0 <= cell_of(l, m.tape, m.ptr) < m.tape.len(),
    ensures
        ({
            let c = cell_of(l, m.tape, m.ptr);
            run(m, l.prev_ops(n)) == Some(
                Machine {
                    tape: m.tape.update(c, (m.tape[c] - n) as i64),
                    reg: (m.tape[c] - n) as i64,
                    ..m
                },
            )
        }),
{
    let target = l.deref_spec().offset_spec((-n) as isize);
    assert(l.deref_spec().wf());
    assert(target.wf());
    assert(reachable(l.deref_spec(), m.tape, m.ptr));
    assert(reachable(target, m.tape, m.ptr));
    assert(cell_of(l.deref_spec(), m.tape, m.ptr) == m.tape[cell_of(l, m.tape, m.ptr)] as int);
    assert(cell_of(target, m.tape, m.ptr) == m.tape[cell_of(l, m.tape, m.ptr)] - n);
    lemma_copy_address_writes(target, l, m);
}

/// Walking a pointer held at a fixed address `n` cells forward and then `n`
/// cells back leaves the tape as it was, when the forward position is a
/// 64-bit value.
pub proof fn lemma_next_then_prev(k: usize, n: isize, m: Machine)
    requires
        n != isize::MIN,
        m.active(),
        fixed_on_tape(m, k),
        i64::MIN <= fixed(m, k) + n <= i64::MAX,
    ensures
        ({
            let l = Location::Address(k);
            run(m, l.next_ops(n) + l.prev_ops(n)) == Some(m.with_reg(fixed(m, k)))
        }),
{
    let l = Location::Address(k);
    lemma_run_append(m, l.next_ops(n), l.prev_ops(n));
    lemma_next_moves(l, n, m);
    let w = run(m, l.next_ops(n)).unwrap();
    lemma_prev_moves(l, n, w);
    assert(w.tape.update(m.ptr + k, fixed(m, k)) =~= m.tape);
}

/// `copy_to` writes the value of the cell `l` designates into the cell
/// `dst` designates.
pub proof fn lemma_copy_writes(l: Location, dst: Location, m: Machine)
    requires
        l.wf(),
        dst.wf(),
        m.active(),
        reachable(l, m.tape, m.ptr),
        0 <= cell_of(l, m.tape, m.ptr) < m.tape.len(),
    ensures
        ({
            let v = m.tape[cell_of(l, m.tape, m.ptr)];
            run(m, l.copy_ops(dst)) == if reachable(dst, m.tape, m.ptr) && 0 <= cell_of(
                dst,
                m.tape,
                m.ptr,
            ) < m.tape.len() {
                Some(Machine { tape: m.tape.update(cell_of(dst, m.tape, m.ptr), v), reg: v, ..m })
            } else {
                None
            }
        }),
{
    lemma_run_append(m, l.restore_ops(), dst.save_ops());
    lemma_around_one(l, CoreOp::Restore, m);
    let c = cell_of(l, m.tape, m.ptr);
    lemma_run_one(m.at(c, m.refs), CoreOp::Restore);
    let w = m.with_reg(m.tape[c]);
    assert(run(m, l.restore_ops()) == Some(w));
    lemma_around_one(dst, CoreOp::Save, w);
    lemma_run_one(w.at(cell_of(dst, m.tape, m.ptr), m.refs), CoreOp::Save);
}

/// `push` of the fixed address `x`: the stack pointer (the cell at `SP`)
/// moves one cell up, and the new top holds the value of `x`.
pub proof fn lemma_push(x: usize, m: Machine)
    requires
        m.active(),
        x != SP,
        fixed_on_tape(m, x),
        fixed_on_tape(m, SP),
        0 <= fixed(m, SP) + 1 < m.tape.len(),
        fixed(m, SP) < i64::MAX,
    ensures
        ({
            let top = fixed(m, SP) + 1;
            let v = fixed(m, x);
            run(m, Location::Address(x).push_ops()) == Some(
                Machine { tape: m.tape.update(m.ptr + SP, top as i64).update(top, v), reg: v, ..m },
            )
        }),
{
    let sp = Location::Address(SP);
    let up = sp.deref_spec().offset_spec(1);
    let top = fixed(m, SP) + 1;
    assert(sp.wf());
    assert(sp.deref_spec().wf());
    assert(up.wf());
    assert(reachable(sp, m.tape, m.ptr));
    assert(cell_of(sp, m.tape, m.ptr) == m.ptr + SP);
    assert(reachable(sp.deref_spec(), m.tape, m.ptr));
    assert(cell_of(sp.deref_spec(), m.tape, m.ptr) == fixed(m, SP));
    assert(reachable(up, m.tape, m.ptr) && cell_of(up, m.tape, m.ptr) == top);
    lemma_run_append(m, up.copy_address_ops(sp), Location::Address(x).copy_ops(sp.deref_spec()));
    lemma_copy_address_writes(up, sp, m);
    let w = run(m, up.copy_address_ops(sp)).unwrap();
    assert(w.tape[m.ptr + SP] == top as i64);
    assert(w.ptr == m.ptr && w.tape.len() == m.tape.len());
    assert(reachable(sp, w.tape, w.ptr));
    assert(cell_of(sp, w.tape, w.ptr) == m.ptr + SP);
    assert(reachable(sp.deref_spec(), w.tape, w.ptr));
    assert(cell_of(sp.deref_spec(), w.tape, w.ptr) == top);
    lemma_copy_writes(Location::Address(x), sp.deref_spec(), w);
}

/// `pop` into the fixed address `x`: `x` takes the value on top of the
/// stack, and the stack pointer (the cell at `SP`) moves one cell down.
pub proof fn lemma_pop(x: usize, m: Machine)
    requires
        m.active(),
        x != SP,
        fixed_on_tape(m, x),
        fixed_on_tape(m, SP),
        0 <= fixed(m, SP) < m.tape.len(),
    ensures
        ({
            let top = fixed(m, SP) as int;
            let v = m.tape[top];
            run(m, Location::Address(x).pop_ops()) == Some(
                Machine {
                    tape: m.tape.update(m.ptr + x, v).update(m.ptr + SP, (top - 1) as i64),
                    reg: (top - 1) as i64,
                    ..m
                },
            )
        }),
{
    let sp = Location::Address(SP);
    let down = sp.deref_spec().offset_spec(-1isize);
    let top = fixed(m, SP) as int;
    assert(sp.wf());
    assert(sp.deref_spec().wf());
    assert(down.wf());
    assert(reachable(sp, m.tape, m.ptr));
    assert(cell_of(sp, m.tape, m.ptr) == m.ptr + SP);
    assert(reachable(sp.deref_spec(), m.tape, m.ptr));
    assert(cell_of(sp.deref_spec(), m.tape, m.ptr) == top);
    lemma_run_append(m, sp.deref_spec().copy_ops(Location::Address(x)), down.copy_address_ops(sp));
    lemma_copy_writes(sp.deref_spec(), Location::Address(x), m);
    let w = run(m, sp.deref_spec().copy_ops(Location::Address(x))).unwrap();
    assert(w.tape[m.ptr + SP] == m.tape[m.ptr + SP]);
    assert(w.ptr == m.ptr && w.tape.len() == m.tape.len());
    assert(reachable(sp, w.tape, w.ptr));
    assert(cell_of(sp, w.tape, w.ptr) == m.ptr + SP);
    assert(reachable(sp.deref_spec(), w.tape, w.ptr));
    assert(cell_of(sp.deref_spec(), w.tape, w.ptr) == top);
    assert(reachable(down, w.tape, w.ptr) && cell_of(down, w.tape, w.ptr) == top - 1);
    lemma_copy_address_writes(down, sp, w);
}

/// `push` of `x` then `pop` into `y`: `y` receives the value of `x`, and the
/// stack pointer is back where it was.
pub proof fn lemma_push_then_pop(x: usize, y: usize, m: Machine)
    requires
        m.active(),
        x != SP,
        y != SP,
        fixed_on_tape(m, x),
        fixed_on_tape(m, y),
        fixed_on_tape(m, SP),
        0 <= fixed(m, SP) + 1 < m.tape.len(),
        fixed(m, SP) < i64::MAX,
        fixed(m, SP) + 1 != m.ptr + SP,
    ensures
        run(m, Location::Address(x).push_ops() + Location::Address(y).pop_ops()) matches Some(t)
            && fixed(t, y) == fixed(m, x) && fixed(t, SP) == fixed(m, SP) && t.ptr == m.ptr,
{
    lemma_run_append(m, Location::Address(x).push_ops(), Location::Address(y).pop_ops());
    lemma_push(x, m);
    let w = run(m, Location::Address(x).push_ops()).unwrap();
    assert(fixed(w, SP) == fixed(m, SP) + 1);
    lemma_pop(y, w);
}

/// The state `m` with the cell `c` set to `v`, and `v` in the register.
pub open spec fn written(m: Machine, c: int, v: i64) -> Machine {
    Machine { tape: m.tape.update(c, v), reg: v, ..m }
}

/// Whether `src` designates a cell on the tape.
pub open spec fn readable(src: Location, m: Machine) -> bool {
    reachable(src, m.tape, m.ptr) && 0 <= cell_of(src, m.tape, m.ptr) < m.tape.len()
}

/// Short-circuit `and`: when the cell of `l` is non-zero it takes the value
/// of the cell of `src`, else it becomes 0; `src` is read only in the first
/// case.
pub proof fn lemma_and_value(l: Location, src: Location, m: Machine)
    requires
        l.wf(),
        src.wf(),
        m.active(),
        readable(l, m),
    ensures
        ({
            let c = cell_of(l, m.tape, m.ptr);
            run(m, l.and_ops(src)) == if m.tape[c] != 0 {
                if readable(src, m) {
                    Some(written(m, c, m.tape[cell_of(src, m.tape, m.ptr)]))
                } else {
                    None
                }
            } else {
                Some(written(m, c, 0))
            }
        }),
{
    let a = seq![CoreOp::Restore, CoreOp::If];
    let cl = seq![CoreOp::Else, CoreOp::SetReg(0), CoreOp::End, CoreOp::Save];
    let seq_to = l.to_ops();
    let seq_if = seq_to + a;
    let seq_back = seq_if + l.from_ops();
    let seq_read = seq_back + src.restore_ops();
    let seq_again = seq_read + l.to_ops();
    let seq_close = seq_again + cl;
    let c = cell_of(l, m.tape, m.ptr);
    lemma_moves_block_free(l);
    lemma_moves_block_free(src);
    lemma_block_free_append(src.to_ops(), seq![CoreOp::Restore]);
    lemma_block_free_append(src.to_ops() + seq![CoreOp::Restore], src.from_ops());
    lemma_run_append(m, seq_close, l.from_ops());
    lemma_run_append(m, seq_again, cl);
    lemma_run_append(m, seq_read, l.to_ops());
    lemma_run_append(m, seq_back, src.restore_ops());
    lemma_run_append(m, seq_if, l.from_ops());
    lemma_run_append(m, seq_to, a);
    lemma_to_reaches(l, m);
    lemma_to_then_from(l, m, m);
    let t1 = run(m, seq_to).unwrap();
    assert(t1.ptr == c);
    lemma_run_two(t1, CoreOp::Restore, CoreOp::If);
    let t2 = run(m, seq_if).unwrap();
    if m.tape[c] != 0 {
        assert(t2.active());
        lemma_to_then_from(l, m, t2);
        assert(t2.at(t1.ptr, t1.refs) == t2);
        let t3 = run(m, seq_back).unwrap();
        assert(t3 == t2.at(m.ptr, m.refs));
        lemma_around_one(src, CoreOp::Restore, t3);
        if readable(src, m) {
            let cs = cell_of(src, m.tape, m.ptr);
            lemma_run_one(t3.at(cs, t3.refs), CoreOp::Restore);
            let t4 = run(m, seq_read).unwrap();
            assert(t4 == t3.with_reg(m.tape[cs]));
            lemma_to_reaches(l, t4);
            lemma_to_then_from(l, t4, t4);
            let t5 = run(m, seq_again).unwrap();
            assert(t5.ptr == c);
            lemma_run_four(t5, CoreOp::Else, CoreOp::SetReg(0), CoreOp::End, CoreOp::Save);
            let e = step(t5, CoreOp::Else).unwrap();
            lemma_run_three(e, CoreOp::SetReg(0), CoreOp::End, CoreOp::Save);
            let t6 = run(m, seq_close).unwrap();
            lemma_to_then_from(l, t4, t6);
            assert(t6.at(t5.ptr, t5.refs) == t6);
        }
    } else {
        lemma_skipped(t2, l.from_ops());
        lemma_skipped(t2, src.restore_ops());
        lemma_skipped(t2, l.to_ops());
        lemma_run_four(t2, CoreOp::Else, CoreOp::SetReg(0), CoreOp::End, CoreOp::Save);
        let e = step(t2, CoreOp::Else).unwrap();
        lemma_run_three(e, CoreOp::SetReg(0), CoreOp::End, CoreOp::Save);
        let t6 = run(m, seq_close).unwrap();
        lemma_to_then_from(l, m, t6);
        assert(t6.at(t1.ptr, t1.refs) == t6);
    }
}

/// Short-circuit `or`: when the cell of `l` is non-zero it becomes 1, else
/// it takes the value of the cell of `src`; `src` is read only in the
/// second case.
pub proof fn lemma_or_value(l: Location, src: Location, m: Machine)
    requires
        l.wf(),
        src.wf(),
        m.active(),
        readable(l, m),
    ensures
        ({
            let c = cell_of(l, m.tape, m.ptr);
            run(m, l.or_ops(src)) == if m.tape[c] != 0 {
                Some(written(m, c, 1))
            } else if readable(src, m) {
                Some(written(m, c, m.tape[cell_of(src, m.tape, m.ptr)]))
            } else {
                None
            }
        }),
{
    let a = seq![CoreOp::Restore, CoreOp::If, CoreOp::SetReg(1), CoreOp::Else];
    let cl = seq![CoreOp::End, CoreOp::Save];
    let seq_to = l.to_ops();
    let seq_if = seq_to + a;
    let seq_back = seq_if + l.from_ops();
    let seq_read = seq_back + src.restore_ops();
    let seq_again = seq_read + l.to_ops();
    let seq_close = seq_again + cl;
    let c = cell_of(l, m.tape, m.ptr);
    lemma_moves_block_free(l);
    lemma_moves_block_free(src);
    lemma_block_free_append(src.to_ops(), seq![CoreOp::Restore]);
    lemma_block_free_append(src.to_ops() + seq![CoreOp::Restore], src.from_ops());
    lemma_run_append(m, seq_close, l.from_ops());
    lemma_run_append(m, seq_again, cl);
    lemma_run_append(m, seq_read, l.to_ops());
    lemma_run_append(m, seq_back, src.restore_ops());
    lemma_run_append(m, seq_if, l.from_ops());
    lemma_run_append(m, seq_to, a);
    lemma_to_reaches(l, m);
    lemma_to_then_from(l, m, m);
    let t1 = run(m, seq_to).unwrap();
    assert(t1.ptr == c);
    lemma_run_four(t1, CoreOp::Restore, CoreOp::If, CoreOp::SetReg(1), CoreOp::Else);
    let r = step(t1, CoreOp::Restore).unwrap();
    lemma_run_three(r, CoreOp::If, CoreOp::SetReg(1), CoreOp::Else);
    let t2 = run(m, seq_if).unwrap();
    if m.tape[c] != 0 {
        lemma_skipped(t2, l.from_ops());
        lemma_skipped(t2, src.restore_ops());
        lemma_skipped(t2, l.to_ops());
        lemma_run_two(t2, CoreOp::End, CoreOp::Save);
        let t6 = run(m, seq_close).unwrap();
        lemma_to_then_from(l, m, t6);
        assert(t6.at(t1.ptr, t1.refs) == t6);
    } else {
        assert(t2.active());
        lemma_to_then_from(l, m, t2);
        assert(t2.at(t1.ptr, t1.refs) == t2);
        let t3 = run(m, seq_back).unwrap();
        assert(t3 == t2.at(m.ptr, m.refs));
        lemma_around_one(src, CoreOp::Restore, t3);
        if readable(src, m) {
            let cs = cell_of(src, m.tape, m.ptr);
            lemma_run_one(t3.at(cs, t3.refs), CoreOp::Restore);
            let t4 = run(m, seq_read).unwrap();
            assert(t4 == t3.with_reg(m.tape[cs]));
            lemma_to_reaches(l, t4);
            lemma_to_then_from(l, t4, t4);
            let t5 = run(m, seq_again).unwrap();
            assert(t5.ptr == c);
            lemma_run_two(t5, CoreOp::End, CoreOp::Save);
            let t6 = run(m, seq_close).unwrap();
            lemma_to_then_from(l, t4, t6);
            assert(t6.at(t5.ptr, t5.refs) == t6);
        }
    }
}

} // verus!
