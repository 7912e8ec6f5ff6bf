use sage::location::{Location, A, B, D, SP, TMP};
use sage::vm::{CoreOp, CoreProgram};

fn emit(f: impl FnOnce(&mut CoreProgram)) -> Vec<CoreOp> {
    let mut p = CoreProgram::new();
    f(&mut p);
    p.0
}

fn addr(k: usize) -> Location {
    Location::Address(k)
}

#[test]
fn offset_and_deref_build_nested_locations() {
    let l = addr(6).deref().offset(-2);
    assert_eq!(
        l,
        Location::Offset(Box::new(Location::Indirect(Box::new(Location::Address(6)))), -2)
    );
    assert_eq!(l.clone(), l);
}

#[test]
fn to_and_from_retrace_each_other() {
    let l = addr(6).deref().offset(-2);
    assert_eq!(
        emit(|p| l.to(p)),
        vec![CoreOp::Move(6), CoreOp::Deref, CoreOp::Move(-2)]
    );
    assert_eq!(
        emit(|p| l.from(p)),
        vec![CoreOp::Move(2), CoreOp::Refer, CoreOp::Move(-6)]
    );
}

#[test]
fn double_indirection_is_two_derefs() {
    let l = addr(3).deref().deref();
    assert_eq!(
        emit(|p| {
            l.to(p);
            l.from(p)
        }),
        vec![
            CoreOp::Move(3),
            CoreOp::Deref,
            CoreOp::Deref,
            CoreOp::Refer,
            CoreOp::Refer,
            CoreOp::Move(-3)
        ]
    );
}

#[test]
fn set_writes_a_constant() {
    assert_eq!(
        emit(|p| addr(A).set(5, p)),
        vec![CoreOp::SetReg(5), CoreOp::Move(3), CoreOp::Save, CoreOp::Move(-3)]
    );
}

#[test]
fn copy_to_restores_then_saves() {
    assert_eq!(
        emit(|p| addr(A).copy_to(&addr(B), p)),
        vec![
            CoreOp::Move(3),
            CoreOp::Restore,
            CoreOp::Move(-3),
            CoreOp::Move(4),
            CoreOp::Save,
            CoreOp::Move(-4)
        ]
    );
}

#[test]
fn copy_address_to_records_where() {
    assert_eq!(
        emit(|p| addr(100).copy_address_to(&addr(D), p)),
        vec![
            CoreOp::Move(100),
            CoreOp::Where,
            CoreOp::Move(-100),
            CoreOp::Move(6),
            CoreOp::Save,
            CoreOp::Move(-6)
        ]
    );
}

#[test]
fn push_bumps_the_stack_pointer_then_copies() {
    let bump = vec![
        CoreOp::Move(0),
        CoreOp::Deref,
        CoreOp::Move(1),
        CoreOp::Where,
        CoreOp::Move(-1),
        CoreOp::Refer,
        CoreOp::Move(0),
        CoreOp::Move(0),
        CoreOp::Save,
        CoreOp::Move(0),
    ];
    let copy = vec![
        CoreOp::Move(3),
        CoreOp::Restore,
        CoreOp::Move(-3),
        CoreOp::Move(0),
        CoreOp::Deref,
        CoreOp::Save,
        CoreOp::Refer,
        CoreOp::Move(0),
    ];
    let mut expected = bump;
    expected.extend(copy);
    assert_eq!(emit(|p| addr(A).push(p)), expected);
}

#[test]
fn pop_copies_then_drops_the_top() {
    let ops = emit(|p| addr(A).pop(p));
    assert_eq!(
        &ops[..8],
        &[
            CoreOp::Move(0),
            CoreOp::Deref,
            CoreOp::Restore,
            CoreOp::Refer,
            CoreOp::Move(0),
            CoreOp::Move(3),
            CoreOp::Save,
            CoreOp::Move(-3)
        ]
    );
    assert_eq!(&ops[8..11], &[CoreOp::Move(SP as isize), CoreOp::Deref, CoreOp::Move(-1)]);
    assert_eq!(ops.len(), 18);
}

#[test]
fn inc_and_dec_add_plus_or_minus_one() {
    assert_eq!(
        emit(|p| addr(A).inc(p)),
        vec![
            CoreOp::Move(3),
            CoreOp::Restore,
            CoreOp::SetReg(1),
            CoreOp::Add,
            CoreOp::Save,
            CoreOp::Move(-3)
        ]
    );
    assert_eq!(
        emit(|p| addr(A).dec(p)),
        vec![
            CoreOp::Move(3),
            CoreOp::Restore,
            CoreOp::SetReg(-1),
            CoreOp::Add,
            CoreOp::Save,
            CoreOp::Move(-3)
        ]
    );
}

#[test]
fn binary_operations_use_the_source_in_place() {
    for (op, f) in [
        (CoreOp::Add, Location::add as fn(&Location, &Location, &mut CoreProgram)),
        (CoreOp::Sub, Location::sub),
        (CoreOp::Mul, Location::mul),
        (CoreOp::Div, Location::div),
        (CoreOp::Rem, Location::rem),
    ] {
        assert_eq!(
            emit(|p| f(&addr(A), &addr(B), p)),
            vec![
                CoreOp::Move(3),
                CoreOp::Restore,
                CoreOp::Move(-3),
                CoreOp::Move(4),
                op,
                CoreOp::Move(-4),
                CoreOp::Move(3),
                CoreOp::Save,
                CoreOp::Move(-3)
            ]
        );
    }
}

#[test]
fn whole_int_tests_the_sign() {
    assert_eq!(
        emit(|p| addr(A).whole_int(p)),
        vec![
            CoreOp::Move(3),
            CoreOp::Restore,
            CoreOp::IsNonNegative,
            CoreOp::Save,
            CoreOp::Move(-3)
        ]
    );
}

#[test]
fn not_branches_on_the_cell() {
    assert_eq!(
        emit(|p| addr(A).not(p)),
        vec![
            CoreOp::Move(3),
            CoreOp::Restore,
            CoreOp::If,
            CoreOp::SetReg(0),
            CoreOp::Else,
            CoreOp::SetReg(1),
            CoreOp::End,
            CoreOp::Save,
            CoreOp::Move(-3)
        ]
    );
}

#[test]
fn and_reads_the_source_only_when_true() {
    assert_eq!(
        emit(|p| addr(A).and(&addr(B), p)),
        vec![
            CoreOp::Move(3),
            CoreOp::Restore,
            CoreOp::If,
            CoreOp::Move(-3),
            CoreOp::Move(4),
            CoreOp::Restore,
            CoreOp::Move(-4),
            CoreOp::Move(3),
            CoreOp::Else,
            CoreOp::SetReg(0),
            CoreOp::End,
            CoreOp::Save,
            CoreOp::Move(-3)
        ]
    );
}

#[test]
fn or_reads_the_source_only_when_false() {
    assert_eq!(
        emit(|p| addr(A).or(&addr(B), p)),
        vec![
            CoreOp::Move(3),
            CoreOp::Restore,
            CoreOp::If,
            CoreOp::SetReg(1),
            CoreOp::Else,
            CoreOp::Move(-3),
            CoreOp::Move(4),
            CoreOp::Restore,
            CoreOp::Move(-4),
            CoreOp::Move(3),
            CoreOp::End,
            CoreOp::Save,
            CoreOp::Move(-3)
        ]
    );
}

#[test]
fn strict_comparisons_subtract_one_more() {
    let gt = emit(|p| addr(A).is_greater_than(&addr(B), p));
    let ge = emit(|p| addr(A).is_greater_or_equal_to(&addr(B), p));
    let dec_tmp = emit(|p| addr(TMP).dec(p));
    assert_eq!(gt.len(), ge.len() + dec_tmp.len());
    let mut expected = emit(|p| {
        addr(A).copy_to(&addr(TMP), p);
        addr(TMP).sub(&addr(B), p);
    });
    expected.extend(dec_tmp);
    expected.extend(emit(|p| {
        addr(TMP).whole_int(p);
        addr(A).save_to(p);
    }));
    assert_eq!(gt, expected);
}

#[test]
fn less_than_swaps_the_operands() {
    let lt = emit(|p| addr(A).is_less_than(&addr(B), p));
    let expected = emit(|p| {
        addr(B).copy_to(&addr(TMP), p);
        addr(TMP).sub(&addr(A), p);
        addr(TMP).dec(p);
        addr(TMP).whole_int(p);
        addr(A).save_to(p);
    });
    assert_eq!(lt, expected);
    let le = emit(|p| addr(A).is_less_or_equal_to(&addr(B), p));
    let expected = emit(|p| {
        addr(B).copy_to(&addr(TMP), p);
        addr(TMP).sub(&addr(A), p);
        addr(TMP).whole_int(p);
        addr(A).save_to(p);
    });
    assert_eq!(le, expected);
}

#[test]
fn next_and_prev_move_a_pointer_cell() {
    assert_eq!(
        emit(|p| addr(D).next(1, p)),
        vec![
            CoreOp::Move(6),
            CoreOp::Deref,
            CoreOp::Move(1),
            CoreOp::Where,
            CoreOp::Move(-1),
            CoreOp::Refer,
            CoreOp::Move(-6),
            CoreOp::Move(6),
            CoreOp::Save,
            CoreOp::Move(-6)
        ]
    );
    let prev = emit(|p| addr(D).prev(2, p));
    assert_eq!(prev[2], CoreOp::Move(-2));
    assert_eq!(prev[4], CoreOp::Move(2));
}

#[test]
fn restore_from_reads_into_the_register() {
    assert_eq!(
        emit(|p| addr(B).restore_from(p)),
        vec![CoreOp::Move(4), CoreOp::Restore, CoreOp::Move(-4)]
    );
    assert_eq!(
        emit(|p| addr(B).save_to(p)),
        vec![CoreOp::Move(4), CoreOp::Save, CoreOp::Move(-4)]
    );
}
