use sage::interpreter::{CoreInterpreter, InterpreterError, Status};
use sage::location::{Location, A, B, D};
use sage::vm::{CoreOp, CoreProgram, StandardOp, StandardProgram};

const TAPE: usize = 200_000;

fn addr(k: usize) -> Location {
    Location::Address(k)
}

/// Run to the end, feeding `input` (then end of input, -1) to `Get`.
fn run_with(program: CoreProgram, input: &[i64]) -> (CoreInterpreter, Vec<(isize, i64)>, Result<Status, InterpreterError>) {
    let mut it = CoreInterpreter::new(program, TAPE).unwrap();
    let mut fed = 0;
    let mut out = vec![];
    loop {
        match it.run(1_000_000) {
            Ok(Status::NeedsInput) => {
                let v = if fed < input.len() { input[fed] } else { -1 };
                fed += 1;
                it.provide_input(v);
            }
            Ok(Status::Running) => panic!("program did not stop"),
            other => {
                out.extend(it.take_output());
                return (it, out, other);
            }
        }
        out.extend(it.take_output());
    }
}

fn build(f: impl FnOnce(&mut CoreProgram)) -> CoreProgram {
    let mut p = CoreProgram::new();
    f(&mut p);
    p
}

fn stdout_of(out: &[(isize, i64)]) -> String {
    out.iter().filter(|(ch, _)| *ch == 0).map(|(_, v)| *v as u8 as char).collect()
}

#[test]
fn print_constant() {
    let p = CoreProgram(vec![CoreOp::SetReg(65), CoreOp::Put(0), CoreOp::SetReg(10), CoreOp::Put(0)]);
    let (_, out, r) = run_with(p, &[]);
    assert_eq!(r, Ok(Status::Halted));
    assert_eq!(stdout_of(&out), "A\n");
}

#[test]
fn countdown_loop() {
    let counter = addr(9);
    let p = build(|p| {
        counter.set(3, p);
        counter.restore_from(p);
        p.append_core_op(CoreOp::While);
        addr(A).set('0' as isize, p);
        addr(A).add(&counter, p);
        addr(A).restore_from(p);
        p.append_core_op(CoreOp::Put(0));
        counter.dec(p);
        counter.restore_from(p);
        p.append_core_op(CoreOp::End);
    });
    let (it, out, r) = run_with(p, &[]);
    assert_eq!(r, Ok(Status::Halted));
    assert_eq!(stdout_of(&out), "321");
    assert_eq!(it.cell(9), Some(0));
}

#[test]
fn call_and_return() {
    let p = build(|p| {
        p.append_core_op(CoreOp::Function);
        addr(A).inc(p);
        p.append_core_op(CoreOp::Return);
        p.append_core_op(CoreOp::End);
        addr(A).set(7, p);
        p.set_register(0);
        p.append_core_op(CoreOp::Call);
        addr(B).set('0' as isize, p);
        addr(B).add(&addr(A), p);
        addr(B).restore_from(p);
        p.append_core_op(CoreOp::Put(0));
    });
    let (it, out, r) = run_with(p, &[]);
    assert_eq!(r, Ok(Status::Halted));
    assert_eq!(it.cell(A), Some(8));
    assert_eq!(stdout_of(&out), "8");
}

#[test]
fn falling_off_a_function_returns() {
    let p = build(|p| {
        p.append_core_op(CoreOp::Function);
        addr(A).inc(p);
        p.append_core_op(CoreOp::End);
        p.set_register(0);
        p.append_core_op(CoreOp::Call);
        p.set_register(0);
        p.append_core_op(CoreOp::Call);
    });
    let (it, _, r) = run_with(p, &[]);
    assert_eq!(r, Ok(Status::Halted));
    assert_eq!(it.cell(A), Some(2));
}

#[test]
fn pointer_walk() {
    let p = build(|p| {
        addr(100).copy_address_to(&addr(D), p);
        addr(D).next(1, p);
        addr(D).deref().set(42, p);
        addr(101).restore_from(p);
    });
    let (it, _, r) = run_with(p, &[]);
    assert_eq!(r, Ok(Status::Halted));
    assert_eq!(it.register(), 42);
    assert_eq!(it.cell(101), Some(42));
    assert_eq!(it.cell(D), Some(101));
    assert_eq!(it.pointer(), 0);
}

#[test]
fn pointer_walk_backwards() {
    let p = build(|p| {
        addr(100).copy_address_to(&addr(D), p);
        addr(D).prev(3, p);
        addr(D).deref().set(9, p);
    });
    let (it, _, _) = run_with(p, &[]);
    assert_eq!(it.cell(D), Some(97));
    assert_eq!(it.cell(97), Some(9));
}

fn compare(a: isize, b: isize, f: fn(&Location, &Location, &mut CoreProgram)) -> i64 {
    let p = build(|p| {
        addr(A).set(a, p);
        addr(B).set(b, p);
        f(&addr(A), &addr(B), p);
    });
    let (it, _, r) = run_with(p, &[]);
    assert_eq!(r, Ok(Status::Halted));
    assert_eq!(it.pointer(), 0);
    it.cell(A).unwrap()
}

#[test]
fn comparisons() {
    assert_eq!(compare(5, 3, Location::is_greater_than), 1);
    assert_eq!(compare(5, 3, Location::is_less_or_equal_to), 0);
    assert_eq!(compare(3, 5, Location::is_greater_than), 0);
    assert_eq!(compare(3, 5, Location::is_less_or_equal_to), 1);
    assert_eq!(compare(5, 3, Location::is_greater_or_equal_to), 1);
    assert_eq!(compare(5, 3, Location::is_less_than), 0);
    assert_eq!(compare(3, 5, Location::is_less_than), 1);
    assert_eq!(compare(4, 4, Location::is_greater_or_equal_to), 1);
    assert_eq!(compare(4, 4, Location::is_greater_than), 0);
    assert_eq!(compare(4, 4, Location::is_less_or_equal_to), 1);
    assert_eq!(compare(4, 4, Location::is_less_than), 0);
}

#[test]
fn boolean_operations() {
    assert_eq!(compare(1, 1, Location::and), 1);
    assert_eq!(compare(1, 0, Location::and), 0);
    assert_eq!(compare(0, 1, Location::and), 0);
    assert_eq!(compare(0, 0, Location::or), 0);
    assert_eq!(compare(0, 7, Location::or), 7);
    assert_eq!(compare(3, 0, Location::or), 1);
    let p = build(|p| {
        addr(A).set(5, p);
        addr(A).not(p);
        addr(B).not(p);
    });
    let (it, _, _) = run_with(p, &[]);
    assert_eq!(it.cell(A), Some(0));
    assert_eq!(it.cell(B), Some(1));
}

#[test]
fn arithmetic_wraps_and_truncates() {
    assert_eq!(compare(7, 3, Location::add), 10);
    assert_eq!(compare(7, 3, Location::sub), 4);
    assert_eq!(compare(7, 3, Location::mul), 21);
    assert_eq!(compare(-7, 2, Location::div), -3);
    assert_eq!(compare(-7, 2, Location::rem), -1);
    assert_eq!(compare(7, -2, Location::rem), 1);
    assert_eq!(compare(isize::MAX, 1, Location::add), i64::MIN);
    assert_eq!(compare(isize::MIN, -1, Location::div), i64::MIN);
    assert_eq!(compare(isize::MIN, -1, Location::rem), 0);
}

#[test]
fn whole_int_of_negative_is_zero() {
    let p = build(|p| {
        addr(A).set(-4, p);
        addr(A).whole_int(p);
        addr(B).set(0, p);
        addr(B).whole_int(p);
    });
    let (it, _, _) = run_with(p, &[]);
    assert_eq!(it.cell(A), Some(0));
    assert_eq!(it.cell(B), Some(1));
}

#[test]
fn push_and_pop_through_the_stack_pointer() {
    let p = build(|p| {
        addr(100).copy_address_to(&addr(0), p);
        addr(A).set(11, p);
        addr(B).set(22, p);
        addr(A).push(p);
        addr(B).push(p);
        addr(A).pop(p);
        addr(B).pop(p);
    });
    let (it, _, r) = run_with(p, &[]);
    assert_eq!(r, Ok(Status::Halted));
    assert_eq!(it.cell(A), Some(22));
    assert_eq!(it.cell(B), Some(11));
    assert_eq!(it.cell(0), Some(100));
    assert_eq!(it.cell(101), Some(11));
    assert_eq!(it.cell(102), Some(22));
}

#[test]
fn offsets_add_up() {
    let twice = addr(10).offset(3).offset(-5);
    let once = addr(10).offset(-2);
    let run = |l: &Location| {
        let p = build(|p| l.set(77, p));
        let (it, _, _) = run_with(p, &[]);
        (it.cell(8), it.pointer())
    };
    assert_eq!(run(&twice), run(&once));
    assert_eq!(run(&once), (Some(77), 0));
}

#[test]
fn to_then_from_restores_the_pointer() {
    let l = addr(100).deref().offset(2).deref();
    let p = build(|p| {
        addr(50).copy_address_to(&addr(100), p);
        addr(60).copy_address_to(&addr(52), p);
        l.to(p);
        l.from(p);
        l.set(5, p);
    });
    let (it, _, r) = run_with(p, &[]);
    assert_eq!(r, Ok(Status::Halted));
    assert_eq!(it.pointer(), 0);
    assert_eq!(it.cell(60), Some(5));
}

#[test]
fn get_reads_input_then_end_of_input() {
    let p = CoreProgram(vec![CoreOp::Get(0), CoreOp::Put(0), CoreOp::Get(0), CoreOp::Put(0)]);
    let (_, out, _) = run_with(p, &[104]);
    assert_eq!(out, vec![(0, 104), (0, -1)]);
}

#[test]
fn get_waits_for_input() {
    let mut it = CoreInterpreter::new(CoreProgram(vec![CoreOp::Get(0)]), 16).unwrap();
    assert_eq!(it.step(), Ok(Status::NeedsInput));
    it.provide_input(3);
    assert_eq!(it.step(), Ok(Status::Running));
    assert_eq!(it.register(), 3);
    assert_eq!(it.step(), Ok(Status::Halted));
}

#[test]
fn if_else_takes_one_branch() {
    let p = CoreProgram(vec![
        CoreOp::SetReg(0),
        CoreOp::If,
        CoreOp::SetReg(1),
        CoreOp::Put(0),
        CoreOp::Else,
        CoreOp::SetReg(2),
        CoreOp::Put(0),
        CoreOp::End,
        CoreOp::SetReg(5),
        CoreOp::If,
        CoreOp::Put(0),
        CoreOp::End,
    ]);
    let (_, out, _) = run_with(p, &[]);
    assert_eq!(out, vec![(0, 2), (0, 5)]);
}

#[test]
fn division_by_zero_faults() {
    let p = CoreProgram(vec![CoreOp::SetReg(4), CoreOp::Div]);
    let (_, _, r) = run_with(p, &[]);
    assert_eq!(r, Err(InterpreterError::DivisionByZero { pc: 1 }));
    let p = CoreProgram(vec![CoreOp::SetReg(4), CoreOp::Rem]);
    let (_, _, r) = run_with(p, &[]);
    assert_eq!(r, Err(InterpreterError::DivisionByZero { pc: 1 }));
}

#[test]
fn off_tape_access_faults() {
    let p = CoreProgram(vec![CoreOp::Move(-1), CoreOp::Save]);
    let (_, _, r) = run_with(p, &[]);
    assert_eq!(r, Err(InterpreterError::OutOfTape { pc: 1 }));
    let mut it = CoreInterpreter::new(CoreProgram(vec![CoreOp::Move(4), CoreOp::Restore]), 4).unwrap();
    assert_eq!(it.run(10), Err(InterpreterError::OutOfTape { pc: 1 }));
}

#[test]
fn refer_without_deref_faults() {
    let (_, _, r) = run_with(CoreProgram(vec![CoreOp::Refer]), &[]);
    assert_eq!(r, Err(InterpreterError::ReferenceUnderflow { pc: 0 }));
}

#[test]
fn call_of_unknown_function_faults() {
    let (_, _, r) = run_with(CoreProgram(vec![CoreOp::SetReg(3), CoreOp::Call]), &[]);
    assert_eq!(r, Err(InterpreterError::UnknownFunction { pc: 1, index: 3 }));
}

#[test]
fn pointer_overflow_faults() {
    let p = CoreProgram(vec![CoreOp::Move(isize::MAX), CoreOp::Move(1)]);
    let (_, _, r) = run_with(p, &[]);
    assert_eq!(r, Err(InterpreterError::PointerOverflow { pc: 1 }));
}

#[test]
fn unmatched_blocks_are_rejected() {
    for ops in [
        vec![CoreOp::End],
        vec![CoreOp::Else],
        vec![CoreOp::While, CoreOp::Else, CoreOp::End],
        vec![CoreOp::If],
    ] {
        assert!(matches!(
            CoreInterpreter::new(CoreProgram(ops), 16),
            Err(InterpreterError::UnmatchedBlock { .. })
        ));
    }
}

#[test]
fn step_limit_leaves_the_program_running() {
    let p = CoreProgram(vec![CoreOp::SetReg(1), CoreOp::While, CoreOp::End]);
    let mut it = CoreInterpreter::new(p, 16).unwrap();
    assert_eq!(it.run(100), Ok(Status::Running));
}

#[test]
fn standard_program_downgrades_only_without_standard_ops() {
    let core = CoreProgram(vec![CoreOp::SetReg(1), CoreOp::Put(0)]);
    let std = StandardProgram::from_core(&core);
    assert_eq!(std.to_core(), Some(core));
    let with_float = StandardProgram(vec![
        StandardOp::CoreOp(CoreOp::SetReg(1)),
        StandardOp::SetFloat("0.5".to_string()),
        StandardOp::ASin,
    ]);
    assert_eq!(with_float.to_core(), None);
    assert_eq!(StandardProgram(vec![StandardOp::Alloc]).to_core(), None);
}
