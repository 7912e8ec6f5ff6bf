use sage::driver::{plan, CompileError, Compiled, SourceType, TargetType};
use sage::parse::{parse_program, ParseError};
use sage::vm::{CoreOp, CoreProgram, StandardOp, StandardProgram};

fn sample() -> CoreProgram {
    CoreProgram(vec![
        CoreOp::Comment(" greet".to_string()),
        CoreOp::Function,
        CoreOp::SetReg(-12),
        CoreOp::Put(0),
        CoreOp::End,
        CoreOp::If,
        CoreOp::Move(3),
        CoreOp::Else,
        CoreOp::Get(1),
        CoreOp::End,
        CoreOp::IsNonNegative,
        CoreOp::BitwiseNand,
    ])
}

#[test]
fn core_program_text_has_one_line_per_instruction() {
    assert_eq!(
        sample().to_text(false),
        "// greet\nfunction\nset -12\nput 0\nend\nif\nmove 3\nelse\nget 1\nend\ngez\nnand\n"
    );
}

#[test]
fn debug_text_indents_blocks() {
    assert_eq!(
        sample().to_text(true),
        "// greet\nfunction\n\tset -12\n\tput 0\nend\nif\n\tmove 3\nelse\n\tget 1\nend\ngez\nnand\n"
    );
}

#[test]
fn standard_text_names() {
    let p = StandardProgram(vec![
        StandardOp::SetFloat("0.5".to_string()),
        StandardOp::ASin,
        StandardOp::Add,
        StandardOp::ToInt,
        StandardOp::CoreOp(CoreOp::Add),
    ]);
    assert_eq!(p.to_text(false), "set-f 0.5\nasin\nadd-f\nto-int\nadd\n");
}

#[test]
fn text_reads_back() {
    let p = sample();
    let back = parse_program(&p.to_text(false)).unwrap();
    assert_eq!(back.to_core(), Some(p.clone()));
    let back = parse_program(&p.to_text(true)).unwrap();
    assert_eq!(back.to_core(), Some(p));
}

#[test]
fn every_name_reads_back() {
    let ops = vec![
        StandardOp::SetFloat("1e-3".to_string()),
        StandardOp::Peek,
        StandardOp::Poke,
        StandardOp::Add,
        StandardOp::Sub,
        StandardOp::Mul,
        StandardOp::Div,
        StandardOp::Rem,
        StandardOp::Pow,
        StandardOp::IsNonNegative,
        StandardOp::Sin,
        StandardOp::Cos,
        StandardOp::Tan,
        StandardOp::ASin,
        StandardOp::ACos,
        StandardOp::ATan,
        StandardOp::Alloc,
        StandardOp::Free,
        StandardOp::ToInt,
        StandardOp::ToFloat,
        StandardOp::CoreOp(CoreOp::Call),
        StandardOp::CoreOp(CoreOp::Return),
        StandardOp::CoreOp(CoreOp::While),
        StandardOp::CoreOp(CoreOp::End),
        StandardOp::CoreOp(CoreOp::Where),
        StandardOp::CoreOp(CoreOp::Deref),
        StandardOp::CoreOp(CoreOp::Refer),
        StandardOp::CoreOp(CoreOp::Index),
        StandardOp::CoreOp(CoreOp::Sub),
        StandardOp::CoreOp(CoreOp::Mul),
        StandardOp::CoreOp(CoreOp::Div),
        StandardOp::CoreOp(CoreOp::Rem),
        StandardOp::CoreOp(CoreOp::Save),
        StandardOp::CoreOp(CoreOp::Restore),
        StandardOp::CoreOp(CoreOp::SetReg(isize::MIN)),
        StandardOp::CoreOp(CoreOp::Move(isize::MAX)),
    ];
    let p = StandardProgram(ops);
    assert_eq!(parse_program(&p.to_text(false)), Ok(p));
}

#[test]
fn blanks_and_carriage_returns_are_ignored() {
    let p = parse_program("  set 5 \r\n\n\t put 0\n").unwrap();
    assert_eq!(
        p.to_core(),
        Some(CoreProgram(vec![CoreOp::SetReg(5), CoreOp::Put(0)]))
    );
    assert_eq!(parse_program(""), Ok(StandardProgram(vec![])));
}

#[test]
fn bad_lines_are_reported_by_number() {
    assert_eq!(parse_program("set 1\nfly\n"), Err(ParseError { line: 1 }));
    assert_eq!(parse_program("set\n"), Err(ParseError { line: 0 }));
    assert_eq!(parse_program("set x\n"), Err(ParseError { line: 0 }));
    assert_eq!(parse_program("add 1\n"), Err(ParseError { line: 0 }));
    assert_eq!(parse_program("move -\n"), Err(ParseError { line: 0 }));
    assert_eq!(
        parse_program("set 99999999999999999999999\n"),
        Err(ParseError { line: 0 })
    );
    assert_eq!(parse_program("\n\nset  1\n"), Err(ParseError { line: 2 }));
}

fn plan_text(src: &str, source: SourceType, target: TargetType) -> Result<Compiled, CompileError> {
    plan(parse_program(src).unwrap(), source, target, false)
}

#[test]
fn core_target_rejects_standard_programs() {
    let r = plan_text("set-f 0.5\nasin\n", SourceType::CoreVM, TargetType::C);
    assert!(matches!(r, Err(CompileError::InvalidSource(_))));
    let r = plan_text("set-f 0.5\n", SourceType::StdVM, TargetType::CoreVM);
    assert!(matches!(r, Err(CompileError::InvalidSource(_))));
    let r = plan_text("set 1\n", SourceType::StdVM, TargetType::CoreVM);
    assert_eq!(
        r,
        Ok(Compiled::Write { extension: ".vm.sg".to_string(), contents: "set 1\n".to_string() })
    );
}

#[test]
fn run_target_picks_the_tier() {
    let r = plan_text("set 1\nput 0\n", SourceType::StdVM, TargetType::Run);
    assert_eq!(
        r,
        Ok(Compiled::RunCore(CoreProgram(vec![CoreOp::SetReg(1), CoreOp::Put(0)])))
    );
    let r = plan_text("set-f 2.0\n", SourceType::StdVM, TargetType::Run);
    assert!(matches!(r, Err(_)) == false);
    assert!(matches!(r, Ok(Compiled::RunStandard(_))));
}

#[test]
fn c_target_builds_the_translation_unit() {
    let r = plan_text("set 65\nput 0\n", SourceType::CoreVM, TargetType::C).unwrap();
    match r {
        Compiled::Write { extension, contents } => {
            assert_eq!(extension, ".c");
            assert!(contents.ends_with("\treg.i = 65;\n\tputchar(reg.i);\n\treturn 0;\n}"));
        }
        other => panic!("unexpected {:?}", other),
    }
    let r = plan_text("else\n", SourceType::CoreVM, TargetType::C);
    assert_eq!(r, Err(CompileError::BuildError("Unexpected else".to_string())));
    let r = plan_text("set-f 1.5\n", SourceType::StdVM, TargetType::C).unwrap();
    assert!(matches!(r, Compiled::Write { ref contents, .. } if contents.contains("reg.f = 1.5;")));
}

#[test]
fn other_sources_and_targets_are_refused() {
    let r = plan_text("set 1\n", SourceType::LowIR, TargetType::Run);
    assert!(matches!(r, Err(CompileError::Unsupported(_))));
    let r = plan_text("set 1\n", SourceType::CoreVM, TargetType::CoreASM);
    assert!(matches!(r, Err(CompileError::InvalidSource(_))));
    let r = plan_text("set 1\n", SourceType::CoreVM, TargetType::X86);
    assert!(matches!(r, Err(CompileError::Unsupported(_))));
}

#[test]
fn refusals_carry_their_text() {
    let r = plan_text("set-f 0.5\n", SourceType::CoreVM, TargetType::Run);
    assert_eq!(
        r,
        Err(CompileError::InvalidSource(
            "expected core VM program, got standard VM program".to_string()
        ))
    );
    let r = plan_text("set 1\n", SourceType::StdVM, TargetType::StdASM);
    assert_eq!(
        r,
        Err(CompileError::InvalidSource("cannot compile a core VM program to assembly".to_string()))
    );
}
