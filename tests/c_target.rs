use sage::c::{C, CORE_PRELUDE, STD_PRELUDE};
use sage::vm::{CoreOp, CoreProgram, StandardOp, StandardProgram};

fn build(ops: Vec<CoreOp>) -> Result<String, String> {
    C.build_core(&CoreProgram(ops))
}

fn body_of(ops: Vec<CoreOp>) -> String {
    let text = build(ops).unwrap();
    let start = CORE_PRELUDE.len() + "\treg.i = 0;\n".len();
    let end = text.len() - "\treturn 0;\n}".len();
    text[start..end].to_string()
}

#[test]
fn print_constant_program() {
    let text = build(vec![
        CoreOp::SetReg(65),
        CoreOp::Put(0),
        CoreOp::SetReg(10),
        CoreOp::Put(0),
    ])
    .unwrap();
    let expected = format!(
        "{}\treg.i = 0;\n\treg.i = 65;\n\tputchar(reg.i);\n\treg.i = 10;\n\tputchar(reg.i);\n\treturn 0;\n}}",
        CORE_PRELUDE
    );
    assert_eq!(text, expected);
}

#[test]
fn empty_program_is_just_main() {
    assert_eq!(
        build(vec![]).unwrap(),
        format!("{}\treg.i = 0;\n\treturn 0;\n}}", CORE_PRELUDE)
    );
}

#[test]
fn functions_are_numbered_in_order() {
    let body = body_of(vec![
        CoreOp::Function,
        CoreOp::Return,
        CoreOp::End,
        CoreOp::Function,
        CoreOp::End,
        CoreOp::SetReg(1),
        CoreOp::Call,
    ]);
    assert_eq!(
        body,
        "\tvoid f0() {\n\t\treturn;\n\t\t\n\t} funs[0] = f0;\n\tvoid f1() {\n\t\t\n\t} funs[1] = f1;\n\treg.i = 1;\n\tfuns[reg.i]();\n"
    );
}

#[test]
fn nested_function_keeps_outer_number() {
    let body = body_of(vec![CoreOp::Function, CoreOp::Function, CoreOp::End, CoreOp::End]);
    assert!(body.contains("} funs[1] = f1;"));
    assert!(body.find("funs[1] = f1").unwrap() < body.find("funs[0] = f0").unwrap());
}

#[test]
fn loop_and_branches() {
    let body = body_of(vec![
        CoreOp::While,
        CoreOp::If,
        CoreOp::Add,
        CoreOp::Else,
        CoreOp::Sub,
        CoreOp::End,
        CoreOp::End,
    ]);
    assert_eq!(
        body,
        "\twhile (reg.i) {\n\t\tif (reg.i) {\n\t\t\treg.i += ptr->i;\n\t\t\t\n\t\t} else {\n\t\t\treg.i -= ptr->i;\n\t\t\t}\n\t\t}\n"
    );
}

#[test]
fn pointer_instructions() {
    let body = body_of(vec![
        CoreOp::Move(-3),
        CoreOp::Deref,
        CoreOp::Refer,
        CoreOp::Where,
        CoreOp::Index,
        CoreOp::BitwiseNand,
    ]);
    assert_eq!(
        body,
        "\tptr += -3;\n\t*ref++ = ptr;\n\tptr = ptr->p;\n\tptr = *--ref;\n\treg.p = ptr;\n\treg.p += ptr->i;\n\treg.i = ~(reg.i & ptr->i);\n"
    );
}

#[test]
fn arithmetic_and_io_instructions() {
    let body = body_of(vec![
        CoreOp::Mul,
        CoreOp::Div,
        CoreOp::Rem,
        CoreOp::IsNonNegative,
        CoreOp::Save,
        CoreOp::Restore,
        CoreOp::Get(0),
    ]);
    assert_eq!(
        body,
        "\treg.i *= ptr->i;\n\treg.i /= ptr->i;\n\treg.i %= ptr->i;\n\treg.i = reg.i >= 0;\n\t*ptr = reg;\n\treg = *ptr;\n\treg.i = (reg.i = getchar()) == EOF? -1 : reg.i;\n"
    );
}

#[test]
fn comments_are_left_out() {
    assert_eq!(
        body_of(vec![CoreOp::Comment("hello\nworld".to_string()), CoreOp::Return]),
        "\treturn;\n"
    );
}

#[test]
fn extreme_constants_are_printed_exactly() {
    let body = body_of(vec![CoreOp::SetReg(isize::MIN), CoreOp::SetReg(isize::MAX)]);
    assert_eq!(body, format!("\treg.i = {};\n\treg.i = {};\n", isize::MIN, isize::MAX));
}

#[test]
fn else_without_if_is_rejected() {
    assert_eq!(build(vec![CoreOp::Else]), Err("Unexpected else".to_string()));
    assert_eq!(
        build(vec![CoreOp::While, CoreOp::Else, CoreOp::End]),
        Err("Unexpected else".to_string())
    );
    assert_eq!(
        build(vec![CoreOp::If, CoreOp::Else, CoreOp::Else, CoreOp::End]),
        Err("Unexpected else".to_string())
    );
}

#[test]
fn unmatched_end_is_rejected() {
    assert_eq!(build(vec![CoreOp::End]), Err("Unexpected end".to_string()));
    assert_eq!(
        build(vec![CoreOp::If, CoreOp::End, CoreOp::End]),
        Err("Unexpected end".to_string())
    );
}

#[test]
fn unterminated_block_is_rejected() {
    assert_eq!(build(vec![CoreOp::Function]), Err("Unterminated block".to_string()));
    let r = C.build_std(&StandardProgram(vec![StandardOp::CoreOp(CoreOp::While)]));
    assert_eq!(r, Err("Unterminated block".to_string()));
}

fn std_body(ops: Vec<StandardOp>) -> String {
    let text = C.build_std(&StandardProgram(ops)).unwrap();
    let start = STD_PRELUDE.len() + "\treg.i = 0;\n".len();
    let end = text.len() - "\treturn 0;\n}".len();
    text[start..end].to_string()
}

#[test]
fn float_program_calls_the_math_library() {
    let body = std_body(vec![
        StandardOp::SetFloat("0.5".to_string()),
        StandardOp::ASin,
        StandardOp::CoreOp(CoreOp::Put(1)),
    ]);
    assert_eq!(body, "\treg.f = 0.5;\n\treg.f = asin(reg.f);\n\tfputc(reg.i, stderr);\n");
}

#[test]
fn standard_moves_use_the_sign() {
    let body = std_body(vec![
        StandardOp::CoreOp(CoreOp::Move(4)),
        StandardOp::CoreOp(CoreOp::Move(-4)),
        StandardOp::CoreOp(CoreOp::Move(isize::MIN)),
    ]);
    assert_eq!(
        body,
        format!("\tptr += 4;\n\tptr -= 4;\n\tptr -= {};\n", (isize::MIN as i128).unsigned_abs())
    );
}

#[test]
fn standard_blocks_close_at_the_outer_indent() {
    let body = std_body(vec![
        StandardOp::CoreOp(CoreOp::Function),
        StandardOp::CoreOp(CoreOp::If),
        StandardOp::CoreOp(CoreOp::Else),
        StandardOp::CoreOp(CoreOp::End),
        StandardOp::CoreOp(CoreOp::End),
    ]);
    assert_eq!(
        body,
        "\tvoid f0() {\n\t\tif (reg.i) {\n\t\t} else {\n\t\t}\n\t} funs[0] = f0;\n"
    );
}

#[test]
fn standard_only_instructions() {
    let body = std_body(vec![
        StandardOp::Peek,
        StandardOp::Poke,
        StandardOp::Add,
        StandardOp::Sub,
        StandardOp::Mul,
        StandardOp::Div,
        StandardOp::Rem,
        StandardOp::Pow,
        StandardOp::IsNonNegative,
        StandardOp::Sin,
        StandardOp::Cos,
        StandardOp::Tan,
        StandardOp::ACos,
        StandardOp::ATan,
        StandardOp::Alloc,
        StandardOp::Free,
        StandardOp::ToInt,
        StandardOp::ToFloat,
    ]);
    let lines: Vec<&str> = body.lines().map(|l| l.trim()).collect();
    assert_eq!(
        lines,
        vec![
            "reg = peek();",
            "poke(reg);",
            "reg.f += ptr->f;",
            "reg.f -= ptr->f;",
            "reg.f *= ptr->f;",
            "reg.f /= ptr->f;",
            "reg.f = fmod(reg.f, ptr->f);",
            "reg.f = powf(reg.f, ptr->f);",
            "reg.i = reg.f >= 0;",
            "reg.f = sin(reg.f);",
            "reg.f = cos(reg.f);",
            "reg.f = tan(reg.f);",
            "reg.f = acos(reg.f);",
            "reg.f = atan(reg.f);",
            "reg.p = malloc(reg.i * sizeof(*ptr));",
            "free(reg.p);",
            "reg.i = (long long int)reg.f;",
            "reg.f = (double)reg.i;",
        ]
    );
}

#[test]
fn standard_else_without_if_is_rejected() {
    let r = C.build_std(&StandardProgram(vec![StandardOp::CoreOp(CoreOp::Else)]));
    assert_eq!(r, Err("Unexpected else".to_string()));
    let r = C.build_std(&StandardProgram(vec![StandardOp::CoreOp(CoreOp::End)]));
    assert_eq!(r, Err("Unexpected end".to_string()));
}

#[test]
fn put_on_channel_one_goes_to_standard_error() {
    let body = body_of(vec![CoreOp::Put(1), CoreOp::Put(0), CoreOp::Put(2)]);
    assert_eq!(body, "\tfputc(reg.i, stderr);\n\tputchar(reg.i);\n\tputchar(reg.i);\n");
}
