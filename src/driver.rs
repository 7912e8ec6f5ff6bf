//! # Compiler driver
//!
//! What the compiler does with a virtual machine program, given the kind of
//! source it was read from and the target asked for: run it, write it out as
//! text or as C, or refuse. The frontends that turn the higher languages
//! (Sage, the low-level IR, assembly) into virtual machine code are not part
//! of this library.
use vstd::prelude::*;
use crate::c::{C, c_core, c_standard};
use crate::serial::program_text;
use crate::vm::{CoreOp, CoreProgram, StandardOp, StandardProgram, lift};

verus! {

/// The source language of a compilation.
#[derive(Clone, Copy, Debug, PartialEq, Eq)]
pub enum SourceType {
    Sage,
    LowIR,
    CoreASM,
    StdASM,
    CoreVM,
    StdVM,
}

/// The target of a compilation.
#[derive(Clone, Copy, Debug, PartialEq, Eq)]
pub enum TargetType {
    Run,
    CoreASM,
    StdASM,
    CoreVM,
    StdVM,
    MyOS,
    C,
    X86,
}

/// Why a compilation was refused.
#[derive(Debug, PartialEq, Eq)]
pub enum CompileError {
    /// The input cannot give what was asked (a standard program for a core
    /// target, a virtual machine program for an assembly target).
    InvalidSource(String),
    /// The target rejected the program.
    BuildError(String),
    /// This library has no frontend for the source or no backend for the target.
    Unsupported(String),
}

/// What to do with a program.
#[derive(Debug, PartialEq, Eq)]
pub enum Compiled {
    /// Run the core program in the interpreter.
    RunCore(CoreProgram),
    /// Run the standard program.
    RunStandard(StandardProgram),
    /// Write `contents` to the output name followed by `extension`.
    Write { extension: String, contents: String },
}

/// Whether a program holds only core instructions.
pub open spec fn all_core(p: Seq<StandardOp>) -> bool {
    forall|i: int| 0 <= i < p.len() ==> #[trigger] p[i] is CoreOp
}

/// The core instructions of a program that holds only those.
pub open spec fn core_of(p: Seq<StandardOp>) -> Seq<CoreOp> {
    p.map_values(|op: StandardOp| op->CoreOp_0)
}

pub open spec fn is_vm_source(source: SourceType) -> bool {
    source == SourceType::CoreVM || source == SourceType::StdVM
}

pub open spec fn is_asm_target(target: TargetType) -> bool {
    target == TargetType::CoreASM || target == TargetType::StdASM
}

/// The C source of a program, at the tier it needs.
pub open spec fn c_of(p: Seq<StandardOp>) -> Result<Seq<char>, Seq<char>> {
    if all_core(p) {
        c_core(core_of(p))
    } else {
        c_standard(p)
    }
}

/// Whether `r` is the error `InvalidSource` with the text `text`.
pub open spec fn invalid_source(r: Result<Compiled, CompileError>, text: Seq<char>) -> bool {
    r matches Err(CompileError::InvalidSource(m)) && m@ == text
}

/// Whether `r` is the error `Unsupported` with the text `text`.
pub open spec fn unsupported(r: Result<Compiled, CompileError>, text: Seq<char>) -> bool {
    r matches Err(CompileError::Unsupported(m)) && m@ == text
}

/// Whether `r` writes `contents` under `extension`.
pub open spec fn writes(r: Result<Compiled, CompileError>, extension: Seq<char>, contents: Seq<char>) -> bool {
    r matches Ok(Compiled::Write { extension: e, contents: c }) && e@ == extension && c@ == contents
}

fn is_all_core(program: &StandardProgram) -> (r: bool)
    ensures
        r == all_core(program@),
{
    let mut i: usize = 0;
    while i < program.0.len()
        invariant
            i <= program.0.len(),
            forall|j: int| 0 <= j < i ==> #[trigger] program@[j] is CoreOp,
        decreases program.0.len() - i,
    {
        if !matches!(program.0[i], StandardOp::CoreOp(_)) {
            return false;
        }
        i = i + 1;
    }
    true
}

/// Decide what to do with `program`, read from a `source` file, for
/// `target`; `debug` indents the text targets.
pub fn plan(program: StandardProgram, source: SourceType, target: TargetType, debug: bool) -> (r:
    Result<Compiled, CompileError>)
    ensures
        !is_vm_source(source) ==> unsupported(r, "only virtual machine code can be read"@),
        is_vm_source(source) && is_asm_target(target) ==> invalid_source(
            r,
            "cannot compile a core VM program to assembly"@,
        ),
        is_vm_source(source) && !is_asm_target(target) ==> {
            let p = program@;
            if source == SourceType::CoreVM && !all_core(p) {
                invalid_source(r, "expected core VM program, got standard VM program"@)
            } else {
                match target {
                    TargetType::Run => if all_core(p) {
                        r matches Ok(Compiled::RunCore(c)) && lift(c@) == p
                    } else {
                        r matches Ok(Compiled::RunStandard(s)) && s@ == p
                    },
                    TargetType::C => match c_of(p) {
                        Ok(text) => writes(r, ".c"@, text),
                        Err(e) => r matches Err(CompileError::BuildError(m)) && m@ == e,
                    },
                    TargetType::CoreVM => if all_core(p) {
                        writes(r, ".vm.sg"@, program_text(p, debug))
                    } else {
                        invalid_source(r, "expected core VM program, got standard VM program"@)
                    },
                    TargetType::StdVM => writes(r, ".vm.sg"@, program_text(p, debug)),
                    _ => unsupported(r, "no backend for this target"@),
                }
            }
        },
{
    match source {
        SourceType::CoreVM | SourceType::StdVM => {},
        _ => {
            return Err(
                CompileError::Unsupported(
                    String::from_str("only virtual machine code can be read"),
                ),
            );
        },
    }
    match target {
        TargetType::CoreASM | TargetType::StdASM => {
            return Err(
                CompileError::InvalidSource(
                    String::from_str("cannot compile a core VM program to assembly"),
                ),
            );
        },
        _ => {},
    }
    let core = is_all_core(&program);
    if matches!(source, SourceType::CoreVM) && !core {
        return Err(
            CompileError::InvalidSource(
                String::from_str("expected core VM program, got standard VM program"),
            ),
        );
    }
    match target {
        TargetType::Run => {
            if core {
                match program.to_core() {
                    Some(c) => Ok(Compiled::RunCore(c)),
                    None => Ok(Compiled::RunStandard(program)),
                }
            } else {
                Ok(Compiled::RunStandard(program))
            }
        },
        TargetType::C => {
            let built = if core {
                match program.to_core() {
                    Some(c) => {
                        proof {
                            assert(core_of(program@) =~= c@);
                        }
                        C.build_core(&c)
                    },
                    None => C.build_std(&program),
                }
            } else {
                C.build_std(&program)
            };
            match built {
                Ok(text) => Ok(Compiled::Write { extension: String::from_str(".c"), contents: text }),
                Err(e) => Err(CompileError::BuildError(e)),
            }
        },
        TargetType::CoreVM => {
            if core {
                Ok(
                    Compiled::Write {
                        extension: String::from_str(".vm.sg"),
                        contents: program.to_text(debug),
                    },
                )
            } else {
                Err(
                    CompileError::InvalidSource(
                        String::from_str("expected core VM program, got standard VM program"),
                    ),
                )
            }
        },
        TargetType::StdVM => Ok(
            Compiled::Write { extension: String::from_str(".vm.sg"), contents: program.to_text(debug) },
        ),
        _ => Err(CompileError::Unsupported(String::from_str("no backend for this target"))),
    }
}

} // verus!
