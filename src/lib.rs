//! A tape-machine toolchain: the virtual machine's instruction set and a
//! mathematical model of its semantics, the location algebra that lowers
//! assembly-level memory operations to machine instructions, the laws that
//! algebra obeys, an interpreter, the program text format, and a C backend.
pub mod vm;
pub mod machine;
pub mod location;
pub mod laws;
pub mod interpreter;
pub mod text;
pub mod serial;
pub mod parse;
pub mod c;
pub mod driver;
