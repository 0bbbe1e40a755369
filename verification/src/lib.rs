//! An assembler and an interpreter for a small integer-coded virtual machine.
//!
//! The machine works on an unbounded memory of signed integers with position,
//! immediate and relative addressing. The assembler turns a line-oriented
//! source with symbolic tags into the integer stream that the machine runs.

pub mod argument;
pub mod assembler;
pub mod assembly;
pub mod assembly_laws;
pub mod diagnostics;
pub mod image;
pub mod instructions;
pub mod interpreter;
pub mod machine;
pub mod machine_laws;
pub mod memory;
pub mod output;
pub mod source;
pub mod text;
pub mod word_laws;

pub use argument::{
    encode_opcode, get_mode_number_from_mode, parse_argument, parse_instruction, DEFAULT_MODE,
};
pub use assembler::Assembler;
pub use diagnostics::{CodePosition, CompileError, CompileErrorType};
pub use instructions::{Instruction, Instructions, ParameterModes};
pub use interpreter::IntCodeProgram;
pub use image::{read_integer, read_number, read_program, ImageError};
pub use machine::{Action, RunError, VmError};
pub use memory::Memory;
pub use output::{failure_report, join_tokens, join_tokens_flat, name_output, REPORT_LIMIT};
pub use source::{replace_matches, split_lines, split_source, SourceError, TAG_BREAK};
