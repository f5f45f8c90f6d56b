//! An interpreter for SBL, a small stack-oriented scripting language: a
//! line-oriented parser and a virtual machine over a bounded, cursor-addressed
//! tape of 32-bit integers.
pub mod files;
pub mod machine;
pub mod parser;
pub mod stack;
pub mod text;

pub use files::check_extension;
pub use machine::{Action, Effect, Fault, Machine, MachineModel, RuntimeError, TAPE_SIZE};
pub use parser::{
    parse_file, Instr, Instructions, Label, ParseError, ParseFailure, PrintModel, PrintVariants,
    ProgramModel, Tokens,
};
pub use stack::{Stack, EMPTY_SLOT};
