//! A small virtual machine for a flat-memory assembly language: a lexer for
//! the textual form, a codec for the binary form, and the execution engine.

pub mod compiler;
pub mod errors;
pub mod instructions;
pub mod interpreter;
pub mod lexer;
pub mod memory;
pub mod text;

pub use compiler::compile;
pub use errors::{CodecError, LexError, RuntimeError};
pub use instructions::{get_literal_value, Instruction, Value};
pub use interpreter::{Action, Machine};
pub use lexer::{lex_bin, lex_str};
pub use memory::{Memory, ADDRESS_ADDRESS, COMPARISON_ADDRESS};
