//! An interpreter for a small register-based assembly language.
//!
//! A source text is parsed into a [`Program`]: a flat instruction
//! sequence, a table of register names and a table of label addresses. An
//! [`ExecutingContext`] then runs the program, one instruction per step,
//! against a register file, an operand stack and two comparison flags.

pub mod command;
pub mod executing_context;
pub mod laws;
pub mod lexer;
pub mod machine;
pub mod number;
pub mod parser;
pub mod program;
pub mod rule;
pub mod syntax;
pub mod text;
pub mod types;

pub use crate::command::{BinaryOp, Command, Condition, UnaryOp};
pub use crate::executing_context::{ExecutingContext, Execution};
pub use crate::lexer::Token;
pub use crate::machine::Stop;
pub use crate::parser::AssemblerParser;
pub use crate::program::Program;
pub use crate::rule::Rule;
pub use crate::syntax::{Statement, SyntaxError, SyntaxErrorKind};
pub use crate::types::{Fault, FaultKind, Flags, Label, RegIndex, IP};
