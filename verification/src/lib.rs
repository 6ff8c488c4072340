//! A tracing interpreter for a small tape language of eight one-character
//! commands. A program is decoded from text, run against a tape of byte cells,
//! and the state of the machine after every executed command is recorded.

pub mod modules;

pub use modules::command::Command;
pub use modules::entity::{Execution, Fault, NextAction, Outcome, State, StateView};
pub use modules::interpreter::Interpreter;
