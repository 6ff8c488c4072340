pub mod command;
pub mod decoder;
pub mod entity;
pub mod interpreter;
pub mod machine;
pub mod nesting;
