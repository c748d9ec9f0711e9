pub mod command;
pub mod compile;
pub mod instruction;
pub mod memory;
pub mod program;
pub mod repl;
pub mod shell;
pub mod vm;
