//! The compile-and-run core of a small interactive shell.
//!
//! A line is split into pipeline stages and redirections (`input`), the
//! redirections in force are picked (`operators`), each stage is compiled to
//! a command (`commands`, with `env` for executables and `builtins` for what
//! the builtins say), and the commands are planned as a chain of processes
//! (`pipeline`, `repl`). Beside that stands the history with its recall
//! cursor (`history`), the entry modes (`args`) and completion
//! (`completion`, `rustyline`).
//!
//! The library decides and computes; whoever uses it reads the environment,
//! starts the processes and writes the files.

pub mod args;
pub mod builtins;
pub mod commands;
pub mod commands_proofs;
pub mod completion;
pub mod decimal;
pub mod env;
pub mod history;
pub mod input;
pub mod input_proofs;
pub mod lines;
pub mod operators;
pub mod order;
pub mod pipeline;
pub mod repl;
pub mod rustyline;
pub mod text;
