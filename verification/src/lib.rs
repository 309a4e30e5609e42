//! A small interactive shell, verified with Verus.
//!
//! The library covers the logic of the shell: splitting an input line into
//! words under POSIX-like quoting rules, resolving a command name against a
//! search path, the built-in command table, and the per-line dispatch
//! decision.  Reading lines, touching the file system and spawning processes
//! are left to the surrounding program, which hands the library plain values.

pub mod builtins;
pub mod dispatch;
pub mod laws;
pub mod path_utils;
pub mod text;
pub mod tokenizer;
