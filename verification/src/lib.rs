//! The core of a small interactive command interpreter: splitting a line into
//! words with shell-style quoting, deciding what a command asks for, and
//! searching a colon-separated list of directories for a program.
//!
//! Everything here works on plain values. Reading lines, listing directories,
//! changing the working directory and starting programs is left to the caller.

pub mod text;
pub mod tokenizer;
pub mod laws;
pub mod reader;
pub mod builtins;
pub mod dispatch;
pub mod resolver;

pub use tokenizer::parse_line;
