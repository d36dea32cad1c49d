//! Core of a small line-oriented command interpreter: a shell-style tokenizer,
//! a resolver for command names and a dispatcher that decides what each
//! command line does. Everything that touches the operating system (reading
//! the environment, the file system, spawning processes, printing) is left to
//! the caller, which hands the outcomes of that work back in plain values.

pub mod text;
pub mod tokenizer;
pub mod quoting;
pub mod resolver;
pub mod dispatch;
