//! The core of a small interactive command shell: splitting an input line
//! into tokens, grouping the tokens into a chain of commands joined by
//! short-circuit operators, and deciding, command by command, what the shell
//! does next. Beside it stand the two pieces of text that the shell works
//! out for itself: the directory that a `cd` target names, and the prompt.
//!
//! Nothing here touches the terminal, the environment or the process table.
//! The caller reads the line, performs each [`dispatch::Action`] and reports
//! back how it went.

pub mod builtins;
pub mod chain;
pub mod dispatch;
pub mod joining;
pub mod prompt;
pub mod text;
pub mod tokenizer;
