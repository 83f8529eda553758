//! Warren: isolated instances of command-line tools.
//!
//! The library holds the rules of the runtime: how installer sources are
//! classified, how installer scripts are rewritten into an instance, how an
//! instance lays out its directories, and how aliases, shells and sizes are
//! handled. Reading and writing files, prompting and running programs live in
//! the application around it.

pub mod cli;
pub mod commands;
pub mod text;
pub mod foreign;
pub mod path;
pub mod config;
pub mod install;
pub mod instance;
pub mod privilege;
pub mod shell;
