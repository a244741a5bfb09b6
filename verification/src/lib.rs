//! Command resolution and dispatch for a small interactive shell.

pub mod command;
pub mod host;
pub mod parse;
pub mod path;
pub mod search;
pub mod session;
pub mod text;
