//! Guides for AI agents, drawn from the help output of command-line tools.
pub mod common;
pub mod generator;
pub mod ir;
pub mod layout;
pub mod parser;
pub mod pattern;
pub mod security;
pub mod text;
