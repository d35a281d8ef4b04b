//! The syntax tree that the parser builds.

pub mod expressions;
pub mod node;
pub mod statements;
