//! An engine that marks expressions: it finds the calls of a module that
//! match configured patterns, extracts the literal arguments of each, and
//! emits one annotation comment with a record for every match.
pub mod ast;
pub mod comments;
pub mod config;
pub mod extract;
pub mod json;
pub mod magic;
pub mod mark;
pub mod number;
pub mod position;
pub mod postorder;
pub mod record;
pub mod seqs;

pub use crate::config::Config;
pub use crate::mark::{process_transform, MarkExpression};
