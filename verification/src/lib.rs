//! Reconciliation engine for a remote library of TV-show files.

pub mod cli;
pub mod common;
pub mod ordered;
pub mod parser;
pub mod pattern;
pub mod task;
pub mod text;
