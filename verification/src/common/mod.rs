//! What the whole program shares: its settings and its failures.

pub mod config;
pub mod error;
