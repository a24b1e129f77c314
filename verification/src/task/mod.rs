//! One pass over a library: what is listed, how it is bucketed, what is
//! moved, and what is announced.

pub mod alist;
pub mod episodes;
pub mod names;
pub mod notify;
pub mod plan;
pub mod push;
pub mod rerun;
pub mod tmdb;
pub mod tv;
