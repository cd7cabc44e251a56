//! What the commands decide.

pub mod attach;
pub mod push;
pub mod query;
