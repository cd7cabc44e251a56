//! What a session, a run and a terminal are.

pub mod boundary;
pub mod dep_fail;
pub mod ids;
pub mod meta;
pub mod provenance;
pub mod pty;
pub mod pty_control;
pub mod state;
pub mod transition;
