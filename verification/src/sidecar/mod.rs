//! The per-session sidecar, the lifecycle authority: what it decides.
//!
//! Spawned detached by `start`, the sidecar holds the session lock, spawns the
//! supervised child, writes run [`state`](crate::model::state) transitions into
//! [`Meta`](crate::model::meta::Meta), captures the child's output, watches for
//! kill requests, and classifies the exit. Processes, files, sockets and threads
//! are its owner's; every decision about them is taken here.

pub mod connection;
pub mod dependencies;
pub mod hooks;
pub mod kill_request;
pub mod lifecycle;
pub mod recording_state;
pub mod startup;
pub mod supervised_run;
pub mod viewer;
