//! Supervised PTY sessions: the exact recording codec, the input arbiter, the
//! attach protocol and the rules that decide how a run starts and ends.

pub mod attach_escape;
pub mod attach_proto;
pub mod attach_socket;
pub mod bytes;
pub mod commands;
pub mod io_error;
pub mod json;
pub mod model;
pub mod pty_exit;
pub mod pty_input;
pub mod reconcile;
pub mod recorder;
pub mod recording;
pub mod sidecar;
pub mod text;
