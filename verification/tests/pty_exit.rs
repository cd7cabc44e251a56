//! Exit codes of PTY operations.

use tendr::io_error::ErrorKind;
use tendr::pty_exit::{exit_code, Failure, PtyExitCode};

#[test]
fn codes_are_the_reserved_pty_range() {
    assert_eq!(PtyExitCode::Protocol.code(), 80);
    assert_eq!(PtyExitCode::Control.code(), 81);
    assert_eq!(PtyExitCode::Runtime.code(), 84);
    assert_eq!(PtyExitCode::Identity.code(), 85);
}

#[test]
fn a_marked_error_exits_with_its_code_and_anything_else_with_1() {
    let marked = PtyExitCode::Control.error(Failure::new("busy"));
    assert_eq!(exit_code(&marked), 81);
    assert_eq!(marked.message(), "busy");

    let wrapped = PtyExitCode::Runtime
        .error(Failure::new("reset"))
        .context("push");
    assert_eq!(exit_code(&wrapped), 84, "context on top keeps the code");
    assert_eq!(wrapped.message(), "push");
    assert_eq!(wrapped.full_message(), "push: reset");

    assert_eq!(exit_code(&Failure::new("session not found: x")), 1);
}

#[test]
fn a_marked_error_prints_its_causes_once() {
    let inner = Failure::new("connection reset").context("attach socket");
    let marked = PtyExitCode::Runtime.error(inner);
    assert_eq!(marked.full_message(), "attach socket: connection reset");
}

/// Peer uid mismatch cannot be produced deterministically in a test (it
/// needs a second user), so the mapping `verify_peer`'s error takes is
/// checked here.
#[test]
fn a_peer_of_another_user_is_an_identity_failure() {
    assert_eq!(
        PtyExitCode::of_peer_check(ErrorKind::PermissionDenied),
        PtyExitCode::Identity
    );
    assert_eq!(
        PtyExitCode::of_peer_check(ErrorKind::Other),
        PtyExitCode::Runtime
    );
}

#[test]
fn the_first_mark_of_a_chain_counts() {
    let twice = PtyExitCode::Identity.error(PtyExitCode::Runtime.error(Failure::new("x")));
    assert_eq!(exit_code(&twice), 85);
    assert_eq!(twice.full_message(), "x");
}
