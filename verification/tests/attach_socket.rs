//! Where attach sockets live and which of them are orphans.

use sha2::{Digest, Sha256};
use tendr::attach_socket::{
    after_create, before_private_dir, before_sweep, check_private_dir, checked_socket_path,
    has_no_breadcrumb, is_orphan, is_run_socket_name, may_be_orphan, path_exists, socket_name,
    socket_path, state_root_for, verify_peer, DirFacts, DirStep, SocketError, SocketFacts,
    SweepStep, ORPHAN_GRACE, SOCKET_DIR,
};
use tendr::io_error::ErrorKind;
use tendr::model::ids::RunId;

/// The limit of a path in a socket address here.
const MAX_PATH: usize = 107;

fn run_id(low: u64) -> RunId {
    RunId::from_v7(0x0190_0000_0000_7000, low).unwrap()
}

fn components(path: &str) -> Vec<String> {
    path.split('/')
        .filter(|c| !c.is_empty())
        .map(|c| c.to_owned())
        .collect()
}

#[test]
fn state_root_is_the_parent_of_the_sessions_directory() {
    let session = components("/tmp/x/.tendr/sessions/default/work");
    let root = state_root_for(&session).unwrap();
    assert_eq!(session[..root], components("/tmp/x/.tendr")[..]);
    assert_eq!(state_root_for(&components("/no/session/dir/here")), None);
}

#[test]
fn the_innermost_sessions_directory_counts() {
    let session = components("/sessions/a/.tendr/sessions/default/work");
    assert_eq!(state_root_for(&session), Some(3));
    assert_eq!(state_root_for(&components("sessions/x")), Some(0));
}

#[test]
fn a_session_or_a_namespace_may_be_called_sessions() {
    for path in [
        "/h/.tendr/sessions/default/sessions",
        "/h/.tendr/sessions/sessions/work",
        "/h/.tendr/sessions/sessions/sessions",
    ] {
        let session = components(path);
        let root = state_root_for(&session).unwrap();
        assert_eq!(session[..root], components("/h/.tendr")[..], "{path}");
    }
}

#[test]
fn socket_path_is_short_stable_per_run_and_distinct_across_runs() {
    let session = b"/tmp/x/.tendr/sessions/default/work";
    let root = b"/tmp/x/.tendr";
    let run = run_id(1);
    let a = socket_path(root, session, run, MAX_PATH).unwrap();
    assert_eq!(a, socket_path(root, session, run, MAX_PATH).unwrap());
    assert_ne!(a, socket_path(root, session, run_id(2), MAX_PATH).unwrap());
    assert_ne!(
        a,
        socket_path(root, b"/tmp/x/.tendr/sessions/default/play", run, MAX_PATH).unwrap()
    );
    let text = String::from_utf8(a).unwrap();
    let (parent, name) = text.rsplit_once('/').unwrap();
    assert_eq!(parent, format!("/tmp/x/.tendr/{SOCKET_DIR}"));
    assert!(name.ends_with(".sock"));
    assert!(is_run_socket_name(name.as_bytes()));
}

#[test]
fn an_overlong_parent_directory_is_an_error_not_a_truncation() {
    let session = b"/tmp/x/.tendr/sessions/default/work";
    let root = format!("/tmp/{}", "x".repeat(120));
    match socket_path(root.as_bytes(), session, run_id(1), MAX_PATH) {
        Err(SocketError::PathTooLong { path, len, max }) => {
            assert_eq!(len, path.len());
            assert_eq!(len, root.len() + "/sockets/".len() + 17);
            assert_eq!(max, MAX_PATH);
        }
        other => panic!("{other:?}"),
    }
}

#[test]
fn the_socket_name_is_the_start_of_a_sha_256_digest() {
    // SHA-256 of "abc" starts with ba7816bf8f01.
    let digest = vec![0xba, 0x78, 0x16, 0xbf, 0x8f, 0x01, 0xcf, 0xea];
    assert_eq!(socket_name(&digest), b"ba7816bf8f01.sock");
    assert_eq!(
        checked_socket_path(b"/r/", &digest, 40),
        Ok(b"/r/sockets/ba7816bf8f01.sock".to_vec())
    );
    assert_eq!(
        checked_socket_path(b"", &digest, 25),
        Ok(b"sockets/ba7816bf8f01.sock".to_vec())
    );
    assert!(checked_socket_path(b"", &digest, 24).is_err());

    // The digest is taken over the session directory and the run's sixteen bytes.
    let mut identity = b"/s".to_vec();
    identity.extend([0x01, 0x90, 0, 0, 0, 0, 0x70, 0, 0, 0, 0, 0, 0, 0, 0, 5]);
    let digest = Sha256::digest(&identity).to_vec();
    assert_eq!(
        socket_path(b"/r", b"/s", run_id(5), 100),
        checked_socket_path(b"/r", &digest, 100)
    );
    assert_ne!(digest[..6], identity[..6]);
}

#[test]
fn a_run_socket_name_is_twelve_hex_digits() {
    assert!(is_run_socket_name(b"0123456789ab.sock"));
    assert!(is_run_socket_name(b"0123456789AB.sock"));
    assert!(!is_run_socket_name(b"0123456789ag.sock"));
    assert!(!is_run_socket_name(b"0123456789a.sock"));
    assert!(!is_run_socket_name(b"0123456789ab0.sock"));
    assert!(!is_run_socket_name(b"0123456789ab.sick"));
    assert!(!is_run_socket_name(b""));
}

#[test]
fn a_private_directory_is_checked_and_tightened() {
    let facts = DirFacts {
        is_symlink: false,
        is_dir: true,
        owned: true,
        mode: 0o40700,
    };
    assert_eq!(check_private_dir(facts), Ok(false));
    assert_eq!(
        check_private_dir(DirFacts {
            mode: 0o40755,
            ..facts
        }),
        Ok(true)
    );
    let refused = |facts: DirFacts| match check_private_dir(facts) {
        Err(SocketError::UnsafeDirectory { reason }) => reason,
        other => panic!("{other:?}"),
    };
    assert_eq!(
        refused(DirFacts {
            is_symlink: true,
            ..facts
        }),
        "it is a symbolic link"
    );
    assert_eq!(
        refused(DirFacts {
            is_dir: false,
            ..facts
        }),
        "it is not a directory"
    );
    assert_eq!(
        refused(DirFacts {
            owned: false,
            ..facts
        }),
        "it is owned by another user"
    );
}

#[test]
fn a_missing_directory_is_created_and_a_lost_race_is_checked() {
    assert_eq!(before_private_dir(Ok(())), DirStep::Check);
    assert_eq!(before_private_dir(Err(ErrorKind::NotFound)), DirStep::Create);
    assert_eq!(
        before_private_dir(Err(ErrorKind::PermissionDenied)),
        DirStep::Fail(ErrorKind::PermissionDenied)
    );
    assert_eq!(after_create(Ok(())), DirStep::Check);
    assert_eq!(after_create(Err(ErrorKind::AlreadyExists)), DirStep::Check);
    assert_eq!(
        after_create(Err(ErrorKind::StorageFull)),
        DirStep::Fail(ErrorKind::StorageFull)
    );
    assert!(path_exists(ErrorKind::AddrInUse));
    assert!(!path_exists(ErrorKind::NotFound));
}

#[test]
fn a_socket_that_a_live_session_could_use_is_no_orphan() {
    let name = b"0123456789ab.sock";
    let old = SocketFacts {
        is_socket: true,
        owned: true,
        age: Some(ORPHAN_GRACE),
    };
    assert!(may_be_orphan(name, false, old));
    assert!(!may_be_orphan(name, true, old), "a breadcrumb names it");
    assert!(!may_be_orphan(b"other.sock", false, old));
    assert!(!may_be_orphan(
        name,
        false,
        SocketFacts {
            is_socket: false,
            ..old
        }
    ));
    assert!(!may_be_orphan(name, false, SocketFacts { owned: false, ..old }));
    assert!(!may_be_orphan(
        name,
        false,
        SocketFacts {
            age: Some(ORPHAN_GRACE - 1),
            ..old
        }
    ));
    assert!(!may_be_orphan(name, false, SocketFacts { age: None, ..old }));
    assert!(is_orphan(Err(ErrorKind::ConnectionRefused)));
    assert!(!is_orphan(Ok(())));
    assert!(!is_orphan(Err(ErrorKind::NotFound)));
}

#[test]
fn a_sweep_needs_a_directory_of_this_user() {
    let facts = DirFacts {
        is_symlink: false,
        is_dir: true,
        owned: true,
        mode: 0o700,
    };
    assert_eq!(before_sweep(Ok(facts)), SweepStep::Sweep);
    assert_eq!(
        before_sweep(Ok(DirFacts {
            owned: false,
            ..facts
        })),
        SweepStep::Refuse
    );
    assert_eq!(
        before_sweep(Ok(DirFacts {
            is_dir: false,
            ..facts
        })),
        SweepStep::Refuse
    );
    assert_eq!(before_sweep(Err(ErrorKind::NotFound)), SweepStep::Nothing);
    assert_eq!(
        before_sweep(Err(ErrorKind::PermissionDenied)),
        SweepStep::Refuse
    );
    assert!(has_no_breadcrumb(ErrorKind::NotFound));
    assert!(has_no_breadcrumb(ErrorKind::NotADirectory));
    assert!(!has_no_breadcrumb(ErrorKind::PermissionDenied));
}

#[test]
fn a_peer_is_verified_by_its_user() {
    assert_eq!(verify_peer(Ok(501), 501), Ok(()));
    assert_eq!(verify_peer(Ok(501), 0), Err(ErrorKind::PermissionDenied));
    assert_eq!(
        verify_peer(Err(ErrorKind::NotConnected), 0),
        Err(ErrorKind::NotConnected)
    );
}
