//! Boundaries.

use tendr::model::boundary::{Boundary, BoundaryKind, BoundaryParseError};

#[test]
fn a_boundary_splits_on_its_first_colon_and_round_trips() {
    let b = Boundary::parse("container:my-image:latest").unwrap();
    assert_eq!(b.kind, BoundaryKind::Container);
    assert_eq!(b.label, "my-image:latest");
    assert_eq!(b.to_text(), "container:my-image:latest");
    assert_eq!("vm:\u{e9}\u{4e16}".parse::<Boundary>().unwrap().label, "\u{e9}\u{4e16}");
}

#[test]
fn a_broken_boundary_says_what_is_wrong() {
    assert_eq!(
        Boundary::parse("host"),
        Err(BoundaryParseError::MissingColon("host".to_owned()))
    );
    assert_eq!(
        Boundary::parse("host:"),
        Err(BoundaryParseError::EmptyLabel("host:".to_owned()))
    );
    assert_eq!(
        Boundary::parse("planet:"),
        Err(BoundaryParseError::EmptyLabel("planet:".to_owned())),
        "the label is asked for first"
    );
    assert_eq!(
        Boundary::parse("planet:earth"),
        Err(BoundaryParseError::UnknownKind("planet".to_owned()))
    );
    assert_eq!(
        Boundary::parse(":x"),
        Err(BoundaryParseError::UnknownKind(String::new()))
    );
}

#[test]
fn kinds_and_their_tokens_agree() {
    for (kind, token) in [
        (BoundaryKind::Host, "host"),
        (BoundaryKind::Container, "container"),
        (BoundaryKind::Vm, "vm"),
        (BoundaryKind::Pod, "pod"),
    ] {
        assert_eq!(kind.as_str(), token);
        assert_eq!(token.parse::<BoundaryKind>(), Ok(kind));
    }
    assert!("HOST".parse::<BoundaryKind>().is_err());
}

#[test]
fn a_refused_boundary_has_a_message() {
    assert_eq!(
        Boundary::parse("ho\"st\n").unwrap_err().message(),
        "boundary must be KIND:LABEL (missing ':'), got: \"ho\\\"st\\n\""
    );
    assert_eq!(
        Boundary::parse("host:").unwrap_err().message(),
        "boundary label cannot be empty, got: \"host:\""
    );
    assert_eq!(
        Boundary::parse("planet:earth").unwrap_err().message(),
        "unknown boundary kind \"planet\" (expected host, container, vm, or pod)"
    );
    assert_eq!(
        BoundaryParseError::UnknownKind("x".to_owned()).message_with("<x>"),
        "unknown boundary kind <x> (expected host, container, vm, or pod)"
    );
}
