//! The logic behind the commands.

use tendr::attach_escape::EscapeMode;
use tendr::attach_proto::{Frame, FrameError, Mode, Progress, PushOutcome, Reply};
use tendr::commands::attach::{
    attach_accepted, attach_refusal, hello_mode, poll_timespec, reader_step, Ending, Keyboard,
    NextFrame, Outbox, ReaderStep, Relay, OUTBOX_DATA_LIMIT,
};
use tendr::commands::push::{
    after_open_failure, push_accepted, push_outcome, push_reply, push_route, OpenRetry, PushRoute,
};
use tendr::commands::query::{
    build_view_sql, duckdb_spawn_error, exit_status, is_event_segment, parse_namespaces,
    query_action, query_script, resolve_sql, sql_string_literal, QueryAction, QueryOptions, SqlSource, VIEW_PROJECTION,
};
use tendr::io_error::ErrorKind;
use tendr::model::ids::{EpochTimestamp, ProcessIdentity, RunId};
use tendr::model::meta::Meta;
use tendr::model::pty::{PtyControl, PtyMeta};
use tendr::recording::Geometry;

fn stopped(accepted: u64, received: u64) -> Progress {
    Progress {
        accepted,
        unwritten: received - accepted,
    }
}

/// A takeover that lands after the last byte was written, while the end
/// marker is still on its way, ends the push `revoked` with nothing left
/// unwritten. The push succeeded.
#[test]
fn a_push_whose_every_byte_was_written_succeeds_whatever_the_outcome() {
    assert!(push_outcome(PushOutcome::Written { bytes: 10 }, 10, true).is_ok());
    assert!(push_outcome(PushOutcome::Revoked(stopped(10, 10)), 10, true).is_ok());
    assert!(push_outcome(PushOutcome::Closed(stopped(10, 10)), 10, true).is_ok());
}

#[test]
fn a_push_with_bytes_unwritten_fails() {
    assert!(push_outcome(PushOutcome::Revoked(stopped(4, 10)), 10, true).is_err());
    assert!(push_outcome(PushOutcome::Closed(stopped(4, 10)), 10, true).is_err());
    // Stdin was not sent to its end: bytes the session never saw are unwritten.
    assert!(push_outcome(PushOutcome::Revoked(stopped(10, 10)), 10, false).is_err());
}

#[test]
fn a_failed_push_says_how_far_it_came() {
    assert_eq!(
        push_outcome(PushOutcome::Revoked(stopped(4, 10)), 10, true).unwrap_err(),
        "push revoked after 4 of 10 bytes: another client took control of the terminal"
    );
    assert_eq!(
        push_outcome(PushOutcome::Closed(stopped(0, 10)), 10, true).unwrap_err(),
        "push stopped after 0 of 10 bytes: the session stopped accepting input"
    );
}

#[test]
fn poll_timespec_carries_whole_seconds() {
    assert_eq!(poll_timespec(1500), (1, 500_000_000));
    assert_eq!(poll_timespec(100), (0, 100_000_000));
}

fn meta(running: bool, control: Option<PtyControl>) -> Meta {
    let id = ProcessIdentity {
        pid: 1,
        start_time_ns: 0,
    };
    let mut meta = Meta::new_starting(
        "t".to_owned(),
        RunId::from_v7(0x0190_0000_0000_7000, 1).unwrap(),
        1,
        id,
        EpochTimestamp::from_secs(0),
    );
    if running {
        meta.transition_running(id).unwrap();
    }
    if let Some(control) = control {
        meta.set_pty(PtyMeta::new());
        meta.set_pty_control(control);
    }
    meta
}

#[test]
fn a_push_is_routed_by_the_sessions_record() {
    let agent = Some(PtyControl::AgentControl);
    let human = Some(PtyControl::HumanControl);
    assert_eq!(
        push_route(&meta(false, None), true),
        Err("session is not running")
    );
    assert_eq!(
        push_route(&meta(true, human), true),
        Err("session is under human control")
    );
    assert_eq!(
        push_route(&meta(true, None), false),
        Err("session was not started with --stdin")
    );
    assert_eq!(push_route(&meta(true, None), true), Ok(PushRoute::Stdin));
    assert_eq!(
        push_route(&meta(true, agent), true),
        Ok(PushRoute::AttachSocket)
    );
    assert_eq!(
        after_open_failure(ErrorKind::ConnectionRefused, true),
        OpenRetry::Again
    );
    assert_eq!(
        after_open_failure(ErrorKind::ConnectionRefused, false),
        OpenRetry::SessionExited
    );
    assert_eq!(
        after_open_failure(ErrorKind::NotFound, true),
        OpenRetry::Fail
    );
}

#[test]
fn a_push_reply_is_understood() {
    assert_eq!(push_accepted(&Reply::Frame(Frame::Accepted(1)), ""), Ok(()));
    assert_eq!(
        push_accepted(&Reply::Frame(Frame::Rejected("busy".to_owned())), ""),
        Err("push refused: busy".to_owned())
    );
    assert_eq!(
        push_accepted(&Reply::Frame(Frame::Detach), "Detach"),
        Err("unexpected push reply Detach".to_owned())
    );
    assert_eq!(
        push_accepted(&Reply::Bad(FrameError::Unknown(200)), ""),
        Err(
            "the session replied with attach message type 200, which this tendr does not know; it may be newer"
                .to_owned()
        )
    );
    assert_eq!(
        push_accepted(&Reply::Closed, "eof"),
        Err("the session did not accept the push (eof); it may predate acknowledged push".to_owned())
    );

    let written = Reply::Frame(Frame::InputDone(PushOutcome::Written { bytes: 3 }));
    assert_eq!(push_reply(&written, "", 3, true), Some(Ok(())));
    assert_eq!(
        push_reply(&Reply::Frame(Frame::Data(vec![1])), "", 3, true),
        None
    );
    assert_eq!(
        push_reply(&Reply::Bad(FrameError::Unknown(9)), "", 3, true),
        None
    );
    assert_eq!(
        push_reply(&Reply::Bad(FrameError::Malformed(9)), "bad", 3, true),
        Some(Err("malformed push outcome from the session: bad".to_owned()))
    );
    assert_eq!(
        push_reply(&Reply::Closed, "eof", 3, true),
        Some(Err(
            "the session closed the push without reporting an outcome after 3 bytes (eof)".to_owned()
        ))
    );
}

#[test]
fn an_attach_is_refused_by_the_sessions_record_or_its_reply() {
    let agent = Some(PtyControl::AgentControl);
    let human = Some(PtyControl::HumanControl);
    assert_eq!(
        attach_refusal(&meta(false, agent), false),
        Some("session is not running")
    );
    assert_eq!(
        attach_refusal(&meta(true, None), true),
        Some("session is not PTY-enabled")
    );
    assert_eq!(
        attach_refusal(&meta(true, human), false),
        Some("session is already under human control (use --takeover to take it over)")
    );
    assert_eq!(attach_refusal(&meta(true, human), true), None);
    assert_eq!(attach_refusal(&meta(true, agent), false), None);
    assert_eq!(hello_mode(true), Mode::Takeover);
    assert_eq!(hello_mode(false), Mode::Attach);

    assert_eq!(attach_accepted(&Reply::Frame(Frame::Accepted(1)), ""), Ok(()));
    assert_eq!(
        attach_accepted(&Reply::Frame(Frame::Rejected("busy".to_owned())), ""),
        Err("attach rejected: busy".to_owned())
    );
    assert_eq!(
        attach_accepted(&Reply::Frame(Frame::Detach), "Detach"),
        Err("unexpected attach reply Detach".to_owned())
    );
    assert_eq!(
        attach_accepted(&Reply::Closed, "eof"),
        Err(
            "the session did not complete the attach handshake (eof); it may predate attach protocol v1"
                .to_owned()
        )
    );
    assert_eq!(
        reader_step(Reply::Frame(Frame::Data(vec![7]))),
        ReaderStep::Show(vec![7])
    );
    assert_eq!(
        reader_step(Reply::Frame(Frame::Retired(2))),
        ReaderStep::Retired
    );
    assert_eq!(reader_step(Reply::Frame(Frame::Detach)), ReaderStep::Skip);
    assert_eq!(
        reader_step(Reply::Bad(FrameError::Unknown(1))),
        ReaderStep::Skip
    );
    assert_eq!(reader_step(Reply::Closed), ReaderStep::Stop);
}

#[test]
fn controls_go_before_keystrokes_and_a_detach_is_told() {
    let size = Geometry::new(24, 80).unwrap();
    let mut outbox = Outbox::new();
    let mut relay = Relay::new(EscapeMode::CtrlBackslash, Some(size), &mut outbox);
    assert_eq!(
        relay.on_keys(&Keyboard::Bytes(b"ls\r".to_vec()), &mut outbox),
        None
    );
    assert_eq!(relay.on_keys(&Keyboard::Nothing, &mut outbox), None);
    let wider = Geometry::new(24, 81).unwrap();
    relay.on_size(Some(size), &mut outbox);
    relay.on_size(None, &mut outbox);
    relay.on_size(Some(wider), &mut outbox);
    assert_eq!(
        relay.on_keys(&Keyboard::Bytes(b"\x1cd".to_vec()), &mut outbox),
        Some(Ending::Detached)
    );
    relay.on_ending(Ending::Detached, &mut outbox);
    for frame in [Frame::Resize(size), Frame::Resize(wider), Frame::Detach] {
        assert!(!outbox.controls_sent());
        assert_eq!(outbox.next(), NextFrame::Frame(frame));
        assert!(!outbox.controls_sent());
        outbox.sent();
    }
    assert!(outbox.controls_sent());
    assert_eq!(
        outbox.next(),
        NextFrame::Frame(Frame::Data(b"ls\r".to_vec()))
    );
    assert_eq!(outbox.next(), NextFrame::Wait);
    outbox.close();
    assert_eq!(outbox.next(), NextFrame::Closed);
    assert_eq!(relay.report(Ending::Detached, true), (false, 0));
    assert_eq!(
        relay.on_keys(&Keyboard::Closed, &mut outbox),
        Some(Ending::KeyboardClosed)
    );
}

#[test]
fn keystrokes_beyond_the_limit_are_dropped_and_counted() {
    let mut outbox = Outbox::new();
    let mut relay = Relay::new(EscapeMode::Disabled, None, &mut outbox);
    let full = Keyboard::Bytes(vec![b'x'; OUTBOX_DATA_LIMIT]);
    assert_eq!(relay.on_keys(&full, &mut outbox), None);
    assert_eq!(
        relay.on_keys(&Keyboard::Bytes(b"abc".to_vec()), &mut outbox),
        None
    );
    assert_eq!(relay.report(Ending::SessionClosed, true), (true, 3));
}

#[test]
fn sql_literals_double_their_quotes() {
    assert_eq!(sql_string_literal("it's"), "'it''s'");
    assert_eq!(sql_string_literal("C:\\x"), "'C:\\x'");
    assert_eq!(sql_string_literal(""), "''");
}

#[test]
fn the_view_reads_every_segment_or_none() {
    assert_eq!(
        build_view_sql(&vec![]),
        format!(
            "CREATE VIEW events AS SELECT {VIEW_PROJECTION} FROM (SELECT NULL::JSON AS j) WHERE false;"
        )
    );
    assert_eq!(
        build_view_sql(&vec!["/a".to_owned(), "/b'c".to_owned()]),
        format!(
            "CREATE VIEW events AS SELECT {VIEW_PROJECTION} FROM read_json(['/a', '/b''c'], format='newline_delimited', records=false, ignore_errors=true) t(j) WHERE j IS NOT NULL;"
        )
    );
    assert_eq!(query_script("P", "SELECT 1"), "P\nSELECT 1\n");
}

#[test]
fn query_options_are_understood() {
    assert_eq!(parse_namespaces(None), Vec::<String>::new());
    assert_eq!(parse_namespaces(Some("a, b ,,c\u{a0},")), ["a", "b", "c"]);
    assert_eq!(
        resolve_sql(Some("S".to_owned()), None),
        Ok(SqlSource::Inline("S".to_owned()))
    );
    assert_eq!(
        resolve_sql(None, Some("f".to_owned())),
        Ok(SqlSource::File("f".to_owned()))
    );
    assert_eq!(
        resolve_sql(Some("S".to_owned()), Some("f".to_owned())),
        Err("provide either inline SQL or --file, not both")
    );
    assert_eq!(resolve_sql(None, None), Err("no SQL provided"));
    let mut options = QueryOptions::default();
    assert_eq!(query_action(&options), QueryAction::Nothing);
    options.file = Some("f".to_owned());
    assert_eq!(query_action(&options), QueryAction::Run);
    options.shell = true;
    assert_eq!(query_action(&options), QueryAction::Shell);
    options.version = true;
    assert_eq!(query_action(&options), QueryAction::Version);
    assert!(duckdb_spawn_error(ErrorKind::NotFound, "x").starts_with("duckdb not found on PATH"));
    assert_eq!(
        duckdb_spawn_error(ErrorKind::PermissionDenied, "denied"),
        "failed to run duckdb: denied"
    );
    assert_eq!(exit_status(true, Some(3)), 0);
    assert_eq!(exit_status(false, Some(3)), 3);
    assert_eq!(exit_status(false, None), 1);
}

#[test]
fn segments_of_an_event_log_are_told_by_their_extension() {
    for name in ["a.jsonl", "0190-x.jsonl", "..jsonl", "a.tmp.jsonl", "\u{e9}.jsonl"] {
        assert!(is_event_segment(name), "{name}");
        assert_eq!(std::path::Path::new(name).extension().unwrap(), "jsonl");
    }
    for name in ["", ".jsonl", "jsonl", "a.json", "a.jsonl.tmp", "a.JSONL", "ajsonl"] {
        assert!(!is_event_segment(name), "{name}");
    }
}
