//! The sidecar's decisions.

use tendr::attach_proto::{
    resize_payload, Mode, INPUT_CLOSED, INPUT_REVOKED, INPUT_WRITTEN, MODE_ATTACH, MODE_PUSH,
    MODE_TAKEOVER, MSG_DATA, MSG_DETACH, MSG_HELLO, MSG_RESIZE,
};
use tendr::io_error::ErrorKind;
use tendr::model::dep_fail::DepFailReason;
use tendr::model::ids::{EpochTimestamp, ProcessIdentity, RunId};
use tendr::model::meta::Meta;
use tendr::model::pty::{PtyControl, PtyMeta, RecordingState, RecordingStopReason};
use tendr::model::pty_control::{
    ControlError, ControllerEpoch, HolderId, IncompleteReason, InputOutcome, RequestId,
    StaleReason,
};
use tendr::model::provenance::{Evidence, TransitionProvenance};
use tendr::model::state::{ErrorCode, ExitReason, RunStatus, SidecarStep};
use tendr::pty_input::{RequestError, Trigger};
use tendr::recorder::{RecorderSummary, StopReason, Stopped};
use tendr::recording::{Geometry, Sequence};
use tendr::sidecar::connection::{
    after_stdin_write, await_push_write, let_in, push_rejected_warning, read_hello, AfterHello,
    AfterWait, AttachConnection, AttachPhase, PushConnection, PushReport, PushStep, PushWrite,
    RelayStep, StdinStep, Waited, MAX_ATTACH_CONNECTIONS,
};
use tendr::sidecar::dependencies::{
    first_dependency_scan, preemption, scan_iteration, DependencyBinding, DependencyObservation,
    FirstScanOutcome, ScanStep,
};
use tendr::sidecar::hooks::{
    argv_of_words, exit_reason_env, hook_argv, hook_env, hook_of, hook_record, planned_hooks,
    HookRecord, HookRun,
};
use tendr::sidecar::kill_request::{kill_order, kill_requested};
use tendr::sidecar::lifecycle::{
    capture_error_log, control_fact, kill_step, on_append, timeout_step, ControlChange, KillStep,
    TimeoutStep,
};
use tendr::sidecar::recording_state::{
    collect_warnings, current_state, finish_recording, finished_recording, recording_dir,
    recording_header, recording_meta, stop_fact,
};
use tendr::sidecar::startup::{
    effective_env, generation_of, locate_session, Startup, StartupPhase, StartupStep,
};
use tendr::sidecar::supervised_run::{
    abandoned_error, classify, exit_of, is_gone, stopped_of, unrecorded_message, GracefulKill,
    ProcessStatus, PublishAction, ReadyDelivery, RunCore, StopFacts,
};
use tendr::sidecar::viewer::{
    AttachSink, ConnectionRegistry, NextChunk, ViewerQueue, VIEWER_QUEUE_BYTES,
};
use tendr::text::list_names;

fn run(low: u64) -> RunId {
    RunId::from_v7(0x0190_0000_0000_7000, low).unwrap()
}

fn id(pid: u32) -> ProcessIdentity {
    ProcessIdentity {
        pid,
        start_time_ns: 0,
    }
}

fn at(secs: u64) -> EpochTimestamp {
    EpochTimestamp::from_secs(secs)
}

fn starting() -> Meta {
    Meta::new_starting("t".to_owned(), run(1), 1, id(1), at(0))
}

fn exited(how: ExitReason) -> RunStatus {
    RunStatus::Exited {
        child: id(2),
        how,
        ended_at: at(1),
    }
}

// Kill requests.

#[test]
fn a_kill_request_counts_only_for_its_own_run() {
    let text = run(1).to_text();
    let request = format!(r#"{{"run_id":"{text}","force":true}}"#);
    assert_eq!(kill_requested(&request, run(1)), Some(true));
    assert_eq!(kill_requested(&request, run(2)), None);
    let gentle = format!(r#"{{"run_id":"{text}"}}"#);
    assert_eq!(kill_requested(&gentle, run(1)), Some(false));
    assert_eq!(kill_requested("force", run(1)), None);
    assert_eq!(kill_requested(r#"{"force":true}"#, run(1)), None);
    assert_eq!(kill_order("a", &Some("a".to_owned()), Some(true)), Some(true));
    assert_eq!(kill_order("a", &None, Some(true)), None);

    assert_eq!(
        kill_step(false, Some(&request), run(1)),
        KillStep::Kill {
            force: true,
            mark: false
        }
    );
    assert_eq!(
        kill_step(false, Some(&gentle), run(1)),
        KillStep::Kill {
            force: false,
            mark: true
        }
    );
    assert_eq!(kill_step(false, Some(&request), run(2)), KillStep::Wait);
    assert_eq!(kill_step(false, None, run(1)), KillStep::Wait);
    assert_eq!(kill_step(true, Some(&request), run(1)), KillStep::Stop);
    assert_eq!(timeout_step(true, true), TimeoutStep::Stop);
    assert_eq!(timeout_step(false, true), TimeoutStep::Kill);
    assert_eq!(timeout_step(false, false), TimeoutStep::Wait);
}

// Dependencies.

fn bindings() -> Vec<DependencyBinding> {
    vec![
        DependencyBinding {
            session: "a".to_owned(),
            run_id: run(1),
        },
        DependencyBinding {
            session: "b".to_owned(),
            run_id: run(2),
        },
    ]
}

fn seen(low: u64, status: RunStatus) -> DependencyObservation {
    DependencyObservation::Found {
        run_id: run(low),
        status,
    }
}

#[test]
fn dependencies_latch_one_by_one() {
    let ok = exited(ExitReason::ExitedOk);
    let first = first_dependency_scan(
        bindings(),
        None,
        false,
        &vec![
            seen(1, ok.clone()),
            seen(2, RunStatus::Running { child: id(3) }),
        ],
        false,
    );
    let mut scanned = match first {
        FirstScanOutcome::Waiting(scanned) => scanned,
        other => panic!("{other:?}"),
    };
    assert_eq!(scanned.len(), 2);
    assert!(scanned.pending(0).is_none());
    assert_eq!(scanned.pending(1).unwrap().session, "b");

    // A latched dependency is never looked at again.
    let step = scan_iteration(
        &mut scanned,
        None,
        false,
        &vec![DependencyObservation::NotFound, seen(2, RunStatus::Starting)],
        false,
    );
    assert_eq!(step, ScanStep::StillPending);
    let step = scan_iteration(
        &mut scanned,
        None,
        false,
        &vec![DependencyObservation::NotFound, seen(2, ok)],
        false,
    );
    assert_eq!(step, ScanStep::AllLatched);
}

#[test]
fn a_dependency_wait_ends_in_these_ways() {
    let ends = |kill: Option<bool>, late: bool, b: DependencyObservation, any: bool| {
        let outcome = first_dependency_scan(
            bindings(),
            kill,
            late,
            &vec![seen(1, exited(ExitReason::ExitedOk)), b],
            any,
        );
        match outcome {
            FirstScanOutcome::Terminal { reason, warning } => (reason, warning),
            other => panic!("{other:?}"),
        }
    };
    let gone = || DependencyObservation::NotFound;
    assert_eq!(
        ends(Some(true), true, gone(), false),
        (
            DepFailReason::KilledForced,
            "force-killed during dependency wait".to_owned()
        )
    );
    assert_eq!(
        ends(Some(false), true, gone(), false),
        (
            DepFailReason::Killed,
            "killed during dependency wait".to_owned()
        )
    );
    assert_eq!(
        ends(None, true, gone(), false),
        (
            DepFailReason::TimedOut,
            "timeout expired during dependency wait".to_owned()
        )
    );
    let failed = |b: DependencyObservation| {
        let (reason, warning) = ends(None, false, b, false);
        assert_eq!(reason, DepFailReason::Failed);
        warning
    };
    assert_eq!(failed(gone()), "dependency session not found: b");
    assert_eq!(
        failed(DependencyObservation::OpenFailed("E".to_owned())),
        "failed to open dependency b: E"
    );
    assert_eq!(
        failed(DependencyObservation::ReadFailed("E".to_owned())),
        "failed to read dependency b: E"
    );
    assert_eq!(
        failed(seen(9, RunStatus::Starting)),
        format!(
            "dependency b was replaced (bound run_id {}, found {})",
            run(2).to_text(),
            run(9).to_text()
        )
    );
    assert_eq!(
        failed(seen(2, exited(ExitReason::Killed))),
        "dependency b exited with non-success state"
    );
    let any = first_dependency_scan(
        bindings(),
        None,
        false,
        &vec![
            seen(1, exited(ExitReason::Killed)),
            seen(2, exited(ExitReason::TimedOut)),
        ],
        true,
    );
    assert!(matches!(any, FirstScanOutcome::ReadyToSpawn));
    assert_eq!(preemption(None, false), None);
}

// Startup.

#[test]
fn a_session_directory_is_located() {
    let place = locate_session(&vec!["r".to_owned(), "ns".to_owned(), "s".to_owned()]).unwrap();
    assert_eq!(
        (place.root, place.namespace.as_str(), place.session.as_str()),
        (1, "ns", "s")
    );
    assert_eq!(locate_session(&vec![]), Err("invalid session directory"));
    assert_eq!(
        locate_session(&vec!["s".to_owned()]),
        Err("invalid namespace directory")
    );
    for (path, reason) in [
        (vec!["/"], "invalid session directory"),
        (vec!["/", "ns", ".."], "invalid session directory"),
        (vec!["."], "invalid session directory"),
        (vec!["/", "sess"], "invalid namespace directory"),
        (vec!["..", "sess"], "invalid namespace directory"),
        (vec![".", "sess"], "invalid namespace directory"),
    ] {
        let components = path.iter().map(|c| (*c).to_owned()).collect();
        assert_eq!(locate_session(&components), Err(reason), "{path:?}");
    }
    let rooted = vec!["/".to_owned(), "ns".to_owned(), "s".to_owned()];
    assert_eq!(locate_session(&rooted).unwrap().root, 1);
    assert_eq!(generation_of(Some(" 42\n")), 42);
    assert_eq!(generation_of(Some("+7")), 7);
    assert_eq!(generation_of(Some("x")), 1);
    assert_eq!(generation_of(Some("18446744073709551616")), 1);
    assert_eq!(generation_of(None), 1);
}

#[test]
fn the_runs_own_variables_are_authoritative() {
    let user = vec![
        ("TENDR_SESSION".to_owned(), "forged".to_owned()),
        ("PATH".to_owned(), "/bin".to_owned()),
    ];
    let env = effective_env(user, "s", "ns", run(1), 12, "/d");
    let expected = vec![
        ("PATH", "/bin".to_owned()),
        ("TENDR_SESSION", "s".to_owned()),
        ("TENDR_NAMESPACE", "ns".to_owned()),
        ("TENDR_RUN_ID", run(1).to_text()),
        ("TENDR_GENERATION", "12".to_owned()),
        ("TENDR_SESSION_DIR", "/d".to_owned()),
    ];
    assert_eq!(env.len(), expected.len());
    for ((name, value), (n, v)) in env.iter().zip(expected) {
        assert_eq!((name.as_str(), value.as_str()), (n, v.as_str()));
    }
}

#[test]
fn a_startup_goes_through_its_phases() {
    let mut meta = starting();
    let (startup, step) = Startup::new(true, true);
    assert_eq!(step, StartupStep::Scan);
    let scan = first_dependency_scan(
        bindings(),
        None,
        false,
        &vec![
            seen(1, RunStatus::Starting),
            seen(2, RunStatus::Starting),
        ],
        false,
    );
    let (startup, step) = startup.on_first_scan(&mut meta, scan, at(1)).unwrap();
    assert_eq!(step, StartupStep::Poll);
    let scanned = match startup.phase {
        StartupPhase::Polling(scanned) => scanned,
        other => panic!("{other:?}"),
    };
    let polling = Startup {
        is_pty: true,
        phase: StartupPhase::Created,
    };
    let (startup, step) = polling
        .on_poll(&mut meta, scanned, ScanStep::AllLatched, at(2))
        .unwrap();
    assert_eq!(step, StartupStep::BindSocket);
    let (startup, step) = startup.on_bound(&mut meta, Ok(()), at(3)).unwrap();
    assert_eq!(step, StartupStep::Spawn);
    let (_, step) = startup.on_spawned(&mut meta, Ok(()), at(4)).unwrap();
    assert_eq!(step, StartupStep::Adopt);
    assert_eq!(*meta.status(), RunStatus::Starting);

    let mut unbound = starting();
    let (startup, _) = Startup::new(true, false);
    let (_, step) = startup
        .on_bound(&mut unbound, Err("in use".to_owned()), at(3))
        .unwrap();
    assert_eq!(step, StartupStep::RecordAndSignal);
    assert_eq!(*unbound.status(), RunStatus::SpawnFailed { ended_at: at(3) });
    assert_eq!(*unbound.warnings(), ["attach socket unavailable: in use"]);

    let mut unspawned = starting();
    let (startup, step) = Startup::new(false, false);
    assert_eq!(step, StartupStep::Spawn);
    let (_, step) = startup
        .on_spawned(&mut unspawned, Err("ENOENT".to_owned()), at(3))
        .unwrap();
    assert_eq!(step, StartupStep::RecordAndSignal);
    assert_eq!(*unspawned.warnings(), ["spawn failed: ENOENT"]);

    let mut failed = starting();
    let (startup, _) = Startup::new(false, true);
    let scan = first_dependency_scan(vec![], Some(true), false, &vec![], false);
    let (_, step) = startup.on_first_scan(&mut failed, scan, at(5)).unwrap();
    assert_eq!(step, StartupStep::RecordAndSignal);
    assert_eq!(
        *failed.status(),
        RunStatus::DependencyFailed {
            ended_at: at(5),
            reason: DepFailReason::KilledForced
        }
    );
}

// The guarded run.

#[test]
fn running_is_published_behind_what_it_promises() {
    let mut meta = starting();
    let mut core = RunCore::adopt(id(5), true, true);
    assert_eq!(
        core.publish_running(&mut meta, Err("ENOSPC".to_owned())),
        PublishAction::StartPtyInput
    );
    assert_eq!(
        core.publish_running(&mut meta, Ok(())),
        PublishAction::OpenStdin
    );
    assert_eq!(
        core.publish_running(&mut meta, Ok(())),
        PublishAction::PublishRunning
    );
    assert_eq!(*meta.status(), RunStatus::Running { child: id(5) });
    assert_eq!(meta.pty(), Some(&PtyMeta::new()));
    assert_eq!(
        core.publish_running(&mut meta, Ok(())),
        PublishAction::SignalReadiness
    );
    assert_eq!(
        core.publish_running(&mut meta, Err("EPIPE".to_owned())),
        PublishAction::Watch { rewrite: true }
    );
    assert_eq!(
        *meta.warnings(),
        [
            "orphan breadcrumb not written: ENOSPC",
            "readiness not delivered: start client gone (EPIPE)",
        ]
    );
}

#[test]
fn a_promise_that_cannot_be_kept_ends_the_run() {
    let mut meta = starting();
    let mut core = RunCore::adopt(id(5), false, true);
    assert_eq!(
        core.publish_running(&mut meta, Ok(())),
        PublishAction::OpenStdin
    );
    assert_eq!(
        core.publish_running(&mut meta, Err("mkfifo".to_owned())),
        PublishAction::Fail {
            step: SidecarStep::StdinTransport,
            error: "mkfifo".to_owned()
        }
    );
    assert!(core.end_failed(
        &mut meta,
        SidecarStep::StdinTransport,
        "mkfifo",
        &vec!["note".to_owned()],
        &vec!["late".to_owned()],
        at(6)
    ));
    assert_eq!(
        *meta.status(),
        RunStatus::Exited {
            child: id(5),
            how: ExitReason::SidecarFailed {
                step: SidecarStep::StdinTransport
            },
            ended_at: at(6)
        }
    );
    assert_eq!(
        *meta.warnings(),
        ["sidecar failed at stdin_transport: mkfifo", "note", "late"]
    );
    assert!(!core.end_failed(
        &mut meta,
        SidecarStep::ChildWait,
        "again",
        &vec![],
        &vec![],
        at(7)
    ));
    assert_eq!(meta.warnings().len(), 3, "a run has one outcome");
}

#[test]
fn a_run_finishes_with_its_warnings() {
    let mut meta = starting();
    let mut core = RunCore::adopt(id(5), false, false);
    assert_eq!(
        core.publish_running(&mut meta, Ok(())),
        PublishAction::PublishRunning
    );
    assert!(!core.on_log_opened(&mut meta, Err("EACCES".to_owned())));
    let how = core.on_exit(Ok(Some(3))).unwrap();
    assert_eq!(
        core.on_exit(Err("ECHILD".to_owned())).unwrap_err(),
        "cannot observe the child's exit: ECHILD"
    );
    core.finish(&mut meta, how, &vec!["w".to_owned()], at(8));
    assert!(core.ended);
    assert_eq!(
        *meta.status(),
        RunStatus::Exited {
            child: id(5),
            how: ExitReason::ExitedError {
                code: ErrorCode::new(3).unwrap()
            },
            ended_at: at(8)
        }
    );
    assert_eq!(
        *meta.warnings(),
        [
            "output not captured: cannot open output.log (EACCES); output was drained",
            "w",
        ]
    );
    core.finish(&mut meta, ExitReason::ExitedOk, &vec![], at(9));
    assert_eq!(
        meta.warnings().last().unwrap(),
        "terminal transition refused: cannot transition from ExitedError \u{2014} already terminal"
    );
}

#[test]
fn exits_are_classified_by_priority() {
    assert_eq!(exit_of(Some(0)), ExitReason::ExitedOk);
    assert_eq!(exit_of(None), ExitReason::Killed);
    let raw = exit_of(Some(2));
    assert_eq!(classify(false, false, false, raw), raw);
    assert_eq!(classify(false, false, true, raw), ExitReason::Killed);
    assert_eq!(classify(false, true, true, raw), ExitReason::KilledForced);
    assert_eq!(classify(true, true, true, raw), ExitReason::TimedOut);
}

#[test]
fn stopping_a_child_leaves_notes() {
    let facts = StopFacts {
        graceful: GracefulKill::NoThread {
            error: "EAGAIN".to_owned(),
            kill_error: Some("EPERM".to_owned()),
        },
        forced_error: None,
        gone: false,
    };
    let stopped = stopped_of(&facts, &id(9));
    assert_eq!(
        stopped.notes,
        [
            "no thread for a graceful stop (EAGAIN); force-killing",
            "force-killing the child failed: EPERM",
            "child pid 9 may still be running: it outlived a forced kill",
        ]
    );
    assert_eq!(stopped.summary(), "the child may still be running");
    assert_eq!(
        unrecorded_message(SidecarStep::OutputLog, "E", &stopped, "disk"),
        "sidecar failed at output_log: E; the child may still be running; recording the failure also failed: disk"
    );
    let quiet = stopped_of(
        &StopFacts {
            graceful: GracefulKill::Done,
            forced_error: None,
            gone: true,
        },
        &id(9),
    );
    assert!(quiet.notes.is_empty());
    assert_eq!(quiet.summary(), "the child was stopped");
    let forced = stopped_of(
        &StopFacts {
            graceful: GracefulKill::Failed("x".to_owned()),
            forced_error: Some("y".to_owned()),
            gone: true,
        },
        &id(9),
    );
    assert_eq!(
        forced.notes,
        [
            "force-killing the child failed: y",
            "stopping the child failed: x"
        ]
    );
    assert!(is_gone(Ok(true), ProcessStatus::AliveVerified));
    assert!(is_gone(Err(ErrorKind::Other), ProcessStatus::Missing));
    assert!(!is_gone(Err(ErrorKind::Other), ProcessStatus::Inaccessible));
    assert_eq!(abandoned_error(Some("boom")), "panicked: boom");
    assert_eq!(abandoned_error(None), "supervision ended without an outcome");
    let mut meta = starting();
    assert!(!ReadyDelivery::AlreadySent.record(&mut meta));
}

// Connections.

fn hello(mode: u8) -> Result<(u8, Vec<u8>), ErrorKind> {
    Ok((MSG_HELLO, vec![1, mode]))
}

#[test]
fn a_hello_says_what_the_client_wants() {
    assert_eq!(read_hello(&hello(MODE_ATTACH)), Ok(Mode::Attach));
    assert_eq!(read_hello(&hello(MODE_TAKEOVER)), Ok(Mode::Takeover));
    assert_eq!(read_hello(&hello(MODE_PUSH)), Ok(Mode::Push));
    assert_eq!(
        read_hello(&Ok((MSG_HELLO, vec![2, MODE_ATTACH]))),
        Err("unsupported attach protocol version or mode")
    );
    assert_eq!(
        read_hello(&Ok((MSG_DATA, vec![]))),
        Err("attach requires a protocol hello")
    );
    assert_eq!(
        read_hello(&Err(ErrorKind::TimedOut)),
        Err("attach requires a protocol hello")
    );
    assert_eq!(let_in(true, MAX_ATTACH_CONNECTIONS - 1), Ok(()));
    assert_eq!(
        let_in(true, MAX_ATTACH_CONNECTIONS),
        Err("too many attach connections")
    );
    assert_eq!(let_in(false, 0), Err("peer identity rejected"));
}

#[test]
fn an_attach_connection_relays_until_it_leaves() {
    let mut c = AttachConnection::new();
    assert_eq!(c.on_hello(&hello(MODE_TAKEOVER)), AfterHello::Register);
    assert_eq!(c.on_registered(true), Ok(true));
    assert_eq!(
        c.on_granted(Ok(ControllerEpoch::new(3))),
        Ok(ControllerEpoch::new(3))
    );
    assert!(c.on_replied(true));
    assert_eq!(
        c.on_message(Ok((MSG_DATA, b"ls".to_vec()))),
        RelayStep::Input(b"ls".to_vec())
    );
    c.on_queued(true);
    let size = Geometry::new(3, 4).unwrap();
    assert_eq!(
        c.on_message(Ok((MSG_RESIZE, resize_payload(size)))),
        RelayStep::Resize(size)
    );
    assert_eq!(
        c.on_message(Ok((MSG_RESIZE, vec![0, 0, 0, 1]))),
        RelayStep::Skip
    );
    assert_eq!(c.on_message(Ok((0x77, vec![]))), RelayStep::Skip);
    assert_eq!(c.phase, AttachPhase::Relaying);
    assert_eq!(c.on_message(Ok((MSG_DETACH, vec![]))), RelayStep::Leave);
    assert_eq!(c.phase, AttachPhase::Leaving);

    let mut refused = AttachConnection::new();
    assert_eq!(refused.on_hello(&hello(MODE_ATTACH)), AfterHello::Register);
    assert_eq!(refused.on_registered(true), Ok(false));
    let busy = ControlError::Stale {
        reason: StaleReason::Unowned,
    };
    assert_eq!(
        refused.on_granted(Err(RequestError::Control(busy))),
        Err("controller handle is stale: Unowned".to_owned())
    );
    let mut late = AttachConnection::new();
    late.on_hello(&hello(MODE_ATTACH));
    assert_eq!(late.on_registered(false), Err("session ended"));
    let mut push = AttachConnection::new();
    assert_eq!(push.on_hello(&hello(MODE_PUSH)), AfterHello::Push);
}

fn outcome(accepted: usize, total: usize, reason: IncompleteReason) -> InputOutcome {
    InputOutcome::Incomplete {
        request_id: RequestId::new(1),
        epoch: ControllerEpoch::new(1),
        accepted,
        total,
        reason,
    }
}

fn accepted(bytes: usize) -> InputOutcome {
    InputOutcome::Accepted {
        request_id: RequestId::new(1),
        epoch: ControllerEpoch::new(1),
        bytes,
    }
}

fn reading() -> PushConnection {
    let mut push = PushConnection::new();
    push.on_registered(true).unwrap();
    push.on_granted(Ok(ControllerEpoch::new(1))).unwrap();
    assert_eq!(push.on_replied(true), PushStep::Read);
    push
}

#[test]
fn a_push_reports_exactly_what_was_written() {
    let mut push = reading();
    assert_eq!(
        push.on_message(Ok((MSG_DATA, b"abc".to_vec())), false),
        PushStep::Write(b"abc".to_vec())
    );
    assert_eq!(push.on_written(PushWrite::Done(accepted(3))), PushStep::Read);
    assert_eq!(push.on_message(Ok((MSG_DATA, vec![])), false), PushStep::Read);
    assert_eq!(push.on_message(Ok((MSG_DETACH, vec![])), false), PushStep::End);
    assert_eq!(
        push.on_ended(true),
        PushReport {
            status: INPUT_WRITTEN,
            accepted: 3,
            received: 3,
            disconnect: false
        }
    );

    let mut revoked = reading();
    revoked.on_message(Ok((MSG_DATA, b"abc".to_vec())), false);
    assert_eq!(
        revoked.on_written(PushWrite::Done(outcome(
            1,
            3,
            IncompleteReason::NotAuthorized(StaleReason::EpochMismatch)
        ))),
        PushStep::Report(PushReport {
            status: INPUT_REVOKED,
            accepted: 1,
            received: 3,
            disconnect: true
        })
    );
    let mut closed = reading();
    closed.on_message(Ok((MSG_DATA, b"abc".to_vec())), false);
    assert_eq!(
        closed.on_written(PushWrite::WriterGone),
        PushStep::Report(PushReport {
            status: INPUT_CLOSED,
            accepted: 0,
            received: 3,
            disconnect: true
        })
    );
    let mut gone = reading();
    assert_eq!(
        gone.on_message(Err(ErrorKind::UnexpectedEof), false),
        PushStep::Gone
    );
    let mut woken = reading();
    assert!(matches!(
        woken.on_message(Err(ErrorKind::UnexpectedEof), true),
        PushStep::Report(PushReport {
            status: INPUT_REVOKED,
            ..
        })
    ));
}

#[test]
fn a_wait_for_a_push_write_watches_the_client() {
    assert_eq!(
        await_push_write(Waited::Outcome(accepted(1)), false, true),
        AfterWait::Ended(PushWrite::Done(accepted(1)))
    );
    assert_eq!(
        await_push_write(Waited::Disconnected, false, false),
        AfterWait::Ended(PushWrite::WriterGone)
    );
    assert_eq!(
        await_push_write(Waited::Timeout, false, true),
        AfterWait::Cancel
    );
    assert_eq!(
        await_push_write(Waited::Timeout, true, true),
        AfterWait::WaitOn
    );
    assert_eq!(after_stdin_write(Some(accepted(1))), StdinStep::Forward);
    assert_eq!(
        after_stdin_write(Some(outcome(
            0,
            1,
            IncompleteReason::NotAuthorized(StaleReason::Unowned)
        ))),
        StdinStep::Discard
    );
    assert_eq!(
        after_stdin_write(Some(outcome(0, 1, IncompleteReason::Closed))),
        StdinStep::Stop("stdin forwarding: child stdin closed")
    );
    assert_eq!(
        push_rejected_warning(RequestError::WriterGone),
        "push rejected: the PTY input writer is no longer running"
    );
}

// Viewers and the registry.

#[test]
fn takeover_retirement_refuses_the_old_viewer_before_the_hook_returns() {
    let mut registry = ConnectionRegistry::new();
    let mut sink = AttachSink { viewer: None };
    let old = HolderId::new(1);
    let new = HolderId::new(2);
    assert!(registry.insert(old, "old").is_ok());
    assert!(registry.insert(new, "new").is_ok());
    // The takeover retires the old connection before its viewer is installed.
    assert_eq!(registry.remove(old), Some("old"));
    assert!(
        !sink.install(&registry, old, 1),
        "a retired connection installed its viewer"
    );
    assert_eq!(sink.viewer, None);
    assert!(sink.install(&registry, new, 2));
    assert_eq!(sink.clear(old), None);
    assert_eq!(sink.viewer, Some((new, 2)));
    assert_eq!(sink.clear(new), Some(2));
    assert_eq!(sink.viewer, None);
}

#[test]
fn an_ended_run_registers_nobody() {
    let mut registry = ConnectionRegistry::new();
    assert!(registry.insert(HolderId::new(1), 'a').is_ok());
    assert!(registry.insert(HolderId::new(1), 'b').is_ok());
    assert_eq!(registry.close(), vec![(HolderId::new(1), 'b')]);
    assert_eq!(registry.insert(HolderId::new(2), 'c'), Err('c'));
    assert!(!registry.contains(HolderId::new(2)));
}

#[test]
fn a_viewer_that_falls_behind_is_closed() {
    let mut queue = ViewerQueue::new();
    assert_eq!(queue.next(), NextChunk::Wait);
    assert!(queue.offer(b"ab"));
    assert!(queue.offer(&vec![0; VIEWER_QUEUE_BYTES - 2]));
    assert_eq!(queue.next(), NextChunk::Chunk(b"ab".to_vec()));
    assert!(!queue.offer(b"abc"));
    assert_eq!(queue.next(), NextChunk::Closed);
    assert!(!queue.offer(b""));
    let mut other = ViewerQueue::new();
    other.close();
    assert!(!other.offer(b"x"));
}

// What is recorded of the recording.

#[test]
fn set_pty_control_round_trips_as_typed_meta() {
    let mut meta = starting();
    meta.transition_running(id(2)).unwrap();
    meta.set_pty(PtyMeta::new());
    meta.add_warning("kept".to_owned());
    meta.set_pty_control(PtyControl::HumanControl);
    assert_eq!(meta.pty().unwrap().control, PtyControl::HumanControl);
    assert!(meta.pty().unwrap().enabled);
    assert_eq!(*meta.status(), RunStatus::Running { child: id(2) });
    assert_eq!(
        *meta.warnings(),
        ["kept"],
        "a control flip must not disturb other meta fields"
    );
    meta.set_pty_control(PtyControl::AgentControl);
    assert_eq!(meta.pty().unwrap().control, PtyControl::AgentControl);
}

#[test]
fn a_stopped_recording_is_recorded_with_its_reason() {
    let stopped = Stopped {
        last_recorded: Sequence::new(7),
        reason: StopReason::WriteFailed(ErrorKind::StorageFull),
    };
    let summary = RecorderSummary {
        last_recorded: Sequence::new(7),
        last_synced: Sequence::new(5),
        stopped: Some(stopped),
        segments: 1,
    };
    let expected = RecordingState::Stopped {
        last_recorded_sequence: Some(7),
        last_synced_sequence: Some(5),
        reason: RecordingStopReason::WriteFailed {
            error: "StorageFull".to_owned(),
        },
    };
    let (state, warning) = finished_recording(summary);
    assert_eq!(state, expected);
    assert_eq!(
        warning.unwrap(),
        "recording stopped at sequence 7 (write_failed: StorageFull); later output was not recorded"
    );
    assert_eq!(
        stop_fact(stopped),
        (Some(7), "write_failed", Some("StorageFull"))
    );
    let mut meta = starting();
    meta.set_pty(PtyMeta::new());
    finish_recording(&mut meta, "recording/r", summary);
    let recording = meta.pty().unwrap().recording.as_ref().unwrap();
    assert_eq!(recording.dir, "recording/r");
    assert!(!recording.input_recorded);
    assert_eq!(recording.state, expected);

    let unheard = Stopped {
        last_recorded: None,
        reason: StopReason::Stalled,
    };
    let (_, warning) = finished_recording(RecorderSummary {
        last_recorded: None,
        last_synced: None,
        stopped: Some(unheard),
        segments: 0,
    });
    assert_eq!(
        warning.unwrap(),
        "recording stopped before its first record (stalled); later output was not recorded"
    );
    assert_eq!(current_state(None), RecordingState::Recording);
    assert_eq!(
        current_state(Some(unheard)),
        RecordingState::Stopped {
            last_recorded_sequence: None,
            last_synced_sequence: None,
            reason: RecordingStopReason::Stalled
        }
    );
    let (complete, none) = finished_recording(RecorderSummary {
        last_recorded: Sequence::new(2),
        last_synced: Sequence::new(2),
        stopped: None,
        segments: 1,
    });
    assert_eq!(none, None);
    assert_eq!(
        complete,
        RecordingState::Complete {
            last_recorded_sequence: Some(2),
            last_synced_sequence: Some(2)
        }
    );
}

#[test]
fn a_recording_header_takes_the_childs_term() {
    let size = Geometry::new(24, 80).unwrap();
    let term = |child: Option<&str>, sidecar: Option<&str>| {
        recording_header(run(1), 9, size, child, sidecar)
            .term
            .as_str()
            .to_owned()
    };
    assert_eq!(term(Some("xterm"), Some("dumb")), "xterm");
    assert_eq!(term(None, Some("dumb")), "dumb");
    assert_eq!(term(Some("bad term"), Some("dumb")), "");
    assert_eq!(term(None, None), "");
    assert_eq!(
        recording_dir(run(1)),
        format!("recording/{}", run(1).to_text())
    );
}

#[test]
fn warnings_are_collected_line_by_line() {
    assert_eq!(
        collect_warnings(Some("a\r\n\nb\rc\nd"), &vec!["s".to_owned()]),
        ["log capture: a", "log capture: b\rc", "log capture: d", "s"]
    );
    assert_eq!(collect_warnings(None, &vec![]), Vec::<String>::new());
    assert_eq!(
        capture_error_log(Some("o"), Some("e")).unwrap(),
        "stdout capture: o\nstderr capture: e"
    );
    assert_eq!(capture_error_log(None, None), None);
}

#[test]
fn a_list_names_what_stands_between_its_commas() {
    assert!(list_names("readiness, output_log", "output_log"));
    assert!(list_names("", ""));
    assert!(!list_names("output_logs,output", "output_log"));
}

#[test]
fn a_stop_patches_only_the_recordings_state() {
    let mut meta = starting();
    meta.set_recording_state(RecordingState::Recording);
    assert_eq!(meta.pty(), None);
    meta.set_pty(PtyMeta::new());
    meta.set_recording_state(RecordingState::Recording);
    assert_eq!(meta.pty(), Some(&PtyMeta::new()));
    meta.set_pty_recording(recording_meta("recording/r", RecordingState::Recording));
    let stopped = current_state(Some(Stopped {
        last_recorded: None,
        reason: StopReason::BacklogFull,
    }));
    meta.set_recording_state(stopped.clone());
    let recording = meta.pty().unwrap().recording.as_ref().unwrap();
    assert_eq!(recording.dir, "recording/r");
    assert_eq!(recording.state, stopped);
}

#[test]
fn a_record_is_restored_as_it_was() {
    let mut meta = starting();
    meta.transition_running(id(4)).unwrap();
    meta.add_warning("w".to_owned());
    let restored = Meta::restore(
        meta.session().to_owned(),
        meta.run_id(),
        meta.generation(),
        meta.sidecar(),
        meta.started_at(),
        meta.status().clone(),
        Some(TransitionProvenance::direct(vec![
            Evidence::SidecarWrite,
            Evidence::ChildSpawned,
        ])),
        meta.warnings().clone(),
        meta.pty().cloned(),
    );
    assert_eq!(restored, meta);
}

#[test]
fn an_event_that_cannot_be_appended_is_salvaged() {
    let mut meta = starting();
    assert!(!on_append(&mut meta, &Ok(())));
    assert!(on_append(&mut meta, &Err("ENOSPC".to_owned())));
    assert_eq!(*meta.warnings(), ["event log append failed: ENOSPC"]);
    assert_eq!(
        control_fact(ControlChange::Human(Trigger::Takeover), false),
        Some((PtyControl::HumanControl, "takeover"))
    );
    assert_eq!(
        control_fact(ControlChange::Released, false),
        Some((PtyControl::AgentControl, "detach"))
    );
    assert_eq!(control_fact(ControlChange::Released, true), None);
}

// Hooks.

#[test]
fn hooks_are_split_like_a_shell_would() {
    assert_eq!(
        hook_argv("notify 'all done' a\\ b"),
        ["notify", "all done", "a b"]
    );
    assert_eq!(hook_argv("broken 'quote"), ["broken 'quote"]);
    assert_eq!(argv_of_words("x y", None), ["x y"]);
    assert_eq!(
        argv_of_words("x y", Some(vec!["x".to_owned()])),
        ["x"]
    );
    assert_eq!(hook_of(3, "x y", vec![]), None);
    assert_eq!(hook_of(3, "x y", vec!["x".to_owned()]).unwrap().index, 3);
    let commands = vec!["a b".to_owned(), "  ".to_owned(), "c".to_owned()];
    let hooks = planned_hooks(&exited(ExitReason::ExitedOk), &commands);
    assert_eq!(hooks.len(), 2);
    assert_eq!((hooks[0].index, hooks[1].index), (0, 2));
    assert_eq!(hooks[0].argv, ["a", "b"]);
    assert_eq!(hooks[1].command, "c");
    assert!(planned_hooks(&RunStatus::Starting, &commands).is_empty());
}

#[test]
fn a_hook_is_told_why_the_run_ended_and_recorded() {
    let code = ErrorCode::new(-2_147_483_648).unwrap();
    assert_eq!(
        exit_reason_env(&ExitReason::ExitedError { code }),
        "ExitedError { code: -2147483648 }"
    );
    assert_eq!(
        exit_reason_env(&ExitReason::SidecarFailed {
            step: SidecarStep::Readiness
        }),
        "SidecarFailed"
    );
    let record = hook_record(HookRun::Exited {
        success: false,
        code: Some(2),
        stderr: " oops\n".to_owned(),
    });
    assert_eq!(
        record,
        HookRecord::Failed {
            exit_code: Some(2),
            stderr: "oops".to_owned()
        }
    );
    assert_eq!(record.status(), "failed");
    let unspawned = hook_record(HookRun::SpawnFailed("ENOENT".to_owned()));
    assert_eq!(unspawned.status(), "spawn_failed");
    let fine = hook_record(HookRun::Exited {
        success: true,
        code: Some(0),
        stderr: "noise".to_owned(),
    });
    assert_eq!(fine.status(), "ok");
}

#[test]
fn hooks_find_the_run_in_their_environment() {
    let mut meta = Meta::new_starting(
        "work".to_owned(),
        run(7),
        3,
        id(1),
        EpochTimestamp::from_secs(0),
    );
    assert_eq!(hook_env(&meta, None, "/s"), None, "no child has ended");
    meta.transition_running(id(2)).unwrap();
    assert_eq!(hook_env(&meta, None, "/s"), None);
    meta.transition_exited(ExitReason::Killed, EpochTimestamp::from_secs(1))
        .unwrap();
    let run_id = run(7).to_text();
    for (namespace, name) in [(None, "default"), (Some("ns"), "ns")] {
        let expected: Vec<(String, String)> = [
            ("TENDR_SESSION", "work"),
            ("TENDR_NAMESPACE", name),
            ("TENDR_RUN_ID", run_id.as_str()),
            ("TENDR_GENERATION", "3"),
            ("TENDR_EXIT_REASON", "Killed"),
            ("TENDR_SESSION_DIR", "/s"),
        ]
        .iter()
        .map(|(variable, value)| ((*variable).to_owned(), (*value).to_owned()))
        .collect();
        assert_eq!(hook_env(&meta, namespace, "/s"), Some(expected));
    }
}
