//! Closing the gap that a sidecar's death leaves.

use tendr::io_error::ErrorKind;
use tendr::model::dep_fail::DepFailReason;
use tendr::model::ids::{EpochTimestamp, ProcessIdentity, RunId};
use tendr::model::meta::Meta;
use tendr::model::provenance::{Evidence, TransitionProvenance};
use tendr::model::state::{ErrorCode, ExitReason, RunStatus, SidecarStep};
use tendr::model::transition::HealedTerminal;
use tendr::reconcile::{
    conclude, find_sidecar_terminal_event, healed_terminal, healed_terminal_of,
    kill_verified_orphan, left_behind_child, may_kill, reconcile_sidecar_gone, stop_orphan,
    terminal_fields, Decision, EventRecord, OrphanStop, Reconciled,
};
use tendr::sidecar::lifecycle::SIDECAR_SOURCE;
use tendr::sidecar::supervised_run::ProcessStatus;

fn run(low: u64) -> RunId {
    RunId::from_v7(0x0190_0000_0000_7000, low).unwrap()
}

fn starting_meta() -> Meta {
    Meta::new_starting(
        "t".to_owned(),
        run(1),
        1,
        ProcessIdentity {
            pid: 1,
            start_time_ns: 0,
        },
        EpochTimestamp::from_secs(0),
    )
}

fn running_meta(child: ProcessIdentity) -> Meta {
    let mut meta = starting_meta();
    meta.transition_running(child).unwrap();
    meta
}

/// A reused PID must never be killed: the probe sees a different start
/// time and reconciliation leaves the process alone, silently.
#[test]
fn stop_orphan_never_kills_a_reused_pid() {
    let stale = ProcessIdentity {
        pid: 41,
        start_time_ns: 8,
    };
    assert!(!may_kill(ProcessStatus::IdentityMismatch));
    let stop = kill_verified_orphan(ProcessStatus::IdentityMismatch, Ok(()));
    let mut meta = running_meta(stale);
    assert!(!stop_orphan(&stale, &mut meta, &stop, "its sidecar was lost"));
    assert!(meta.warnings().is_empty(), "{:?}", meta.warnings());
    assert!(may_kill(ProcessStatus::AliveVerified));
}

#[test]
fn stop_orphan_ignores_a_child_that_is_already_gone() {
    let id = ProcessIdentity {
        pid: 42,
        start_time_ns: 0,
    };
    assert!(!may_kill(ProcessStatus::Missing));
    let stop = kill_verified_orphan(ProcessStatus::Missing, Ok(()));
    let mut meta = running_meta(id);
    assert!(!stop_orphan(&id, &mut meta, &stop, "its sidecar was lost"));
    assert!(meta.warnings().is_empty(), "{:?}", meta.warnings());
}

/// The sidecar records `SidecarFailed` even when its forced kill did not
/// take; if its meta write then failed, only the durable event and the
/// breadcrumb remain. Healing from that event must kill the still-alive,
/// verified child and record it, or `status` says terminal while the child
/// runs on and every later reconciliation is a no-op.
#[test]
fn a_healed_sidecar_failed_kills_the_child_its_sidecar_could_not_stop() {
    let id = ProcessIdentity {
        pid: 77,
        start_time_ns: 5,
    };
    let data = r#"{"status":"Exited","reason":"SidecarFailed","step":"stdin_transport"}"#;
    let events = vec![event(run(1), "tender.sidecar", "run.sidecar_failed", Some(data))];
    let at = find_sidecar_terminal_event(&events, run(1)).unwrap();
    let healed = healed_terminal_of(events[at].data.as_ref().unwrap()).unwrap();

    let mut meta = starting_meta();
    let child = left_behind_child(meta.status(), Some(id));
    let decision = reconcile_sidecar_gone(
        &mut meta,
        Some((healed, EpochTimestamp::from_secs(events[at].ts))),
        child,
    );
    assert_eq!(decision, Decision::Healed { suspect: Some(id) });
    let stop = kill_verified_orphan(ProcessStatus::AliveVerified, Ok(()));
    assert_eq!(
        conclude(&mut meta, decision, &stop, EpochTimestamp::from_secs(9)).unwrap(),
        Reconciled::Healed
    );
    assert!(
        matches!(
            meta.status(),
            RunStatus::Exited { child, how: ExitReason::SidecarFailed { .. }, .. } if *child == id
        ),
        "{:?}",
        meta.status()
    );
    assert_eq!(
        meta.transition_provenance(),
        Some(&TransitionProvenance::direct(vec![
            Evidence::EventLogTerminal,
            Evidence::OrphanKilled,
        ]))
    );
    assert_eq!(
        *meta.warnings(),
        ["child pid 77 was still running after its sidecar failed; killed it"]
    );

    // Every later reconciliation is a no-op.
    let again = reconcile_sidecar_gone(&mut meta, None, None);
    assert_eq!(again, Decision::Untouched);
}

/// The payload of a terminal event with these members.
fn payload(status: &RunStatus) -> String {
    let fields = terminal_fields(status).unwrap();
    let mut members = vec!["\"provenance\":\"direct\"".to_owned()];
    if let Some(text) = &fields.status {
        members.push(format!("\"status\":\"{text}\""));
    }
    if let Some(text) = &fields.reason {
        members.push(format!("\"reason\":\"{text}\""));
    }
    if let Some(code) = fields.exit_code {
        members.push(format!("\"exit_code\":{code}"));
    }
    if let Some(text) = &fields.step {
        members.push(format!("\"step\":\"{text}\""));
    }
    format!("{{{}}}", members.join(","))
}

/// Every terminal `Exited` shape the sidecar writes must parse back, or a
/// WAL-window crash would be mislabelled `SidecarLost`.
#[test]
fn every_exit_reason_heals_from_its_own_lifecycle_data() {
    let child = ProcessIdentity {
        pid: 7,
        start_time_ns: 1,
    };
    for how in [
        ExitReason::ExitedOk,
        ExitReason::ExitedError {
            code: ErrorCode::new(3).unwrap(),
        },
        ExitReason::Killed,
        ExitReason::KilledForced,
        ExitReason::TimedOut,
        ExitReason::SidecarFailed {
            step: SidecarStep::ChildWait,
        },
    ] {
        let status = RunStatus::Exited {
            child,
            how,
            ended_at: EpochTimestamp::from_secs(1),
        };
        let data = payload(&status);
        match healed_terminal_of(&data) {
            Some(HealedTerminal::Exited(healed)) => assert_eq!(healed, how),
            other => panic!("{how:?} did not heal from {data}: {other:?}"),
        }
        match healed_terminal(&terminal_fields(&status).unwrap()) {
            Some(HealedTerminal::Exited(healed)) => assert_eq!(healed, how),
            other => panic!("{how:?} did not heal: {other:?}"),
        }
    }
}

#[test]
fn sidecar_failed_without_a_known_step_does_not_heal() {
    let data = r#"{"status": "Exited", "reason": "SidecarFailed", "step": "nope"}"#;
    assert!(healed_terminal_of(data).is_none());
}

#[test]
fn the_other_ends_heal_too_and_surprises_do_not() {
    let at = EpochTimestamp::from_secs(1);
    assert_eq!(
        healed_terminal_of(&payload(&RunStatus::SpawnFailed { ended_at: at })),
        Some(HealedTerminal::SpawnFailed)
    );
    for reason in [
        DepFailReason::Failed,
        DepFailReason::TimedOut,
        DepFailReason::Killed,
        DepFailReason::KilledForced,
    ] {
        let status = RunStatus::DependencyFailed {
            ended_at: at,
            reason,
        };
        assert_eq!(
            healed_terminal_of(&payload(&status)),
            Some(HealedTerminal::DependencyFailed(reason))
        );
    }
    assert!(terminal_fields(&RunStatus::Starting).is_none());
    for surprise in [
        "",
        "[]",
        "{",
        r#"{"status":"Gone"}"#,
        r#"{"status":7}"#,
        r#"{"status":"Exited"}"#,
        r#"{"status":"Exited","reason":"ExitedError"}"#,
        r#"{"status":"Exited","reason":"ExitedError","exit_code":0}"#,
        r#"{"status":"Exited","reason":"ExitedError","exit_code":4294967296}"#,
        r#"{"status":"Exited","reason":"ExitedError","exit_code":1.5}"#,
        r#"{"status":"DependencyFailed"}"#,
        r#"{"status":"DependencyFailed","reason":"nope"}"#,
    ] {
        assert_eq!(healed_terminal_of(surprise), None, "{surprise}");
    }
    assert_eq!(
        healed_terminal_of(r#"{"status":"Exited","reason":"ExitedError","exit_code":-9}"#),
        Some(HealedTerminal::Exited(ExitReason::ExitedError {
            code: ErrorCode::new(-9).unwrap()
        }))
    );
}

fn event(writer: RunId, source: &str, kind: &str, data: Option<&str>) -> EventRecord {
    EventRecord {
        run_id: run(1),
        writer,
        source: source.to_owned(),
        kind: kind.to_owned(),
        ts: 6,
        data: data.map(|d| d.to_owned()),
    }
}

#[test]
fn only_the_sidecars_own_last_terminal_event_counts() {
    let events = vec![
        event(run(1), "tender.sidecar", "run.exited", None),
        event(run(1), "tender.sidecar", "run.killed", None),
        event(run(2), "tender.sidecar", "run.exited", None),
        event(run(1), "someone.else", "run.exited", None),
        event(run(1), "tender.sidecar", "run.running", None),
    ];
    assert_eq!(find_sidecar_terminal_event(&events, run(1)), Some(1));
    assert_eq!(find_sidecar_terminal_event(&events, run(2)), None);
    assert_eq!(find_sidecar_terminal_event(&vec![], run(1)), None);
}

#[test]
fn every_orphan_but_one_that_is_gone_leaves_a_warning() {
    let child = ProcessIdentity {
        pid: 9,
        start_time_ns: 0,
    };
    let cases = vec![
        (
            kill_verified_orphan(ProcessStatus::AliveVerified, Err("EPERM".to_owned())),
            "child pid 9 is still running after X; killing it failed: EPERM",
        ),
        (
            kill_verified_orphan(ProcessStatus::Inaccessible, Ok(())),
            "child pid 9 may still be running after X; its identity could not be verified, so it was not killed",
        ),
        (
            kill_verified_orphan(ProcessStatus::OsError(ErrorKind::TimedOut), Ok(())),
            "child pid 9 could not be checked after X: timed out",
        ),
    ];
    for (stop, warning) in cases {
        let mut meta = running_meta(child);
        assert!(!stop_orphan(&child, &mut meta, &stop, "X"));
        assert_eq!(*meta.warnings(), [warning]);
    }
    let mut meta = running_meta(child);
    assert!(stop_orphan(&child, &mut meta, &OrphanStop::Killed, "X"));
    assert_eq!(
        *meta.warnings(),
        ["child pid 9 was still running after X; killed it"]
    );
}

#[test]
fn a_lost_sidecar_is_inferred_where_its_own_record_does_not_fit() {
    let child = ProcessIdentity {
        pid: 9,
        start_time_ns: 0,
    };
    let mut meta = running_meta(child);
    let decision = reconcile_sidecar_gone(
        &mut meta,
        Some((HealedTerminal::SpawnFailed, EpochTimestamp::from_secs(2))),
        Some(child),
    );
    assert_eq!(
        decision,
        Decision::Lost {
            suspect: Some(child)
        }
    );
    assert_eq!(
        conclude(
            &mut meta,
            decision,
            &OrphanStop::Gone,
            EpochTimestamp::from_secs(3)
        ),
        Ok(Reconciled::Inferred)
    );
    assert_eq!(
        *meta.status(),
        RunStatus::SidecarLost {
            child: Some(child),
            ended_at: EpochTimestamp::from_secs(3)
        }
    );
    assert_eq!(
        conclude(
            &mut meta,
            Decision::Untouched,
            &OrphanStop::Gone,
            EpochTimestamp::from_secs(4)
        ),
        Ok(Reconciled::Untouched)
    );
    assert!(conclude(
        &mut meta,
        Decision::Lost { suspect: None },
        &OrphanStop::Gone,
        EpochTimestamp::from_secs(4)
    )
    .is_err());
}

#[test]
fn the_child_left_behind_is_the_running_one_or_the_breadcrumb() {
    let child = ProcessIdentity {
        pid: 9,
        start_time_ns: 0,
    };
    let crumb = ProcessIdentity {
        pid: 10,
        start_time_ns: 0,
    };
    assert_eq!(
        left_behind_child(&RunStatus::Running { child }, Some(crumb)),
        Some(child)
    );
    assert_eq!(
        left_behind_child(&RunStatus::Starting, Some(crumb)),
        Some(crumb)
    );
    assert_eq!(
        left_behind_child(
            &RunStatus::SpawnFailed {
                ended_at: EpochTimestamp::from_secs(1)
            },
            Some(crumb)
        ),
        None
    );
}

#[test]
fn a_failed_check_keeps_its_kind() {
    for kind in [ErrorKind::QuotaExceeded, ErrorKind::Deadlock, ErrorKind::Other] {
        assert_eq!(
            kill_verified_orphan(ProcessStatus::OsError(kind), Ok(())),
            OrphanStop::CheckFailed(kind)
        );
    }
}

#[test]
fn what_the_sidecar_writes_of_a_runs_end_is_healed_from() {
    let data = r#"{"status":"Exited","reason":"Killed"}"#;
    let events = vec![
        event(run(1), SIDECAR_SOURCE, "run.starting", None),
        event(run(1), SIDECAR_SOURCE, "run.killed", Some(data)),
        event(run(2), SIDECAR_SOURCE, "run.exited", None),
    ];
    let found = find_sidecar_terminal_event(&events, run(1));
    assert_eq!(found, Some(1));
    assert_eq!(
        healed_terminal_of(events[1].data.as_deref().unwrap()),
        Some(HealedTerminal::Exited(ExitReason::Killed))
    );
    for kind in [
        "run.exited",
        "run.killed",
        "run.timed_out",
        "run.sidecar_failed",
        "run.spawn_failed",
        "run.dependency_failed",
    ] {
        let events = vec![event(run(1), "tendr.sidecar", kind, None)];
        assert_eq!(find_sidecar_terminal_event(&events, run(1)), Some(0), "{kind}");
    }
}
