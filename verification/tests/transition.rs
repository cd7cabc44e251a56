//! How a run's status may change.

use tendr::model::dep_fail::DepFailReason;
use tendr::model::ids::{EpochTimestamp, ProcessIdentity, RunId};
use tendr::model::meta::Meta;
use tendr::model::provenance::{Evidence, TransitionProvenance};
use tendr::model::state::{ErrorCode, ExitReason, RunStatus, SidecarStep};
use tendr::model::transition::{status_name, HealedTerminal, Orphan, TransitionError};

fn fresh_meta() -> Meta {
    Meta::new_starting(
        "t".to_owned(),
        RunId::from_v7(0x0190_0000_0000_7000, 1).unwrap(),
        1,
        ProcessIdentity {
            pid: 1,
            start_time_ns: 0,
        },
        EpochTimestamp::from_secs(0),
    )
}

fn child() -> ProcessIdentity {
    ProcessIdentity {
        pid: 2,
        start_time_ns: 0,
    }
}

fn direct_evidence(meta: &Meta) -> Vec<Evidence> {
    match meta.transition_provenance() {
        Some(TransitionProvenance::Direct { evidence }) => evidence.clone(),
        other => panic!("{other:?}"),
    }
}

fn inferred_evidence(meta: &Meta) -> Vec<Evidence> {
    match meta.transition_provenance() {
        Some(TransitionProvenance::Inferred { evidence }) => evidence.clone(),
        other => panic!("{other:?}"),
    }
}

#[test]
fn running_is_direct_with_child_spawned() {
    let mut m = fresh_meta();
    m.transition_running(child()).unwrap();
    assert!(m.transition_provenance().unwrap().is_direct());
    let evidence = direct_evidence(&m);
    assert!(evidence.contains(&Evidence::SidecarWrite));
    assert!(evidence.contains(&Evidence::ChildSpawned));
}

#[test]
fn spawn_failed_is_direct_with_syscall_evidence() {
    let mut m = fresh_meta();
    m.transition_spawn_failed(EpochTimestamp::from_secs(1))
        .unwrap();
    assert!(m.transition_provenance().unwrap().is_direct());
    assert!(direct_evidence(&m).contains(&Evidence::SpawnFailedSyscall));
}

#[test]
fn exited_is_direct_with_child_exit_observed() {
    let mut m = fresh_meta();
    m.transition_running(child()).unwrap();
    m.transition_exited(ExitReason::ExitedOk, EpochTimestamp::from_secs(2))
        .unwrap();
    assert!(m.transition_provenance().unwrap().is_direct());
    assert!(direct_evidence(&m).contains(&Evidence::ChildExitObserved));
}

#[test]
fn sidecar_failed_from_running_keeps_child_and_is_direct() {
    let mut m = fresh_meta();
    m.transition_running(child()).unwrap();
    let other = ProcessIdentity {
        pid: 99,
        start_time_ns: 7,
    };
    m.transition_sidecar_failed(other, SidecarStep::OutputLog, EpochTimestamp::from_secs(2))
        .unwrap();
    let RunStatus::Exited { child: c, how, .. } = m.status() else {
        panic!("expected Exited, got {:?}", m.status());
    };
    assert_eq!(*c, child(), "Running's recorded child wins");
    assert_eq!(
        *how,
        ExitReason::SidecarFailed {
            step: SidecarStep::OutputLog
        }
    );
    let evidence = direct_evidence(&m);
    assert!(evidence.contains(&Evidence::SidecarWrite));
    assert!(evidence.contains(&Evidence::SupervisionFailed));
}

#[test]
fn sidecar_failed_heals_from_starting_only_with_the_spawned_child() {
    let how = ExitReason::SidecarFailed {
        step: SidecarStep::StdinTransport,
    };
    let mut without = fresh_meta();
    assert!(
        without
            .heal_terminal_from_event(
                HealedTerminal::Exited(how.clone()),
                EpochTimestamp::from_secs(1),
                None
            )
            .is_err(),
        "no child to record: shape mismatch"
    );
    let mut observed = fresh_meta();
    assert!(
        observed
            .heal_terminal_from_event(
                HealedTerminal::Exited(ExitReason::ExitedOk),
                EpochTimestamp::from_secs(1),
                Some(child())
            )
            .is_err(),
        "an observed exit never comes from Starting"
    );
    let mut m = fresh_meta();
    m.heal_terminal_from_event(
        HealedTerminal::Exited(how.clone()),
        EpochTimestamp::from_secs(1),
        Some(child()),
    )
    .unwrap();
    assert_eq!(m.status().child(), Some(&child()));
    assert!(matches!(m.status(), RunStatus::Exited { how: h, .. } if *h == how));
}

#[test]
fn orphan_killed_is_recorded_only_on_a_healed_sidecar_failed() {
    let failed = HealedTerminal::Exited(ExitReason::SidecarFailed {
        step: SidecarStep::ChildWait,
    });
    let mut direct = fresh_meta();
    direct.transition_running(child()).unwrap();
    direct
        .transition_sidecar_failed(
            child(),
            SidecarStep::ChildWait,
            EpochTimestamp::from_secs(1),
        )
        .unwrap();
    assert!(
        direct.record_healed_orphan_killed().is_err(),
        "the sidecar's own record was not healed"
    );
    let mut observed = fresh_meta();
    observed.transition_running(child()).unwrap();
    observed
        .heal_terminal_from_event(
            HealedTerminal::Exited(ExitReason::ExitedOk),
            EpochTimestamp::from_secs(1),
            None,
        )
        .unwrap();
    assert!(
        observed.record_healed_orphan_killed().is_err(),
        "an observed exit has no orphan"
    );
    let mut m = fresh_meta();
    m.heal_terminal_from_event(failed, EpochTimestamp::from_secs(1), Some(child()))
        .unwrap();
    m.record_healed_orphan_killed().unwrap();
    assert_eq!(
        m.transition_provenance(),
        Some(&TransitionProvenance::direct(vec![
            Evidence::EventLogTerminal,
            Evidence::OrphanKilled
        ]))
    );
}

#[test]
fn sidecar_failed_from_starting_records_the_spawned_child() {
    let mut m = fresh_meta();
    m.transition_sidecar_failed(
        child(),
        SidecarStep::StdinTransport,
        EpochTimestamp::from_secs(1),
    )
    .unwrap();
    assert_eq!(m.status().child(), Some(&child()));
    assert!(m.status().is_terminal());
}

#[test]
fn sidecar_failed_is_rejected_once_terminal() {
    let mut m = fresh_meta();
    m.transition_running(child()).unwrap();
    m.transition_exited(ExitReason::ExitedOk, EpochTimestamp::from_secs(2))
        .unwrap();
    assert!(m
        .transition_sidecar_failed(
            child(),
            SidecarStep::ChildWait,
            EpochTimestamp::from_secs(3)
        )
        .is_err());
}

#[test]
fn transition_exited_refuses_sidecar_failed() {
    let mut m = fresh_meta();
    m.transition_running(child()).unwrap();
    let how = ExitReason::SidecarFailed {
        step: SidecarStep::ChildWait,
    };
    assert!(m
        .transition_exited(how, EpochTimestamp::from_secs(2))
        .is_err());
    assert!(matches!(m.status(), RunStatus::Running { .. }));
}

#[test]
fn dependency_failed_is_direct_with_dependency_evidence() {
    let mut m = fresh_meta();
    m.transition_dependency_failed(EpochTimestamp::from_secs(1), DepFailReason::Failed)
        .unwrap();
    assert!(m.transition_provenance().unwrap().is_direct());
    assert!(direct_evidence(&m).contains(&Evidence::DependencyFailed));
}

#[test]
fn sidecar_lost_is_inferred_with_lock_and_non_terminal_evidence() {
    let mut m = fresh_meta();
    m.transition_running(child()).unwrap();
    m.reconcile_sidecar_lost(EpochTimestamp::from_secs(3), None)
        .unwrap();
    assert!(m.transition_provenance().unwrap().is_inferred());
    let evidence = inferred_evidence(&m);
    assert!(evidence.contains(&Evidence::LockReleased));
    assert!(evidence.contains(&Evidence::NonTerminalMeta));
}

#[test]
fn sidecar_lost_from_starting_records_the_breadcrumb_orphan() {
    let mut m = fresh_meta();
    let orphan = Orphan {
        child: child(),
        killed: true,
    };
    m.reconcile_sidecar_lost(EpochTimestamp::from_secs(1), Some(orphan))
        .unwrap();
    assert_eq!(m.status().child(), Some(&child()));
    assert!(inferred_evidence(&m).contains(&Evidence::OrphanKilled));
}

#[test]
fn sidecar_lost_without_a_kill_has_no_orphan_killed_evidence() {
    let mut m = fresh_meta();
    m.transition_running(child()).unwrap();
    let orphan = Orphan {
        child: child(),
        killed: false,
    };
    m.reconcile_sidecar_lost(EpochTimestamp::from_secs(1), Some(orphan))
        .unwrap();
    assert!(!inferred_evidence(&m).contains(&Evidence::OrphanKilled));
}

#[test]
fn sidecar_lost_from_starting_also_inferred() {
    let mut m = fresh_meta();
    m.reconcile_sidecar_lost(EpochTimestamp::from_secs(1), None)
        .unwrap();
    assert!(m.transition_provenance().unwrap().is_inferred());
}

#[test]
fn a_refused_transition_says_why_and_changes_nothing() {
    let mut m = fresh_meta();
    let refused = m
        .transition_exited(ExitReason::ExitedOk, EpochTimestamp::from_secs(1))
        .unwrap_err();
    assert_eq!(
        refused,
        TransitionError::Illegal {
            from: "Starting",
            to: "Exited"
        }
    );
    assert_eq!(
        refused.message(),
        "illegal transition from Starting to Exited"
    );
    assert_eq!(*m.status(), RunStatus::Starting);
    assert!(m.transition_provenance().is_none());

    m.transition_running(child()).unwrap();
    assert!(m.transition_running(child()).is_err());
    assert!(m
        .transition_spawn_failed(EpochTimestamp::from_secs(1))
        .is_err());
    assert!(m
        .transition_dependency_failed(EpochTimestamp::from_secs(1), DepFailReason::Killed)
        .is_err());
    m.transition_exited(ExitReason::TimedOut, EpochTimestamp::from_secs(1))
        .unwrap();
    let ended = m.transition_running(child()).unwrap_err();
    assert_eq!(ended, TransitionError::AlreadyTerminal { from: "TimedOut" });
    assert_eq!(
        ended.message(),
        "cannot transition from TimedOut \u{2014} already terminal"
    );
}

#[test]
fn every_status_has_a_name_and_knows_whether_it_is_the_end() {
    let at = EpochTimestamp::from_secs(9);
    let exited = |how: ExitReason| RunStatus::Exited {
        child: child(),
        how,
        ended_at: at,
    };
    let cases = vec![
        (RunStatus::Starting, "Starting", false),
        (RunStatus::Running { child: child() }, "Running", false),
        (RunStatus::SpawnFailed { ended_at: at }, "SpawnFailed", true),
        (exited(ExitReason::ExitedOk), "ExitedOk", true),
        (
            exited(ExitReason::ExitedError {
                code: ErrorCode::new(-3).unwrap(),
            }),
            "ExitedError",
            true,
        ),
        (exited(ExitReason::Killed), "Killed", true),
        (exited(ExitReason::KilledForced), "KilledForced", true),
        (exited(ExitReason::TimedOut), "TimedOut", true),
        (
            exited(ExitReason::SidecarFailed {
                step: SidecarStep::Readiness,
            }),
            "SidecarFailed",
            true,
        ),
        (
            RunStatus::SidecarLost {
                child: None,
                ended_at: at,
            },
            "SidecarLost",
            true,
        ),
        (
            RunStatus::DependencyFailed {
                ended_at: at,
                reason: DepFailReason::TimedOut,
            },
            "DependencyFailed",
            true,
        ),
    ];
    for (status, name, terminal) in cases {
        assert_eq!(status_name(&status), name);
        assert_eq!(status.is_terminal(), terminal, "{name}");
        assert_eq!(status.ended_at().is_some(), terminal, "{name}");
    }
    assert_eq!(ErrorCode::new(0), None);
    assert_eq!(ErrorCode::new(-3).unwrap().get(), -3);
}

#[test]
fn step_names_round_trip() {
    for (step, name) in [
        (SidecarStep::Breadcrumb, "breadcrumb"),
        (SidecarStep::StdinTransport, "stdin_transport"),
        (SidecarStep::AttachBind, "attach_bind"),
        (SidecarStep::RunningMeta, "running_meta"),
        (SidecarStep::Readiness, "readiness"),
        (SidecarStep::OutputLog, "output_log"),
        (SidecarStep::ChildWait, "child_wait"),
    ] {
        assert_eq!(step.as_str(), name);
        assert_eq!(SidecarStep::from_wire(name), Some(step));
    }
    assert_eq!(SidecarStep::from_wire("nope"), None);
    assert_eq!(SidecarStep::from_wire(""), None);
}
