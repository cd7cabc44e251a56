//! Reconciliation of sessions whose sidecar is gone, the shared path behind
//! `wait`, `status` and `run`.
//!
//! Before inferring a lost sidecar, the event log's tail is read: if the sidecar's
//! own terminal event exists (it died between the event append and the meta
//! write), meta is healed from that record instead of inferring loss.
//!
//! When loss is inferred, the lost sidecar's child may still be running (SIGKILL,
//! OOM or abort skip the sidecar's own guard). Reconciliation finds it (meta's
//! `Running` child, or the `child_pid` breadcrumb while meta is `Starting`), kills
//! it only if its identity is verified alive, and records the outcome as evidence
//! and a warning. A healed `SidecarFailed` gets the same treatment: the sidecar
//! records it even when its kill did not take.

use crate::io_error::ErrorKind;
use crate::json::{i64_member, json_i64_of, json_str_of, str_member, text_of};
use crate::model::dep_fail::DepFailReason;
use crate::model::ids::{EpochTimestamp, ProcessIdentity, RunId};
use crate::model::meta::{Meta, MetaModel};
use crate::model::provenance::Evidence;
use crate::model::state::{law_step_names_round_trip, ErrorCode, ExitReason, RunStatus, SidecarStep};
use crate::model::transition::{
    outcome, HealedTerminal, Orphan, RefusalModel, Transition, TransitionError,
};
use crate::sidecar::lifecycle::SIDECAR_SOURCE;
use crate::sidecar::supervised_run::{warned, ProcessStatus};
use crate::text::{decimal, push_decimal, same_text};
use vstd::prelude::*;

verus! {

/// What reconciliation did to the record.
#[derive(Clone, Copy, Debug, PartialEq, Eq, Structural)]
pub enum Reconciled {
    /// It was already terminal, or a live sidecar holds the lock.
    Untouched,
    /// Healed from the sidecar's own terminal event.
    Healed,
    /// No terminal event found: a lost sidecar was inferred.
    Inferred,
}

// The sidecar's own last word.

/// What is read of an event of the session's log.
#[derive(Clone, Debug, PartialEq, Eq)]
pub struct EventRecord {
    pub run_id: RunId,
    /// Who wrote it; a sidecar writes under its run's identity.
    pub writer: RunId,
    pub source: String,
    pub kind: String,
    /// Seconds since the Unix epoch.
    pub ts: u64,
    /// The payload as JSON text, where there is one.
    pub data: Option<String>,
}

/// The kinds of event that end a run.
pub open spec fn terminal_kind(kind: Seq<char>) -> bool {
    kind == "run.exited"@ || kind == "run.killed"@ || kind == "run.timed_out"@ || kind
        == "run.sidecar_failed"@ || kind == "run.spawn_failed"@ || kind
        == "run.dependency_failed"@
}

/// The source of a sidecar's events, by either of the names that event logs have for it.
pub open spec fn sidecar_source(source: Seq<char>) -> bool {
    source == SIDECAR_SOURCE@ || source == "tender.sidecar"@
}

/// The event is the sidecar's own terminal record of the run.
pub open spec fn is_terminal_event(event: EventRecord, run_id: RunId) -> bool {
    event.run_id == run_id && event.writer == run_id && sidecar_source(event.source@)
        && terminal_kind(event.kind@)
}

fn is_terminal_record(event: &EventRecord, run_id: RunId) -> (yes: bool)
    ensures
        yes == is_terminal_event(*event, run_id),
{
    let kind = event.kind.as_str();
    let source = event.source.as_str();
    event.run_id == run_id && event.writer == run_id && (same_text(source, SIDECAR_SOURCE)
        || same_text(source, "tender.sidecar")) && (same_text(kind, "run.exited")
        || same_text(kind, "run.killed") || same_text(kind, "run.timed_out")
        || same_text(kind, "run.sidecar_failed") || same_text(kind, "run.spawn_failed")
        || same_text(kind, "run.dependency_failed"))
}

/// `found` is the place of the sidecar's own most recent terminal event for the run; there
/// is none where it is `None`.
pub open spec fn is_last_word(
    events: Seq<EventRecord>,
    run_id: RunId,
    found: Option<usize>,
) -> bool {
    match found {
        Some(i) => i < events.len() && is_terminal_event(events[i as int], run_id) && forall|
            j: int,
        |
            i < j < events.len() ==> !is_terminal_event(#[trigger] events[j], run_id),
        None => forall|j: int|
            0 <= j < events.len() ==> !is_terminal_event(#[trigger] events[j], run_id),
    }
}

/// What the sidecar writes of a run's end is found again: an event under its source, of
/// the run and its writer and of a terminal kind, is the one that is found, or a later one
/// like it is.
pub proof fn law_own_terminal_events_are_found(
    events: Seq<EventRecord>,
    run_id: RunId,
    found: Option<usize>,
    j: int,
)
    requires
        is_last_word(events, run_id, found),
        0 <= j < events.len(),
        events[j].source@ == SIDECAR_SOURCE@,
        events[j].run_id == run_id,
        events[j].writer == run_id,
        terminal_kind(events[j].kind@),
    ensures
        found matches Some(i) && j <= i < events.len() && is_terminal_event(
            events[i as int],
            run_id,
        ),
{
    assert(is_terminal_event(events[j], run_id));
}

/// The sidecar's own most recent terminal event for the run, if any.
pub fn find_sidecar_terminal_event(events: &Vec<EventRecord>, run_id: RunId) -> (found: Option<
    usize,
>)
    ensures
        is_last_word(events@, run_id, found),
{
    let mut i: usize = events.len();
    while i > 0
        invariant
            i <= events@.len(),
            forall|j: int|
                i <= j < events@.len() ==> !is_terminal_event(#[trigger] events@[j], run_id),
        decreases i,
    {
        i = i - 1;
        if is_terminal_record(&events[i], run_id) {
            return Some(i);
        }
    }
    None
}

/// The members of a terminal event's payload that say how the run ended.
#[derive(Clone, Debug, PartialEq, Eq)]
pub struct TerminalFields {
    pub status: Option<String>,
    pub reason: Option<String>,
    pub exit_code: Option<i64>,
    pub step: Option<String>,
}

/// The members, in the abstract.
pub struct FieldsModel {
    pub status: Option<Seq<char>>,
    pub reason: Option<Seq<char>>,
    pub exit_code: Option<i64>,
    pub step: Option<Seq<char>>,
}

impl View for TerminalFields {
    type V = FieldsModel;

    open spec fn view(&self) -> FieldsModel {
        FieldsModel {
            status: text_of(self.status),
            reason: text_of(self.reason),
            exit_code: self.exit_code,
            step: text_of(self.step),
        }
    }
}

/// How a child exited, with its code as a number.
pub enum ExitModel {
    ExitedOk,
    ExitedError(i32),
    Killed,
    KilledForced,
    TimedOut,
    SidecarFailed(SidecarStep),
}

pub open spec fn exit_model(how: ExitReason) -> ExitModel {
    match how {
        ExitReason::ExitedOk => ExitModel::ExitedOk,
        ExitReason::ExitedError { code } => ExitModel::ExitedError(code@),
        ExitReason::Killed => ExitModel::Killed,
        ExitReason::KilledForced => ExitModel::KilledForced,
        ExitReason::TimedOut => ExitModel::TimedOut,
        ExitReason::SidecarFailed { step } => ExitModel::SidecarFailed(step),
    }
}

/// A terminal outcome, in the abstract.
pub enum HealedModel {
    Exited(ExitModel),
    SpawnFailed,
    DependencyFailed(DepFailReason),
}

pub open spec fn healed_model(healed: HealedTerminal) -> HealedModel {
    match healed {
        HealedTerminal::Exited(how) => HealedModel::Exited(exit_model(how)),
        HealedTerminal::SpawnFailed => HealedModel::SpawnFailed,
        HealedTerminal::DependencyFailed(reason) => HealedModel::DependencyFailed(reason),
    }
}

/// How a child exited, by the members of a payload.
pub open spec fn exit_of_fields(f: FieldsModel) -> Option<ExitModel> {
    match f.reason {
        None => None,
        Some(reason) => if reason == "ExitedOk"@ {
            Some(ExitModel::ExitedOk)
        } else if reason == "ExitedError"@ {
            match f.exit_code {
                Some(code) if i32::MIN <= code <= i32::MAX && code != 0 => Some(
                    ExitModel::ExitedError(code as i32),
                ),
                _ => None,
            }
        } else if reason == "Killed"@ {
            Some(ExitModel::Killed)
        } else if reason == "KilledForced"@ {
            Some(ExitModel::KilledForced)
        } else if reason == "TimedOut"@ {
            Some(ExitModel::TimedOut)
        } else if reason == "SidecarFailed"@ {
            match f.step {
                Some(step) => match SidecarStep::named(step) {
                    Some(step) => Some(ExitModel::SidecarFailed(step)),
                    None => None,
                },
                None => None,
            }
        } else {
            None
        },
    }
}

/// Why dependencies failed, by the members of a payload.
pub open spec fn dep_fail_of_fields(f: FieldsModel) -> Option<DepFailReason> {
    match f.reason {
        None => None,
        Some(reason) => if reason == "Failed"@ {
            Some(DepFailReason::Failed)
        } else if reason == "TimedOut"@ {
            Some(DepFailReason::TimedOut)
        } else if reason == "Killed"@ {
            Some(DepFailReason::Killed)
        } else if reason == "KilledForced"@ {
            Some(DepFailReason::KilledForced)
        } else {
            None
        },
    }
}

/// The terminal outcome that the members of a payload say; `None` on any surprise.
pub open spec fn healed_of_fields(f: FieldsModel) -> Option<HealedModel> {
    match f.status {
        None => None,
        Some(status) => if status == "Exited"@ {
            match exit_of_fields(f) {
                Some(how) => Some(HealedModel::Exited(how)),
                None => None,
            }
        } else if status == "SpawnFailed"@ {
            Some(HealedModel::SpawnFailed)
        } else if status == "DependencyFailed"@ {
            match dep_fail_of_fields(f) {
                Some(reason) => Some(HealedModel::DependencyFailed(reason)),
                None => None,
            }
        } else {
            None
        },
    }
}

fn exit_from_fields(fields: &TerminalFields) -> (how: Option<ExitReason>)
    ensures
        match exit_of_fields(fields@) {
            Some(model) => how matches Some(h) && exit_model(h) == model,
            None => how is None,
        },
{
    let reason = match &fields.reason {
        Some(reason) => reason.as_str(),
        None => return None,
    };
    if same_text(reason, "ExitedOk") {
        Some(ExitReason::ExitedOk)
    } else if same_text(reason, "ExitedError") {
        match fields.exit_code {
            Some(code) => {
                if code < i32::MIN as i64 || code > i32::MAX as i64 {
                    return None;
                }
                match ErrorCode::new(code as i32) {
                    Some(code) => Some(ExitReason::ExitedError { code }),
                    None => None,
                }
            },
            None => None,
        }
    } else if same_text(reason, "Killed") {
        Some(ExitReason::Killed)
    } else if same_text(reason, "KilledForced") {
        Some(ExitReason::KilledForced)
    } else if same_text(reason, "TimedOut") {
        Some(ExitReason::TimedOut)
    } else if same_text(reason, "SidecarFailed") {
        match &fields.step {
            Some(step) => match SidecarStep::from_wire(step.as_str()) {
                Some(step) => Some(ExitReason::SidecarFailed { step }),
                None => None,
            },
            None => None,
        }
    } else {
        None
    }
}

fn dep_fail_from_fields(fields: &TerminalFields) -> (reason: Option<DepFailReason>)
    ensures
        reason == dep_fail_of_fields(fields@),
{
    let reason = match &fields.reason {
        Some(reason) => reason.as_str(),
        None => return None,
    };
    if same_text(reason, "Failed") {
        Some(DepFailReason::Failed)
    } else if same_text(reason, "TimedOut") {
        Some(DepFailReason::TimedOut)
    } else if same_text(reason, "Killed") {
        Some(DepFailReason::Killed)
    } else if same_text(reason, "KilledForced") {
        Some(DepFailReason::KilledForced)
    } else {
        None
    }
}

/// The terminal outcome that the members of a payload say; `None` on any surprise,
/// and then loss is inferred.
pub fn healed_terminal(fields: &TerminalFields) -> (healed: Option<HealedTerminal>)
    ensures
        match healed_of_fields(fields@) {
            Some(model) => healed matches Some(h) && healed_model(h) == model,
            None => healed is None,
        },
{
    let status = match &fields.status {
        Some(status) => status.as_str(),
        None => return None,
    };
    if same_text(status, "Exited") {
        match exit_from_fields(fields) {
            Some(how) => Some(HealedTerminal::Exited(how)),
            None => None,
        }
    } else if same_text(status, "SpawnFailed") {
        Some(HealedTerminal::SpawnFailed)
    } else if same_text(status, "DependencyFailed") {
        match dep_fail_from_fields(fields) {
            Some(reason) => Some(HealedTerminal::DependencyFailed(reason)),
            None => None,
        }
    } else {
        None
    }
}

/// The members of the payload in `data`.
pub open spec fn fields_of(data: Seq<char>) -> FieldsModel {
    FieldsModel {
        status: json_str_of(data, "status"@),
        reason: json_str_of(data, "reason"@),
        exit_code: json_i64_of(data, "exit_code"@),
        step: json_str_of(data, "step"@),
    }
}

/// Parses a lifecycle event's payload, as JSON text, back into a terminal outcome.
pub fn healed_terminal_of(data: &str) -> (healed: Option<HealedTerminal>)
    ensures
        match healed_of_fields(fields_of(data@)) {
            Some(model) => healed matches Some(h) && healed_model(h) == model,
            None => healed is None,
        },
{
    let fields = TerminalFields {
        status: str_member(data, "status"),
        reason: str_member(data, "reason"),
        exit_code: i64_member(data, "exit_code"),
        step: str_member(data, "step"),
    };
    healed_terminal(&fields)
}

/// What the payload of a terminal event says of a run's end.
pub open spec fn fields_of_status(status: RunStatus) -> Option<FieldsModel> {
    match status {
        RunStatus::Exited { how, .. } => Some(
            FieldsModel {
                status: Some("Exited"@),
                reason: Some(
                    match how {
                        ExitReason::ExitedOk => "ExitedOk"@,
                        ExitReason::ExitedError { .. } => "ExitedError"@,
                        ExitReason::Killed => "Killed"@,
                        ExitReason::KilledForced => "KilledForced"@,
                        ExitReason::TimedOut => "TimedOut"@,
                        ExitReason::SidecarFailed { .. } => "SidecarFailed"@,
                    },
                ),
                exit_code: match how {
                    ExitReason::ExitedError { code } => Some(code@ as i64),
                    _ => None,
                },
                step: match how {
                    ExitReason::SidecarFailed { step } => Some(step.text()),
                    _ => None,
                },
            },
        ),
        RunStatus::SpawnFailed { .. } => Some(
            FieldsModel { status: Some("SpawnFailed"@), reason: None, exit_code: None, step: None },
        ),
        RunStatus::DependencyFailed { reason, .. } => Some(
            FieldsModel {
                status: Some("DependencyFailed"@),
                reason: Some(reason.text()),
                exit_code: None,
                step: None,
            },
        ),
        _ => None,
    }
}

/// The members that the payload of a run's terminal event has; `None` for a run
/// whose end the sidecar does not record itself.
pub fn terminal_fields(status: &RunStatus) -> (fields: Option<TerminalFields>)
    ensures
        match fields_of_status(*status) {
            Some(model) => fields matches Some(f) && f@ == model,
            None => fields is None,
        },
{
    match status {
        RunStatus::Exited { how, .. } => {
            let reason = match how {
                ExitReason::ExitedOk => "ExitedOk",
                ExitReason::ExitedError { .. } => "ExitedError",
                ExitReason::Killed => "Killed",
                ExitReason::KilledForced => "KilledForced",
                ExitReason::TimedOut => "TimedOut",
                ExitReason::SidecarFailed { .. } => "SidecarFailed",
            };
            let exit_code: Option<i64> = match how {
                ExitReason::ExitedError { code } => Some(code.get() as i64),
                _ => None,
            };
            let step = match how {
                ExitReason::SidecarFailed { step } => Some(step.as_str().to_owned()),
                _ => None,
            };
            Some(
                TerminalFields {
                    status: Some("Exited".to_owned()),
                    reason: Some(reason.to_owned()),
                    exit_code,
                    step,
                },
            )
        },
        RunStatus::SpawnFailed { .. } => Some(
            TerminalFields {
                status: Some("SpawnFailed".to_owned()),
                reason: None,
                exit_code: None,
                step: None,
            },
        ),
        RunStatus::DependencyFailed { reason, .. } => Some(
            TerminalFields {
                status: Some("DependencyFailed".to_owned()),
                reason: Some(reason.as_str().to_owned()),
                exit_code: None,
                step: None,
            },
        ),
        _ => None,
    }
}

/// Every end that the sidecar records heals from its own record: no crash between
/// the event and the meta write is taken for a lost sidecar.
pub proof fn law_every_end_heals_from_its_record(status: RunStatus)
    requires
        status matches RunStatus::Exited { how, .. } ==> (how matches ExitReason::ExitedError {
            code,
        } ==> code.valid()),
    ensures
        fields_of_status(status) matches Some(fields) ==> healed_of_fields(fields) == (match status {
            RunStatus::Exited { how, .. } => Some(HealedModel::Exited(exit_model(how))),
            RunStatus::SpawnFailed { .. } => Some(HealedModel::SpawnFailed),
            RunStatus::DependencyFailed { reason, .. } => Some(
                HealedModel::DependencyFailed(reason),
            ),
            _ => None,
        }),
{
    reveal_strlit("Exited");
    reveal_strlit("SpawnFailed");
    reveal_strlit("DependencyFailed");
    reveal_strlit("ExitedOk");
    reveal_strlit("ExitedError");
    reveal_strlit("Killed");
    reveal_strlit("KilledForced");
    reveal_strlit("TimedOut");
    reveal_strlit("SidecarFailed");
    reveal_strlit("Failed");
    assert("Exited"@.len() == 6 && "SpawnFailed"@.len() == 11 && "DependencyFailed"@.len() == 16);
    assert("ExitedOk"@.len() == 8 && "ExitedError"@.len() == 11 && "Killed"@.len() == 6);
    assert("KilledForced"@.len() == 12 && "TimedOut"@.len() == 8 && "SidecarFailed"@.len() == 13);
    assert("ExitedOk"@[0] == 'E' && "TimedOut"@[0] == 'T');
    assert("Failed"@[0] == 'F' && "Killed"@[0] == 'K');
    if let RunStatus::Exited { how: ExitReason::SidecarFailed { step }, .. } = status {
        law_step_names_round_trip(step, step.text());
    }
}

// The child that was left behind.

/// What [`kill_verified_orphan`] found and did.
#[derive(Clone, Debug, PartialEq, Eq)]
pub enum OrphanStop {
    /// Verified alive and killed.
    Killed,
    /// Verified alive; the kill failed.
    KillFailed(String),
    /// A process with that number exists but its identity cannot be read, so it may
    /// not be ours: left alone.
    Unverifiable,
    /// The probe itself failed: left alone.
    CheckFailed(ErrorKind),
    /// Already gone, or the number now belongs to another process.
    Gone,
}

/// Whether a process may be killed as a lost sidecar's child: only if it is
/// verifiably the same process, because the reuse of a number must never kill a
/// stranger. The one orphan-kill rule.
pub fn may_kill(probed: ProcessStatus) -> (kill: bool)
    ensures
        kill == (probed == ProcessStatus::AliveVerified),
{
    probed == ProcessStatus::AliveVerified
}

/// What became of an orphan, by what was found of it and, where it was killed, by
/// how that went.
pub fn kill_verified_orphan(probed: ProcessStatus, killed: Result<(), String>) -> (stop: OrphanStop)
    ensures
        match probed {
            ProcessStatus::AliveVerified => match killed {
                Ok(_) => stop is Killed,
                Err(error) => stop matches OrphanStop::KillFailed(e) && e@ == error@,
            },
            ProcessStatus::Inaccessible => stop is Unverifiable,
            ProcessStatus::OsError(kind) => stop == OrphanStop::CheckFailed(kind),
            ProcessStatus::Missing => stop is Gone,
            ProcessStatus::IdentityMismatch => stop is Gone,
        },
{
    match probed {
        ProcessStatus::AliveVerified => match killed {
            Ok(()) => OrphanStop::Killed,
            Err(error) => OrphanStop::KillFailed(error),
        },
        ProcessStatus::Inaccessible => OrphanStop::Unverifiable,
        ProcessStatus::OsError(kind) => OrphanStop::CheckFailed(kind),
        ProcessStatus::Missing => OrphanStop::Gone,
        ProcessStatus::IdentityMismatch => OrphanStop::Gone,
    }
}

/// The warning that an orphan leaves; none where it was already gone.
pub open spec fn orphan_warning(pid: u32, stop: OrphanStop, after: Seq<char>) -> Option<
    Seq<char>,
> {
    let child = "child pid "@ + decimal(pid as nat);
    match stop {
        OrphanStop::Killed => Some(
            child + " was still running after "@ + after + "; killed it"@,
        ),
        OrphanStop::KillFailed(e) => Some(
            child + " is still running after "@ + after + "; killing it failed: "@ + e@,
        ),
        OrphanStop::Unverifiable => Some(
            child + " may still be running after "@ + after
                + "; its identity could not be verified, so it was not killed"@,
        ),
        OrphanStop::CheckFailed(kind) => Some(
            child + " could not be checked after "@ + after + ": "@ + kind.description_text(),
        ),
        OrphanStop::Gone => None,
    }
}

/// A record behind an orphan's stop.
pub open spec fn after_orphan(meta: MetaModel, pid: u32, stop: OrphanStop, after: Seq<char>) -> MetaModel {
    match orphan_warning(pid, stop, after) {
        Some(warning) => warned(meta, warning),
        None => meta,
    }
}

/// Records what became of the child that a gone sidecar left behind: every outcome
/// but "already gone" as a warning naming `after` (how the sidecar went). Returns
/// whether it was killed.
pub fn stop_orphan(child: &ProcessIdentity, meta: &mut Meta, stop: &OrphanStop, after: &str) -> (
killed: bool)
    ensures
        killed == (*stop is Killed),
        final(meta)@ == after_orphan(old(meta)@, child.pid, *stop, after@),
{
    let mut note = "child pid ".to_owned();
    push_decimal(&mut note, child.pid as u64);
    match stop {
        OrphanStop::Killed => {
            note.append(" was still running after ");
            note.append(after);
            note.append("; killed it");
        },
        OrphanStop::KillFailed(error) => {
            note.append(" is still running after ");
            note.append(after);
            note.append("; killing it failed: ");
            note.append(error.as_str());
        },
        OrphanStop::Unverifiable => {
            note.append(" may still be running after ");
            note.append(after);
            note.append("; its identity could not be verified, so it was not killed");
        },
        OrphanStop::CheckFailed(kind) => {
            note.append(" could not be checked after ");
            note.append(after);
            note.append(": ");
            note.append(kind.description());
        },
        OrphanStop::Gone => return false,
    }
    assert(Some(note@) == orphan_warning(child.pid, *stop, after@)) by {
        assert(note@ =~= orphan_warning(child.pid, *stop, after@)->0);
    }
    meta.add_warning(note);
    match stop {
        OrphanStop::Killed => true,
        _ => false,
    }
}

// The decision.

/// The child a lost sidecar may have left running: the record's `Running` child,
/// or, while it is still `Starting`, the breadcrumb the sidecar writes right after
/// spawning.
pub fn left_behind_child(status: &RunStatus, breadcrumb: Option<ProcessIdentity>) -> (child: Option<
    ProcessIdentity,
>)
    ensures
        child == (match *status {
            RunStatus::Running { child } => Some(child),
            RunStatus::Starting => breadcrumb,
            _ => None,
        }),
{
    match status {
        RunStatus::Running { child } => Some(*child),
        RunStatus::Starting => breadcrumb,
        _ => None,
    }
}

/// What reconciliation has decided, and which child has to be looked at before it
/// is recorded.
#[derive(Clone, Copy, Debug, PartialEq, Eq, Structural)]
pub enum Decision {
    /// There is nothing to do.
    Untouched,
    /// The record was healed. A healed `SidecarFailed` is the one healed record
    /// whose child may still be running; every other one means that the child was
    /// reaped or never existed.
    Healed { suspect: Option<ProcessIdentity> },
    /// The sidecar was lost.
    Lost { suspect: Option<ProcessIdentity> },
}

/// What is decided for a record, given the sidecar's own last word on it, if there is
/// one, and the child it may have left behind.
pub open spec fn decided(
    meta: MetaModel,
    healed: Option<(HealedTerminal, EpochTimestamp)>,
    child: Option<ProcessIdentity>,
) -> (MetaModel, Decision) {
    if meta.status.terminal() {
        (meta, Decision::Untouched)
    } else {
        match healed {
            Some((healed, ended_at)) => match outcome(
                meta.status,
                meta.provenance,
                Transition::Healed { healed, ended_at, spawned_child: child },
            ) {
                Ok((status, provenance)) => (
                    MetaModel { status, provenance: Some(provenance), ..meta },
                    Decision::Healed {
                        suspect: match status {
                            RunStatus::Exited { child, how: ExitReason::SidecarFailed { .. }, .. } => {
                                Some(child)
                            },
                            _ => None,
                        },
                    },
                ),
                Err(_) => (meta, Decision::Lost { suspect: child }),
            },
            None => (meta, Decision::Lost { suspect: child }),
        }
    }
}

/// Decides what becomes of a record whose sidecar holds no lock any more: it is
/// left alone where it is already terminal, healed from the sidecar's own record
/// where that is possible, and otherwise the sidecar was lost.
pub fn reconcile_sidecar_gone(
    meta: &mut Meta,
    healed: Option<(HealedTerminal, EpochTimestamp)>,
    child: Option<ProcessIdentity>,
) -> (decision: Decision)
    ensures
        (final(meta)@, decision) == decided(old(meta)@, healed, child),
{
    if meta.status().is_terminal() {
        return Decision::Untouched;
    }
    if let Some((healed, ended_at)) = healed {
        if meta.heal_terminal_from_event(healed, ended_at, child).is_ok() {
            let suspect = match *meta.status() {
                RunStatus::Exited { child, how, .. } => match how {
                    ExitReason::SidecarFailed { .. } => Some(child),
                    _ => None,
                },
                _ => None,
            };
            return Decision::Healed { suspect };
        }
    }
    Decision::Lost { suspect: child }
}

/// The record behind a decision, once it is known what became of the suspect.
pub open spec fn concluded(
    meta: MetaModel,
    decision: Decision,
    stop: OrphanStop,
    now: EpochTimestamp,
) -> (MetaModel, Result<Reconciled, RefusalModel>) {
    match decision {
        Decision::Untouched => (meta, Ok(Reconciled::Untouched)),
        Decision::Healed { suspect: None } => (meta, Ok(Reconciled::Healed)),
        Decision::Healed { suspect: Some(child) } => {
            let after = after_orphan(meta, child.pid, stop, "its sidecar failed"@);
            if stop is Killed {
                match outcome(after.status, after.provenance, Transition::HealedOrphanKilled) {
                    Ok((status, provenance)) => (
                        MetaModel { status, provenance: Some(provenance), ..after },
                        Ok(Reconciled::Healed),
                    ),
                    Err(refusal) => (after, Err(refusal)),
                }
            } else {
                (after, Ok(Reconciled::Healed))
            }
        },
        Decision::Lost { suspect } => {
            let after = match suspect {
                Some(child) => after_orphan(meta, child.pid, stop, "its sidecar was lost"@),
                None => meta,
            };
            let orphan = match suspect {
                Some(child) => Some(Orphan { child, killed: stop is Killed }),
                None => None,
            };
            match outcome(
                after.status,
                after.provenance,
                Transition::SidecarLost { ended_at: now, orphan },
            ) {
                Ok((status, provenance)) => (
                    MetaModel { status, provenance: Some(provenance), ..after },
                    Ok(Reconciled::Inferred),
                ),
                Err(refusal) => (after, Err(refusal)),
            }
        },
    }
}

/// Records a decision, once it is known what became of the suspect (`stop` counts
/// only where there is one).
pub fn conclude(meta: &mut Meta, decision: Decision, stop: &OrphanStop, now: EpochTimestamp) -> (
reconciled: Result<Reconciled, TransitionError>)
    ensures
        final(meta)@ == concluded(old(meta)@, decision, *stop, now).0,
        match concluded(old(meta)@, decision, *stop, now).1 {
            Ok(r) => reconciled == Ok::<Reconciled, TransitionError>(r),
            Err(refusal) => reconciled matches Err(error) && error@ == refusal,
        },
{
    match decision {
        Decision::Untouched => Ok(Reconciled::Untouched),
        Decision::Healed { suspect } => {
            if let Some(child) = suspect {
                if stop_orphan(&child, meta, stop, "its sidecar failed") {
                    if let Err(error) = meta.record_healed_orphan_killed() {
                        return Err(error);
                    }
                }
            }
            Ok(Reconciled::Healed)
        },
        Decision::Lost { suspect } => {
            let orphan = match suspect {
                Some(child) => {
                    let killed = stop_orphan(&child, meta, stop, "its sidecar was lost");
                    Some(Orphan { child, killed })
                },
                None => None,
            };
            match meta.reconcile_sidecar_lost(now, orphan) {
                Ok(()) => Ok(Reconciled::Inferred),
                Err(error) => Err(error),
            }
        },
    }
}

// What holds of reconciliation.

/// Reconciliation ends every run that it touches, and never fails on a decision of
/// its own: behind it the record is terminal.
pub proof fn law_reconciliation_ends_the_run(
    meta: MetaModel,
    healed: Option<(HealedTerminal, EpochTimestamp)>,
    child: Option<ProcessIdentity>,
    stop: OrphanStop,
    now: EpochTimestamp,
)
    ensures
        ({
            let (mid, decision) = decided(meta, healed, child);
            let (after, reconciled) = concluded(mid, decision, stop, now);
            &&& reconciled is Ok
            &&& after.status.terminal()
            &&& meta.status.terminal() ==> after == meta && reconciled == Ok::<
                Reconciled,
                RefusalModel,
            >(Reconciled::Untouched)
        }),
{
}

/// The sidecar's own record wins over inference: a record that can be healed is
/// never recorded as a lost sidecar, and keeps direct provenance.
pub proof fn law_own_record_wins(
    meta: MetaModel,
    healed: HealedTerminal,
    ended_at: EpochTimestamp,
    child: Option<ProcessIdentity>,
    stop: OrphanStop,
    now: EpochTimestamp,
)
    requires
        !meta.status.terminal(),
        outcome(
            meta.status,
            meta.provenance,
            Transition::Healed { healed, ended_at, spawned_child: child },
        ) is Ok,
    ensures
        ({
            let (mid, decision) = decided(meta, Some((healed, ended_at)), child);
            let (after, reconciled) = concluded(mid, decision, stop, now);
            &&& reconciled == Ok::<Reconciled, RefusalModel>(Reconciled::Healed)
            &&& !(after.status is SidecarLost)
            &&& after.provenance matches Some(p) && p.direct
            &&& after.status.ended_at_of() == Some(ended_at)
        }),
{
}

// What each part of reconciliation is for, by what it is given and what it leaves.

/// The sidecar's last word is the latest event of the run that its own sidecar wrote, under
/// the run's identity and its source, and that ends a run: an exit, a kill, a timeout, a
/// failure of the sidecar, of the spawn, or of the dependencies.
pub proof fn law_last_word_is_the_sidecars_own(
    events: &Vec<EventRecord>,
    run_id: RunId,
    found: Option<usize>,
)
    requires
        call_ensures(find_sidecar_terminal_event, (events, run_id), found),
    ensures
        found matches Some(i) ==> {
            &&& i < events@.len()
            &&& events@[i as int].run_id == run_id
            &&& events@[i as int].writer == run_id
            &&& events@[i as int].source@ == "tendr.sidecar"@ || events@[i as int].source@
                == "tender.sidecar"@
        },
        forall|j: int|
            0 <= j < events@.len() && (found matches Some(i) ==> i < j) && events@[j].run_id
                == run_id && events@[j].writer == run_id && (events@[j].source@
                == "tendr.sidecar"@ || events@[j].source@ == "tender.sidecar"@) ==> {
                let kind = (#[trigger] events@[j]).kind@;
                &&& kind != "run.exited"@
                &&& kind != "run.killed"@
                &&& kind != "run.timed_out"@
                &&& kind != "run.sidecar_failed"@
                &&& kind != "run.spawn_failed"@
                &&& kind != "run.dependency_failed"@
            },
        found matches Some(i) ==> {
            let kind = events@[i as int].kind@;
            ||| kind == "run.exited"@
            ||| kind == "run.killed"@
            ||| kind == "run.timed_out"@
            ||| kind == "run.sidecar_failed"@
            ||| kind == "run.spawn_failed"@
            ||| kind == "run.dependency_failed"@
        },
{
    assert forall|j: int|
        0 <= j < events@.len() && (found matches Some(i) ==> i < j) && events@[j].run_id == run_id
            && events@[j].writer == run_id && (events@[j].source@ == "tendr.sidecar"@
            || events@[j].source@ == "tender.sidecar"@) implies {
        let kind = (#[trigger] events@[j]).kind@;
        &&& kind != "run.exited"@
        &&& kind != "run.killed"@
        &&& kind != "run.timed_out"@
        &&& kind != "run.sidecar_failed"@
        &&& kind != "run.spawn_failed"@
        &&& kind != "run.dependency_failed"@
    } by {
        assert(!is_terminal_event(events@[j], run_id));
    }
}

/// The texts that payloads are made of are all different.
proof fn lemma_payload_words()
    ensures
        "Exited"@ != "SpawnFailed"@ && "Exited"@ != "DependencyFailed"@ && "SpawnFailed"@
            != "DependencyFailed"@,
        "ExitedOk"@ != "ExitedError"@ && "ExitedOk"@ != "Killed"@ && "ExitedOk"@ != "KilledForced"@
            && "ExitedOk"@ != "TimedOut"@ && "ExitedOk"@ != "SidecarFailed"@,
        "ExitedError"@ != "Killed"@ && "ExitedError"@ != "KilledForced"@ && "ExitedError"@
            != "TimedOut"@ && "ExitedError"@ != "SidecarFailed"@,
        "Killed"@ != "KilledForced"@ && "Killed"@ != "TimedOut"@ && "Killed"@ != "SidecarFailed"@
            && "KilledForced"@ != "TimedOut"@ && "KilledForced"@ != "SidecarFailed"@ && "TimedOut"@
            != "SidecarFailed"@,
        "Failed"@ != "TimedOut"@ && "Failed"@ != "Killed"@ && "Failed"@ != "KilledForced"@,
{
    reveal_strlit("Exited");
    reveal_strlit("SpawnFailed");
    reveal_strlit("DependencyFailed");
    reveal_strlit("ExitedOk");
    reveal_strlit("ExitedError");
    reveal_strlit("Killed");
    reveal_strlit("KilledForced");
    reveal_strlit("TimedOut");
    reveal_strlit("SidecarFailed");
    reveal_strlit("Failed");
    assert("Exited"@.len() == 6 && "SpawnFailed"@.len() == 11 && "DependencyFailed"@.len() == 16);
    assert("ExitedOk"@.len() == 8 && "ExitedError"@.len() == 11 && "Killed"@.len() == 6);
    assert("KilledForced"@.len() == 12 && "TimedOut"@.len() == 8 && "SidecarFailed"@.len() == 13);
    assert("Failed"@.len() == 6 && "Failed"@[0] == 'F' && "Killed"@[0] == 'K');
    assert("ExitedOk"@[0] == 'E' && "TimedOut"@[0] == 'T');
}

/// A payload says what its members say. `Exited` with a reason is that exit: an error only
/// with a code that is a number of an exit and not zero, and with that code; a failure of
/// the sidecar only with a step. `SpawnFailed` is a failed spawn, and `DependencyFailed`
/// with a reason is that failure of the dependencies. Nothing else is an end.
pub proof fn law_payload_says_how_the_run_ended(
    fields: &TerminalFields,
    healed: Option<HealedTerminal>,
)
    requires
        call_ensures(healed_terminal, (fields,), healed),
    ensures
        healed is Some ==> (fields.status matches Some(status) && match healed->0 {
            HealedTerminal::Exited(_) => status@ == "Exited"@,
            HealedTerminal::SpawnFailed => status@ == "SpawnFailed"@,
            HealedTerminal::DependencyFailed(_) => status@ == "DependencyFailed"@,
        }),
        fields.status matches Some(status) ==> status@ == "SpawnFailed"@ ==> healed == Some(
            HealedTerminal::SpawnFailed,
        ),
        fields.status matches Some(status) ==> status@ == "Exited"@ ==> match healed {
            Some(HealedTerminal::Exited(how)) => fields.reason matches Some(reason) && match how {
                ExitReason::ExitedOk => reason@ == "ExitedOk"@,
                ExitReason::ExitedError { code } => reason@ == "ExitedError"@ && fields.exit_code
                    == Some(code@ as i64),
                ExitReason::Killed => reason@ == "Killed"@,
                ExitReason::KilledForced => reason@ == "KilledForced"@,
                ExitReason::TimedOut => reason@ == "TimedOut"@,
                ExitReason::SidecarFailed { step } => reason@ == "SidecarFailed"@ && (
                fields.step matches Some(name) && name@ == step.text()),
            },
            Some(_) => false,
            None => match fields.reason {
                None => true,
                Some(reason) => {
                    &&& reason@ != "ExitedOk"@ && reason@ != "Killed"@ && reason@
                        != "KilledForced"@ && reason@ != "TimedOut"@
                    &&& reason@ == "ExitedError"@ ==> (fields.exit_code matches Some(code) ==> code
                        == 0 || code < i32::MIN || code > i32::MAX)
                },
            },
        },
        fields.status matches Some(status) ==> status@ == "DependencyFailed"@ ==> match healed {
            Some(HealedTerminal::DependencyFailed(why)) => fields.reason matches Some(reason)
                && match why {
                DepFailReason::Failed => reason@ == "Failed"@,
                DepFailReason::TimedOut => reason@ == "TimedOut"@,
                DepFailReason::Killed => reason@ == "Killed"@,
                DepFailReason::KilledForced => reason@ == "KilledForced"@,
            },
            Some(_) => false,
            None => match fields.reason {
                None => true,
                Some(reason) => reason@ != "Failed"@ && reason@ != "TimedOut"@ && reason@
                    != "Killed"@ && reason@ != "KilledForced"@,
            },
        },
{
    lemma_payload_words();
    if let Some(name) = fields.step {
        law_step_names_round_trip(SidecarStep::Breadcrumb, name@);
    }
}

/// A payload in JSON is read by the names of its members.
pub proof fn law_payload_is_read_by_its_members(
    data: &str,
    healed: Option<HealedTerminal>,
    fields: &TerminalFields,
    same: Option<HealedTerminal>,
)
    requires
        call_ensures(healed_terminal_of, (data,), healed),
        call_ensures(healed_terminal, (fields,), same),
        fields@.status == json_str_of(data@, "status"@),
        fields@.reason == json_str_of(data@, "reason"@),
        fields@.exit_code == json_i64_of(data@, "exit_code"@),
        fields@.step == json_str_of(data@, "step"@),
    ensures
        healed is Some <==> same is Some,
        healed is Some ==> healed_model(healed->0) == healed_model(same->0),
{
}

/// The end of a run is written so that reading it back gives that end: the very exit with
/// its code or its step, the failed spawn, the reason of the dependencies. The sidecar does
/// not write the end of a run that goes on, or whose sidecar was lost.
pub proof fn law_written_end_is_read_back(
    status: &RunStatus,
    fields: Option<TerminalFields>,
    healed: Option<HealedTerminal>,
)
    requires
        status matches RunStatus::Exited { how, .. } ==> (how matches ExitReason::ExitedError {
            code,
        } ==> code.valid()),
        call_ensures(terminal_fields, (status,), fields),
        fields matches Some(f) ==> call_ensures(healed_terminal, (&f,), healed),
    ensures
        fields is Some <==> *status is Exited || *status is SpawnFailed || *status is DependencyFailed,
        *status matches RunStatus::Exited { how, .. } ==> (healed matches Some(
            HealedTerminal::Exited(read),
        ) && read == how),
        *status is SpawnFailed ==> healed == Some(HealedTerminal::SpawnFailed),
        *status matches RunStatus::DependencyFailed { reason, .. } ==> healed == Some(
            HealedTerminal::DependencyFailed(reason),
        ),
        fields matches Some(f) ==> (f.status matches Some(text) && text@ == (match *status {
            RunStatus::Exited { .. } => "Exited"@,
            RunStatus::SpawnFailed { .. } => "SpawnFailed"@,
            _ => "DependencyFailed"@,
        })),
{
    broadcast use crate::model::state::lemma_error_code_ext;

    law_every_end_heals_from_its_record(*status);
}

/// Only a process that is verifiably the child is ever killed.
pub proof fn law_only_the_verified_child_is_killed(
    probed: ProcessStatus,
    kill: bool,
    killed: Result<(), String>,
    stop: OrphanStop,
)
    requires
        call_ensures(may_kill, (probed,), kill),
        call_ensures(kill_verified_orphan, (probed, killed), stop),
    ensures
        kill <==> probed is AliveVerified,
        stop is Killed <==> probed is AliveVerified && killed is Ok,
        stop is KillFailed <==> probed is AliveVerified && killed is Err,
        probed is Missing || probed is IdentityMismatch ==> stop is Gone,
        probed is Inaccessible ==> stop is Unverifiable,
        probed matches ProcessStatus::OsError(kind) ==> stop == OrphanStop::CheckFailed(kind),
        stop matches OrphanStop::KillFailed(e) ==> (killed matches Err(error) && e@ == error@),
{
}

/// What became of an orphan is told in one warning that begins with its number, unless it
/// was gone already, and nothing else changes. Only a killed one counts as killed.
pub proof fn law_orphan_is_told_of(
    child: &ProcessIdentity,
    meta: &mut Meta,
    stop: &OrphanStop,
    after: &str,
    killed: bool,
)
    requires
        call_ensures(stop_orphan, (child, meta, stop, after), killed),
    ensures
        killed <==> *stop is Killed,
        *stop is Gone ==> final(meta)@ == old(meta)@,
        !(*stop is Gone) ==> {
            &&& final(meta)@.warnings.len() == old(meta)@.warnings.len() + 1
            &&& final(meta)@.warnings.drop_last() =~= old(meta)@.warnings
            &&& ("child pid "@ + decimal(child.pid as nat)).is_prefix_of(
                final(meta)@.warnings.last(),
            )
            &&& final(meta)@ == (MetaModel { warnings: final(meta)@.warnings, ..old(meta)@ })
        },
        *stop matches OrphanStop::KillFailed(e) ==> e@.is_suffix_of(final(meta)@.warnings.last()),
        *stop is Killed ==> "; killed it"@.is_suffix_of(final(meta)@.warnings.last()),
{
    let head = "child pid "@ + decimal(child.pid as nat);
    if !(*stop is Gone) {
        let last = final(meta)@.warnings.last();
        assert(head =~= last.subrange(0, head.len() as int));
    }
    if let OrphanStop::KillFailed(e) = *stop {
        let last = final(meta)@.warnings.last();
        assert(e@ =~= last.subrange(last.len() - e@.len(), last.len() as int));
    }
    if *stop is Killed {
        let last = final(meta)@.warnings.last();
        let end = "; killed it"@;
        assert(end =~= last.subrange(last.len() - end.len(), last.len() as int));
    }
}

/// The child that may be left behind is the one that was running, or, of a run that was
/// starting, the one in the breadcrumb. A run that has ended leaves none.
pub proof fn law_left_behind_child_is_the_runs(
    status: &RunStatus,
    breadcrumb: Option<ProcessIdentity>,
    child: Option<ProcessIdentity>,
)
    requires
        call_ensures(left_behind_child, (status, breadcrumb), child),
    ensures
        *status matches RunStatus::Running { child: c } ==> child == Some(c),
        *status is Starting ==> child == breadcrumb,
        status.terminal() ==> child is None,
{
}

/// A record that has ended is left as it is. One that has not is healed where the sidecar
/// left its own word and that word fits: a running run then ends with the very exit that the
/// word names, at its time, with its child. A healed failure of the sidecar is the one end
/// whose child has to be looked at. Everything else is a lost sidecar, whose child is, and
/// then the record waits for that unchanged.
pub proof fn law_reconciliation_takes_the_sidecars_word(
    meta: &mut Meta,
    healed: Option<(HealedTerminal, EpochTimestamp)>,
    child: Option<ProcessIdentity>,
    decision: Decision,
)
    requires
        call_ensures(reconcile_sidecar_gone, (meta, healed, child), decision),
    ensures
        decision is Untouched <==> old(meta)@.status.terminal(),
        !(decision is Healed) ==> final(meta)@ == old(meta)@,
        decision matches Decision::Lost { suspect } ==> suspect == child,
        healed is None && !old(meta)@.status.terminal() ==> decision is Lost,
        decision matches Decision::Healed { suspect } ==> {
            &&& healed is Some
            &&& final(meta)@.status.ended_at_of() == Some((healed->0).1)
            &&& match (healed->0).0 {
                HealedTerminal::Exited(h) => final(meta)@.status matches RunStatus::Exited {
                    child: c,
                    how,
                    ..
                } && how == h && (h is SidecarFailed ==> suspect == Some(c)) && (!(
                h is SidecarFailed) ==> suspect is None),
                HealedTerminal::SpawnFailed => final(meta)@.status is SpawnFailed
                    && suspect is None,
                HealedTerminal::DependencyFailed(r) => final(
                    meta)@.status matches RunStatus::DependencyFailed { reason, .. } && reason == r
                    && suspect is None,
            }
            &&& final(meta)@.warnings == old(meta)@.warnings
            &&& old(meta)@.status is Running ==> final(meta)@.status.child_of() == old(
                meta)@.status.child_of()
        },
        old(meta)@.status is Running && (healed matches Some((HealedTerminal::Exited(_), _)))
            ==> decision is Healed,
        old(meta)@.status is Starting && (healed matches Some((h, _)) && !(h is Exited))
            ==> decision is Healed,
        old(meta)@.status is Starting && child is Some && (healed matches Some(
            (HealedTerminal::Exited(ExitReason::SidecarFailed { .. }), _),
        )) ==> decision is Healed,
{
}

/// A decision is concluded as what it is: an untouched record stays, a healed one stays as
/// it was healed, with evidence and a warning of the orphan where there was one, and a lost
/// sidecar is recorded at the given time, with its child, and says so where that was killed.
pub proof fn law_decision_is_concluded(
    meta: &mut Meta,
    decision: Decision,
    stop: &OrphanStop,
    now: EpochTimestamp,
    reconciled: Result<Reconciled, TransitionError>,
)
    requires
        call_ensures(conclude, (meta, decision, stop, now), reconciled),
    ensures
        decision is Untouched ==> final(meta)@ == old(meta)@ && reconciled == Ok::<
            Reconciled,
            TransitionError,
        >(Reconciled::Untouched),
        decision is Healed ==> final(meta)@.status == old(meta)@.status && (reconciled matches Ok(
            r,
        ) ==> r == Reconciled::Healed),
        decision matches Decision::Healed { suspect: None } ==> final(meta)@ == old(meta)@
            && reconciled is Ok,
        decision is Healed && !(*stop is Killed) ==> reconciled is Ok && final(meta)@.provenance
            == old(meta)@.provenance,
        decision matches Decision::Lost { suspect } ==> !old(meta)@.status.terminal() ==> {
            &&& reconciled == Ok::<Reconciled, TransitionError>(Reconciled::Inferred)
            &&& final(meta)@.status matches RunStatus::SidecarLost { child, ended_at } && ended_at
                == now && (old(meta)@.status is Starting ==> child == suspect) && (old(
                meta)@.status matches RunStatus::Running { child: c } ==> child == Some(c))
            &&& final(meta)@.provenance matches Some(p) && !p.direct && (p.evidence.contains(
                Evidence::OrphanKilled,
            ) <==> suspect is Some && *stop is Killed)
            &&& final(meta)@.warnings.len() == old(meta)@.warnings.len() + if suspect is Some && !(
            *stop is Gone) {
                1int
            } else {
                0int
            }
        },
        decision matches Decision::Healed { suspect: Some(_) } ==> final(meta)@.warnings.len()
            == old(meta)@.warnings.len() + if *stop is Gone {
            0int
        } else {
            1int
        },
{
    if let Decision::Lost { suspect } = decision {
        if !old(meta)@.status.terminal() {
            let p = final(meta)@.provenance->0;
            if suspect is Some && *stop is Killed {
                assert(p.evidence[2] == Evidence::OrphanKilled);
            }
        }
    }
}

} // verus!
