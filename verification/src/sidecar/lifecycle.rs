//! What the sidecar does around the run itself: its event log, its control facts,
//! its watchers.

use crate::model::ids::RunId;
use crate::model::meta::Meta;
use crate::model::pty::PtyControl;
use crate::pty_input::Trigger;
use crate::sidecar::kill_request::{kill_order_of, kill_requested};
use crate::sidecar::supervised_run::warned;
use vstd::prelude::*;

verus! {

/// The source of the events that the sidecar appends.
pub const SIDECAR_SOURCE: &'static str = "tendr.sidecar";

/// An event was appended, or could not be. That never fails the run: it becomes a
/// warning, and the record is salvaged outside the session, which the result asks
/// for. Supervision must not die, and the history must not silently vanish, because
/// the event log is unwritable.
pub fn on_append(meta: &mut Meta, appended: &Result<(), String>) -> (salvage: bool)
    ensures
        match *appended {
            Ok(_) => !salvage && final(meta)@ == old(meta)@,
            Err(error) => salvage && final(meta)@ == warned(
                old(meta)@,
                "event log append failed: "@ + error@,
            ),
        },
{
    match appended {
        Ok(()) => false,
        Err(error) => {
            let mut warning = "event log append failed: ".to_owned();
            warning.append(error.as_str());
            meta.add_warning(warning);
            true
        },
    }
}

/// A change of who controls the PTY's input.
#[derive(Clone, Copy, Debug, PartialEq, Eq, Structural)]
pub enum ControlChange {
    /// A human took control.
    Human(Trigger),
    /// No human holds control any more.
    Released,
}

/// Who controls the PTY's input behind a change.
pub open spec fn control_of(change: ControlChange) -> PtyControl {
    match change {
        ControlChange::Human(_) => PtyControl::HumanControl,
        ControlChange::Released => PtyControl::AgentControl,
    }
}

/// What brought a change about.
pub open spec fn trigger_of(change: ControlChange) -> Seq<char> {
    match change {
        ControlChange::Human(trigger) => trigger.text(),
        ControlChange::Released => "detach"@,
    }
}

/// The fact to record for a change, before the run's record is flipped: who controls
/// the input, and what brought it about. Nothing once the run has ended: its paths
/// may belong to the next run then.
pub fn control_fact(change: ControlChange, ended: bool) -> (fact: Option<
    (PtyControl, &'static str),
>)
    ensures
        ended ==> fact is None,
        !ended ==> (fact matches Some((control, trigger)) && control == control_of(change)
            && trigger@ == trigger_of(change)),
{
    if ended {
        return None;
    }
    match change {
        ControlChange::Human(trigger) => Some((PtyControl::HumanControl, trigger.as_str())),
        ControlChange::Released => Some((PtyControl::AgentControl, "detach")),
    }
}

/// What capture leaves in `capture_errors.log`, if anything went wrong: a line for
/// each stream.
pub fn capture_error_log(stdout: Option<&str>, stderr: Option<&str>) -> (log: Option<String>)
    ensures
        match (stdout, stderr) {
            (None, None) => log is None,
            (Some(o), None) => log matches Some(text) && text@ == "stdout capture: "@ + o@,
            (None, Some(e)) => log matches Some(text) && text@ == "stderr capture: "@ + e@,
            (Some(o), Some(e)) => log matches Some(text) && text@ == "stdout capture: "@ + o@
                + "\nstderr capture: "@ + e@,
        },
{
    match (stdout, stderr) {
        (None, None) => None,
        (Some(o), None) => {
            let mut log = "stdout capture: ".to_owned();
            log.append(o);
            Some(log)
        },
        (None, Some(e)) => {
            let mut log = "stderr capture: ".to_owned();
            log.append(e);
            Some(log)
        },
        (Some(o), Some(e)) => {
            let mut log = "stdout capture: ".to_owned();
            log.append(o);
            log.append("\nstderr capture: ");
            log.append(e);
            Some(log)
        },
    }
}

/// What the timeout watcher does next.
#[derive(Clone, Copy, Debug, PartialEq, Eq, Structural)]
pub enum TimeoutStep {
    /// The child exited in time.
    Stop,
    Wait,
    /// The run has timed out: mark it so, then kill the child by force.
    Kill,
}

/// What the timeout watcher does next: a run that is ending is never killed, even
/// behind the deadline.
pub fn timeout_step(cancelled: bool, deadline_passed: bool) -> (step: TimeoutStep)
    ensures
        step == (if cancelled {
            TimeoutStep::Stop
        } else if deadline_passed {
            TimeoutStep::Kill
        } else {
            TimeoutStep::Wait
        }),
{
    if cancelled {
        TimeoutStep::Stop
    } else if deadline_passed {
        TimeoutStep::Kill
    } else {
        TimeoutStep::Wait
    }
}

/// What the kill watcher does next.
#[derive(Clone, Copy, Debug, PartialEq, Eq, Structural)]
pub enum KillStep {
    Stop,
    /// Look again later; a request that was read is removed.
    Wait,
    /// Kill the child, by force or not, and stop watching. A kill that is not forced
    /// leaves a mark first, so that the exit is classified as one.
    Kill { force: bool, mark: bool },
}

/// What the kill watcher does next, given the request that lies there, if any can be
/// read. A request that is malformed or meant for another run is passed over rather
/// than taken for a forced kill.
pub fn kill_step(cancelled: bool, request: Option<&str>, run_id: RunId) -> (step: KillStep)
    ensures
        step == (if cancelled {
            KillStep::Stop
        } else {
            match request {
                None => KillStep::Wait,
                Some(text) => match kill_order_of(
                    crate::model::ids::uuid_text(run_id@.0, run_id@.1),
                    crate::json::json_str_of(text@, "run_id"@),
                    crate::json::json_bool_of(text@, "force"@),
                ) {
                    None => KillStep::Wait,
                    Some(force) => KillStep::Kill { force, mark: !force },
                },
            }
        }),
{
    if cancelled {
        return KillStep::Stop;
    }
    match request {
        None => KillStep::Wait,
        Some(text) => match kill_requested(text, run_id) {
            None => KillStep::Wait,
            Some(force) => KillStep::Kill { force, mark: !force },
        },
    }
}

// What each operation does, in terms of what it was given and what it gave back.

/// An event that could not be appended leaves one warning more, with the error, and nothing
/// else, and is salvaged. One that was leaves nothing.
pub proof fn law_unwritten_event_is_salvaged(
    meta: &mut Meta,
    appended: Result<(), String>,
    salvage: bool,
)
    requires
        call_ensures(on_append, (meta, &appended), salvage),
    ensures
        salvage <==> appended is Err,
        appended is Ok ==> final(meta)@ == old(meta)@,
        appended matches Err(error) ==> final(meta)@.warnings == old(meta)@.warnings.push(
            "event log append failed: "@ + error@,
        ),
        final(meta)@.status == old(meta)@.status,
        final(meta)@.provenance == old(meta)@.provenance,
        final(meta)@.pty == old(meta)@.pty,
        final(meta)@.run_id == old(meta)@.run_id,
{
}

/// A change of control is recorded while the run lasts, and not once it has ended: as a
/// human's, with how it was come by, or as the agent's, by a detach.
pub proof fn law_control_facts(
    change: ControlChange,
    ended: bool,
    fact: Option<(PtyControl, &'static str)>,
    trigger: Trigger,
    name: &'static str,
)
    requires
        call_ensures(control_fact, (change, ended), fact),
        change matches ControlChange::Human(t) ==> t == trigger,
        call_ensures(Trigger::as_str, (trigger,), name),
    ensures
        fact is None <==> ended,
        change is Human ==> (fact matches Some((control, by)) ==> control is HumanControl && by@
            == name@),
        change is Released ==> (fact matches Some((control, by)) ==> control is AgentControl && by@
            == "detach"@),
{
}

/// Capture errors are logged where there are any, a line for each stream, stdout first.
pub proof fn law_capture_errors_are_logged(
    stdout: Option<&str>,
    stderr: Option<&str>,
    log: Option<String>,
)
    requires
        call_ensures(capture_error_log, (stdout, stderr), log),
    ensures
        log is None <==> stdout is None && stderr is None,
        stdout matches Some(o) ==> (stderr is None ==> log->0@ == "stdout capture: "@ + o@),
        stderr matches Some(e) ==> (stdout is None ==> log->0@ == "stderr capture: "@ + e@),
        stdout matches Some(o) ==> (stderr matches Some(e) ==> log->0@ == "stdout capture: "@ + o@
            + "\nstderr capture: "@ + e@),
{
}

/// A run is killed for its timeout only behind the deadline and while it is not ending. It
/// is killed on request where the request that lies there names it, by force where that is
/// asked for, and with a mark before it otherwise; a request that asks nothing of it, or
/// none, is waited on.
pub proof fn law_watchers_kill_only_when_asked(
    cancelled: bool,
    deadline_passed: bool,
    timeout: TimeoutStep,
    request: Option<&str>,
    run_id: RunId,
    text: &str,
    order: Option<bool>,
    kill: KillStep,
)
    requires
        call_ensures(timeout_step, (cancelled, deadline_passed), timeout),
        request matches Some(t) ==> t@ == text@,
        call_ensures(crate::sidecar::kill_request::kill_requested, (text, run_id), order),
        call_ensures(kill_step, (cancelled, request, run_id), kill),
    ensures
        timeout is Stop <==> cancelled,
        timeout is Kill <==> !cancelled && deadline_passed,
        kill is Stop <==> cancelled,
        kill is Kill <==> !cancelled && request is Some && order is Some,
        kill matches KillStep::Kill { force, mark } ==> order == Some(force) && mark == !force,
{
}

} // verus!
