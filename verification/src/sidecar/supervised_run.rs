//! The lifecycle guard: from the moment the child is spawned until a terminal
//! state is recorded, a run is owned.
//!
//! The invariant: after spawn, either the sidecar is alive and owns the child,
//! or meta is terminal and the child is dead, or the sidecar died by a true
//! crash (SIGKILL, OOM, abort) and reconciliation closes the gap. The guard
//! makes the second case the only way out of the first:
//!
//! - [`RunCore::publish_running`] is the only way to `Running`, so the resources
//!   `Running` promises (stdin transport; for a PTY session, its recorder, input
//!   writer and attach listener) are in place before it is published.
//! - [`RunCore::finish`] is the only normal exit.
//! - Any other exit (an error, an early return, a panic unwind) kills the child
//!   and records `Exited { reason: SidecarFailed { step } }` through
//!   [`RunCore::end_failed`].

use crate::io_error::ErrorKind;
use crate::model::ids::{EpochTimestamp, ProcessIdentity};
use crate::model::meta::{texts, Meta, MetaModel};
use crate::model::pty::PtyMeta;
use crate::model::pty::PtyControl;
use crate::model::state::{ErrorCode, ExitReason, RunStatus, SidecarStep};
use crate::model::transition::{outcome, Transition};
use crate::text::{decimal, push_decimal};
use vstd::prelude::*;

verus! {

/// What the guard knows of its run.
#[derive(Clone, Copy, Debug, PartialEq, Eq, Structural)]
pub struct RunCore {
    pub identity: ProcessIdentity,
    pub is_pty: bool,
    /// The run was started with `--stdin`.
    pub stdin_pipe: bool,
    /// What the sidecar is doing now; recorded if the guard is dropped.
    pub step: SidecarStep,
    /// Set once the run has an outcome; dropping the guard is then a no-op.
    pub ended: bool,
}

/// What to do next on the way to `Running`.
#[derive(Clone, Debug, PartialEq, Eq)]
pub enum PublishAction {
    /// Start the PTY session's recorder, input writer and attach listener.
    StartPtyInput,
    /// Create the stdin transport.
    OpenStdin,
    /// Append the event and persist the record.
    PublishRunning,
    /// Deliver readiness to the client, if it is still owed.
    SignalReadiness,
    /// Start the timeout and kill watchers; rewrite the record first where it has
    /// a new warning.
    Watch { rewrite: bool },
    /// End the run: stop the child and record the failure.
    Fail { step: SidecarStep, error: String },
}

/// What to do next, in the abstract.
pub enum ActionModel {
    StartPtyInput,
    OpenStdin,
    PublishRunning,
    SignalReadiness,
    Watch { rewrite: bool },
    Fail { step: SidecarStep, error: Seq<char> },
}

impl View for PublishAction {
    type V = ActionModel;

    open spec fn view(&self) -> ActionModel {
        match *self {
            PublishAction::StartPtyInput => ActionModel::StartPtyInput,
            PublishAction::OpenStdin => ActionModel::OpenStdin,
            PublishAction::PublishRunning => ActionModel::PublishRunning,
            PublishAction::SignalReadiness => ActionModel::SignalReadiness,
            PublishAction::Watch { rewrite } => ActionModel::Watch { rewrite },
            PublishAction::Fail { step, error } => ActionModel::Fail { step, error: error@ },
        }
    }
}

/// How a step went: `None`, or its error.
pub open spec fn fault_of(done: Result<(), String>) -> Option<Seq<char>> {
    match done {
        Ok(_) => None,
        Err(error) => Some(error@),
    }
}

pub open spec fn warned(meta: MetaModel, warning: Seq<char>) -> MetaModel {
    MetaModel { warnings: meta.warnings.push(warning), ..meta }
}

pub open spec fn warned_all(meta: MetaModel, warnings: Seq<Seq<char>>) -> MetaModel {
    MetaModel { warnings: meta.warnings + warnings, ..meta }
}

impl RunCore {
    /// A run is only ever on steps that it has.
    pub open spec fn wf(self) -> bool {
        &&& self.step == SidecarStep::StdinTransport ==> self.stdin_pipe
        &&& self.step == SidecarStep::AttachBind ==> self.is_pty
    }

    pub open spec fn at(self, step: SidecarStep) -> RunCore {
        RunCore { step, ..self }
    }

    /// Towards `Running`, with everything it promises in place. An unobservable
    /// `Running` would be a lie, so a refused transition ends the run.
    pub open spec fn go_running(self, meta: MetaModel) -> (RunCore, MetaModel, ActionModel) {
        let core = self.at(SidecarStep::RunningMeta);
        match outcome(
            meta.status,
            meta.provenance,
            Transition::Running { child: self.identity },
        ) {
            Err(refusal) => (
                core,
                meta,
                ActionModel::Fail { step: SidecarStep::RunningMeta, error: refusal.text() },
            ),
            Ok((status, provenance)) => (
                core,
                MetaModel {
                    status,
                    provenance: Some(provenance),
                    pty: if self.is_pty {
                        Some(
                            PtyMeta {
                                enabled: true,
                                control: PtyControl::AgentControl,
                                recording: None,
                            },
                        )
                    } else {
                        meta.pty
                    },
                    ..meta
                },
                ActionModel::PublishRunning,
            ),
        }
    }

    /// Behind the PTY input: a `--stdin` run whose input can never arrive is a
    /// failed run.
    pub open spec fn go_stdin(self, meta: MetaModel) -> (RunCore, MetaModel, ActionModel) {
        if self.stdin_pipe {
            (self.at(SidecarStep::StdinTransport), meta, ActionModel::OpenStdin)
        } else {
            self.go_running(meta)
        }
    }

    /// The step that was under way ended with `fault`. The breadcrumb only matters
    /// to crash recovery and readiness is a courtesy to the client, so those two
    /// recover; every other fault ends the run at its step.
    pub open spec fn published(self, meta: MetaModel, fault: Option<Seq<char>>) -> (
        RunCore,
        MetaModel,
        ActionModel,
    ) {
        match self.step {
            SidecarStep::Breadcrumb => {
                let meta = match fault {
                    Some(error) => warned(meta, "orphan breadcrumb not written: "@ + error),
                    None => meta,
                };
                if self.is_pty {
                    (self.at(SidecarStep::AttachBind), meta, ActionModel::StartPtyInput)
                } else {
                    self.go_stdin(meta)
                }
            },
            SidecarStep::AttachBind => match fault {
                Some(error) => (self, meta, ActionModel::Fail { step: self.step, error }),
                None => self.go_stdin(meta),
            },
            SidecarStep::StdinTransport => match fault {
                Some(error) => (self, meta, ActionModel::Fail { step: self.step, error }),
                None => self.go_running(meta),
            },
            SidecarStep::RunningMeta => match fault {
                Some(error) => (self, meta, ActionModel::Fail { step: self.step, error }),
                None => (self.at(SidecarStep::Readiness), meta, ActionModel::SignalReadiness),
            },
            _ => match fault {
                Some(error) => (
                    self,
                    warned(meta, readiness_warning(error)),
                    ActionModel::Watch { rewrite: true },
                ),
                None => (self, meta, ActionModel::Watch { rewrite: false }),
            },
        }
    }

    /// A freshly spawned child, whose breadcrumb is written first.
    pub fn adopt(identity: ProcessIdentity, is_pty: bool, stdin_pipe: bool) -> (core: RunCore)
        ensures
            core == (RunCore {
                identity,
                is_pty,
                stdin_pipe,
                step: SidecarStep::Breadcrumb,
                ended: false,
            }),
            core.wf(),
    {
        RunCore { identity, is_pty, stdin_pipe, step: SidecarStep::Breadcrumb, ended: false }
    }

    /// One step on the way to `Running`: the breadcrumb, what `Running` promises, its
    /// publication, readiness. `done` tells how the step that was under way went.
    /// The only way to `Running`.
    pub fn publish_running(&mut self, meta: &mut Meta, done: Result<(), String>) -> (action:
        PublishAction)
        requires
            !(old(self).step is OutputLog),
            !(old(self).step is ChildWait),
        ensures
            old(self).wf() ==> final(self).wf(),
            (*final(self), final(meta)@, action@) == old(self).published(
                old(meta)@,
                fault_of(done),
            ),
    {
        match self.step {
            SidecarStep::Breadcrumb => {
                if let Err(error) = done {
                    let mut warning = "orphan breadcrumb not written: ".to_owned();
                    warning.append(error.as_str());
                    meta.add_warning(warning);
                }
                if self.is_pty {
                    self.step = SidecarStep::AttachBind;
                    PublishAction::StartPtyInput
                } else {
                    self.open_stdin(meta)
                }
            },
            SidecarStep::AttachBind => match done {
                Err(error) => PublishAction::Fail { step: SidecarStep::AttachBind, error },
                Ok(()) => self.open_stdin(meta),
            },
            SidecarStep::StdinTransport => match done {
                Err(error) => PublishAction::Fail { step: SidecarStep::StdinTransport, error },
                Ok(()) => self.transition_running(meta),
            },
            SidecarStep::RunningMeta => match done {
                Err(error) => PublishAction::Fail { step: SidecarStep::RunningMeta, error },
                Ok(()) => {
                    self.step = SidecarStep::Readiness;
                    PublishAction::SignalReadiness
                },
            },
            _ => {
                let delivery = match done {
                    Ok(()) => ReadyDelivery::Delivered,
                    Err(error) => ReadyDelivery::ClientGone(error),
                };
                PublishAction::Watch { rewrite: delivery.record(meta) }
            },
        }
    }

    fn open_stdin(&mut self, meta: &mut Meta) -> (action: PublishAction)
        ensures
            (*final(self), final(meta)@, action@) == old(self).go_stdin(old(meta)@),
    {
        if self.stdin_pipe {
            self.step = SidecarStep::StdinTransport;
            PublishAction::OpenStdin
        } else {
            self.transition_running(meta)
        }
    }

    fn transition_running(&mut self, meta: &mut Meta) -> (action: PublishAction)
        ensures
            (*final(self), final(meta)@, action@) == old(self).go_running(old(meta)@),
    {
        self.step = SidecarStep::RunningMeta;
        match meta.transition_running(self.identity) {
            Err(error) => PublishAction::Fail {
                step: SidecarStep::RunningMeta,
                error: error.message(),
            },
            Ok(()) => {
                if self.is_pty {
                    meta.set_pty(PtyMeta::new());
                }
                PublishAction::PublishRunning
            },
        }
    }

    /// The output log was opened, or could not be: without it the run still has an
    /// exit worth recording, but the child's output must still be read, or it
    /// blocks on a full pipe. Returns whether output is captured or only drained.
    pub fn on_log_opened(&mut self, meta: &mut Meta, opened: Result<(), String>) -> (captured: bool)
        ensures
            *final(self) == old(self).at(SidecarStep::OutputLog),
            match fault_of(opened) {
                None => captured && final(meta)@ == old(meta)@,
                Some(error) => !captured && final(meta)@ == warned(
                    old(meta)@,
                    "output not captured: cannot open output.log ("@ + error
                        + "); output was drained"@,
                ),
            },
    {
        self.step = SidecarStep::OutputLog;
        match opened {
            Ok(()) => true,
            Err(error) => {
                let mut warning = "output not captured: cannot open output.log (".to_owned();
                warning.append(error.as_str());
                warning.append("); output was drained");
                meta.add_warning(warning);
                false
            },
        }
    }

    /// The child's exit was observed, with this code if it has one, or could not
    /// be: an exit that cannot be observed cannot be classified.
    pub fn on_exit(&mut self, observed: Result<Option<i32>, String>) -> (how: Result<
        ExitReason,
        String,
    >)
        ensures
            *final(self) == old(self).at(SidecarStep::ChildWait),
            match observed {
                Ok(code) => how matches Ok(h) && exit_is(h, code),
                Err(error) => how matches Err(message) && message@
                    == "cannot observe the child's exit: "@ + error@,
            },
    {
        self.step = SidecarStep::ChildWait;
        match observed {
            Ok(code) => Ok(exit_of(code)),
            Err(error) => {
                let mut message = "cannot observe the child's exit: ".to_owned();
                message.append(error.as_str());
                Err(message)
            },
        }
    }

    /// The only normal exit: the terminal state is recorded, with the warnings that
    /// were collected while the run lasted.
    pub fn finish(
        &mut self,
        meta: &mut Meta,
        how: ExitReason,
        warnings: &Vec<String>,
        now: EpochTimestamp,
    )
        ensures
            *final(self) == (RunCore { ended: true, ..*old(self) }),
            final(meta)@ == finished(old(meta)@, how, texts(warnings@), now),
    {
        self.ended = true;
        add_warnings(meta, warnings);
        if let Err(error) = meta.transition_exited(how, now) {
            let mut warning = "terminal transition refused: ".to_owned();
            warning.append(error.message().as_str());
            meta.add_warning(warning);
        }
    }

    /// The failure path, once the child was stopped: `SidecarFailed { step }` is
    /// recorded with the reason, what stopping the child left to say, and the
    /// warnings that were collected. A run that already has an outcome is left
    /// alone. Returns whether this was the outcome.
    pub fn end_failed(
        &mut self,
        meta: &mut Meta,
        step: SidecarStep,
        error: &str,
        notes: &Vec<String>,
        warnings: &Vec<String>,
        now: EpochTimestamp,
    ) -> (failed: bool)
        ensures
            failed == !old(self).ended,
            !failed ==> *final(self) == *old(self) && final(meta)@ == old(meta)@,
            failed ==> *final(self) == (RunCore { ended: true, step, ..*old(self) }) && final(
                meta)@ == failed_record(
                old(meta)@,
                old(self).identity,
                step,
                error@,
                texts(notes@),
                texts(warnings@),
                now,
            ),
    {
        if self.ended {
            return false;
        }
        self.ended = true;
        self.step = step;
        let mut warning = "sidecar failed at ".to_owned();
        warning.append(step.as_str());
        warning.append(": ");
        warning.append(error);
        meta.add_warning(warning);
        add_warnings(meta, notes);
        add_warnings(meta, warnings);
        if let Err(error) = meta.transition_sidecar_failed(self.identity, step, now) {
            let mut refused = "SidecarFailed transition refused: ".to_owned();
            refused.append(error.message().as_str());
            meta.add_warning(refused);
        }
        true
    }
}

/// The warning for a client that was gone when readiness was due.
pub open spec fn readiness_warning(error: Seq<char>) -> Seq<char> {
    "readiness not delivered: start client gone ("@ + error + ")"@
}

/// Outcome of offering the record's snapshot to the `start` client. Readiness is a
/// courtesy to the client that asked, never a condition of the run.
#[derive(Clone, Debug, PartialEq, Eq)]
pub enum ReadyDelivery {
    Delivered,
    /// The client has gone (killed mid-handshake, its pane closed).
    ClientGone(String),
    /// Readiness went out earlier, after the first dependency scan.
    AlreadySent,
}

impl ReadyDelivery {
    /// Records a lost delivery. Returns whether the record changed.
    pub fn record(self, meta: &mut Meta) -> (changed: bool)
        ensures
            match self {
                ReadyDelivery::ClientGone(error) => changed && final(meta)@ == warned(
                    old(meta)@,
                    readiness_warning(error@),
                ),
                _ => !changed && final(meta)@ == old(meta)@,
            },
    {
        match self {
            ReadyDelivery::Delivered => false,
            ReadyDelivery::AlreadySent => false,
            ReadyDelivery::ClientGone(error) => {
                let mut warning = "readiness not delivered: start client gone (".to_owned();
                warning.append(error.as_str());
                warning.append(")");
                meta.add_warning(warning);
                true
            },
        }
    }
}

fn add_warnings(meta: &mut Meta, warnings: &Vec<String>)
    ensures
        final(meta)@ == warned_all(old(meta)@, texts(warnings@)),
{
    let ghost before = meta@;
    let ghost all = texts(warnings@);
    let mut i: usize = 0;
    assert(before.warnings + all.take(0) =~= before.warnings);
    while i < warnings.len()
        invariant
            i <= warnings@.len(),
            all == texts(warnings@),
            meta@ == warned_all(before, all.take(i as int)),
        decreases warnings@.len() - i,
    {
        meta.add_warning(warnings[i].clone());
        proof {
            assert(all.take(i + 1) =~= all.take(i as int).push(all[i as int]));
            assert(before.warnings + all.take(i + 1) =~= (before.warnings + all.take(
                i as int,
            )).push(all[i as int]));
        }
        i = i + 1;
    }
    assert(all.take(i as int) =~= all);
}

/// A record that a run ended normally on: with the collected warnings, and ended
/// where that transition is legal.
pub open spec fn finished(
    before: MetaModel,
    how: ExitReason,
    warnings: Seq<Seq<char>>,
    now: EpochTimestamp,
) -> MetaModel {
    let meta = warned_all(before, warnings);
    match outcome(meta.status, meta.provenance, Transition::Exited { how, ended_at: now }) {
        Ok((status, provenance)) => MetaModel { status, provenance: Some(provenance), ..meta },
        Err(refusal) => warned(meta, "terminal transition refused: "@ + refusal.text()),
    }
}

/// A record that a run failed on: with everything that is known of the failure, and
/// ended where that transition is legal.
pub open spec fn failed_record(
    before: MetaModel,
    child: ProcessIdentity,
    step: SidecarStep,
    error: Seq<char>,
    notes: Seq<Seq<char>>,
    warnings: Seq<Seq<char>>,
    now: EpochTimestamp,
) -> MetaModel {
    let meta = warned_all(
        warned_all(warned(before, "sidecar failed at "@ + step.text() + ": "@ + error), notes),
        warnings,
    );
    match outcome(
        meta.status,
        meta.provenance,
        Transition::SidecarFailed { child, step, ended_at: now },
    ) {
        Ok((status, provenance)) => MetaModel { status, provenance: Some(provenance), ..meta },
        Err(refusal) => warned(meta, "SidecarFailed transition refused: "@ + refusal.text()),
    }
}

/// `how` is an exit with this code; one without a code was killed.
pub open spec fn exit_is(how: ExitReason, code: Option<i32>) -> bool {
    match code {
        None => how == ExitReason::Killed,
        Some(c) => if c == 0 {
            how == ExitReason::ExitedOk
        } else {
            how matches ExitReason::ExitedError { code: e } && e@ == c
        },
    }
}

/// The exit with this code.
pub fn exit_of(code: Option<i32>) -> (how: ExitReason)
    ensures
        exit_is(how, code),
{
    match code {
        None => ExitReason::Killed,
        Some(code) => match ErrorCode::new(code) {
            Some(code) => ExitReason::ExitedError { code },
            None => ExitReason::ExitedOk,
        },
    }
}

/// Final exit reason. Priority: the timeout, then a forced kill, then a kill that
/// the sidecar acted on, then the raw exit.
pub open spec fn classified(
    timed_out: bool,
    kill_forced: bool,
    kill_acted: bool,
    how: ExitReason,
) -> ExitReason {
    if timed_out {
        ExitReason::TimedOut
    } else if kill_forced {
        ExitReason::KilledForced
    } else if kill_acted {
        ExitReason::Killed
    } else {
        how
    }
}

/// Final exit reason of a run.
pub fn classify(timed_out: bool, kill_forced: bool, kill_acted: bool, how: ExitReason) -> (reason:
    ExitReason)
    ensures
        reason == classified(timed_out, kill_forced, kill_acted, how),
{
    if timed_out {
        ExitReason::TimedOut
    } else if kill_forced {
        ExitReason::KilledForced
    } else if kill_acted {
        // A sidecar-mediated graceful kill. The child may report an error exit,
        // but the user requested a kill.
        ExitReason::Killed
    } else {
        how
    }
}

// Stopping the child.

/// What stopping the child achieved.
#[derive(Clone, Debug, PartialEq, Eq)]
pub struct Stopped {
    /// The child has exited (reaped, or verifiably gone).
    pub gone: bool,
    /// Warnings for the record: kill errors, or a child that would not die.
    pub notes: Vec<String>,
}

impl Stopped {
    pub open spec fn summary_text(self) -> Seq<char> {
        if self.gone {
            "the child was stopped"@
        } else {
            "the child may still be running"@
        }
    }

    pub fn summary(&self) -> (summary: &'static str)
        ensures
            summary@ == self.summary_text(),
    {
        if self.gone {
            "the child was stopped"
        } else {
            "the child may still be running"
        }
    }
}

/// How the graceful kill, which runs on its own thread, ended.
#[derive(Clone, Debug, PartialEq, Eq)]
pub enum GracefulKill {
    /// No thread could be created, for this reason; the child was force-killed
    /// inline instead, with this error if that failed.
    NoThread { error: String, kill_error: Option<String> },
    Done,
    Failed(String),
    Panicked,
}

/// What stopping the child met with.
#[derive(Clone, Debug, PartialEq, Eq)]
pub struct StopFacts {
    pub graceful: GracefulKill,
    /// The error of the forced kill behind the grace period, where there was one.
    pub forced_error: Option<String>,
    pub gone: bool,
}

/// The warnings that stopping a child leaves, in order.
pub open spec fn stop_notes(
    graceful: GracefulKill,
    forced_error: Option<String>,
    gone: bool,
    pid: u32,
) -> Seq<Seq<char>> {
    (match graceful {
        GracefulKill::NoThread { error, kill_error } => seq![
            "no thread for a graceful stop ("@ + error@ + "); force-killing"@,
        ] + (match kill_error {
            Some(e) => seq!["force-killing the child failed: "@ + e@],
            None => Seq::empty(),
        }),
        _ => Seq::empty(),
    }) + (match forced_error {
        Some(e) => seq!["force-killing the child failed: "@ + e@],
        None => Seq::empty(),
    }) + (match graceful {
        GracefulKill::Failed(e) => seq!["stopping the child failed: "@ + e@],
        GracefulKill::Panicked => seq!["stopping the child panicked"@],
        _ => Seq::empty(),
    }) + (if gone {
        Seq::empty()
    } else {
        seq![
            "child pid "@ + decimal(pid as nat)
                + " may still be running: it outlived a forced kill"@,
        ]
    })
}

fn push_note(notes: &mut Vec<String>, head: &str, detail: &str, tail: &str)
    ensures
        texts(final(notes)@) == texts(old(notes)@).push(head@ + detail@ + tail@),
{
    let ghost before = notes@;
    let mut note = head.to_owned();
    note.append(detail);
    note.append(tail);
    notes.push(note);
    assert(texts(notes@) =~= texts(before).push(head@ + detail@ + tail@));
}

/// What stopping the child achieved: graceful first, forced behind the grace period.
pub fn stopped_of(facts: &StopFacts, identity: &ProcessIdentity) -> (stopped: Stopped)
    ensures
        stopped.gone == facts.gone,
        texts(stopped.notes@) == stop_notes(
            facts.graceful,
            facts.forced_error,
            facts.gone,
            identity.pid,
        ),
{
    let mut notes: Vec<String> = Vec::new();
    proof {
        reveal_strlit("");
        assert(""@ =~= Seq::<char>::empty());
        assert(texts(notes@) =~= Seq::empty());
    }
    if let GracefulKill::NoThread { error, kill_error } = &facts.graceful {
        push_note(
            &mut notes,
            "no thread for a graceful stop (",
            error.as_str(),
            "); force-killing",
        );
        if let Some(e) = kill_error {
            push_note(&mut notes, "force-killing the child failed: ", e.as_str(), "");
            assert("force-killing the child failed: "@ + e@ + ""@
                =~= "force-killing the child failed: "@ + e@);
        }
    }
    if let Some(e) = &facts.forced_error {
        push_note(&mut notes, "force-killing the child failed: ", e.as_str(), "");
        assert("force-killing the child failed: "@ + e@ + ""@
            =~= "force-killing the child failed: "@ + e@);
    }
    match &facts.graceful {
        GracefulKill::Failed(e) => {
            push_note(&mut notes, "stopping the child failed: ", e.as_str(), "");
            assert("stopping the child failed: "@ + e@ + ""@ =~= "stopping the child failed: "@
                + e@);
        },
        GracefulKill::Panicked => {
            push_note(&mut notes, "stopping the child panicked", "", "");
            assert("stopping the child panicked"@ + ""@ + ""@ =~= "stopping the child panicked"@);
        },
        _ => {},
    }
    if !facts.gone {
        let mut pid = String::new();
        push_decimal(&mut pid, identity.pid as u64);
        assert(pid@ =~= decimal(identity.pid as nat));
        push_note(
            &mut notes,
            "child pid ",
            pid.as_str(),
            " may still be running: it outlived a forced kill",
        );
    }
    assert(texts(notes@) =~= stop_notes(
        facts.graceful,
        facts.forced_error,
        facts.gone,
        identity.pid,
    ));
    Stopped { gone: facts.gone, notes }
}

/// What a look at a process by its identity found.
#[derive(Clone, Copy, Debug, PartialEq, Eq, Structural)]
pub enum ProcessStatus {
    AliveVerified,
    /// A process with that number exists but its identity cannot be read.
    Inaccessible,
    OsError(ErrorKind),
    Missing,
    /// The number now belongs to another process.
    IdentityMismatch,
}

/// Whether the child is gone: it was reaped, or it could not be waited for and is
/// verifiably not there.
pub fn is_gone(reaped: Result<bool, ErrorKind>, probed: ProcessStatus) -> (gone: bool)
    ensures
        gone == (match reaped {
            Ok(exited) => exited,
            Err(_) => probed is Missing || probed is IdentityMismatch,
        }),
{
    match reaped {
        Ok(exited) => exited,
        Err(_) => match probed {
            ProcessStatus::Missing => true,
            ProcessStatus::IdentityMismatch => true,
            _ => false,
        },
    }
}

/// What a failure that could not be recorded says on every channel still open.
pub open spec fn unrecorded_text(
    step: SidecarStep,
    error: Seq<char>,
    stopped: Stopped,
    record_error: Seq<char>,
) -> Seq<char> {
    "sidecar failed at "@ + step.text() + ": "@ + error + "; "@ + stopped.summary_text()
        + "; recording the failure also failed: "@ + record_error
}

/// What a failure that could not be recorded says.
pub fn unrecorded_message(step: SidecarStep, error: &str, stopped: &Stopped, record_error: &str) -> (
message: String)
    ensures
        message@ == unrecorded_text(step, error@, *stopped, record_error@),
{
    let mut message = "sidecar failed at ".to_owned();
    message.append(step.as_str());
    message.append(": ");
    message.append(error);
    message.append("; ");
    message.append(stopped.summary());
    message.append("; recording the failure also failed: ");
    message.append(record_error);
    assert(message@ =~= unrecorded_text(step, error@, *stopped, record_error@));
    message
}

/// Why a guard was abandoned: a panic that unwound through it, with its message, or
/// an early way out.
pub fn abandoned_error(panic: Option<&str>) -> (error: String)
    ensures
        error@ == (match panic {
            Some(message) => "panicked: "@ + message@,
            None => "supervision ended without an outcome"@,
        }),
{
    match panic {
        Some(message) => {
            let mut error = "panicked: ".to_owned();
            error.append(message);
            error
        },
        None => "supervision ended without an outcome".to_owned(),
    }
}

// What holds of the guard.

/// `Running` is published only with what it promises in place: the PTY input of a
/// PTY session was started, and the stdin transport of a `--stdin` run created.
pub proof fn law_running_promises_hold(core: RunCore, meta: MetaModel, fault: Option<Seq<char>>)
    requires
        core.wf(),
        core.published(meta, fault).2 is PublishRunning,
    ensures
        core.stdin_pipe ==> core.step == SidecarStep::StdinTransport && fault is None,
        core.is_pty && !core.stdin_pipe ==> core.step == SidecarStep::AttachBind && fault is None,
        core.published(meta, fault).1.status == (RunStatus::Running { child: core.identity }),
{
}

/// A run that fails on the way to `Running` is never published as running by that
/// step, and its record is not terminal yet: the failure is recorded next.
pub proof fn law_failed_publication_is_not_running(
    core: RunCore,
    meta: MetaModel,
    fault: Option<Seq<char>>,
)
    requires
        core.published(meta, fault).2 is Fail,
    ensures
        core.published(meta, fault).1.status == meta.status,
{
}

/// Every way out leaves a terminal record: a run that ends normally from `Running`,
/// and a run that fails whatever it was.
pub proof fn law_every_exit_is_terminal(
    meta: MetaModel,
    how: ExitReason,
    child: ProcessIdentity,
    step: SidecarStep,
    error: Seq<char>,
    notes: Seq<Seq<char>>,
    warnings: Seq<Seq<char>>,
    now: EpochTimestamp,
)
    ensures
        meta.status is Running && !(how is SidecarFailed) ==> finished(
            meta,
            how,
            warnings,
            now,
        ).status.terminal(),
        failed_record(meta, child, step, error, notes, warnings, now).status.terminal(),
        !meta.status.terminal() ==> failed_record(
            meta,
            child,
            step,
            error,
            notes,
            warnings,
            now,
        ).status.child_of() is Some,
{
}

/// An exit that was classified is never taken for a failure of the sidecar.
pub proof fn law_classification_is_an_observed_exit(
    timed_out: bool,
    kill_forced: bool,
    kill_acted: bool,
    how: ExitReason,
    code: Option<i32>,
)
    requires
        exit_is(how, code),
    ensures
        !(classified(timed_out, kill_forced, kill_acted, how) is SidecarFailed),
{
}

// What each step of supervision is for, by what it is told and what it leaves.

/// A run whose timeout fired is classified as timed out, whatever else is true of it.
/// Without a timeout a forced kill alone makes it force-killed; without either, a kill that
/// the sidecar acted on alone makes it killed; and only with none of the three does the
/// exit that was observed count.
pub proof fn law_classification_priority(
    timed_out: bool,
    kill_forced: bool,
    kill_acted: bool,
    how: ExitReason,
    reason: ExitReason,
)
    requires
        call_ensures(classify, (timed_out, kill_forced, kill_acted, how), reason),
    ensures
        timed_out ==> reason == ExitReason::TimedOut,
        !timed_out && kill_forced ==> reason == ExitReason::KilledForced,
        !timed_out && !kill_forced && kill_acted ==> reason == ExitReason::Killed,
        !timed_out && !kill_forced && !kill_acted ==> reason == how,
{
}

/// An exit is a success only with code zero, an error carries its very code, and a child
/// without a code was killed. An exit that could not be observed is not classified at all.
pub proof fn law_exit_codes_are_kept(
    code: Option<i32>,
    how: ExitReason,
    core: &mut RunCore,
    observed: Result<Option<i32>, String>,
    seen: Result<ExitReason, String>,
)
    requires
        call_ensures(exit_of, (code,), how),
        call_ensures(RunCore::on_exit, (core, observed), seen),
    ensures
        how == ExitReason::ExitedOk <==> code == Some(0i32),
        how == ExitReason::Killed <==> code is None,
        code matches Some(c) ==> c != 0 ==> (how matches ExitReason::ExitedError { code: e } && e@
            == c),
        seen is Ok <==> observed is Ok,
        observed == Ok::<Option<i32>, String>(Some(0i32)) ==> seen == Ok::<ExitReason, String>(
            ExitReason::ExitedOk,
        ),
        observed == Ok::<Option<i32>, String>(None) ==> seen == Ok::<ExitReason, String>(
            ExitReason::Killed,
        ),
        observed matches Ok(Some(c)) ==> c != 0 ==> (seen matches Ok(
            ExitReason::ExitedError { code: e },
        ) && e@ == c),
        final(core).step == SidecarStep::ChildWait,
        final(core).ended == old(core).ended && final(core).identity == old(core).identity,
{
}

/// A normal end records the exit of a running run as it is, with every warning that was
/// collected, in order and behind those that were there.
pub proof fn law_finished_run_records_its_exit(
    core: &mut RunCore,
    meta: &mut Meta,
    how: ExitReason,
    warnings: &Vec<String>,
    now: EpochTimestamp,
)
    requires
        call_ensures(RunCore::finish, (core, meta, how, warnings, now), ()),
    ensures
        final(core).ended,
        final(core).identity == old(core).identity && final(core).step == old(core).step,
        old(meta)@.status is Running && !(how is SidecarFailed) ==> {
            &&& final(meta)@.status matches RunStatus::Exited { child, how: recorded, ended_at }
                && recorded == how && ended_at == now && old(meta)@.status == (
            RunStatus::Running { child })
            &&& final(meta)@.warnings =~= old(meta)@.warnings + texts(warnings@)
        },
        !(old(meta)@.status is Running && !(how is SidecarFailed)) ==> {
            &&& final(meta)@.status == old(meta)@.status
            &&& final(meta)@.provenance == old(meta)@.provenance
            &&& final(meta)@.warnings.len() == old(meta)@.warnings.len() + warnings@.len() + 1
            &&& (old(meta)@.warnings + texts(warnings@)).is_prefix_of(final(meta)@.warnings)
        },
        final(meta)@.run_id == old(meta)@.run_id && final(meta)@.session == old(meta)@.session
            && final(meta)@.pty == old(meta)@.pty,
{
    let all = old(meta)@.warnings + texts(warnings@);
    assert(all =~= all.push(final(meta)@.warnings.last()).drop_last());
}

/// A failure is recorded once: with the step and the time, the child of the run, and what is
/// known of it: the step and the error, then what stopping the child left to say, then the
/// collected warnings. A run that has its outcome is left alone.
pub proof fn law_failed_run_records_its_step(
    core: &mut RunCore,
    meta: &mut Meta,
    step: SidecarStep,
    error: &str,
    notes: &Vec<String>,
    warnings: &Vec<String>,
    now: EpochTimestamp,
    failed: bool,
)
    requires
        call_ensures(
            RunCore::end_failed,
            (core, meta, step, error, notes, warnings, now),
            failed,
        ),
    ensures
        failed <==> !old(core).ended,
        final(core).ended,
        !failed ==> final(meta)@ == old(meta)@ && *final(core) == *old(core),
        failed && !old(meta)@.status.terminal() ==> {
            &&& final(meta)@.status matches RunStatus::Exited { child, how, ended_at } && how == (
            ExitReason::SidecarFailed { step }) && ended_at == now && (old(
                meta)@.status is Running ==> old(meta)@.status == (RunStatus::Running { child }))
                && (old(meta)@.status is Starting ==> child == old(core).identity)
            &&& final(meta)@.warnings.len() == old(meta)@.warnings.len() + 1 + notes@.len()
                + warnings@.len()
            &&& final(meta)@.warnings[old(meta)@.warnings.len() as int]
                =~= "sidecar failed at "@ + step.text() + ": "@ + error@
            &&& forall|i: int|
                0 <= i < old(meta)@.warnings.len() ==> final(meta)@.warnings[i] == #[trigger] old(
                    meta)@.warnings[i]
            &&& forall|i: int|
                0 <= i < notes@.len() ==> final(meta)@.warnings[old(meta)@.warnings.len() + 1 + i]
                    == (#[trigger] notes@[i])@
            &&& forall|i: int|
                0 <= i < warnings@.len() ==> final(meta)@.warnings[old(meta)@.warnings.len() + 1
                    + notes@.len() + i] == (#[trigger] warnings@[i])@
        },
        old(meta)@.status.terminal() ==> final(meta)@.status == old(meta)@.status,
{
}

/// On the way to `Running` a run goes through its steps in order and skips what it does not
/// have: the breadcrumb, the PTY input, the stdin transport, the record, readiness. A fault
/// of the breadcrumb or of readiness leaves a warning and the run goes on; any other ends it
/// at its step with that error. Only the record of the run says `Running`, and of the child
/// that was adopted.
pub proof fn law_publication_goes_step_by_step(
    core: &mut RunCore,
    meta: &mut Meta,
    done: Result<(), String>,
    action: PublishAction,
)
    requires
        call_ensures(RunCore::publish_running, (core, meta, done), action),
        old(meta)@.status is Starting || old(core).step == SidecarStep::RunningMeta || old(
            core).step == SidecarStep::Readiness,
        !(old(core).step is OutputLog) && !(old(core).step is ChildWait),
    ensures
        final(core).identity == old(core).identity && final(core).is_pty == old(core).is_pty
            && final(core).stdin_pipe == old(core).stdin_pipe && final(core).ended == old(
            core).ended,
        match old(core).step {
            SidecarStep::Breadcrumb => if old(core).is_pty {
                action is StartPtyInput && final(core).step == SidecarStep::AttachBind
            } else if old(core).stdin_pipe {
                action is OpenStdin && final(core).step == SidecarStep::StdinTransport
            } else {
                action is PublishRunning && final(core).step == SidecarStep::RunningMeta
            },
            SidecarStep::AttachBind => done is Ok ==> if old(core).stdin_pipe {
                action is OpenStdin && final(core).step == SidecarStep::StdinTransport
            } else {
                action is PublishRunning && final(core).step == SidecarStep::RunningMeta
            },
            SidecarStep::StdinTransport => done is Ok ==> action is PublishRunning && final(
                core).step == SidecarStep::RunningMeta,
            SidecarStep::RunningMeta => done is Ok ==> action is SignalReadiness && final(
                core).step == SidecarStep::Readiness,
            _ => action == (PublishAction::Watch { rewrite: done is Err }),
        },
        old(core).step == SidecarStep::AttachBind || old(core).step == SidecarStep::StdinTransport
            || old(core).step == SidecarStep::RunningMeta ==> (done matches Err(error) ==> (
        action matches PublishAction::Fail { step, error: e } && step == old(core).step && e@
            == error@ && final(meta)@ == old(meta)@)),
        old(core).step == SidecarStep::Breadcrumb || old(core).step == SidecarStep::Readiness
            ==> final(meta)@.warnings.len() == old(meta)@.warnings.len() + if done is Err {
            1int
        } else {
            0int
        },
        action is PublishRunning ==> {
            &&& final(meta)@.status == (RunStatus::Running { child: old(core).identity })
            &&& old(core).is_pty ==> (final(meta)@.pty matches Some(p) && p.enabled && p.control
                == PtyControl::AgentControl && p.recording is None)
            &&& !old(core).is_pty ==> final(meta)@.pty == old(meta)@.pty
        },
        !(action is PublishRunning) ==> final(meta)@.status == old(meta)@.status && final(
            meta)@.pty == old(meta)@.pty,
{
}

/// A freshly spawned child is adopted as it is, and its breadcrumb comes first.
pub proof fn law_adopted_child_starts_with_its_breadcrumb(
    identity: ProcessIdentity,
    is_pty: bool,
    stdin_pipe: bool,
    core: RunCore,
)
    requires
        call_ensures(RunCore::adopt, (identity, is_pty, stdin_pipe), core),
    ensures
        core.identity == identity,
        core.is_pty == is_pty,
        core.stdin_pipe == stdin_pipe,
        core.step == SidecarStep::Breadcrumb,
        !core.ended,
{
}

/// Output is captured exactly where its log could be opened; a log that could not be is
/// worth a warning, and nothing more.
pub proof fn law_output_log_is_no_condition(
    core: &mut RunCore,
    meta: &mut Meta,
    opened: Result<(), String>,
    captured: bool,
)
    requires
        call_ensures(RunCore::on_log_opened, (core, meta, opened), captured),
    ensures
        captured <==> opened is Ok,
        final(core).step == SidecarStep::OutputLog,
        final(core).ended == old(core).ended,
        captured ==> final(meta)@ == old(meta)@,
        !captured ==> final(meta)@.warnings.len() == old(meta)@.warnings.len() + 1 && final(
            meta)@.status == old(meta)@.status && final(meta)@.warnings.drop_last()
            =~= old(meta)@.warnings,
{
}

/// Readiness is a courtesy: a client that has gone leaves one warning on the record, and
/// nothing else ever does.
pub proof fn law_readiness_is_a_courtesy(
    delivery: ReadyDelivery,
    meta: &mut Meta,
    changed: bool,
)
    requires
        call_ensures(ReadyDelivery::record, (delivery, meta), changed),
    ensures
        changed <==> delivery is ClientGone,
        !changed ==> final(meta)@ == old(meta)@,
        changed ==> final(meta)@.status == old(meta)@.status && final(meta)@.warnings.len() == old(
            meta)@.warnings.len() + 1 && final(meta)@.warnings.drop_last() =~= old(meta)@.warnings,
{
}

/// A child is gone exactly where it was reaped, or, where it could not be waited for, where
/// its process is verifiably not there. A process that may be it does not count as gone.
pub proof fn law_child_is_gone_only_on_evidence(
    reaped: Result<bool, ErrorKind>,
    probed: ProcessStatus,
    gone: bool,
)
    requires
        call_ensures(is_gone, (reaped, probed), gone),
    ensures
        reaped matches Ok(exited) ==> gone == exited,
        reaped is Err && probed is AliveVerified ==> !gone,
        reaped is Err && probed is Inaccessible ==> !gone,
        reaped is Err && probed is OsError ==> !gone,
        reaped is Err && (probed is Missing || probed is IdentityMismatch) ==> gone,
{
}

/// Stopping a child is told as it went: it is gone where the facts say so, nothing is noted
/// where all went well, and a child that is not gone is always noted last, by its number.
pub proof fn law_stopping_is_told_as_it_went(
    facts: &StopFacts,
    identity: &ProcessIdentity,
    stopped: Stopped,
    summary: &'static str,
)
    requires
        call_ensures(stopped_of, (facts, identity), stopped),
        call_ensures(Stopped::summary, (&stopped,), summary),
    ensures
        stopped.gone == facts.gone,
        facts.gone && facts.graceful is Done && facts.forced_error is None ==> stopped.notes@.len()
            == 0,
        !facts.gone ==> stopped.notes@.len() > 0 && stopped.notes@.last()@ =~= "child pid "@
            + decimal(identity.pid as nat) + " may still be running: it outlived a forced kill"@,
        facts.forced_error is Some || facts.graceful is NoThread || facts.graceful is Failed
            || facts.graceful is Panicked ==> stopped.notes@.len() > 0,
        summary@ == (if facts.gone {
            "the child was stopped"@
        } else {
            "the child may still be running"@
        }),
{
    let notes = texts(stopped.notes@);
    assert(notes.len() == stopped.notes@.len());
    if !facts.gone {
        assert(notes.last() == stopped.notes@.last()@);
    }
}

/// A failure that could not be recorded says at which step the sidecar failed and why, what
/// became of the child, and why it could not be recorded. A guard that was abandoned says
/// that it panicked, and with what, or that it had no outcome.
pub proof fn law_unrecorded_failures_are_told(
    step: SidecarStep,
    name: &'static str,
    error: &str,
    stopped: Stopped,
    summary: &'static str,
    record_error: &str,
    message: String,
    panic: Option<&str>,
    abandoned: String,
)
    requires
        call_ensures(SidecarStep::as_str, (step,), name),
        call_ensures(Stopped::summary, (&stopped,), summary),
        call_ensures(unrecorded_message, (step, error, &stopped, record_error), message),
        call_ensures(abandoned_error, (panic,), abandoned),
    ensures
        message@ == "sidecar failed at "@ + name@ + ": "@ + error@ + "; "@ + summary@
            + "; recording the failure also failed: "@ + record_error@,
        panic is None ==> abandoned@ == "supervision ended without an outcome"@,
        panic matches Some(what) ==> abandoned@ == "panicked: "@ + what@,
{
}

/// There is a note for each thing that went wrong in stopping a child, with its error, in
/// the order in which it was tried: that no thread could be had for a graceful stop, that
/// the kill in its place failed, that the forced kill failed, that the graceful one failed or
/// panicked, and that the child may be there still.
pub proof fn law_stop_notes_say_what_failed(
    facts: &StopFacts,
    identity: &ProcessIdentity,
    stopped: Stopped,
)
    requires
        call_ensures(stopped_of, (facts, identity), stopped),
    ensures
        ({
            let notes = texts(stopped.notes@);
            let threadless = if facts.graceful is NoThread {
                1int
            } else {
                0
            };
            let unkilled = if facts.graceful is NoThread && facts.graceful->kill_error is Some {
                1int
            } else {
                0
            };
            let forced = if facts.forced_error is Some {
                1int
            } else {
                0
            };
            let failed = if facts.graceful is Failed || facts.graceful is Panicked {
                1int
            } else {
                0
            };
            let left = if facts.gone {
                0int
            } else {
                1
            };
            &&& notes.len() == threadless + unkilled + forced + failed + left
            &&& facts.graceful matches GracefulKill::NoThread { error, kill_error } ==> notes[0]
                == "no thread for a graceful stop ("@ + error@ + "); force-killing"@ && (
            kill_error matches Some(e) ==> notes[1] == "force-killing the child failed: "@ + e@)
            &&& facts.forced_error matches Some(e) ==> notes[threadless + unkilled]
                == "force-killing the child failed: "@ + e@
            &&& facts.graceful matches GracefulKill::Failed(e) ==> notes[forced]
                == "stopping the child failed: "@ + e@
            &&& facts.graceful is Panicked ==> notes[forced] == "stopping the child panicked"@
        }),
{
}

} // verus!
