//! How a run's status may change.

use crate::model::dep_fail::DepFailReason;
use crate::model::ids::{EpochTimestamp, ProcessIdentity};
use crate::model::meta::{Meta, MetaModel};
use crate::model::provenance::{Evidence, ProvenanceModel, TransitionProvenance};
use crate::model::state::{ExitReason, RunStatus, SidecarStep};
use vstd::prelude::*;

verus! {

#[derive(Clone, Copy, Debug, PartialEq, Eq)]
pub enum TransitionError {
    /// The run has ended.
    AlreadyTerminal { from: &'static str },
    Illegal { from: &'static str, to: &'static str },
}

/// What a refused transition says.
pub enum RefusalModel {
    AlreadyTerminal { from: Seq<char> },
    Illegal { from: Seq<char>, to: Seq<char> },
}

impl View for TransitionError {
    type V = RefusalModel;

    open spec fn view(&self) -> RefusalModel {
        match *self {
            TransitionError::AlreadyTerminal { from } => RefusalModel::AlreadyTerminal {
                from: from@,
            },
            TransitionError::Illegal { from, to } => RefusalModel::Illegal { from: from@, to: to@ },
        }
    }
}

impl RefusalModel {
    pub open spec fn text(self) -> Seq<char> {
        match self {
            RefusalModel::AlreadyTerminal { from } => "cannot transition from "@ + from
                + " — already terminal"@,
            RefusalModel::Illegal { from, to } => "illegal transition from "@ + from + " to "@ + to,
        }
    }
}

impl TransitionError {
    /// What the error says.
    pub fn message(&self) -> (message: String)
        ensures
            message@ == self@.text(),
    {
        let mut message = String::new();
        match self {
            TransitionError::AlreadyTerminal { from } => {
                message.append("cannot transition from ");
                message.append(from);
                message.append(" — already terminal");
            },
            TransitionError::Illegal { from, to } => {
                message.append("illegal transition from ");
                message.append(from);
                message.append(" to ");
                message.append(to);
            },
        }
        assert(message@ =~= self@.text());
        message
    }
}

/// A child a lost sidecar left behind, as reconciliation found it.
#[derive(Clone, Copy, Debug, PartialEq, Eq, Structural)]
pub struct Orphan {
    pub child: ProcessIdentity,
    /// Reconciliation verified it alive and killed it.
    pub killed: bool,
}

/// A terminal outcome parsed from the sidecar's own event-log record, used
/// to heal meta when the sidecar died between the event append and the meta
/// write.
#[derive(Clone, Copy, Debug, PartialEq, Eq, Structural)]
pub enum HealedTerminal {
    Exited(ExitReason),
    SpawnFailed,
    DependencyFailed(DepFailReason),
}

/// The name of a status in refusals.
pub open spec fn status_text(status: RunStatus) -> Seq<char> {
    match status {
        RunStatus::Starting => "Starting"@,
        RunStatus::Running { .. } => "Running"@,
        RunStatus::SpawnFailed { .. } => "SpawnFailed"@,
        RunStatus::Exited { how, .. } => match how {
            ExitReason::ExitedOk => "ExitedOk"@,
            ExitReason::ExitedError { .. } => "ExitedError"@,
            ExitReason::Killed => "Killed"@,
            ExitReason::KilledForced => "KilledForced"@,
            ExitReason::TimedOut => "TimedOut"@,
            ExitReason::SidecarFailed { .. } => "SidecarFailed"@,
        },
        RunStatus::SidecarLost { .. } => "SidecarLost"@,
        RunStatus::DependencyFailed { .. } => "DependencyFailed"@,
    }
}

/// The name of a status in refusals.
pub fn status_name(status: &RunStatus) -> (name: &'static str)
    ensures
        name@ == status_text(*status),
{
    match status {
        RunStatus::Starting => "Starting",
        RunStatus::Running { .. } => "Running",
        RunStatus::SpawnFailed { .. } => "SpawnFailed",
        RunStatus::Exited { how, .. } => match how {
            ExitReason::ExitedOk => "ExitedOk",
            ExitReason::ExitedError { .. } => "ExitedError",
            ExitReason::Killed => "Killed",
            ExitReason::KilledForced => "KilledForced",
            ExitReason::TimedOut => "TimedOut",
            ExitReason::SidecarFailed { .. } => "SidecarFailed",
        },
        RunStatus::SidecarLost { .. } => "SidecarLost",
        RunStatus::DependencyFailed { .. } => "DependencyFailed",
    }
}

/// A change of status that someone asks for.
pub enum Transition {
    Running { child: ProcessIdentity },
    SpawnFailed { ended_at: EpochTimestamp },
    Exited { how: ExitReason, ended_at: EpochTimestamp },
    SidecarFailed { child: ProcessIdentity, step: SidecarStep, ended_at: EpochTimestamp },
    DependencyFailed { ended_at: EpochTimestamp, reason: DepFailReason },
    SidecarLost { ended_at: EpochTimestamp, orphan: Option<Orphan> },
    Healed {
        healed: HealedTerminal,
        ended_at: EpochTimestamp,
        spawned_child: Option<ProcessIdentity>,
    },
    HealedOrphanKilled,
}

/// Recorded by the sidecar itself.
pub open spec fn directly(evidence: Seq<Evidence>) -> ProvenanceModel {
    ProvenanceModel { direct: true, evidence }
}

pub open spec fn ended(from: RunStatus) -> RefusalModel {
    RefusalModel::AlreadyTerminal { from: status_text(from) }
}

pub open spec fn illegal(from: RunStatus, to: Seq<char>) -> RefusalModel {
    RefusalModel::Illegal { from: status_text(from), to }
}

/// What a lost sidecar is inferred from.
pub open spec fn lost_evidence(orphan: Option<Orphan>) -> Seq<Evidence> {
    match orphan {
        Some(o) if o.killed => seq![
            Evidence::LockReleased,
            Evidence::NonTerminalMeta,
            Evidence::OrphanKilled,
        ],
        _ => seq![Evidence::LockReleased, Evidence::NonTerminalMeta],
    }
}

/// The status and provenance behind a transition, or why it is refused.
pub open spec fn outcome(
    status: RunStatus,
    provenance: Option<ProvenanceModel>,
    t: Transition,
) -> Result<(RunStatus, ProvenanceModel), RefusalModel> {
    match t {
        Transition::Running { child } => match status {
            RunStatus::Starting => Ok(
                (
                    RunStatus::Running { child },
                    directly(seq![Evidence::SidecarWrite, Evidence::ChildSpawned]),
                ),
            ),
            RunStatus::Running { .. } => Err(illegal(status, "Running"@)),
            _ => Err(ended(status)),
        },
        Transition::SpawnFailed { ended_at } => match status {
            RunStatus::Starting => Ok(
                (
                    RunStatus::SpawnFailed { ended_at },
                    directly(seq![Evidence::SidecarWrite, Evidence::SpawnFailedSyscall]),
                ),
            ),
            RunStatus::Running { .. } => Err(illegal(status, "SpawnFailed"@)),
            _ => Err(ended(status)),
        },
        Transition::Exited { how, ended_at } => if how is SidecarFailed {
            Err(illegal(status, "SidecarFailed (use transition_sidecar_failed)"@))
        } else {
            match status {
                RunStatus::Running { child } => Ok(
                    (
                        RunStatus::Exited { child, how, ended_at },
                        directly(seq![Evidence::SidecarWrite, Evidence::ChildExitObserved]),
                    ),
                ),
                RunStatus::Starting => Err(illegal(status, "Exited"@)),
                _ => Err(ended(status)),
            }
        },
        Transition::SidecarFailed { child, step, ended_at } => if status.terminal() {
            Err(ended(status))
        } else {
            Ok(
                (
                    RunStatus::Exited {
                        child: match status {
                            RunStatus::Running { child: running } => running,
                            _ => child,
                        },
                        how: ExitReason::SidecarFailed { step },
                        ended_at,
                    },
                    directly(seq![Evidence::SidecarWrite, Evidence::SupervisionFailed]),
                ),
            )
        },
        Transition::DependencyFailed { ended_at, reason } => match status {
            RunStatus::Starting => Ok(
                (
                    RunStatus::DependencyFailed { ended_at, reason },
                    directly(seq![Evidence::SidecarWrite, Evidence::DependencyFailed]),
                ),
            ),
            RunStatus::Running { .. } => Err(illegal(status, "DependencyFailed"@)),
            _ => Err(ended(status)),
        },
        Transition::SidecarLost { ended_at, orphan } => if status.terminal() {
            Err(ended(status))
        } else {
            Ok(
                (
                    RunStatus::SidecarLost {
                        child: match status {
                            RunStatus::Running { child } => Some(child),
                            _ => match orphan {
                                Some(o) => Some(o.child),
                                None => None,
                            },
                        },
                        ended_at,
                    },
                    ProvenanceModel { direct: false, evidence: lost_evidence(orphan) },
                ),
            )
        },
        Transition::Healed { healed, ended_at, spawned_child } => {
            let replayed = directly(seq![Evidence::EventLogTerminal]);
            match (status, healed, spawned_child) {
                (RunStatus::Running { child }, HealedTerminal::Exited(how), _) => Ok(
                    (RunStatus::Exited { child, how, ended_at }, replayed),
                ),
                (RunStatus::Starting, HealedTerminal::Exited(how), Some(child)) => if how is
                    SidecarFailed {
                    Ok((RunStatus::Exited { child, how, ended_at }, replayed))
                } else {
                    Err(illegal(status, "healed terminal"@))
                },
                (RunStatus::Starting, HealedTerminal::SpawnFailed, _) => Ok(
                    (RunStatus::SpawnFailed { ended_at }, replayed),
                ),
                (RunStatus::Starting, HealedTerminal::DependencyFailed(reason), _) => Ok(
                    (RunStatus::DependencyFailed { ended_at, reason }, replayed),
                ),
                _ => Err(
                    if status.terminal() {
                        ended(status)
                    } else {
                        illegal(status, "healed terminal"@)
                    },
                ),
            }
        },
        Transition::HealedOrphanKilled => if (status matches RunStatus::Exited { how, .. }
            && how is SidecarFailed) && provenance == Some(
            directly(seq![Evidence::EventLogTerminal]),
        ) {
            Ok(
                (status, directly(seq![Evidence::EventLogTerminal, Evidence::OrphanKilled])),
            )
        } else {
            Err(illegal(status, "healed SidecarFailed with a killed orphan"@))
        },
    }
}

/// `after` and `result` are what becomes of a record on which `t` is asked for: a
/// refused transition changes nothing, and one that is made changes nothing but
/// the status and its provenance.
pub open spec fn transitioned(
    before: MetaModel,
    t: Transition,
    after: MetaModel,
    result: Result<(), TransitionError>,
) -> bool {
    match outcome(before.status, before.provenance, t) {
        Ok((status, provenance)) => result is Ok && after == (MetaModel {
            status,
            provenance: Some(provenance),
            ..before
        }),
        Err(refusal) => result matches Err(error) && error@ == refusal && after == before,
    }
}

/// `result` answers the request for `t` on a record: an error is the refusal.
pub open spec fn answered<T>(
    before: MetaModel,
    t: Transition,
    result: Result<T, TransitionError>,
) -> bool {
    match outcome(before.status, before.provenance, t) {
        Ok(_) => result is Ok,
        Err(refusal) => result matches Err(error) && error@ == refusal,
    }
}

impl Meta {
    /// Transition Starting → Running. Requires child identity.
    pub fn transition_running(&mut self, child: ProcessIdentity) -> (result: Result<
        (),
        TransitionError,
    >)
        ensures
            transitioned(old(self)@, Transition::Running { child }, final(self)@, result),
    {
        match *self.status() {
            RunStatus::Starting => {
                let evidence = vec![Evidence::SidecarWrite, Evidence::ChildSpawned];
                assert(evidence@ =~= seq![Evidence::SidecarWrite, Evidence::ChildSpawned]);
                self.record(RunStatus::Running { child }, TransitionProvenance::direct(evidence));
                Ok(())
            },
            RunStatus::Running { .. } => Err(
                TransitionError::Illegal { from: "Running", to: "Running" },
            ),
            _ => Err(TransitionError::AlreadyTerminal { from: status_name(self.status()) }),
        }
    }

    /// Transition Starting → SpawnFailed. Child never started.
    /// Only valid from Starting: cannot reach SpawnFailed from Running.
    pub fn transition_spawn_failed(&mut self, ended_at: EpochTimestamp) -> (result: Result<
        (),
        TransitionError,
    >)
        ensures
            transitioned(old(self)@, Transition::SpawnFailed { ended_at }, final(self)@, result),
    {
        match *self.status() {
            RunStatus::Starting => {
                let evidence = vec![Evidence::SidecarWrite, Evidence::SpawnFailedSyscall];
                assert(evidence@ =~= seq![Evidence::SidecarWrite, Evidence::SpawnFailedSyscall]);
                self.record(
                    RunStatus::SpawnFailed { ended_at },
                    TransitionProvenance::direct(evidence),
                );
                Ok(())
            },
            RunStatus::Running { .. } => Err(
                TransitionError::Illegal { from: "Running", to: "SpawnFailed" },
            ),
            _ => Err(TransitionError::AlreadyTerminal { from: status_name(self.status()) }),
        }
    }

    /// Transition Running → Exited. Only valid from Running.
    /// Child identity is carried from Running into the Exited state.
    /// `SidecarFailed` is not an observed exit: it goes through
    /// [`Meta::transition_sidecar_failed`], which carries its own evidence.
    pub fn transition_exited(&mut self, how: ExitReason, ended_at: EpochTimestamp) -> (result: Result<
        (),
        TransitionError,
    >)
        ensures
            transitioned(old(self)@, Transition::Exited { how, ended_at }, final(self)@, result),
    {
        if let ExitReason::SidecarFailed { .. } = how {
            return Err(
                TransitionError::Illegal {
                    from: status_name(self.status()),
                    to: "SidecarFailed (use transition_sidecar_failed)",
                },
            );
        }
        match *self.status() {
            RunStatus::Running { child } => {
                let evidence = vec![Evidence::SidecarWrite, Evidence::ChildExitObserved];
                assert(evidence@ =~= seq![Evidence::SidecarWrite, Evidence::ChildExitObserved]);
                self.record(
                    RunStatus::Exited { child, how, ended_at },
                    TransitionProvenance::direct(evidence),
                );
                Ok(())
            },
            RunStatus::Starting => Err(TransitionError::Illegal { from: "Starting", to: "Exited" }),
            _ => Err(TransitionError::AlreadyTerminal { from: status_name(self.status()) }),
        }
    }

    /// Transition Starting | Running → `Exited { SidecarFailed { step } }`:
    /// the sidecar failed after spawning `child`, killed it, and records that
    /// itself (Direct provenance). Valid from `Starting` because the failure
    /// can precede publishing `Running` (the child existed; `Running` was
    /// never persisted). From `Running`, the recorded child is kept.
    pub fn transition_sidecar_failed(
        &mut self,
        child: ProcessIdentity,
        step: SidecarStep,
        ended_at: EpochTimestamp,
    ) -> (result: Result<(), TransitionError>)
        ensures
            transitioned(
                old(self)@,
                Transition::SidecarFailed { child, step, ended_at },
                final(self)@,
                result,
            ),
    {
        let child = match *self.status() {
            RunStatus::Starting => child,
            RunStatus::Running { child: running } => running,
            _ => {
                return Err(
                    TransitionError::AlreadyTerminal { from: status_name(self.status()) },
                );
            },
        };
        let evidence = vec![Evidence::SidecarWrite, Evidence::SupervisionFailed];
        assert(evidence@ =~= seq![Evidence::SidecarWrite, Evidence::SupervisionFailed]);
        self.record(
            RunStatus::Exited { child, how: ExitReason::SidecarFailed { step }, ended_at },
            TransitionProvenance::direct(evidence),
        );
        Ok(())
    }

    /// Transition Starting → DependencyFailed.
    pub fn transition_dependency_failed(
        &mut self,
        ended_at: EpochTimestamp,
        reason: DepFailReason,
    ) -> (result: Result<(), TransitionError>)
        ensures
            transitioned(
                old(self)@,
                Transition::DependencyFailed { ended_at, reason },
                final(self)@,
                result,
            ),
    {
        match *self.status() {
            RunStatus::Starting => {
                let evidence = vec![Evidence::SidecarWrite, Evidence::DependencyFailed];
                assert(evidence@ =~= seq![Evidence::SidecarWrite, Evidence::DependencyFailed]);
                self.record(
                    RunStatus::DependencyFailed { ended_at, reason },
                    TransitionProvenance::direct(evidence),
                );
                Ok(())
            },
            RunStatus::Running { .. } => Err(
                TransitionError::Illegal { from: "Running", to: "DependencyFailed" },
            ),
            _ => Err(TransitionError::AlreadyTerminal { from: status_name(self.status()) }),
        }
    }

    /// Reconciliation: mark as SidecarLost. The ONLY case where
    /// something other than the sidecar writes lifecycle state.
    /// Valid from Starting or Running. `orphan` is the child the lost sidecar
    /// left behind, if reconciliation found one: from `Starting` it is the
    /// only record of that child (the `child_pid` breadcrumb); from `Running`
    /// meta's child is kept. A killed orphan adds `OrphanKilled` evidence.
    pub fn reconcile_sidecar_lost(&mut self, ended_at: EpochTimestamp, orphan: Option<Orphan>) -> (
    result: Result<(), TransitionError>)
        ensures
            transitioned(
                old(self)@,
                Transition::SidecarLost { ended_at, orphan },
                final(self)@,
                result,
            ),
    {
        let child = match *self.status() {
            RunStatus::Starting => match orphan {
                Some(o) => Some(o.child),
                None => None,
            },
            RunStatus::Running { child } => Some(child),
            _ => {
                return Err(
                    TransitionError::AlreadyTerminal { from: status_name(self.status()) },
                );
            },
        };
        let mut evidence = vec![Evidence::LockReleased, Evidence::NonTerminalMeta];
        let killed = match orphan {
            Some(o) => o.killed,
            None => false,
        };
        if killed {
            evidence.push(Evidence::OrphanKilled);
        }
        assert(evidence@ =~= lost_evidence(orphan));
        self.record(
            RunStatus::SidecarLost { child, ended_at },
            TransitionProvenance::inferred(evidence),
        );
        Ok(())
    }

    /// Reconciliation healing: apply a terminal state recorded by the
    /// sidecar's own event-log record. The observation was the sidecar's (the
    /// CLI only replays it into meta), so provenance is Direct with
    /// EventLogTerminal evidence, not Inferred.
    ///
    /// `spawned_child` is the child the sidecar spawned before `Running` was
    /// published (its `child_pid` breadcrumb). It lets a `SidecarFailed`
    /// recorded before `Running` (the `--after` path) heal from `Starting`.
    pub fn heal_terminal_from_event(
        &mut self,
        healed: HealedTerminal,
        ended_at: EpochTimestamp,
        spawned_child: Option<ProcessIdentity>,
    ) -> (result: Result<(), TransitionError>)
        ensures
            transitioned(
                old(self)@,
                Transition::Healed { healed, ended_at, spawned_child },
                final(self)@,
                result,
            ),
    {
        let next = match (*self.status(), healed, spawned_child) {
            (RunStatus::Running { child }, HealedTerminal::Exited(how), _) => Some(
                RunStatus::Exited { child, how, ended_at },
            ),
            (RunStatus::Starting, HealedTerminal::Exited(how), Some(child)) => match how {
                ExitReason::SidecarFailed { .. } => Some(
                    RunStatus::Exited { child, how, ended_at },
                ),
                _ => None,
            },
            (RunStatus::Starting, HealedTerminal::SpawnFailed, _) => Some(
                RunStatus::SpawnFailed { ended_at },
            ),
            (RunStatus::Starting, HealedTerminal::DependencyFailed(reason), _) => Some(
                RunStatus::DependencyFailed { ended_at, reason },
            ),
            _ => None,
        };
        match next {
            Some(status) => {
                let evidence = vec![Evidence::EventLogTerminal];
                assert(evidence@ =~= seq![Evidence::EventLogTerminal]);
                self.record(status, TransitionProvenance::direct(evidence));
                Ok(())
            },
            None => if self.status().is_terminal() {
                Err(TransitionError::AlreadyTerminal { from: status_name(self.status()) })
            } else {
                // Shape mismatch (e.g. meta Starting but event says Exited):
                // the caller falls back to inferring SidecarLost.
                Err(
                    TransitionError::Illegal {
                        from: status_name(self.status()),
                        to: "healed terminal",
                    },
                )
            },
        }
    }

    /// Reconciliation killed the child that a healed `SidecarFailed` record
    /// names: the sidecar records that failure even when its forced kill did
    /// not take, so the record alone does not prove the child dead. Adds
    /// `OrphanKilled` evidence to the healed record. Valid only right after
    /// [`Meta::heal_terminal_from_event`] healed a `SidecarFailed`.
    pub fn record_healed_orphan_killed(&mut self) -> (result: Result<(), TransitionError>)
        ensures
            transitioned(old(self)@, Transition::HealedOrphanKilled, final(self)@, result),
    {
        let status = *self.status();
        let failed = match status {
            RunStatus::Exited { how, .. } => match how {
                ExitReason::SidecarFailed { .. } => true,
                _ => false,
            },
            _ => false,
        };
        let healed = match self.transition_provenance() {
            Some(provenance) => provenance.is_healed(),
            None => false,
        };
        if !(failed && healed) {
            return Err(
                TransitionError::Illegal {
                    from: status_name(&status),
                    to: "healed SidecarFailed with a killed orphan",
                },
            );
        }
        let evidence = vec![Evidence::EventLogTerminal, Evidence::OrphanKilled];
        assert(evidence@ =~= seq![Evidence::EventLogTerminal, Evidence::OrphanKilled]);
        self.record(status, TransitionProvenance::direct(evidence));
        Ok(())
    }
}

// What holds of every transition.

/// A run that has ended stays ended the way it did: no transition changes a
/// terminal status.
pub proof fn law_terminal_is_final(status: RunStatus, p: Option<ProvenanceModel>, t: Transition)
    requires
        status.terminal(),
    ensures
        outcome(status, p, t) matches Ok((after, _)) ==> after == status,
{
}

/// A run only moves forward: from `Starting` to `Running` or an end, from
/// `Running` to an end.
pub proof fn law_only_forward(status: RunStatus, p: Option<ProvenanceModel>, t: Transition)
    ensures
        outcome(status, p, t) matches Ok((after, _)) ==> {
            &&& after is Running ==> status is Starting
            &&& !(after is Starting)
        },
{
}

/// The child that a running run is recorded with is kept in every end of it.
pub proof fn law_child_is_kept(status: RunStatus, p: Option<ProvenanceModel>, t: Transition)
    requires
        status is Running,
    ensures
        outcome(status, p, t) matches Ok((after, _)) ==> after.child_of() == status.child_of(),
{
}

/// A lost sidecar is the only status that is inferred; everything else is the
/// sidecar's own record.
pub proof fn law_only_loss_is_inferred(
    status: RunStatus,
    p: Option<ProvenanceModel>,
    t: Transition,
)
    ensures
        outcome(status, p, t) matches Ok((after, provenance)) ==> (provenance.direct <==> !(t is
            SidecarLost)) && (t is SidecarLost ==> after is SidecarLost),
{
}

/// Evidence that an orphan was killed is there exactly where one was.
pub proof fn law_orphan_killed_evidence(
    status: RunStatus,
    p: Option<ProvenanceModel>,
    t: Transition,
)
    ensures
        outcome(status, p, t) matches Ok((_, provenance)) ==> (provenance.evidence.contains(
            Evidence::OrphanKilled,
        ) <==> t is HealedOrphanKilled || (t matches Transition::SidecarLost { orphan, .. }
            && orphan matches Some(o) && o.killed)),
{
    if let Ok((_, provenance)) = outcome(status, p, t) {
        let e = provenance.evidence;
        if t is HealedOrphanKilled {
            assert(e[1] == Evidence::OrphanKilled);
        }
        if t matches Transition::SidecarLost { orphan, .. } && orphan matches Some(o) && o.killed {
            assert(e[2] == Evidence::OrphanKilled);
        }
    }
}

// What each change of status is for, by what it is asked for and what it leaves.

/// A run that was starting is running with exactly the child that was spawned; no other
/// run can be published as running.
pub proof fn law_running_run_has_the_spawned_child(
    meta: &mut Meta,
    child: ProcessIdentity,
    result: Result<(), TransitionError>,
)
    requires
        call_ensures(Meta::transition_running, (meta, child), result),
    ensures
        final(meta)@ == (MetaModel {
            status: final(meta)@.status,
            provenance: final(meta)@.provenance,
            ..old(meta)@
        }),
        result is Err ==> final(meta)@ == old(meta)@,
        result is Ok <==> old(meta)@.status is Starting,
        result is Ok ==> final(meta)@.status == (RunStatus::Running { child }),
        result is Ok ==> (final(meta)@.provenance matches Some(p) && p.direct && p.evidence.len()
            == 2 && p.evidence[0] == Evidence::SidecarWrite && p.evidence[1]
            == Evidence::ChildSpawned),
        result matches Err(e) ==> (e is Illegal <==> old(meta)@.status is Running),
{
}

/// A child that could not be spawned ends a run that was starting, at the given time and
/// without any child; no other run can end that way.
pub proof fn law_failed_spawn_has_no_child(
    meta: &mut Meta,
    ended_at: EpochTimestamp,
    result: Result<(), TransitionError>,
)
    requires
        call_ensures(Meta::transition_spawn_failed, (meta, ended_at), result),
    ensures
        final(meta)@ == (MetaModel {
            status: final(meta)@.status,
            provenance: final(meta)@.provenance,
            ..old(meta)@
        }),
        result is Err ==> final(meta)@ == old(meta)@,
        result is Ok <==> old(meta)@.status is Starting,
        result is Ok ==> final(meta)@.status == (RunStatus::SpawnFailed { ended_at }),
        result is Ok ==> final(meta)@.status.child_of() is None,
        result is Ok ==> (final(meta)@.provenance matches Some(p) && p.direct && p.evidence.len()
            == 2 && p.evidence[0] == Evidence::SidecarWrite && p.evidence[1]
            == Evidence::SpawnFailedSyscall),
        result matches Err(e) ==> (e is Illegal <==> old(meta)@.status is Running),
{
}

/// An observed exit is recorded as it was: the same reason, the given time, the child that
/// was running. Only a running run can exit, and a failure of the sidecar is no exit of its
/// child.
pub proof fn law_observed_exit_is_recorded_as_it_was(
    meta: &mut Meta,
    how: ExitReason,
    ended_at: EpochTimestamp,
    result: Result<(), TransitionError>,
)
    requires
        call_ensures(Meta::transition_exited, (meta, how, ended_at), result),
    ensures
        final(meta)@ == (MetaModel {
            status: final(meta)@.status,
            provenance: final(meta)@.provenance,
            ..old(meta)@
        }),
        result is Err ==> final(meta)@ == old(meta)@,
        result is Ok <==> old(meta)@.status is Running && !(how is SidecarFailed),
        result is Ok ==> (final(meta)@.status matches RunStatus::Exited {
            child,
            how: recorded,
            ended_at: at,
        } && recorded == how && at == ended_at && old(meta)@.status == (RunStatus::Running {
            child,
        })),
        result is Ok ==> (final(meta)@.provenance matches Some(p) && p.direct && p.evidence.len()
            == 2 && p.evidence[0] == Evidence::SidecarWrite && p.evidence[1]
            == Evidence::ChildExitObserved),
        !(how is SidecarFailed) ==> (result matches Err(e) ==> (e is AlreadyTerminal <==> old(
            meta)@.status.terminal())),
{
}

/// A failure of the sidecar is recorded with the step that it was on and at the given time,
/// for every run that has not ended; the child is the one that was running, or the one that
/// was spawned where none was published yet.
pub proof fn law_sidecar_failure_names_its_step(
    meta: &mut Meta,
    child: ProcessIdentity,
    step: SidecarStep,
    ended_at: EpochTimestamp,
    result: Result<(), TransitionError>,
)
    requires
        call_ensures(Meta::transition_sidecar_failed, (meta, child, step, ended_at), result),
    ensures
        final(meta)@ == (MetaModel {
            status: final(meta)@.status,
            provenance: final(meta)@.provenance,
            ..old(meta)@
        }),
        result is Err ==> final(meta)@ == old(meta)@,
        result is Ok <==> old(meta)@.status is Starting || old(meta)@.status is Running,
        result is Ok ==> (final(meta)@.status matches RunStatus::Exited {
            child: recorded,
            how,
            ended_at: at,
        } && at == ended_at && how == (ExitReason::SidecarFailed { step }) && (old(
            meta)@.status is Starting ==> recorded == child) && (old(
            meta)@.status is Running ==> old(meta)@.status == (RunStatus::Running {
            child: recorded,
        }))),
        result is Ok ==> (final(meta)@.provenance matches Some(p) && p.direct && p.evidence.len()
            == 2 && p.evidence[0] == Evidence::SidecarWrite && p.evidence[1]
            == Evidence::SupervisionFailed),
        result matches Err(e) ==> e is AlreadyTerminal,
{
}

/// Dependencies that failed end a run that was starting, with the reason that they failed
/// for and at the given time; no other run can end that way.
pub proof fn law_failed_dependencies_name_their_reason(
    meta: &mut Meta,
    ended_at: EpochTimestamp,
    reason: DepFailReason,
    result: Result<(), TransitionError>,
)
    requires
        call_ensures(Meta::transition_dependency_failed, (meta, ended_at, reason), result),
    ensures
        final(meta)@ == (MetaModel {
            status: final(meta)@.status,
            provenance: final(meta)@.provenance,
            ..old(meta)@
        }),
        result is Err ==> final(meta)@ == old(meta)@,
        result is Ok <==> old(meta)@.status is Starting,
        result is Ok ==> (final(meta)@.status matches RunStatus::DependencyFailed {
            ended_at: at,
            reason: recorded,
        } && at == ended_at && recorded == reason),
        result is Ok ==> (final(meta)@.provenance matches Some(p) && p.direct && p.evidence.len()
            == 2 && p.evidence[0] == Evidence::SidecarWrite && p.evidence[1]
            == Evidence::DependencyFailed),
        result matches Err(e) ==> (e is Illegal <==> old(meta)@.status is Running),
{
}

/// A lost sidecar is recorded for every run that has not ended, at the given time, with the
/// child that was running, or else the orphan that was found, and says so where the orphan
/// was killed. It is inferred, never the sidecar's own word.
pub proof fn law_lost_sidecar_names_what_it_left(
    meta: &mut Meta,
    ended_at: EpochTimestamp,
    orphan: Option<Orphan>,
    result: Result<(), TransitionError>,
)
    requires
        call_ensures(Meta::reconcile_sidecar_lost, (meta, ended_at, orphan), result),
    ensures
        final(meta)@ == (MetaModel {
            status: final(meta)@.status,
            provenance: final(meta)@.provenance,
            ..old(meta)@
        }),
        result is Err ==> final(meta)@ == old(meta)@,
        result is Ok <==> old(meta)@.status is Starting || old(meta)@.status is Running,
        result is Ok ==> (final(meta)@.status matches RunStatus::SidecarLost {
            child,
            ended_at: at,
        } && at == ended_at && match (old(meta)@.status, orphan) {
            (RunStatus::Running { child: running }, _) => child == Some(running),
            (_, Some(found)) => child == Some(found.child),
            (_, None) => child is None,
        }),
        result is Ok ==> (final(meta)@.provenance matches Some(p) && {
            &&& !p.direct
            &&& p.evidence.len() >= 2
            &&& p.evidence[0] == Evidence::LockReleased
            &&& p.evidence[1] == Evidence::NonTerminalMeta
            &&& match orphan {
                Some(found) => if found.killed {
                    p.evidence.len() == 3 && p.evidence[2] == Evidence::OrphanKilled
                } else {
                    p.evidence.len() == 2
                },
                None => p.evidence.len() == 2,
            }
        }),
        result matches Err(e) ==> e is AlreadyTerminal,
{
}

/// A record that is healed from the sidecar's own terminal event ends the way that the event
/// says, at the event's time: a running run with the very exit reason of the event and the
/// child that was running; a run that was starting with a failed spawn, with the dependency
/// failure of the event, or with a failure of the sidecar behind a child that was spawned.
/// Nothing else can be healed.
pub proof fn law_healed_record_ends_as_the_event_says(
    meta: &mut Meta,
    healed: HealedTerminal,
    ended_at: EpochTimestamp,
    spawned_child: Option<ProcessIdentity>,
    result: Result<(), TransitionError>,
)
    requires
        call_ensures(Meta::heal_terminal_from_event, (meta, healed, ended_at, spawned_child), result),
    ensures
        final(meta)@ == (MetaModel {
            status: final(meta)@.status,
            provenance: final(meta)@.provenance,
            ..old(meta)@
        }),
        result is Err ==> final(meta)@ == old(meta)@,
        result is Ok ==> final(meta)@.status.ended_at_of() == Some(ended_at),
        result is Ok ==> match healed {
            HealedTerminal::Exited(h) => final(meta)@.status matches RunStatus::Exited {
                how,
                ..
            } && how == h,
            HealedTerminal::SpawnFailed => final(meta)@.status is SpawnFailed,
            HealedTerminal::DependencyFailed(r) => final(
                meta)@.status matches RunStatus::DependencyFailed { reason, .. } && reason == r,
        },
        result is Ok && old(meta)@.status is Running ==> final(meta)@.status.child_of() == old(
            meta)@.status.child_of(),
        result is Ok && healed is Exited && old(meta)@.status is Starting ==> final(
            meta)@.status.child_of() == spawned_child && spawned_child is Some,
        result is Ok ==> (final(meta)@.provenance matches Some(p) && p.direct && p.evidence.len()
            == 1 && p.evidence[0] == Evidence::EventLogTerminal),
        old(meta)@.status is Running ==> (result is Ok <==> healed is Exited),
        old(meta)@.status is Starting ==> (result is Ok <==> match healed {
            HealedTerminal::Exited(h) => h is SidecarFailed && spawned_child is Some,
            _ => true,
        }),
        old(meta)@.status.terminal() ==> (result matches Err(e) && e is AlreadyTerminal),
{
}

/// That the orphan of a healed failure was killed changes nothing of how the run ended: it
/// is added to the evidence of a failure of the sidecar that was healed from the event log,
/// and to nothing else.
pub proof fn law_killed_orphan_only_adds_evidence(
    meta: &mut Meta,
    result: Result<(), TransitionError>,
)
    requires
        call_ensures(Meta::record_healed_orphan_killed, (meta,), result),
    ensures
        final(meta)@ == (MetaModel {
            status: final(meta)@.status,
            provenance: final(meta)@.provenance,
            ..old(meta)@
        }),
        result is Err ==> final(meta)@ == old(meta)@,
        final(meta)@.status == old(meta)@.status,
        result is Ok <==> (old(meta)@.status matches RunStatus::Exited { how, .. }
            && how is SidecarFailed) && (old(meta)@.provenance matches Some(p) && p.direct
            && p.evidence =~= seq![Evidence::EventLogTerminal]),
        result is Ok ==> (final(meta)@.provenance matches Some(p) && p.direct && p.evidence.len()
            == 2 && p.evidence[0] == Evidence::EventLogTerminal && p.evidence[1]
            == Evidence::OrphanKilled),
{
}

/// A status is called by its own name, and a run that exited by how it did.
pub proof fn law_statuses_are_named(status: RunStatus, name: &'static str)
    requires
        call_ensures(status_name, (&status,), name),
    ensures
        name@ == (match status {
            RunStatus::Starting => "Starting"@,
            RunStatus::Running { .. } => "Running"@,
            RunStatus::SpawnFailed { .. } => "SpawnFailed"@,
            RunStatus::SidecarLost { .. } => "SidecarLost"@,
            RunStatus::DependencyFailed { .. } => "DependencyFailed"@,
            RunStatus::Exited { how, .. } => match how {
                ExitReason::ExitedOk => "ExitedOk"@,
                ExitReason::ExitedError { .. } => "ExitedError"@,
                ExitReason::Killed => "Killed"@,
                ExitReason::KilledForced => "KilledForced"@,
                ExitReason::TimedOut => "TimedOut"@,
                ExitReason::SidecarFailed { .. } => "SidecarFailed"@,
            },
        }),
{
}

/// A refusal says where the run was, and where it was to go unless it had ended.
pub proof fn law_refusals_are_told(error: TransitionError, message: String)
    requires
        call_ensures(TransitionError::message, (&error,), message),
    ensures
        error matches TransitionError::AlreadyTerminal { from } ==> message@
            == "cannot transition from "@ + from@ + " — already terminal"@,
        error matches TransitionError::Illegal { from, to } ==> message@
            == "illegal transition from "@ + from@ + " to "@ + to@,
{
}

/// A change that is refused names the status that the run had; where the run had ended, that
/// is all, and otherwise it names the change that was asked for.
pub proof fn law_refusals_name_the_change(
    running: &mut Meta,
    unspawned: &mut Meta,
    exited: &mut Meta,
    undone: &mut Meta,
    child: ProcessIdentity,
    how: ExitReason,
    ended_at: EpochTimestamp,
    reason: DepFailReason,
    to_running: Result<(), TransitionError>,
    to_unspawned: Result<(), TransitionError>,
    to_exited: Result<(), TransitionError>,
    to_undone: Result<(), TransitionError>,
    was_running: &'static str,
    was_unspawned: &'static str,
    was_exited: &'static str,
    was_undone: &'static str,
)
    requires
        call_ensures(Meta::transition_running, (running, child), to_running),
        call_ensures(Meta::transition_spawn_failed, (unspawned, ended_at), to_unspawned),
        call_ensures(Meta::transition_exited, (exited, how, ended_at), to_exited),
        call_ensures(Meta::transition_dependency_failed, (undone, ended_at, reason), to_undone),
        call_ensures(status_name, (&old(running)@.status,), was_running),
        call_ensures(status_name, (&old(unspawned)@.status,), was_unspawned),
        call_ensures(status_name, (&old(exited)@.status,), was_exited),
        call_ensures(status_name, (&old(undone)@.status,), was_undone),
    ensures
        to_running matches Err(e) ==> e@ == (if old(running)@.status is Running {
            RefusalModel::Illegal { from: was_running@, to: "Running"@ }
        } else {
            RefusalModel::AlreadyTerminal { from: was_running@ }
        }),
        to_unspawned matches Err(e) ==> e@ == (if old(unspawned)@.status is Running {
            RefusalModel::Illegal { from: was_unspawned@, to: "SpawnFailed"@ }
        } else {
            RefusalModel::AlreadyTerminal { from: was_unspawned@ }
        }),
        to_exited matches Err(e) ==> e@ == (if how is SidecarFailed {
            RefusalModel::Illegal {
                from: was_exited@,
                to: "SidecarFailed (use transition_sidecar_failed)"@,
            }
        } else if old(exited)@.status is Starting {
            RefusalModel::Illegal { from: was_exited@, to: "Exited"@ }
        } else {
            RefusalModel::AlreadyTerminal { from: was_exited@ }
        }),
        to_undone matches Err(e) ==> e@ == (if old(undone)@.status is Running {
            RefusalModel::Illegal { from: was_undone@, to: "DependencyFailed"@ }
        } else {
            RefusalModel::AlreadyTerminal { from: was_undone@ }
        }),
{
}

/// The same of the changes that a failed sidecar and reconciliation ask for: the first two
/// are refused only where the run had ended.
pub proof fn law_refusals_of_reconciliation_name_the_change(
    failed: &mut Meta,
    lost: &mut Meta,
    healed: &mut Meta,
    killed: &mut Meta,
    child: ProcessIdentity,
    step: SidecarStep,
    ended_at: EpochTimestamp,
    orphan: Option<Orphan>,
    event: HealedTerminal,
    spawned_child: Option<ProcessIdentity>,
    to_failed: Result<(), TransitionError>,
    to_lost: Result<(), TransitionError>,
    to_healed: Result<(), TransitionError>,
    to_killed: Result<(), TransitionError>,
    was_failed: &'static str,
    was_lost: &'static str,
    was_healed: &'static str,
    was_killed: &'static str,
)
    requires
        call_ensures(Meta::transition_sidecar_failed, (failed, child, step, ended_at), to_failed),
        call_ensures(Meta::reconcile_sidecar_lost, (lost, ended_at, orphan), to_lost),
        call_ensures(
            Meta::heal_terminal_from_event,
            (healed, event, ended_at, spawned_child),
            to_healed,
        ),
        call_ensures(Meta::record_healed_orphan_killed, (killed,), to_killed),
        call_ensures(status_name, (&old(failed)@.status,), was_failed),
        call_ensures(status_name, (&old(lost)@.status,), was_lost),
        call_ensures(status_name, (&old(healed)@.status,), was_healed),
        call_ensures(status_name, (&old(killed)@.status,), was_killed),
    ensures
        to_failed matches Err(e) ==> e@ == (RefusalModel::AlreadyTerminal { from: was_failed@ }),
        to_lost matches Err(e) ==> e@ == (RefusalModel::AlreadyTerminal { from: was_lost@ }),
        to_healed matches Err(e) ==> e@ == (if old(healed)@.status is Starting || old(healed)@.status is Running {
            RefusalModel::Illegal { from: was_healed@, to: "healed terminal"@ }
        } else {
            RefusalModel::AlreadyTerminal { from: was_healed@ }
        }),
        to_killed matches Err(e) ==> e@ == (RefusalModel::Illegal {
            from: was_killed@,
            to: "healed SidecarFailed with a killed orphan"@,
        }),
{
}

} // verus!
