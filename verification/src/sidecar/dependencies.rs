//! Waiting for the runs that a run was started `--after`.

use crate::model::dep_fail::DepFailReason;
use crate::model::ids::{uuid_text, EpochTimestamp, RunId};
use crate::model::meta::{Meta, MetaModel};
use crate::model::state::{ExitReason, RunStatus};
use crate::model::transition::{answered, outcome, Transition, TransitionError};
use vstd::prelude::*;

verus! {

/// A dependency: a session, bound to the run that it had at the start.
#[derive(Clone, Debug, PartialEq, Eq)]
pub struct DependencyBinding {
    pub session: String,
    pub run_id: RunId,
}

/// A dependency after the first scan. Failure, timeout and kill end the phase and
/// are never represented here.
#[derive(Clone, Debug, PartialEq, Eq)]
pub enum ScannedDependency {
    Pending(DependencyBinding),
    /// Satisfied at its bound run and never re-examined: the binding is not
    /// retained because a latched dependency is never inspected again.
    Latched,
}

/// What was found of a dependency's session.
#[derive(Clone, Debug, PartialEq, Eq)]
pub enum DependencyObservation {
    NotFound,
    /// The session could not be opened.
    OpenFailed(String),
    /// The session's record could not be read.
    ReadFailed(String),
    Found { run_id: RunId, status: RunStatus },
}

/// What a scanned dependency stands for.
pub enum SlotModel {
    Pending { session: Seq<char>, run_id: RunId },
    Latched,
}

/// What an observation says.
pub enum ObservationModel {
    NotFound,
    OpenFailed(Seq<char>),
    ReadFailed(Seq<char>),
    Found { run_id: RunId, status: RunStatus },
}

impl View for ScannedDependency {
    type V = SlotModel;

    open spec fn view(&self) -> SlotModel {
        match *self {
            ScannedDependency::Pending(binding) => SlotModel::Pending {
                session: binding.session@,
                run_id: binding.run_id,
            },
            ScannedDependency::Latched => SlotModel::Latched,
        }
    }
}

impl View for DependencyObservation {
    type V = ObservationModel;

    open spec fn view(&self) -> ObservationModel {
        match *self {
            DependencyObservation::NotFound => ObservationModel::NotFound,
            DependencyObservation::OpenFailed(e) => ObservationModel::OpenFailed(e@),
            DependencyObservation::ReadFailed(e) => ObservationModel::ReadFailed(e@),
            DependencyObservation::Found { run_id, status } => ObservationModel::Found {
                run_id,
                status,
            },
        }
    }
}

pub open spec fn slot_models(slots: Seq<ScannedDependency>) -> Seq<SlotModel> {
    Seq::new(slots.len(), |i: int| slots[i]@)
}

pub open spec fn observation_models(seen: Seq<DependencyObservation>) -> Seq<ObservationModel> {
    Seq::new(seen.len(), |i: int| seen[i]@)
}

/// What an observation of one pending dependency comes to.
pub enum SlotStep {
    /// Satisfied.
    Latch,
    /// Not over yet.
    Wait,
    /// The wait has failed.
    Fail(Seq<char>),
}

/// A run that has ended satisfies a dependency if it succeeded, or in any case
/// where any exit will do.
pub open spec fn satisfies(status: RunStatus, after_any_exit: bool) -> bool {
    after_any_exit || (status matches RunStatus::Exited { how, .. } && how == ExitReason::ExitedOk)
}

/// One pending dependency: bound to its run, so replacing it while it is pending
/// invalidates it.
pub open spec fn slot_step(
    session: Seq<char>,
    bound: RunId,
    seen: ObservationModel,
    after_any_exit: bool,
) -> SlotStep {
    match seen {
        ObservationModel::NotFound => SlotStep::Fail("dependency session not found: "@ + session),
        ObservationModel::OpenFailed(e) => SlotStep::Fail(
            "failed to open dependency "@ + session + ": "@ + e,
        ),
        ObservationModel::ReadFailed(e) => SlotStep::Fail(
            "failed to read dependency "@ + session + ": "@ + e,
        ),
        ObservationModel::Found { run_id, status } => if run_id != bound {
            SlotStep::Fail(
                "dependency "@ + session + " was replaced (bound run_id "@ + uuid_text(
                    bound@.0,
                    bound@.1,
                ) + ", found "@ + uuid_text(run_id@.0, run_id@.1) + ")"@,
            )
        } else if !status.terminal() {
            SlotStep::Wait
        } else if satisfies(status, after_any_exit) {
            SlotStep::Latch
        } else {
            SlotStep::Fail("dependency "@ + session + " exited with non-success state"@)
        },
    }
}

/// What a scan over the slots comes to: the slots behind it, and the first
/// failure.
pub struct Scan {
    pub slots: Seq<SlotModel>,
    pub failure: Option<Seq<char>>,
}

/// Inspects the first `n` slots, latching the satisfied ones, up to the first
/// failure. A latched slot is never looked at again.
pub open spec fn scanned(
    slots: Seq<SlotModel>,
    seen: Seq<ObservationModel>,
    after_any_exit: bool,
    n: nat,
) -> Scan
    decreases n,
{
    if n == 0 {
        Scan { slots, failure: None }
    } else {
        let head = scanned(slots, seen, after_any_exit, (n - 1) as nat);
        let i = n - 1;
        if head.failure is Some {
            head
        } else {
            match slots[i] {
                SlotModel::Latched => head,
                SlotModel::Pending { session, run_id } => match slot_step(
                    session,
                    run_id,
                    seen[i],
                    after_any_exit,
                ) {
                    SlotStep::Latch => Scan {
                        slots: head.slots.update(i, SlotModel::Latched),
                        failure: None,
                    },
                    SlotStep::Wait => head,
                    SlotStep::Fail(message) => Scan { failure: Some(message), ..head },
                },
            }
        }
    }
}

pub open spec fn all_latched(slots: Seq<SlotModel>) -> bool {
    forall|i: int| 0 <= i < slots.len() ==> (#[trigger] slots[i]) is Latched
}

/// Result of one dependency-scan iteration.
#[derive(Clone, Debug, PartialEq, Eq)]
pub enum ScanStep {
    AllLatched,
    StillPending,
    Terminal(DepFailReason, String),
}

/// What one iteration says.
pub enum StepModel {
    AllLatched,
    StillPending,
    Terminal(DepFailReason, Seq<char>),
}

impl View for ScanStep {
    type V = StepModel;

    open spec fn view(&self) -> StepModel {
        match *self {
            ScanStep::AllLatched => StepModel::AllLatched,
            ScanStep::StillPending => StepModel::StillPending,
            ScanStep::Terminal(reason, message) => StepModel::Terminal(reason, message@),
        }
    }
}

/// What ends the wait whatever the dependencies are: a kill request for this run,
/// then the timeout.
pub open spec fn preempted(kill: Option<bool>, deadline_passed: bool) -> Option<
    (DepFailReason, Seq<char>),
> {
    match kill {
        Some(true) => Some(
            (DepFailReason::KilledForced, "force-killed during dependency wait"@),
        ),
        Some(false) => Some((DepFailReason::Killed, "killed during dependency wait"@)),
        None => if deadline_passed {
            Some((DepFailReason::TimedOut, "timeout expired during dependency wait"@))
        } else {
            None
        },
    }
}

/// One iteration over the slots.
pub open spec fn scan_result(
    slots: Seq<SlotModel>,
    kill: Option<bool>,
    deadline_passed: bool,
    seen: Seq<ObservationModel>,
    after_any_exit: bool,
) -> (Seq<SlotModel>, StepModel) {
    match preempted(kill, deadline_passed) {
        Some((reason, message)) => (slots, StepModel::Terminal(reason, message)),
        None => {
            let scan = scanned(slots, seen, after_any_exit, slots.len());
            (
                scan.slots,
                match scan.failure {
                    Some(message) => StepModel::Terminal(DepFailReason::Failed, message),
                    None => if all_latched(scan.slots) {
                        StepModel::AllLatched
                    } else {
                        StepModel::StillPending
                    },
                },
            )
        },
    }
}

/// A dependency set that was scanned once. Only [`first_dependency_scan`] makes
/// one, so polling dependencies that were never inspected cannot happen.
#[derive(Debug)]
pub struct ScannedDependencies {
    slots: Vec<ScannedDependency>,
}

impl View for ScannedDependencies {
    type V = Seq<SlotModel>;

    closed spec fn view(&self) -> Seq<SlotModel> {
        slot_models(self.slots@)
    }
}

/// What ends the wait whatever the dependencies are.
pub fn preemption(kill: Option<bool>, deadline_passed: bool) -> (end: Option<
    (DepFailReason, &'static str),
>)
    ensures
        match preempted(kill, deadline_passed) {
            Some((reason, message)) => end matches Some((r, m)) && r == reason && m@ == message,
            None => end is None,
        },
{
    match kill {
        Some(true) => Some((DepFailReason::KilledForced, "force-killed during dependency wait")),
        Some(false) => Some((DepFailReason::Killed, "killed during dependency wait")),
        None => if deadline_passed {
            Some((DepFailReason::TimedOut, "timeout expired during dependency wait"))
        } else {
            None
        },
    }
}

/// What an observation of one pending dependency comes to: `true` to latch
/// it, `false` to wait on, an error to fail.
pub fn inspect(binding: &DependencyBinding, seen: &DependencyObservation, after_any_exit: bool) -> (
result: Result<bool, String>)
    ensures
        match slot_step(binding.session@, binding.run_id, seen@, after_any_exit) {
            SlotStep::Latch => result == Ok::<bool, String>(true),
            SlotStep::Wait => result == Ok::<bool, String>(false),
            SlotStep::Fail(message) => result matches Err(m) && m@ == message,
        },
{
    let mut message = String::new();
    match seen {
        DependencyObservation::NotFound => {
            message.append("dependency session not found: ");
            message.append(binding.session.as_str());
        },
        DependencyObservation::OpenFailed(e) => {
            message.append("failed to open dependency ");
            message.append(binding.session.as_str());
            message.append(": ");
            message.append(e.as_str());
        },
        DependencyObservation::ReadFailed(e) => {
            message.append("failed to read dependency ");
            message.append(binding.session.as_str());
            message.append(": ");
            message.append(e.as_str());
        },
        DependencyObservation::Found { run_id, status } => {
            if *run_id != binding.run_id {
                message.append("dependency ");
                message.append(binding.session.as_str());
                message.append(" was replaced (bound run_id ");
                message.append(binding.run_id.to_text().as_str());
                message.append(", found ");
                message.append(run_id.to_text().as_str());
                message.append(")");
            } else if !status.is_terminal() {
                return Ok(false);
            } else {
                let succeeded = match *status {
                    RunStatus::Exited { how, .. } => how == ExitReason::ExitedOk,
                    _ => false,
                };
                if after_any_exit || succeeded {
                    return Ok(true);
                }
                message.append("dependency ");
                message.append(binding.session.as_str());
                message.append(" exited with non-success state");
            }
        },
    }
    proof {
        if let SlotStep::Fail(text) = slot_step(
            binding.session@,
            binding.run_id,
            seen@,
            after_any_exit,
        ) {
            assert(message@ =~= text);
        }
    }
    Err(message)
}

/// One dependency-scan iteration: a kill request for this run, then the timeout,
/// then every dependency that is not latched yet, latching the ones that are
/// satisfied and reporting the first condition that ends the wait.
/// `observations` holds one observation per dependency; those of latched ones are
/// not looked at.
pub fn scan_iteration(
    scanned: &mut ScannedDependencies,
    kill: Option<bool>,
    deadline_passed: bool,
    observations: &Vec<DependencyObservation>,
    after_any_exit: bool,
) -> (step: ScanStep)
    requires
        observations@.len() == old(scanned)@.len(),
    ensures
        (final(scanned)@, step@) == scan_result(
            old(scanned)@,
            kill,
            deadline_passed,
            observation_models(observations@),
            after_any_exit,
        ),
{
    let ghost start = scanned@;
    let ghost seen = observation_models(observations@);
    if let Some((reason, message)) = preemption(kill, deadline_passed) {
        return ScanStep::Terminal(reason, message.to_owned());
    }
    let mut i: usize = 0;
    while i < scanned.slots.len()
        invariant
            i <= scanned.slots@.len(),
            scanned@ == slot_models(scanned.slots@),
            scanned@.len() == start.len(),
            observations@.len() == start.len(),
            seen == observation_models(observations@),
            start == old(scanned)@,
            preempted(kill, deadline_passed) is None,
            self::scanned(start, seen, after_any_exit, i as nat) == (Scan {
                slots: scanned@,
                failure: None,
            }),
            forall|j: int| i <= j < start.len() ==> scanned@[j] == start[j],
        decreases scanned.slots@.len() - i,
    {
        let ghost before = scanned@;
        assert(before[i as int] == start[i as int]);
        assert(seen[i as int] == observations@[i as int]@);
        let mut latch = false;
        if let ScannedDependency::Pending(binding) = &scanned.slots[i] {
            match inspect(binding, &observations[i], after_any_exit) {
                Ok(satisfied) => {
                    latch = satisfied;
                },
                Err(message) => {
                    proof {
                        lemma_failure_stays(start, seen, after_any_exit, i as nat + 1, start.len());
                    }
                    return ScanStep::Terminal(DepFailReason::Failed, message);
                },
            }
        }
        if latch {
            scanned.slots.set(i, ScannedDependency::Latched);
            assert(scanned@ =~= before.update(i as int, SlotModel::Latched));
        }
        i = i + 1;
    }
    let mut all = true;
    let mut j: usize = 0;
    while j < scanned.slots.len()
        invariant
            j <= scanned.slots@.len(),
            scanned@ == slot_models(scanned.slots@),
            all == (forall|k: int| 0 <= k < j ==> (#[trigger] scanned@[k]) is Latched),
        decreases scanned.slots@.len() - j,
    {
        assert(scanned@[j as int] == scanned.slots@[j as int]@);
        if let ScannedDependency::Pending(_) = &scanned.slots[j] {
            all = false;
        }
        j = j + 1;
    }
    if all {
        ScanStep::AllLatched
    } else {
        ScanStep::StillPending
    }
}

proof fn lemma_failure_stays(
    slots: Seq<SlotModel>,
    seen: Seq<ObservationModel>,
    after_any_exit: bool,
    n: nat,
    m: nat,
)
    requires
        n <= m,
        scanned(slots, seen, after_any_exit, n).failure is Some,
    ensures
        scanned(slots, seen, after_any_exit, m) == scanned(slots, seen, after_any_exit, n),
    decreases m - n,
{
    if n < m {
        lemma_failure_stays(slots, seen, after_any_exit, n, (m - 1) as nat);
    }
}

/// Exhaustive outcome of the first complete dependency scan.
#[derive(Debug)]
pub enum FirstScanOutcome {
    /// Every dependency already satisfied: spawn immediately.
    ReadyToSpawn,
    /// Some pending, none failed: publish `Starting` and enter the poll loop.
    Waiting(ScannedDependencies),
    /// The scan produced, or was pre-empted by, a phase-terminal outcome.
    Terminal { reason: DepFailReason, warning: String },
}

/// The slots of dependencies that nobody has looked at yet.
pub open spec fn fresh_slots(after: Seq<DependencyBinding>) -> Seq<SlotModel> {
    Seq::new(
        after.len(),
        |i: int| SlotModel::Pending { session: after[i].session@, run_id: after[i].run_id },
    )
}

/// The first complete dependency scan, run once, before readiness is signalled.
/// Every dependency that is already satisfied is latched.
pub fn first_dependency_scan(
    after: Vec<DependencyBinding>,
    kill: Option<bool>,
    deadline_passed: bool,
    observations: &Vec<DependencyObservation>,
    after_any_exit: bool,
) -> (outcome: FirstScanOutcome)
    requires
        observations@.len() == after@.len(),
    ensures
        ({
            let (slots, step) = scan_result(
                fresh_slots(after@),
                kill,
                deadline_passed,
                observation_models(observations@),
                after_any_exit,
            );
            match step {
                StepModel::AllLatched => outcome is ReadyToSpawn,
                StepModel::StillPending => outcome matches FirstScanOutcome::Waiting(s) && s@
                    == slots,
                StepModel::Terminal(r, message) => outcome matches FirstScanOutcome::Terminal {
                    reason,
                    warning,
                } && reason == r && warning@ == message,
            }
        }),
{
    let ghost bindings = after@;
    let mut after = after;
    let mut slots: Vec<ScannedDependency> = Vec::new();
    assert(bindings.skip(0) =~= bindings);
    while after.len() > 0
        invariant
            slots@.len() <= bindings.len(),
            after@ == bindings.skip(slots@.len() as int),
            slot_models(slots@) == fresh_slots(bindings).take(slots@.len() as int),
        decreases after@.len(),
    {
        let ghost before = slots@;
        let binding = after.remove(0);
        slots.push(ScannedDependency::Pending(binding));
        assert(after@ =~= bindings.skip(slots@.len() as int));
        assert(slot_models(slots@) =~= fresh_slots(bindings).take(slots@.len() as int));
    }
    assert(slots@.len() == bindings.len());
    let mut scanned = ScannedDependencies { slots };
    assert(scanned@ =~= fresh_slots(bindings));
    match scan_iteration(&mut scanned, kill, deadline_passed, observations, after_any_exit) {
        ScanStep::AllLatched => FirstScanOutcome::ReadyToSpawn,
        ScanStep::StillPending => FirstScanOutcome::Waiting(scanned),
        ScanStep::Terminal(reason, warning) => FirstScanOutcome::Terminal { reason, warning },
    }
}

impl ScannedDependencies {
    /// How many dependencies there are.
    pub fn len(&self) -> (n: usize)
        ensures
            n == self@.len(),
    {
        self.slots.len()
    }

    /// The binding of dependency `i`, where it is still pending and so has to be
    /// observed.
    pub fn pending(&self, i: usize) -> (binding: Option<&DependencyBinding>)
        requires
            i < self@.len(),
        ensures
            match self@[i as int] {
                SlotModel::Pending { session, run_id } => binding matches Some(b) && b.session@
                    == session && b.run_id == run_id,
                SlotModel::Latched => binding is None,
            },
    {
        match &self.slots[i] {
            ScannedDependency::Pending(binding) => Some(binding),
            ScannedDependency::Latched => None,
        }
    }
}

/// What the sidecar does after the single post-scan readiness publication.
#[derive(Debug)]
pub enum DepAction {
    Spawn,
    Wait(ScannedDependencies),
    ReturnTerminal,
}

/// A record on which the wait has failed: with the warning, and ended where that
/// transition is legal.
pub open spec fn dependency_failed(
    before: MetaModel,
    reason: DepFailReason,
    warning: Seq<char>,
    now: EpochTimestamp,
) -> MetaModel {
    let warned = MetaModel { warnings: before.warnings.push(warning), ..before };
    match outcome(
        before.status,
        before.provenance,
        Transition::DependencyFailed { ended_at: now, reason },
    ) {
        Ok((status, provenance)) => MetaModel {
            status,
            provenance: Some(provenance),
            ..warned
        },
        Err(_) => warned,
    }
}

/// Records that the dependency wait ended the run.
pub fn fail_dependencies(meta: &mut Meta, reason: DepFailReason, warning: String, now: EpochTimestamp) -> (
result: Result<(), TransitionError>)
    ensures
        final(meta)@ == dependency_failed(old(meta)@, reason, warning@, now),
        answered(old(meta)@, Transition::DependencyFailed { ended_at: now, reason }, result),
{
    meta.add_warning(warning);
    meta.transition_dependency_failed(now, reason)
}

/// Prepares the single readiness publication. Leaves `meta` as `Starting` where the
/// wait goes on or is over; ends it as `DependencyFailed` where the scan did, so
/// that the snapshot signalled next is truthful.
pub fn apply_first_scan_outcome(meta: &mut Meta, outcome: FirstScanOutcome, now: EpochTimestamp) -> (
action: Result<DepAction, TransitionError>)
    ensures
        match outcome {
            FirstScanOutcome::ReadyToSpawn => action == Ok::<DepAction, TransitionError>(
                DepAction::Spawn,
            ) && final(meta)@ == old(meta)@,
            FirstScanOutcome::Waiting(scanned) => action == Ok::<DepAction, TransitionError>(
                DepAction::Wait(scanned),
            ) && final(meta)@ == old(meta)@,
            FirstScanOutcome::Terminal { reason, warning } => {
                &&& final(meta)@ == dependency_failed(old(meta)@, reason, warning@, now)
                &&& answered(
                    old(meta)@,
                    Transition::DependencyFailed { ended_at: now, reason },
                    action,
                )
                &&& action matches Ok(a) ==> a is ReturnTerminal
            },
        },
{
    match outcome {
        FirstScanOutcome::ReadyToSpawn => Ok(DepAction::Spawn),
        FirstScanOutcome::Waiting(scanned) => Ok(DepAction::Wait(scanned)),
        FirstScanOutcome::Terminal { reason, warning } => match fail_dependencies(
            meta,
            reason,
            warning,
            now,
        ) {
            Ok(()) => Ok(DepAction::ReturnTerminal),
            Err(error) => Err(error),
        },
    }
}

// What holds of the wait.

/// A latched dependency stays latched, whatever is observed of its session later;
/// a dependency never becomes pending again.
pub proof fn law_latched_stays_latched(
    slots: Seq<SlotModel>,
    kill: Option<bool>,
    deadline_passed: bool,
    seen: Seq<ObservationModel>,
    after_any_exit: bool,
    i: int,
)
    requires
        0 <= i < slots.len(),
        slots[i] is Latched,
    ensures
        scan_result(slots, kill, deadline_passed, seen, after_any_exit).0[i] is Latched,
        scan_result(slots, kill, deadline_passed, seen, after_any_exit).0.len() == slots.len(),
{
    lemma_scan_keeps_latched(slots, seen, after_any_exit, slots.len(), i);
}

proof fn lemma_scan_keeps_latched(
    slots: Seq<SlotModel>,
    seen: Seq<ObservationModel>,
    after_any_exit: bool,
    n: nat,
    i: int,
)
    requires
        0 <= i < slots.len(),
        n <= slots.len(),
        slots[i] is Latched,
    ensures
        scanned(slots, seen, after_any_exit, n).slots[i] is Latched,
        scanned(slots, seen, after_any_exit, n).slots.len() == slots.len(),
    decreases n,
{
    if n > 0 {
        lemma_scan_keeps_latched(slots, seen, after_any_exit, (n - 1) as nat, i);
    }
}

/// A kill request for this run comes before the timeout, and both come before any
/// dependency: neither looks at what was observed.
pub proof fn law_preemption_order(
    slots: Seq<SlotModel>,
    kill: Option<bool>,
    deadline_passed: bool,
    a: Seq<ObservationModel>,
    b: Seq<ObservationModel>,
    after_any_exit: bool,
)
    requires
        kill is Some || deadline_passed,
    ensures
        scan_result(slots, kill, deadline_passed, a, after_any_exit) == scan_result(
            slots,
            kill,
            deadline_passed,
            b,
            after_any_exit,
        ),
        scan_result(slots, kill, deadline_passed, a, after_any_exit).1 is Terminal,
        kill is Some ==> scan_result(slots, kill, deadline_passed, a, after_any_exit)
            == scan_result(slots, kill, !deadline_passed, a, after_any_exit),
{
}

/// The run is spawned only where every dependency is satisfied: an iteration that
/// says so was not pre-empted, met no failure and left nothing pending.
pub proof fn law_spawn_only_when_satisfied(
    slots: Seq<SlotModel>,
    kill: Option<bool>,
    deadline_passed: bool,
    seen: Seq<ObservationModel>,
    after_any_exit: bool,
    i: int,
)
    requires
        seen.len() == slots.len(),
        0 <= i < slots.len(),
        scan_result(slots, kill, deadline_passed, seen, after_any_exit).1 is AllLatched,
    ensures
        slots[i] is Latched || (seen[i] matches ObservationModel::Found { run_id, status }
            && run_id == slots[i]->run_id && status.terminal() && satisfies(
            status,
            after_any_exit,
        )),
{
    lemma_scan_latches(slots, seen, after_any_exit, slots.len(), i);
}

proof fn lemma_scan_latches(
    slots: Seq<SlotModel>,
    seen: Seq<ObservationModel>,
    after_any_exit: bool,
    n: nat,
    i: int,
)
    requires
        seen.len() == slots.len(),
        0 <= i < slots.len(),
        n <= slots.len(),
    ensures
        scanned(slots, seen, after_any_exit, n).slots.len() == slots.len(),
        scanned(slots, seen, after_any_exit, n).slots[i] is Latched ==> slots[i] is Latched || (
        seen[i] matches ObservationModel::Found { run_id, status } && run_id == slots[i]->run_id
            && status.terminal() && satisfies(status, after_any_exit)),
    decreases n,
{
    if n > 0 {
        lemma_scan_latches(slots, seen, after_any_exit, (n - 1) as nat, i);
    }
}

// What the wait is for, by what was observed and what comes of it.

/// A dependency is satisfied only by its own bound run. Unless any exit will do, that run
/// has to have exited successfully; one that ended in any other way, a nonzero exit code
/// among them, fails the wait. Where any exit will do, every end satisfies. A bound run that
/// has not ended is waited for, and a session that is gone, unreadable or replaced fails.
pub proof fn law_dependency_is_satisfied_by_success(
    binding: &DependencyBinding,
    seen: &DependencyObservation,
    after_any_exit: bool,
    result: Result<bool, String>,
)
    requires
        call_ensures(inspect, (binding, seen, after_any_exit), result),
    ensures
        result == Ok::<bool, String>(true) ==> (*seen matches DependencyObservation::Found {
            run_id,
            ..
        } && run_id == binding.run_id),
        !(*seen is Found) ==> result is Err,
        *seen matches DependencyObservation::Found { run_id, status } ==> {
            &&& run_id != binding.run_id ==> result is Err
            &&& run_id == binding.run_id ==> match status {
                RunStatus::Starting => result == Ok::<bool, String>(false),
                RunStatus::Running { .. } => result == Ok::<bool, String>(false),
                RunStatus::Exited { how: ExitReason::ExitedOk, .. } => result == Ok::<
                    bool,
                    String,
                >(true),
                _ => if after_any_exit {
                    result == Ok::<bool, String>(true)
                } else {
                    result is Err
                },
            }
        },
{
}

/// The bound run of a pending dependency was found and has ended: successfully, or in any
/// way where any exit will do.
pub open spec fn ended_well(slot: SlotModel, seen: ObservationModel, after_any_exit: bool) -> bool {
    &&& slot matches SlotModel::Pending { run_id, .. }
    &&& seen matches ObservationModel::Found { run_id: found, status }
    &&& found == run_id
    &&& match status {
        RunStatus::Exited { how: ExitReason::ExitedOk, .. } => true,
        RunStatus::Starting => false,
        RunStatus::Running { .. } => false,
        _ => after_any_exit,
    }
}

/// The bound run of a pending dependency was found and has not ended.
pub open spec fn under_way(slot: SlotModel, seen: ObservationModel) -> bool {
    &&& slot matches SlotModel::Pending { run_id, .. }
    &&& seen matches ObservationModel::Found { run_id: found, status }
    &&& found == run_id
    &&& status is Starting || status is Running
}

proof fn lemma_scan_fate(
    slots: Seq<SlotModel>,
    seen: Seq<ObservationModel>,
    after_any_exit: bool,
    n: nat,
)
    requires
        seen.len() == slots.len(),
        n <= slots.len(),
    ensures
        ({
            let scan = scanned(slots, seen, after_any_exit, n);
            &&& scan.slots.len() == slots.len()
            &&& scan.failure is None <==> forall|j: int|
                0 <= j < n ==> (#[trigger] slots[j]) is Latched || ended_well(
                    slots[j],
                    seen[j],
                    after_any_exit,
                ) || under_way(slots[j], seen[j])
            &&& forall|j: int|
                0 <= j < slots.len() ==> (#[trigger] scan.slots[j]) == slots[j] || (
                scan.slots[j] is Latched && ended_well(slots[j], seen[j], after_any_exit))
            &&& scan.failure is None ==> forall|j: int|
                0 <= j < n && ended_well(slots[j], seen[j], after_any_exit) ==> (
                #[trigger] scan.slots[j]) is Latched
        }),
    decreases n,
{
    if n > 0 {
        lemma_scan_fate(slots, seen, after_any_exit, (n - 1) as nat);
        let i = n - 1;
        let head = scanned(slots, seen, after_any_exit, (n - 1) as nat);
        let scan = scanned(slots, seen, after_any_exit, n);
        if head.failure is None && scan.failure is None {
            assert forall|j: int| 0 <= j < n && ended_well(
                slots[j],
                seen[j],
                after_any_exit,
            ) implies (#[trigger] scan.slots[j]) is Latched by {
                if j < i {
                    assert(head.slots[j] is Latched);
                }
            }
        }
        if head.failure is Some {
            let j = choose|j: int|
                0 <= j < n - 1 && !((#[trigger] slots[j]) is Latched || ended_well(
                    slots[j],
                    seen[j],
                    after_any_exit,
                ) || under_way(slots[j], seen[j]));
            assert(0 <= j < n && !(slots[j] is Latched));
        }
        if scan.failure is Some && head.failure is None {
            assert(!(slots[i] is Latched || ended_well(slots[i], seen[i], after_any_exit)
                || under_way(slots[i], seen[i])));
        }
    }
}

/// One look at the dependencies. A kill request for the run, forced or not, and then the
/// timeout end the wait before anything else, for their own reasons. Otherwise the wait
/// fails where any dependency that is not settled yet neither ended well nor is under way;
/// it is over where every one is settled or ended well; and else it goes on, with those that
/// ended well settled for good and the others as they were.
pub proof fn law_one_look_at_the_dependencies(
    scanned: &mut ScannedDependencies,
    kill: Option<bool>,
    deadline_passed: bool,
    observations: &Vec<DependencyObservation>,
    after_any_exit: bool,
    step: ScanStep,
)
    requires
        observations@.len() == old(scanned)@.len(),
        call_ensures(
            scan_iteration,
            (scanned, kill, deadline_passed, observations, after_any_exit),
            step,
        ),
    ensures
        kill == Some(true) ==> (step matches ScanStep::Terminal(reason, _) && reason
            == DepFailReason::KilledForced),
        kill == Some(false) ==> (step matches ScanStep::Terminal(reason, _) && reason
            == DepFailReason::Killed),
        kill is None && deadline_passed ==> (step matches ScanStep::Terminal(reason, _) && reason
            == DepFailReason::TimedOut),
        kill is Some || deadline_passed ==> final(scanned)@ == old(scanned)@,
        kill is None && !deadline_passed ==> {
            &&& step is Terminal <==> exists|j: int|
                0 <= j < old(scanned)@.len() && !((#[trigger] old(scanned)@[j]) is Latched
                    || ended_well(old(scanned)@[j], observations@[j]@, after_any_exit)
                    || under_way(old(scanned)@[j], observations@[j]@))
            &&& step matches ScanStep::Terminal(reason, _) ==> reason == DepFailReason::Failed
            &&& step is AllLatched <==> forall|j: int|
                0 <= j < old(scanned)@.len() ==> (#[trigger] old(scanned)@[j]) is Latched
                    || ended_well(old(scanned)@[j], observations@[j]@, after_any_exit)
            &&& final(scanned)@.len() == old(scanned)@.len()
            &&& forall|j: int|
                0 <= j < old(scanned)@.len() ==> (#[trigger] final(scanned)@[j]) == old(
                    scanned)@[j] || (final(scanned)@[j] is Latched && ended_well(
                    old(scanned)@[j],
                    observations@[j]@,
                    after_any_exit,
                ))
            &&& !(step is Terminal) ==> forall|j: int|
                0 <= j < old(scanned)@.len() && ended_well(
                    old(scanned)@[j],
                    observations@[j]@,
                    after_any_exit,
                ) ==> (#[trigger] final(scanned)@[j]) is Latched
        },
{
    let slots = old(scanned)@;
    let seen = observation_models(observations@);
    lemma_scan_fate(slots, seen, after_any_exit, slots.len());
    if kill is None && !deadline_passed {
        let scan = self::scanned(slots, seen, after_any_exit, slots.len());
        assert(final(scanned)@ == scan.slots);
        assert forall|j: int| 0 <= j < slots.len() implies #[trigger] seen[j] == observations@[j]@ by {}
        if step is AllLatched {
            assert forall|j: int| 0 <= j < slots.len() implies (#[trigger] slots[j]) is Latched
                || ended_well(slots[j], observations@[j]@, after_any_exit) by {
                assert(scan.slots[j] is Latched);
            }
        } else if forall|j: int|
            0 <= j < slots.len() ==> (#[trigger] slots[j]) is Latched || ended_well(
                slots[j],
                observations@[j]@,
                after_any_exit,
            ) {
            assert(scan.failure is None);
            assert forall|j: int| 0 <= j < scan.slots.len() implies (
            #[trigger] scan.slots[j]) is Latched by {
                assert(slots[j] is Latched || ended_well(slots[j], seen[j], after_any_exit));
            }
            assert(all_latched(scan.slots));
        }
    }
}

/// The first look treats every dependency as one that nobody has looked at, each bound to
/// its own session and run: the run is spawned at once only where every one of them ended
/// well, and where the wait goes on exactly those are settled.
pub proof fn law_first_look_settles_what_ended_well(
    after: Vec<DependencyBinding>,
    kill: Option<bool>,
    deadline_passed: bool,
    observations: &Vec<DependencyObservation>,
    after_any_exit: bool,
    outcome: FirstScanOutcome,
)
    requires
        observations@.len() == after@.len(),
        call_ensures(
            first_dependency_scan,
            (after, kill, deadline_passed, observations, after_any_exit),
            outcome,
        ),
    ensures
        outcome is ReadyToSpawn <==> kill is None && !deadline_passed && forall|j: int|
            0 <= j < after@.len() ==> #[trigger] ended_well(
                SlotModel::Pending { session: after@[j].session@, run_id: after@[j].run_id },
                observations@[j]@,
                after_any_exit,
            ),
        outcome matches FirstScanOutcome::Waiting(s) ==> s@.len() == after@.len() && forall|j: int|
            0 <= j < after@.len() ==> {
                let slot = SlotModel::Pending {
                    session: after@[j].session@,
                    run_id: after@[j].run_id,
                };
                if ended_well(slot, observations@[j]@, after_any_exit) {
                    (#[trigger] s@[j]) is Latched
                } else {
                    s@[j] == slot && under_way(slot, observations@[j]@)
                }
            },
        kill == Some(true) ==> (outcome matches FirstScanOutcome::Terminal { reason, .. } && reason
            == DepFailReason::KilledForced),
        kill == Some(false) ==> (outcome matches FirstScanOutcome::Terminal { reason, .. } && reason
            == DepFailReason::Killed),
        kill is None && deadline_passed ==> (outcome matches FirstScanOutcome::Terminal {
            reason,
            ..
        } && reason == DepFailReason::TimedOut),
        kill is None && !deadline_passed ==> (outcome matches FirstScanOutcome::Terminal {
            reason,
            ..
        } ==> reason == DepFailReason::Failed),
{
    let slots = fresh_slots(after@);
    let seen = observation_models(observations@);
    lemma_scan_fate(slots, seen, after_any_exit, slots.len());
    if kill is None && !deadline_passed {
        let scan = scanned(slots, seen, after_any_exit, slots.len());
        assert forall|j: int| 0 <= j < slots.len() implies #[trigger] seen[j] == observations@[j]@ by {}
        if outcome is ReadyToSpawn {
            assert forall|j: int| 0 <= j < after@.len() implies #[trigger] ended_well(
                SlotModel::Pending { session: after@[j].session@, run_id: after@[j].run_id },
                observations@[j]@,
                after_any_exit,
            ) by {
                assert(scan.slots[j] is Latched);
                assert(slots[j] is Pending);
            }
        } else if forall|j: int|
            0 <= j < after@.len() ==> #[trigger] ended_well(
                SlotModel::Pending { session: after@[j].session@, run_id: after@[j].run_id },
                observations@[j]@,
                after_any_exit,
            ) {
            assert forall|j: int| 0 <= j < slots.len() implies (#[trigger] slots[j]) is Latched
                || ended_well(slots[j], seen[j], after_any_exit) by {
                assert(ended_well(
                    SlotModel::Pending { session: after@[j].session@, run_id: after@[j].run_id },
                    observations@[j]@,
                    after_any_exit,
                ));
            }
            assert(all_latched(scan.slots));
        }
        if let FirstScanOutcome::Waiting(s) = outcome {
            assert forall|j: int| 0 <= j < after@.len() implies {
                let slot = SlotModel::Pending {
                    session: after@[j].session@,
                    run_id: after@[j].run_id,
                };
                if ended_well(slot, observations@[j]@, after_any_exit) {
                    (#[trigger] s@[j]) is Latched
                } else {
                    s@[j] == slot && under_way(slot, observations@[j]@)
                }
            } by {
                assert(slots[j] is Pending);
                assert(scan.slots[j] == s@[j]);
            }
        }
    }
}

/// Dependencies that failed are recorded with their reason, their warning and the time, on a
/// run that was starting.
pub proof fn law_failed_wait_is_recorded(
    meta: &mut Meta,
    reason: DepFailReason,
    warning: String,
    now: EpochTimestamp,
    result: Result<(), TransitionError>,
)
    requires
        call_ensures(fail_dependencies, (meta, reason, warning, now), result),
    ensures
        final(meta)@.warnings =~= old(meta)@.warnings.push(warning@),
        result is Ok <==> old(meta)@.status is Starting,
        result is Ok ==> final(meta)@.status == (RunStatus::DependencyFailed {
            ended_at: now,
            reason,
        }),
        result is Err ==> final(meta)@.status == old(meta)@.status,
{
}

/// What the first look came to is what is done: spawn, wait on with the very dependencies
/// that were looked at, or end the run with the reason and the warning.
pub proof fn law_first_look_is_acted_on(
    meta: &mut Meta,
    outcome: FirstScanOutcome,
    now: EpochTimestamp,
    action: Result<DepAction, TransitionError>,
)
    requires
        call_ensures(apply_first_scan_outcome, (meta, outcome, now), action),
    ensures
        outcome is ReadyToSpawn <==> action == Ok::<DepAction, TransitionError>(DepAction::Spawn),
        outcome matches FirstScanOutcome::Waiting(s) ==> action == Ok::<
            DepAction,
            TransitionError,
        >(DepAction::Wait(s)),
        !(outcome is Terminal) ==> final(meta)@ == old(meta)@,
        outcome matches FirstScanOutcome::Terminal { reason, warning } ==> {
            &&& final(meta)@.warnings =~= old(meta)@.warnings.push(warning@)
            &&& old(meta)@.status is Starting ==> action == Ok::<DepAction, TransitionError>(
                DepAction::ReturnTerminal,
            ) && final(meta)@.status == (RunStatus::DependencyFailed { ended_at: now, reason })
            &&& !(old(meta)@.status is Starting) ==> action is Err && final(meta)@.status == old(
                meta)@.status
        },
{
}

/// A dependency has to be observed exactly as long as it is pending, and then by its own
/// session and run.
pub proof fn law_pending_dependencies_are_observed(
    deps: &ScannedDependencies,
    n: usize,
    i: usize,
    binding: Option<&DependencyBinding>,
)
    requires
        call_ensures(ScannedDependencies::len, (deps,), n),
        i < deps@.len(),
        call_ensures(ScannedDependencies::pending, (deps, i), binding),
    ensures
        n == deps@.len(),
        binding is Some <==> deps@[i as int] is Pending,
        binding matches Some(b) ==> deps@[i as int] == (SlotModel::Pending {
            session: b.session@,
            run_id: b.run_id,
        }),
{
}

/// A kill request ends the wait, by force where it says so, and comes before the timeout;
/// without either the wait goes on. Each is told in its own words.
pub proof fn law_wait_is_ended_from_outside(
    kill: Option<bool>,
    deadline_passed: bool,
    end: Option<(DepFailReason, &'static str)>,
)
    requires
        call_ensures(preemption, (kill, deadline_passed), end),
    ensures
        end is None <==> kill is None && !deadline_passed,
        kill == Some(true) ==> (end matches Some((reason, message)) && reason is KilledForced
            && message@ == "force-killed during dependency wait"@),
        kill == Some(false) ==> (end matches Some((reason, message)) && reason is Killed && message@
            == "killed during dependency wait"@),
        kill is None && deadline_passed ==> (end matches Some((reason, message))
            && reason is TimedOut && message@ == "timeout expired during dependency wait"@),
{
}

} // verus!
