//! From the sidecar's first step to a spawned child.

use crate::model::ids::{uuid_text, EpochTimestamp, RunId};
use crate::model::meta::{Meta, MetaModel};
use crate::model::transition::{answered, outcome, Transition, TransitionError};
use crate::sidecar::dependencies::{
    apply_first_scan_outcome, dependency_failed, fail_dependencies, DepAction, FirstScanOutcome,
    ScanStep, ScannedDependencies, StepModel,
};
use crate::text::{decimal, parse_u64, parsed_u64, push_decimal, same_text, trim, trimmed};
use vstd::prelude::*;

verus! {

/// The generation of a session's first run.
pub const FIRST_GENERATION: u64 = 1;

// Where the session is.

/// Where a session directory lies: `root/<namespace>/<session>/`.
#[derive(Clone, Debug, PartialEq, Eq)]
pub struct SessionPlace {
    /// How many components of the path lead to the root.
    pub root: usize,
    pub namespace: String,
    pub session: String,
}

/// A component that names a directory: not the root, and no way up or around.
pub open spec fn is_dir_name(component: Seq<char>) -> bool {
    component != "/"@ && component != "."@ && component != ".."@
}

fn names_dir(component: &str) -> (yes: bool)
    ensures
        yes == is_dir_name(component@),
{
    !same_text(component, "/") && !same_text(component, ".") && !same_text(component, "..")
}

/// Where a session directory lies, by the components of its path. Its last two have to be
/// names.
pub fn locate_session(components: &Vec<String>) -> (place: Result<SessionPlace, &'static str>)
    ensures
        ({
            let n = components@.len();
            match place {
                Ok(p) => {
                    &&& n >= 2 && is_dir_name(components@[n - 1]@) && is_dir_name(
                        components@[n - 2]@,
                    )
                    &&& p.root == n - 2
                    &&& p.namespace@ == components@[n - 2]@
                    &&& p.session@ == components@[n - 1]@
                },
                Err(reason) => {
                    ||| (n == 0 || !is_dir_name(components@[n - 1]@)) && reason@
                        == "invalid session directory"@
                    ||| n > 0 && is_dir_name(components@[n - 1]@) && (n == 1 || !is_dir_name(
                        components@[n - 2]@,
                    )) && reason@ == "invalid namespace directory"@
                },
            }
        }),
{
    let n: usize = components.len();
    if n == 0 || !names_dir(components[n - 1].as_str()) {
        return Err("invalid session directory");
    }
    if n == 1 || !names_dir(components[n - 2].as_str()) {
        return Err("invalid namespace directory");
    }
    Ok(
        SessionPlace {
            root: n - 2,
            namespace: components[n - 2].clone(),
            session: components[n - 1].clone(),
        },
    )
}

/// The generation that a file's content names; the first where there is no file or
/// it holds no number.
pub fn generation_of(content: Option<&str>) -> (generation: u64)
    ensures
        generation == (match content {
            Some(text) => match parsed_u64(trimmed(text@)) {
                Some(n) => n as u64,
                None => FIRST_GENERATION,
            },
            None => FIRST_GENERATION,
        }),
{
    match content {
        Some(text) => match parse_u64(trim(text)) {
            Some(generation) => generation,
            None => FIRST_GENERATION,
        },
        None => FIRST_GENERATION,
    }
}

// The child's environment.

/// A variable and its value.
pub open spec fn pair_of(pair: (String, String)) -> (Seq<char>, Seq<char>) {
    (pair.0@, pair.1@)
}

pub open spec fn pairs_of(env: Seq<(String, String)>) -> Seq<(Seq<char>, Seq<char>)> {
    Seq::new(env.len(), |i: int| pair_of(env[i]))
}

/// Without any variable `name`.
pub open spec fn without_var(
    env: Seq<(Seq<char>, Seq<char>)>,
    name: Seq<char>,
) -> Seq<(Seq<char>, Seq<char>)>
    decreases env.len(),
{
    if env.len() == 0 {
        Seq::empty()
    } else {
        let head = without_var(env.drop_last(), name);
        if env.last().0 == name {
            head
        } else {
            head.push(env.last())
        }
    }
}

/// With `name` set to `value`, whatever it was.
pub open spec fn with_var(
    env: Seq<(Seq<char>, Seq<char>)>,
    name: Seq<char>,
    value: Seq<char>,
) -> Seq<(Seq<char>, Seq<char>)> {
    without_var(env, name).push((name, value))
}

/// The value of a variable: that of its last setting.
pub open spec fn lookup(env: Seq<(Seq<char>, Seq<char>)>, name: Seq<char>) -> Option<Seq<char>>
    decreases env.len(),
{
    if env.len() == 0 {
        None
    } else if env.last().0 == name {
        Some(env.last().1)
    } else {
        lookup(env.drop_last(), name)
    }
}

/// The run's own variables over what the user supplied.
pub open spec fn effective_env_of(
    env: Seq<(Seq<char>, Seq<char>)>,
    session: Seq<char>,
    namespace: Seq<char>,
    run_id: (u64, u64),
    generation: u64,
    session_dir: Seq<char>,
) -> Seq<(Seq<char>, Seq<char>)> {
    with_var(
        with_var(
            with_var(
                with_var(
                    with_var(env, "TENDR_SESSION"@, session),
                    "TENDR_NAMESPACE"@,
                    namespace,
                ),
                "TENDR_RUN_ID"@,
                uuid_text(run_id.0, run_id.1),
            ),
            "TENDR_GENERATION"@,
            decimal(generation as nat),
        ),
        "TENDR_SESSION_DIR"@,
        session_dir,
    )
}

/// Sets a variable, whatever it was.
fn set_var(env: Vec<(String, String)>, name: &str, value: String) -> (set: Vec<(String, String)>)
    ensures
        pairs_of(set@) == with_var(pairs_of(env@), name@, value@),
{
    let ghost all = pairs_of(env@);
    let mut rest = env;
    let mut set: Vec<(String, String)> = Vec::new();
    let ghost mut k: int = 0;
    proof {
        assert(all.skip(0) =~= all);
        assert(all.take(0) =~= Seq::empty());
        assert(pairs_of(set@) =~= Seq::empty());
    }
    while rest.len() > 0
        invariant
            0 <= k <= all.len(),
            pairs_of(rest@) == all.skip(k),
            pairs_of(set@) == without_var(all.take(k), name@),
        decreases rest@.len(),
    {
        let ghost before = rest@;
        let ghost so_far = set@;
        assert(pairs_of(before).len() == before.len());
        assert(pairs_of(before)[0] == all.skip(k)[0]);
        let pair = rest.remove(0);
        proof {
            assert(rest@ =~= before.skip(1));
            assert(pairs_of(rest@) =~= pairs_of(before).skip(1));
            assert(all.skip(k).skip(1) =~= all.skip(k + 1));
            assert(all.take(k + 1).drop_last() =~= all.take(k));
            assert(all.take(k + 1).last() == pair_of(pair));
        }
        if !same_text(pair.0.as_str(), name) {
            set.push(pair);
            assert(pairs_of(set@) =~= pairs_of(so_far).push(pair_of(pair)));
        }
        proof {
            k = k + 1;
        }
    }
    proof {
        assert(all.skip(k).len() == 0);
        assert(all.take(k) =~= all);
    }
    let ghost so_far = set@;
    set.push((name.to_owned(), value));
    assert(pairs_of(set@) =~= pairs_of(so_far).push((name@, value@)));
    set
}

/// The child's environment: what the user supplied, then the run's own variables,
/// which are authoritative.
pub fn effective_env(
    env: Vec<(String, String)>,
    session: &str,
    namespace: &str,
    run_id: RunId,
    generation: u64,
    session_dir: &str,
) -> (effective: Vec<(String, String)>)
    ensures
        pairs_of(effective@) == effective_env_of(
            pairs_of(env@),
            session@,
            namespace@,
            run_id@,
            generation,
            session_dir@,
        ),
{
    let mut generation_text = String::new();
    push_decimal(&mut generation_text, generation);
    assert(generation_text@ =~= decimal(generation as nat));
    let env = set_var(env, "TENDR_SESSION", session.to_owned());
    let env = set_var(env, "TENDR_NAMESPACE", namespace.to_owned());
    let env = set_var(env, "TENDR_RUN_ID", run_id.to_text());
    let env = set_var(env, "TENDR_GENERATION", generation_text);
    set_var(env, "TENDR_SESSION_DIR", session_dir.to_owned())
}

proof fn lemma_without_var(
    env: Seq<(Seq<char>, Seq<char>)>,
    name: Seq<char>,
    other: Seq<char>,
)
    ensures
        lookup(without_var(env, name), other) == (if other == name {
            None
        } else {
            lookup(env, other)
        }),
    decreases env.len(),
{
    if env.len() > 0 {
        lemma_without_var(env.drop_last(), name, other);
        let head = without_var(env.drop_last(), name);
        assert(head.push(env.last()).drop_last() =~= head);
    }
}

/// A variable that is set has that value, and no other variable changes.
pub proof fn law_set_var(
    env: Seq<(Seq<char>, Seq<char>)>,
    name: Seq<char>,
    value: Seq<char>,
    other: Seq<char>,
)
    ensures
        lookup(with_var(env, name, value), other) == (if other == name {
            Some(value)
        } else {
            lookup(env, other)
        }),
{
    lemma_without_var(env, name, other);
    assert(with_var(env, name, value).drop_last() =~= without_var(env, name));
}

/// The run's own variables are authoritative, whatever the user supplied, and every
/// other variable is what the user supplied.
pub proof fn law_run_variables_are_authoritative(
    env: Seq<(Seq<char>, Seq<char>)>,
    session: Seq<char>,
    namespace: Seq<char>,
    run_id: (u64, u64),
    generation: u64,
    session_dir: Seq<char>,
    other: Seq<char>,
)
    ensures
        ({
            let effective = effective_env_of(
                env,
                session,
                namespace,
                run_id,
                generation,
                session_dir,
            );
            &&& lookup(effective, "TENDR_SESSION"@) == Some(session)
            &&& lookup(effective, "TENDR_NAMESPACE"@) == Some(namespace)
            &&& lookup(effective, "TENDR_RUN_ID"@) == Some(uuid_text(run_id.0, run_id.1))
            &&& lookup(effective, "TENDR_GENERATION"@) == Some(decimal(generation as nat))
            &&& lookup(effective, "TENDR_SESSION_DIR"@) == Some(session_dir)
            &&& (other != "TENDR_SESSION"@ && other != "TENDR_NAMESPACE"@ && other
                != "TENDR_RUN_ID"@ && other != "TENDR_GENERATION"@ && other != "TENDR_SESSION_DIR"@)
                ==> lookup(effective, other) == lookup(env, other)
        }),
{
    reveal_strlit("TENDR_SESSION");
    reveal_strlit("TENDR_NAMESPACE");
    reveal_strlit("TENDR_RUN_ID");
    reveal_strlit("TENDR_GENERATION");
    reveal_strlit("TENDR_SESSION_DIR");
    let s = "TENDR_SESSION"@;
    let n = "TENDR_NAMESPACE"@;
    let r = "TENDR_RUN_ID"@;
    let g = "TENDR_GENERATION"@;
    let d = "TENDR_SESSION_DIR"@;
    assert(s.len() == 13 && n.len() == 15 && r.len() == 12 && g.len() == 16 && d.len() == 17);
    let e1 = with_var(env, s, session);
    let e2 = with_var(e1, n, namespace);
    let e3 = with_var(e2, r, uuid_text(run_id.0, run_id.1));
    let e4 = with_var(e3, g, decimal(generation as nat));
    assert forall|x: Seq<char>| true implies #[trigger] lookup(with_var(e4, d, session_dir), x)
        == (if x == d {
        Some(session_dir)
    } else if x == g {
        Some(decimal(generation as nat))
    } else if x == r {
        Some(uuid_text(run_id.0, run_id.1))
    } else if x == n {
        Some(namespace)
    } else if x == s {
        Some(session)
    } else {
        lookup(env, x)
    }) by {
        law_set_var(env, s, session, x);
        law_set_var(e1, n, namespace, x);
        law_set_var(e2, r, uuid_text(run_id.0, run_id.1), x);
        law_set_var(e3, g, decimal(generation as nat), x);
        law_set_var(e4, d, session_dir, x);
    }
}

// The way to the child.

/// How a run failed before there was a child.
#[derive(Clone, Copy, Debug, PartialEq, Eq, Structural)]
pub enum SpawnFault {
    /// The PTY session's attach socket could not be bound.
    AttachSocket,
    /// The child could not be spawned.
    Spawn,
}

impl SpawnFault {
    pub open spec fn text(self) -> Seq<char> {
        match self {
            SpawnFault::AttachSocket => "attach socket unavailable: "@,
            SpawnFault::Spawn => "spawn failed: "@,
        }
    }
}

/// A record on which the spawn has failed: with the warning, and ended where that
/// transition is legal.
pub open spec fn spawn_failed(
    before: MetaModel,
    fault: SpawnFault,
    error: Seq<char>,
    now: EpochTimestamp,
) -> MetaModel {
    let warned = MetaModel { warnings: before.warnings.push(fault.text() + error), ..before };
    match outcome(before.status, before.provenance, Transition::SpawnFailed { ended_at: now }) {
        Ok((status, provenance)) => MetaModel { status, provenance: Some(provenance), ..warned },
        Err(_) => warned,
    }
}

/// Records that the run ended before there was a child.
pub fn fail_spawn(meta: &mut Meta, fault: SpawnFault, error: &str, now: EpochTimestamp) -> (result:
    Result<(), TransitionError>)
    ensures
        final(meta)@ == spawn_failed(old(meta)@, fault, error@, now),
        answered(old(meta)@, Transition::SpawnFailed { ended_at: now }, result),
{
    let mut warning = match fault {
        SpawnFault::AttachSocket => "attach socket unavailable: ".to_owned(),
        SpawnFault::Spawn => "spawn failed: ".to_owned(),
    };
    warning.append(error);
    meta.add_warning(warning);
    meta.transition_spawn_failed(now)
}

/// How far the startup has come.
#[derive(Debug)]
pub enum StartupPhase {
    /// The record is `Starting`; nothing was scanned yet.
    Created,
    /// Readiness was signalled and dependencies are pending.
    Polling(ScannedDependencies),
    /// The attach socket is being bound.
    Binding,
    /// The child is being spawned.
    Spawning,
    /// The child is there: the lifecycle guard owns it.
    Spawned,
    /// The run ended before there was a child.
    Ended,
}

/// What to do next.
#[derive(Clone, Copy, Debug, PartialEq, Eq, Structural)]
pub enum StartupStep {
    /// Persist the record, so that the session is observable, and scan the
    /// dependencies once.
    Scan,
    /// Wait a little and scan again.
    Poll,
    /// Bind and publish the attach socket.
    BindSocket,
    /// Spawn the child.
    Spawn,
    /// Hand the child to the lifecycle guard.
    Adopt,
    /// Append the terminal event and persist the record; the run is over.
    Record,
    /// The same, and tell the client that waits for readiness.
    RecordAndSignal,
}

/// The startup of one run.
#[derive(Debug)]
pub struct Startup {
    pub is_pty: bool,
    pub phase: StartupPhase,
}

/// How the child is spawned: a PTY session's attach socket is bound and published
/// before the child exists, so a PTY session never runs without its listener.
pub open spec fn spawn_step(is_pty: bool) -> StartupStep {
    if is_pty {
        StartupStep::BindSocket
    } else {
        StartupStep::Spawn
    }
}

impl Startup {
    fn go_spawn(is_pty: bool) -> (next: (Startup, StartupStep))
        ensures
            next.0.is_pty == is_pty,
            next.1 == spawn_step(is_pty),
            is_pty ==> next.0.phase is Binding,
            !is_pty ==> next.0.phase is Spawning,
    {
        if is_pty {
            (Startup { is_pty, phase: StartupPhase::Binding }, StartupStep::BindSocket)
        } else {
            (Startup { is_pty, phase: StartupPhase::Spawning }, StartupStep::Spawn)
        }
    }

    /// The startup of a run that has dependencies or has none.
    pub fn new(is_pty: bool, has_dependencies: bool) -> (next: (Startup, StartupStep))
        ensures
            next.0.is_pty == is_pty,
            next.1 == (if has_dependencies {
                StartupStep::Scan
            } else {
                spawn_step(is_pty)
            }),
            has_dependencies ==> next.0.phase is Created,
            !has_dependencies ==> (is_pty ==> next.0.phase is Binding) && (!is_pty ==> next.0.phase
                is Spawning),
    {
        if has_dependencies {
            (Startup { is_pty, phase: StartupPhase::Created }, StartupStep::Scan)
        } else {
            Startup::go_spawn(is_pty)
        }
    }

    /// The first scan is done. Readiness fires only after it, through one funnel:
    /// whatever the step, the caller signals readiness before taking it, so that
    /// `start` returning proves that every dependency was inspected once or that a
    /// terminal condition was persisted.
    pub fn on_first_scan(self, meta: &mut Meta, scan: FirstScanOutcome, now: EpochTimestamp) -> (
    next: Result<(Startup, StartupStep), TransitionError>)
        requires
            self.phase is Created,
        ensures
            match scan {
                FirstScanOutcome::ReadyToSpawn => final(meta)@ == old(meta)@ && (next matches Ok((
                    s,
                    step,
                )) && step == spawn_step(self.is_pty) && (self.is_pty ==> s.phase is Binding) && (
                !self.is_pty ==> s.phase is Spawning) && s.is_pty == self.is_pty),
                FirstScanOutcome::Waiting(scanned) => final(meta)@ == old(meta)@ && (next matches Ok((
                    s,
                    step,
                )) && step == StartupStep::Poll && s.phase == StartupPhase::Polling(scanned)
                    && s.is_pty == self.is_pty),
                FirstScanOutcome::Terminal { reason, warning } => {
                    &&& final(meta)@ == dependency_failed(old(meta)@, reason, warning@, now)
                    &&& answered(
                        old(meta)@,
                        Transition::DependencyFailed { ended_at: now, reason },
                        next,
                    )
                    &&& next matches Ok((s, step)) ==> step == StartupStep::RecordAndSignal
                        && s.phase is Ended
                },
            },
    {
        let is_pty = self.is_pty;
        match apply_first_scan_outcome(meta, scan, now) {
            Ok(DepAction::Spawn) => Ok(Startup::go_spawn(is_pty)),
            Ok(DepAction::Wait(scanned)) => Ok(
                (Startup { is_pty, phase: StartupPhase::Polling(scanned) }, StartupStep::Poll),
            ),
            Ok(DepAction::ReturnTerminal) => Ok(
                (Startup { is_pty, phase: StartupPhase::Ended }, StartupStep::RecordAndSignal),
            ),
            Err(error) => Err(error),
        }
    }

    /// A scan while polling is done, which left `scanned`.
    pub fn on_poll(
        self,
        meta: &mut Meta,
        scanned: ScannedDependencies,
        scan: ScanStep,
        now: EpochTimestamp,
    ) -> (next: Result<(Startup, StartupStep), TransitionError>)
        ensures
            match scan@ {
                StepModel::AllLatched => final(meta)@ == old(meta)@ && (next matches Ok((s, step))
                    && step == spawn_step(self.is_pty) && (self.is_pty ==> s.phase is Binding) && (
                !self.is_pty ==> s.phase is Spawning) && s.is_pty == self.is_pty),
                StepModel::StillPending => final(meta)@ == old(meta)@ && (next matches Ok((s, step))
                    && step == StartupStep::Poll && s.phase == StartupPhase::Polling(scanned)
                    && s.is_pty == self.is_pty),
                StepModel::Terminal(reason, message) => {
                    &&& final(meta)@ == dependency_failed(old(meta)@, reason, message, now)
                    &&& answered(
                        old(meta)@,
                        Transition::DependencyFailed { ended_at: now, reason },
                        next,
                    )
                    &&& next matches Ok((s, step)) ==> step == StartupStep::Record && s.phase is Ended
                },
            },
    {
        let is_pty = self.is_pty;
        match scan {
            ScanStep::AllLatched => Ok(Startup::go_spawn(is_pty)),
            ScanStep::StillPending => Ok(
                (Startup { is_pty, phase: StartupPhase::Polling(scanned) }, StartupStep::Poll),
            ),
            ScanStep::Terminal(reason, message) => match fail_dependencies(
                meta,
                reason,
                message,
                now,
            ) {
                Ok(()) => Ok((Startup { is_pty, phase: StartupPhase::Ended }, StartupStep::Record)),
                Err(error) => Err(error),
            },
        }
    }

    /// The attach socket was bound, or could not be: that is a spawn failure, since
    /// there is no child yet.
    pub fn on_bound(self, meta: &mut Meta, bound: Result<(), String>, now: EpochTimestamp) -> (next:
        Result<(Startup, StartupStep), TransitionError>)
        requires
            self.phase is Binding,
        ensures
            match bound {
                Ok(_) => final(meta)@ == old(meta)@ && (next matches Ok((s, step)) && step
                    == StartupStep::Spawn && s.phase is Spawning && s.is_pty == self.is_pty),
                Err(error) => {
                    &&& final(meta)@ == spawn_failed(
                        old(meta)@,
                        SpawnFault::AttachSocket,
                        error@,
                        now,
                    )
                    &&& answered(old(meta)@, Transition::SpawnFailed { ended_at: now }, next)
                    &&& next matches Ok((s, step)) ==> step == StartupStep::RecordAndSignal
                        && s.phase is Ended
                },
            },
    {
        let is_pty = self.is_pty;
        match bound {
            Ok(()) => Ok((Startup { is_pty, phase: StartupPhase::Spawning }, StartupStep::Spawn)),
            Err(error) => match fail_spawn(meta, SpawnFault::AttachSocket, error.as_str(), now) {
                Ok(()) => Ok(
                    (Startup { is_pty, phase: StartupPhase::Ended }, StartupStep::RecordAndSignal),
                ),
                Err(refused) => Err(refused),
            },
        }
    }

    /// The child was spawned, or could not be.
    pub fn on_spawned(self, meta: &mut Meta, spawned: Result<(), String>, now: EpochTimestamp) -> (
    next: Result<(Startup, StartupStep), TransitionError>)
        requires
            self.phase is Spawning,
        ensures
            match spawned {
                Ok(_) => final(meta)@ == old(meta)@ && (next matches Ok((s, step)) && step
                    == StartupStep::Adopt && s.phase is Spawned && s.is_pty == self.is_pty),
                Err(error) => {
                    &&& final(meta)@ == spawn_failed(old(meta)@, SpawnFault::Spawn, error@, now)
                    &&& answered(old(meta)@, Transition::SpawnFailed { ended_at: now }, next)
                    &&& next matches Ok((s, step)) ==> step == StartupStep::RecordAndSignal
                        && s.phase is Ended
                },
            },
    {
        let is_pty = self.is_pty;
        match spawned {
            Ok(()) => Ok((Startup { is_pty, phase: StartupPhase::Spawned }, StartupStep::Adopt)),
            Err(error) => match fail_spawn(meta, SpawnFault::Spawn, error.as_str(), now) {
                Ok(()) => Ok(
                    (Startup { is_pty, phase: StartupPhase::Ended }, StartupStep::RecordAndSignal),
                ),
                Err(refused) => Err(refused),
            },
        }
    }
}

/// A run that ends before there is a child is recorded as such: where the record
/// was `Starting`, it is terminal behind any of the failures, names no child, and
/// carries the warning.
pub proof fn law_failed_startup_is_terminal(
    before: MetaModel,
    reason: crate::model::dep_fail::DepFailReason,
    fault: SpawnFault,
    message: Seq<char>,
    now: EpochTimestamp,
)
    requires
        before.status is Starting,
    ensures
        dependency_failed(before, reason, message, now).status.terminal(),
        dependency_failed(before, reason, message, now).status.child_of() is None,
        dependency_failed(before, reason, message, now).warnings == before.warnings.push(message),
        spawn_failed(before, fault, message, now).status.terminal(),
        spawn_failed(before, fault, message, now).status.child_of() is None,
        spawn_failed(before, fault, message, now).warnings == before.warnings.push(
            fault.text() + message,
        ),
{
}

// What each operation does, in terms of what it was given and what it gave back.

/// A session directory is the last component of its path, in the namespace that is the one
/// before it, under the root that all the others lead to. Both have to be names; the first
/// that is not, or is not there, is told.
pub proof fn law_sessions_are_located(
    components: Vec<String>,
    place: Result<SessionPlace, &'static str>,
)
    requires
        call_ensures(locate_session, (&components,), place),
    ensures
        ({
            let n = components@.len();
            let named = |c: Seq<char>| c != "/"@ && c != "."@ && c != ".."@;
            let session = n >= 1 && named(components@[n - 1]@);
            let namespace = n >= 2 && named(components@[n - 2]@);
            &&& place is Ok <==> session && namespace
            &&& place matches Ok(p) ==> p.root == n - 2 && p.session@ == components@[n - 1]@
                && p.namespace@ == components@[n - 2]@
            &&& place matches Err(reason) ==> reason@ == (if !session {
                "invalid session directory"@
            } else {
                "invalid namespace directory"@
            })
        }),
{
}

/// A generation is the number in the file, with white space around it or not, and one where
/// there is no number or no file.
pub proof fn law_generations(
    content: Option<&str>,
    generation: u64,
    text: &str,
    rest: &str,
    number: Option<u64>,
)
    requires
        call_ensures(generation_of, (content,), generation),
        content matches Some(c) ==> c@ == text@,
        call_ensures(trim, (text,), rest),
        call_ensures(parse_u64, (rest,), number),
    ensures
        content is None ==> generation == 1,
        content is Some && number is None ==> generation == 1,
        content is Some ==> (number matches Some(n) ==> generation == n),
{
}

/// The child finds the run's own variables as they are, whatever the user supplied, and
/// every other variable as the user supplied it.
pub proof fn law_child_environment(
    env: Vec<(String, String)>,
    session: &str,
    namespace: &str,
    run_id: RunId,
    generation: u64,
    session_dir: &str,
    effective: Vec<(String, String)>,
    other: Seq<char>,
)
    requires
        call_ensures(
            effective_env,
            (env, session, namespace, run_id, generation, session_dir),
            effective,
        ),
    ensures
        ({
            let found = |name: Seq<char>| lookup(pairs_of(effective@), name);
            &&& found("TENDR_SESSION"@) == Some(session@)
            &&& found("TENDR_NAMESPACE"@) == Some(namespace@)
            &&& found("TENDR_RUN_ID"@) == Some(uuid_text(run_id@.0, run_id@.1))
            &&& found("TENDR_GENERATION"@) == Some(decimal(generation as nat))
            &&& found("TENDR_SESSION_DIR"@) == Some(session_dir@)
            &&& (other != "TENDR_SESSION"@ && other != "TENDR_NAMESPACE"@ && other
                != "TENDR_RUN_ID"@ && other != "TENDR_GENERATION"@ && other
                != "TENDR_SESSION_DIR"@) ==> found(other) == lookup(pairs_of(env@), other)
        }),
{
    law_run_variables_are_authoritative(
        pairs_of(env@),
        session@,
        namespace@,
        run_id@,
        generation,
        session_dir@,
        other,
    );
}

/// A run that could not be spawned has a warning more, which says whether it was the socket
/// or the child, and why. A run that was starting is over then, at that time; any other is
/// as it was, and the refusal is handed on.
pub proof fn law_failed_spawns_are_recorded(
    meta: &mut Meta,
    fault: SpawnFault,
    error: &str,
    now: EpochTimestamp,
    result: Result<(), TransitionError>,
)
    requires
        call_ensures(fail_spawn, (meta, fault, error, now), result),
    ensures
        final(meta)@.warnings == old(meta)@.warnings.push(
            (match fault {
                SpawnFault::AttachSocket => "attach socket unavailable: "@,
                SpawnFault::Spawn => "spawn failed: "@,
            }) + error@,
        ),
        result is Ok <==> old(meta)@.status is Starting,
        old(meta)@.status is Starting ==> final(meta)@.status == (
        crate::model::state::RunStatus::SpawnFailed { ended_at: now }),
        !(old(meta)@.status is Starting) ==> final(meta)@.status == old(meta)@.status,
        final(meta)@.run_id == old(meta)@.run_id,
        final(meta)@.pty == old(meta)@.pty,
{
}

/// A run with dependencies scans them before anything else. Otherwise, and once they are
/// all met, the way to the child is open: a PTY run binds its socket first, any other
/// spawns at once.
pub proof fn law_way_to_the_child(
    is_pty: bool,
    has_dependencies: bool,
    first: (Startup, StartupStep),
    startup: Startup,
    meta: &mut Meta,
    scan: FirstScanOutcome,
    now: EpochTimestamp,
    next: Result<(Startup, StartupStep), TransitionError>,
)
    requires
        call_ensures(Startup::new, (is_pty, has_dependencies), first),
        startup.phase is Created,
        call_ensures(Startup::on_first_scan, (startup, meta, scan, now), next),
    ensures
        first.0.is_pty == is_pty,
        has_dependencies ==> first.1 is Scan && first.0.phase is Created,
        !has_dependencies && is_pty ==> first.1 is BindSocket && first.0.phase is Binding,
        !has_dependencies && !is_pty ==> first.1 is Spawn && first.0.phase is Spawning,
        scan is ReadyToSpawn ==> final(meta)@ == old(meta)@ && (next matches Ok((s, step))
            && s.is_pty == startup.is_pty && (if startup.is_pty {
            step is BindSocket && s.phase is Binding
        } else {
            step is Spawn && s.phase is Spawning
        })),
        scan matches FirstScanOutcome::Waiting(scanned) ==> final(meta)@ == old(meta)@ && (
        next matches Ok((s, step)) && step is Poll && s.is_pty == startup.is_pty && s.phase
            == StartupPhase::Polling(scanned)),
        scan matches FirstScanOutcome::Terminal { reason, warning } ==> {
            &&& final(meta)@.warnings == old(meta)@.warnings.push(warning@)
            &&& next is Ok <==> old(meta)@.status is Starting
            &&& next matches Ok((s, step)) ==> step is RecordAndSignal && s.phase is Ended && final(meta)@.status == (crate::model::state::RunStatus::DependencyFailed {
                ended_at: now,
                reason,
            })
        },
{
}

/// While dependencies are pending they are polled again; once they are met the child is on
/// its way; and where they end the run, that is recorded, with nobody to tell: readiness
/// was told before.
pub proof fn law_polling_goes_on_until_it_is_decided(
    startup: Startup,
    meta: &mut Meta,
    scanned: ScannedDependencies,
    scan: ScanStep,
    now: EpochTimestamp,
    next: Result<(Startup, StartupStep), TransitionError>,
)
    requires
        call_ensures(Startup::on_poll, (startup, meta, scanned, scan, now), next),
    ensures
        scan is AllLatched ==> final(meta)@ == old(meta)@ && (next matches Ok((s, step))
            && s.is_pty == startup.is_pty && (if startup.is_pty {
            step is BindSocket && s.phase is Binding
        } else {
            step is Spawn && s.phase is Spawning
        })),
        scan is StillPending ==> final(meta)@ == old(meta)@ && (next matches Ok((s, step))
            && step is Poll && s.is_pty == startup.is_pty && s.phase == StartupPhase::Polling(
            scanned,
        )),
        scan matches ScanStep::Terminal(reason, message) ==> {
            &&& final(meta)@.warnings == old(meta)@.warnings.push(message@)
            &&& next is Ok <==> old(meta)@.status is Starting
            &&& next matches Ok((s, step)) ==> step is Record && s.phase is Ended && final(meta)@.status == (crate::model::state::RunStatus::DependencyFailed {
                ended_at: now,
                reason,
            })
        },
{
}

/// A socket that was bound leads to the child, and a child that was spawned to its guard,
/// with the record as it was. Where either could not be, the run is over before it had a
/// child, with the warning for it, and whoever waits for readiness is told.
pub proof fn law_child_is_spawned_or_the_run_is_over(
    binding: Startup,
    bound_meta: &mut Meta,
    bound: Result<(), String>,
    after_bind: Result<(Startup, StartupStep), TransitionError>,
    spawning: Startup,
    spawned_meta: &mut Meta,
    spawned: Result<(), String>,
    after_spawn: Result<(Startup, StartupStep), TransitionError>,
    now: EpochTimestamp,
)
    requires
        binding.phase is Binding,
        spawning.phase is Spawning,
        call_ensures(Startup::on_bound, (binding, bound_meta, bound, now), after_bind),
        call_ensures(Startup::on_spawned, (spawning, spawned_meta, spawned, now), after_spawn),
    ensures
        bound is Ok ==> final(bound_meta)@ == old(bound_meta)@ && (after_bind matches Ok((s, step))
            && step is Spawn && s.phase is Spawning && s.is_pty == binding.is_pty),
        spawned is Ok ==> final(spawned_meta)@ == old(spawned_meta)@ && (
        after_spawn matches Ok((s, step)) && step is Adopt && s.phase is Spawned && s.is_pty
            == spawning.is_pty),
        bound matches Err(error) ==> {
            &&& final(bound_meta)@.warnings == old(bound_meta)@.warnings.push(
                "attach socket unavailable: "@ + error@,
            )
            &&& after_bind is Ok <==> old(bound_meta)@.status is Starting
            &&& after_bind matches Ok((s, step)) ==> step is RecordAndSignal && s.phase is Ended
                && final(bound_meta)@.status == (crate::model::state::RunStatus::SpawnFailed {
                ended_at: now,
            })
        },
        spawned matches Err(error) ==> {
            &&& final(spawned_meta)@.warnings == old(spawned_meta)@.warnings.push(
                "spawn failed: "@ + error@,
            )
            &&& after_spawn is Ok <==> old(spawned_meta)@.status is Starting
            &&& after_spawn matches Ok((s, step)) ==> step is RecordAndSignal && s.phase is Ended
                && final(spawned_meta)@.status == (crate::model::state::RunStatus::SpawnFailed {
                ended_at: now,
            })
        },
{
}

} // verus!
