//! The status of a run.

use crate::model::dep_fail::DepFailReason;
use crate::model::ids::{EpochTimestamp, ProcessIdentity};
use crate::text::same_text;
use vstd::prelude::*;

verus! {

/// An exit code that is not zero.
#[derive(Clone, Copy, Debug, PartialEq, Eq, Hash, Structural)]
pub struct ErrorCode(i32);

impl View for ErrorCode {
    type V = i32;

    closed spec fn view(&self) -> i32 {
        self.0
    }
}

/// An exit code is its number.
pub broadcast proof fn lemma_error_code_ext(a: ErrorCode, b: ErrorCode)
    ensures
        #[trigger] a@ == #[trigger] b@ <==> a == b,
{
}

impl ErrorCode {
    #[verifier::type_invariant]
    pub open spec fn valid(self) -> bool {
        self@ != 0
    }

    /// `None` for zero.
    pub fn new(code: i32) -> (error: Option<ErrorCode>)
        ensures
            error is Some <==> code != 0,
            error matches Some(e) ==> e@ == code,
    {
        if code == 0 {
            None
        } else {
            Some(ErrorCode(code))
        }
    }

    pub fn get(self) -> (code: i32)
        ensures
            code == self@,
            code != 0,
    {
        proof {
            use_type_invariant(&self);
        }
        self.0
    }
}

/// Current status of a run. State-specific fields live inside the variants,
/// making invalid combinations unrepresentable.
#[derive(Clone, Copy, Debug, PartialEq, Eq, Structural)]
pub enum RunStatus {
    /// Sidecar started, child not yet spawned.
    Starting,
    /// Child is alive and being supervised.
    Running { child: ProcessIdentity },
    /// Child failed to spawn. No child identity exists.
    SpawnFailed { ended_at: EpochTimestamp },
    /// Run ended after child was running. Child identity preserved.
    Exited { child: ProcessIdentity, how: ExitReason, ended_at: EpochTimestamp },
    /// Sidecar disappeared without writing terminal state.
    /// May or may not have had a child.
    SidecarLost { child: Option<ProcessIdentity>, ended_at: EpochTimestamp },
    /// Dependency wait phase failed before child was spawned.
    DependencyFailed { ended_at: EpochTimestamp, reason: DepFailReason },
}

/// How a running child exited. Only reachable from Running state.
#[derive(Clone, Copy, Debug, PartialEq, Eq, Structural)]
pub enum ExitReason {
    /// Child exited with code 0.
    ExitedOk,
    /// Child exited with non-zero code.
    ExitedError { code: ErrorCode },
    /// Child was killed gracefully (SIGTERM / cooperative shutdown).
    Killed,
    /// Child was force-killed (SIGKILL / TerminateJobObject).
    KilledForced,
    /// Child exceeded --timeout.
    TimedOut,
    /// The sidecar itself failed while supervising, killed the child, and
    /// recorded this directly. Contrast `RunStatus::SidecarLost`, which is
    /// inferred after the sidecar vanished without a word.
    SidecarFailed { step: SidecarStep },
}

/// The post-spawn step the sidecar was on when supervision failed. A stable
/// wire identifier (`"step": "output_log"`): add variants, never rename.
#[derive(Clone, Copy, Debug, PartialEq, Eq, Structural)]
pub enum SidecarStep {
    /// Writing the `child_pid` orphan breadcrumb.
    Breadcrumb,
    /// Creating the `--stdin` transport (FIFO / named pipe).
    StdinTransport,
    /// Binding the PTY attach socket.
    AttachBind,
    /// Persisting `Running` to `meta.json`.
    RunningMeta,
    /// Delivering readiness to the `start` client.
    Readiness,
    /// Opening `output.log` and capturing output.
    OutputLog,
    /// Waiting for the child's exit status.
    ChildWait,
}

impl SidecarStep {
    pub open spec fn text(self) -> Seq<char> {
        match self {
            SidecarStep::Breadcrumb => "breadcrumb"@,
            SidecarStep::StdinTransport => "stdin_transport"@,
            SidecarStep::AttachBind => "attach_bind"@,
            SidecarStep::RunningMeta => "running_meta"@,
            SidecarStep::Readiness => "readiness"@,
            SidecarStep::OutputLog => "output_log"@,
            SidecarStep::ChildWait => "child_wait"@,
        }
    }

    /// The wire name, as serialized.
    pub fn as_str(self) -> (name: &'static str)
        ensures
            name@ == self.text(),
    {
        match self {
            SidecarStep::Breadcrumb => "breadcrumb",
            SidecarStep::StdinTransport => "stdin_transport",
            SidecarStep::AttachBind => "attach_bind",
            SidecarStep::RunningMeta => "running_meta",
            SidecarStep::Readiness => "readiness",
            SidecarStep::OutputLog => "output_log",
            SidecarStep::ChildWait => "child_wait",
        }
    }

    /// The step with this wire name.
    pub open spec fn named(name: Seq<char>) -> Option<SidecarStep> {
        if name == "breadcrumb"@ {
            Some(SidecarStep::Breadcrumb)
        } else if name == "stdin_transport"@ {
            Some(SidecarStep::StdinTransport)
        } else if name == "attach_bind"@ {
            Some(SidecarStep::AttachBind)
        } else if name == "running_meta"@ {
            Some(SidecarStep::RunningMeta)
        } else if name == "readiness"@ {
            Some(SidecarStep::Readiness)
        } else if name == "output_log"@ {
            Some(SidecarStep::OutputLog)
        } else if name == "child_wait"@ {
            Some(SidecarStep::ChildWait)
        } else {
            None
        }
    }

    /// Parses a wire name back into a step.
    pub fn from_wire(name: &str) -> (step: Option<SidecarStep>)
        ensures
            step == SidecarStep::named(name@),
    {
        if same_text(name, "breadcrumb") {
            Some(SidecarStep::Breadcrumb)
        } else if same_text(name, "stdin_transport") {
            Some(SidecarStep::StdinTransport)
        } else if same_text(name, "attach_bind") {
            Some(SidecarStep::AttachBind)
        } else if same_text(name, "running_meta") {
            Some(SidecarStep::RunningMeta)
        } else if same_text(name, "readiness") {
            Some(SidecarStep::Readiness)
        } else if same_text(name, "output_log") {
            Some(SidecarStep::OutputLog)
        } else if same_text(name, "child_wait") {
            Some(SidecarStep::ChildWait)
        } else {
            None
        }
    }
}

/// A step's wire name is parsed back into the step, and nothing else is.
pub proof fn law_step_names_round_trip(step: SidecarStep, name: Seq<char>)
    ensures
        SidecarStep::named(step.text()) == Some(step),
        SidecarStep::named(name) matches Some(s) ==> s.text() == name,
{
    reveal_strlit("breadcrumb");
    reveal_strlit("stdin_transport");
    reveal_strlit("attach_bind");
    reveal_strlit("running_meta");
    reveal_strlit("readiness");
    reveal_strlit("output_log");
    reveal_strlit("child_wait");
    assert("breadcrumb"@[0] == 'b' && "stdin_transport"@[0] == 's' && "attach_bind"@[0] == 'a');
    assert("running_meta"@[1] == 'u' && "readiness"@[1] == 'e' && "output_log"@[0] == 'o');
    assert("running_meta"@[0] == 'r' && "readiness"@[0] == 'r' && "child_wait"@[0] == 'c');
}

impl RunStatus {
    pub open spec fn terminal(self) -> bool {
        !(self is Starting) && !(self is Running)
    }

    pub fn is_terminal(&self) -> (terminal: bool)
        ensures
            terminal == self.terminal(),
    {
        match self {
            RunStatus::Starting => false,
            RunStatus::Running { .. } => false,
            _ => true,
        }
    }

    pub open spec fn child_of(self) -> Option<ProcessIdentity> {
        match self {
            RunStatus::Running { child } => Some(child),
            RunStatus::Exited { child, .. } => Some(child),
            RunStatus::SidecarLost { child, .. } => child,
            _ => None,
        }
    }

    /// The child's identity, if available.
    pub fn child(&self) -> (child: Option<&ProcessIdentity>)
        ensures
            child == (match self.child_of() {
                Some(c) => Some(&c),
                None => None::<&ProcessIdentity>,
            }),
    {
        match self {
            RunStatus::Running { child } => Some(child),
            RunStatus::Exited { child, .. } => Some(child),
            RunStatus::SidecarLost { child, .. } => child.as_ref(),
            _ => None,
        }
    }

    pub open spec fn ended_at_of(self) -> Option<EpochTimestamp> {
        match self {
            RunStatus::Starting => None,
            RunStatus::Running { .. } => None,
            RunStatus::SpawnFailed { ended_at } => Some(ended_at),
            RunStatus::Exited { ended_at, .. } => Some(ended_at),
            RunStatus::SidecarLost { ended_at, .. } => Some(ended_at),
            RunStatus::DependencyFailed { ended_at, .. } => Some(ended_at),
        }
    }

    /// When the run ended, if it has.
    pub fn ended_at(&self) -> (ended_at: Option<&EpochTimestamp>)
        ensures
            ended_at == (match self.ended_at_of() {
                Some(at) => Some(&at),
                None => None::<&EpochTimestamp>,
            }),
            ended_at is Some <==> self.terminal(),
    {
        match self {
            RunStatus::Starting => None,
            RunStatus::Running { .. } => None,
            RunStatus::SpawnFailed { ended_at } => Some(ended_at),
            RunStatus::Exited { ended_at, .. } => Some(ended_at),
            RunStatus::SidecarLost { ended_at, .. } => Some(ended_at),
            RunStatus::DependencyFailed { ended_at, .. } => Some(ended_at),
        }
    }
}

// What a status says, by what it is made of.

/// A run has ended unless it is starting or running, and exactly then it has an end.
pub proof fn law_only_starting_and_running_go_on(
    status: &RunStatus,
    terminal: bool,
    ended_at: Option<&EpochTimestamp>,
)
    requires
        call_ensures(RunStatus::is_terminal, (status,), terminal),
        call_ensures(RunStatus::ended_at, (status,), ended_at),
    ensures
        terminal <==> !(status is Starting || status is Running),
        ended_at is Some <==> terminal,
        ended_at matches Some(at) ==> match *status {
            RunStatus::SpawnFailed { ended_at: e } => *at == e,
            RunStatus::Exited { ended_at: e, .. } => *at == e,
            RunStatus::SidecarLost { ended_at: e, .. } => *at == e,
            RunStatus::DependencyFailed { ended_at: e, .. } => *at == e,
            _ => false,
        },
{
}

/// The child of a run is the one that its status carries, and a run that never had one
/// has none.
pub proof fn law_child_is_what_the_status_carries(
    status: &RunStatus,
    child: Option<&ProcessIdentity>,
)
    requires
        call_ensures(RunStatus::child, (status,), child),
    ensures
        *status matches RunStatus::Running { child: c } ==> child == Some(&c),
        *status matches RunStatus::Exited { child: c, .. } ==> child == Some(&c),
        *status matches RunStatus::SidecarLost { child: c, .. } ==> (child is Some <==> c is Some)
            && (c matches Some(k) ==> child == Some(&k)),
        status is Starting || status is SpawnFailed || status is DependencyFailed ==> child is None,
{
}

/// An error code is the number that it was made from, which is any but zero.
pub proof fn law_error_code_is_its_number(code: i32, made: Option<ErrorCode>, number: i32)
    requires
        call_ensures(ErrorCode::new, (code,), made),
        made matches Some(e) ==> call_ensures(ErrorCode::get, (e,), number),
    ensures
        made is None <==> code == 0,
        made is Some ==> number == code,
{
}

/// The steps have these names on the wire, and no other name is a step.
pub proof fn law_step_wire_names(name: &str, step: Option<SidecarStep>)
    requires
        call_ensures(SidecarStep::from_wire, (name,), step),
    ensures
        step == Some(SidecarStep::Breadcrumb) <==> name@ == "breadcrumb"@,
        step == Some(SidecarStep::StdinTransport) <==> name@ == "stdin_transport"@,
        step == Some(SidecarStep::AttachBind) <==> name@ == "attach_bind"@,
        step == Some(SidecarStep::RunningMeta) <==> name@ == "running_meta"@,
        step == Some(SidecarStep::Readiness) <==> name@ == "readiness"@,
        step == Some(SidecarStep::OutputLog) <==> name@ == "output_log"@,
        step == Some(SidecarStep::ChildWait) <==> name@ == "child_wait"@,
{
    law_step_names_round_trip(SidecarStep::Breadcrumb, name@);
    law_step_names_round_trip(SidecarStep::StdinTransport, name@);
    law_step_names_round_trip(SidecarStep::AttachBind, name@);
    law_step_names_round_trip(SidecarStep::RunningMeta, name@);
    law_step_names_round_trip(SidecarStep::Readiness, name@);
    law_step_names_round_trip(SidecarStep::OutputLog, name@);
    law_step_names_round_trip(SidecarStep::ChildWait, name@);
}

/// Writing the name of a step and reading it back gives the step.
pub proof fn law_written_step_is_read_back(
    step: SidecarStep,
    name: &'static str,
    read: Option<SidecarStep>,
)
    requires
        call_ensures(SidecarStep::as_str, (step,), name),
        call_ensures(SidecarStep::from_wire, (name,), read),
    ensures
        read == Some(step),
{
    law_step_names_round_trip(step, name@);
}

} // verus!
