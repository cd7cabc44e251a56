//! What is recorded of a PTY session.

use vstd::prelude::*;

verus! {

/// Who currently controls input to a PTY session.
///
/// - start --pty: agent control
/// - attach: human control (steals from the agent)
/// - human detach: agent control (always, no lease check)
#[derive(Clone, Copy, Debug, PartialEq, Eq, Structural)]
pub enum PtyControl {
    /// Agent owns input: push is accepted.
    AgentControl,
    /// Human is attached: push is rejected, terminal relay is active.
    HumanControl,
}

/// PTY session metadata. Present only for PTY-enabled sessions.
#[derive(Clone, Debug, PartialEq, Eq)]
pub struct PtyMeta {
    pub enabled: bool,
    pub control: PtyControl,
    /// The run's exact recording, when one was started.
    pub recording: Option<PtyRecording>,
}

impl PtyMeta {
    /// Enabled, controlled by the agent, not recorded.
    pub fn new() -> (meta: PtyMeta)
        ensures
            meta == (PtyMeta { enabled: true, control: PtyControl::AgentControl, recording: None }),
    {
        PtyMeta { enabled: true, control: PtyControl::AgentControl, recording: None }
    }
}

impl Default for PtyMeta {
    fn default() -> (meta: PtyMeta)
        ensures
            meta == (PtyMeta { enabled: true, control: PtyControl::AgentControl, recording: None }),
    {
        PtyMeta::new()
    }
}

/// A PTY run's recording policy and state, as the sidecar last reported them.
#[derive(Clone, Debug, PartialEq, Eq)]
pub struct PtyRecording {
    /// The segment directory, relative to the session directory.
    pub dir: String,
    /// Whether input bytes are recorded. Output and geometry always are.
    pub input_recorded: bool,
    pub state: RecordingState,
}

/// Where a recording stands. Sequences are recording sequence numbers.
#[derive(Clone, Debug, PartialEq, Eq)]
pub enum RecordingState {
    /// Records are being appended.
    Recording,
    /// The run ended with everything it produced recorded.
    Complete { last_recorded_sequence: Option<u64>, last_synced_sequence: Option<u64> },
    /// Recording ended before the run did. Nothing after
    /// `last_recorded_sequence` is recorded.
    Stopped {
        last_recorded_sequence: Option<u64>,
        /// Known once the run has ended.
        last_synced_sequence: Option<u64>,
        reason: RecordingStopReason,
    },
}

/// Why a recording stopped early.
#[derive(Clone, Debug, PartialEq, Eq)]
pub enum RecordingStopReason {
    /// The run reached its recording size limit.
    SizeLimit,
    /// Storage rejected a write, sync, or segment publication.
    WriteFailed {
        /// The storage error.
        error: String,
    },
    /// Storage fell too far behind the output.
    BacklogFull,
    /// Storage had not caught up when the run ended.
    Stalled,
}

/// A session's PTY starts out with the agent in control, so that input can be pushed.
pub proof fn law_agent_controls_a_new_pty(meta: PtyMeta)
    requires
        call_ensures(PtyMeta::new, (), meta),
    ensures
        meta.enabled,
        meta.control == PtyControl::AgentControl,
        meta.recording is None,
{
}

} // verus!
