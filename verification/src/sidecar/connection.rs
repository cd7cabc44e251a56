//! Attach-socket connections: who is let in, and what each message leads to.
//!
//! The connection's owner reads, writes and waits; after each of these it tells
//! the connection what happened and does what it is told next.

use crate::attach_proto::{
    Mode, parse_resize, resize_of, INPUT_CLOSED, INPUT_REVOKED, INPUT_WRITTEN, MSG_DATA,
    MSG_DETACH, MSG_HELLO, MSG_RESIZE, PROTOCOL_VERSION,
};
use crate::bytes::be_at;
use crate::io_error::ErrorKind;
use crate::model::pty_control::{
    ControllerEpoch, IncompleteReason, InputOutcome, PendingModel,
};
use crate::pty_input::RequestError;
use crate::recording::Geometry;
use vstd::prelude::*;

verus! {

/// Maximum simultaneous attach connections, including ones awaiting a hello.
pub const MAX_ATTACH_CONNECTIONS: usize = 8;

/// A message that was read, or why none was.
pub type Message = Result<(u8, Vec<u8>), ErrorKind>;

/// What a message stands for.
pub open spec fn message_of(message: Message) -> Result<(u8, Seq<u8>), ErrorKind> {
    match message {
        Ok((msg_type, payload)) => Ok((msg_type, payload@)),
        Err(kind) => Err(kind),
    }
}

/// Whether a connection is let in, while `active` others are: only the run owner's
/// own processes may attach, and only so many at once.
pub fn let_in(peer_verified: bool, active: usize) -> (admitted: Result<(), &'static str>)
    ensures
        admitted is Ok <==> peer_verified && active < MAX_ATTACH_CONNECTIONS,
        admitted matches Err(reason) ==> reason@ == (if !peer_verified {
            "peer identity rejected"@
        } else {
            "too many attach connections"@
        }),
{
    if !peer_verified {
        return Err("peer identity rejected");
    }
    if active >= MAX_ATTACH_CONNECTIONS {
        return Err("too many attach connections");
    }
    Ok(())
}

/// What a connection's first message asks for, or why it is rejected.
pub open spec fn hello_mode(hello: Result<(u8, Seq<u8>), ErrorKind>) -> Result<Mode, Seq<char>> {
    match hello {
        Ok((msg_type, payload)) if msg_type == MSG_HELLO => if payload.len() == 2 && payload[0]
            == PROTOCOL_VERSION && Mode::of_byte(payload[1]) is Some {
            Ok(Mode::of_byte(payload[1])->0)
        } else {
            Err("unsupported attach protocol version or mode"@)
        },
        _ => Err("attach requires a protocol hello"@),
    }
}

/// What a connection's first message asks for, or why it is rejected.
pub fn read_hello(hello: &Message) -> (mode: Result<Mode, &'static str>)
    ensures
        match hello_mode(message_of(*hello)) {
            Ok(m) => mode == Ok::<Mode, &'static str>(m),
            Err(text) => mode matches Err(reason) && reason@ == text,
        },
{
    match hello {
        Ok((msg_type, payload)) => {
            if *msg_type != MSG_HELLO {
                return Err("attach requires a protocol hello");
            }
            if payload.len() == 2 && payload[0] == PROTOCOL_VERSION {
                if let Some(mode) = Mode::from_byte(payload[1]) {
                    return Ok(mode);
                }
            }
            Err("unsupported attach protocol version or mode")
        },
        Err(_) => Err("attach requires a protocol hello"),
    }
}

// An attach client.

/// How far an attach connection has come.
#[derive(Clone, Copy, Debug, PartialEq, Eq, Structural)]
pub enum AttachPhase {
    /// Nothing was read yet.
    Hello,
    /// Its entry in the registry is asked for, so that a takeover that lands right
    /// after the grant can still find and retire it.
    Registering { takeover: bool },
    /// Control is asked for.
    Asking,
    /// Control was granted and the reply is on its way, ahead of any output.
    Replying,
    /// Input and resizes are relayed.
    Relaying,
    /// Rejected, or handed to the push side: there is nothing to give up.
    Refused,
    /// To be closed, released ahead of queued input, and forgotten.
    Leaving,
}

/// What to do once the hello was read.
#[derive(Clone, Copy, Debug, PartialEq, Eq)]
pub enum AfterHello {
    Reject(&'static str),
    /// The client is a push: see [`PushConnection`].
    Push,
    Register,
}

/// What to do with a message while relaying.
#[derive(Clone, Debug, PartialEq, Eq)]
pub enum RelayStep {
    /// Queue these bytes for the PTY.
    Input(Vec<u8>),
    Resize(Geometry),
    /// Read on.
    Skip,
    Leave,
}

/// What a relayed message leads to.
pub enum RelayModel {
    Input(Seq<u8>),
    Resize(crate::recording::format::GeometryModel),
    Skip,
    Leave,
}

/// Detach, a closed connection and a protocol violation such as an oversized frame
/// all end the relay; a size that cannot be applied and an unknown message are
/// passed over.
pub open spec fn relayed(message: Result<(u8, Seq<u8>), ErrorKind>) -> RelayModel {
    match message {
        Err(_) => RelayModel::Leave,
        Ok((msg_type, payload)) => if msg_type == MSG_DATA {
            RelayModel::Input(payload)
        } else if msg_type == MSG_RESIZE {
            match resize_of(payload) {
                Some(size) => RelayModel::Resize(size),
                None => RelayModel::Skip,
            }
        } else if msg_type == MSG_DETACH {
            RelayModel::Leave
        } else {
            RelayModel::Skip
        },
    }
}

/// One attach connection: hello, claim or takeover through the input writer, then
/// relay of input and resizes until detach, disconnect, or retirement.
#[derive(Clone, Copy, Debug, PartialEq, Eq, Structural)]
pub struct AttachConnection {
    pub phase: AttachPhase,
}

impl AttachConnection {
    pub fn new() -> (connection: AttachConnection)
        ensures
            connection.phase == AttachPhase::Hello,
    {
        AttachConnection { phase: AttachPhase::Hello }
    }

    /// The first message was read.
    pub fn on_hello(&mut self, hello: &Message) -> (next: AfterHello)
        requires
            old(self).phase == AttachPhase::Hello,
        ensures
            match hello_mode(message_of(*hello)) {
                Err(text) => next matches AfterHello::Reject(reason) && reason@ == text && final(
                    self).phase == AttachPhase::Refused,
                Ok(Mode::Push) => next is Push && final(self).phase == AttachPhase::Refused,
                Ok(mode) => next is Register && final(self).phase == (AttachPhase::Registering {
                    takeover: mode == Mode::Takeover,
                }),
            },
    {
        match read_hello(hello) {
            Err(reason) => {
                self.phase = AttachPhase::Refused;
                AfterHello::Reject(reason)
            },
            Ok(Mode::Push) => {
                self.phase = AttachPhase::Refused;
                AfterHello::Push
            },
            Ok(Mode::Attach) => {
                self.phase = AttachPhase::Registering { takeover: false };
                AfterHello::Register
            },
            Ok(Mode::Takeover) => {
                self.phase = AttachPhase::Registering { takeover: true };
                AfterHello::Register
            },
        }
    }

    /// The registry took the connection, or refused it because the run has ended.
    /// Returns whether to take control over or to claim it, or why to reject.
    pub fn on_registered(&mut self, registered: bool) -> (takeover: Result<bool, &'static str>)
        requires
            old(self).phase is Registering,
        ensures
            registered ==> takeover == Ok::<bool, &'static str>(old(self).phase->takeover) && final(
                self).phase == AttachPhase::Asking,
            !registered ==> (takeover matches Err(reason) && reason@ == "session ended"@) && final(
                self).phase == AttachPhase::Refused,
    {
        let takeover = match self.phase {
            AttachPhase::Registering { takeover } => takeover,
            _ => false,
        };
        if registered {
            self.phase = AttachPhase::Asking;
            Ok(takeover)
        } else {
            self.phase = AttachPhase::Refused;
            Err("session ended")
        }
    }

    /// Control was granted at an epoch, which is the reply, or refused: then the
    /// connection is forgotten and rejected with the reason.
    pub fn on_granted(&mut self, granted: Result<ControllerEpoch, RequestError>) -> (reply: Result<
        ControllerEpoch,
        String,
    >)
        requires
            old(self).phase == AttachPhase::Asking,
        ensures
            match granted {
                Ok(epoch) => reply == Ok::<ControllerEpoch, String>(epoch) && final(self).phase
                    == AttachPhase::Replying,
                Err(error) => (reply matches Err(reason) && reason@ == error.text()) && final(
                    self).phase == AttachPhase::Refused,
            },
    {
        match granted {
            Ok(epoch) => {
                self.phase = AttachPhase::Replying;
                Ok(epoch)
            },
            Err(error) => {
                self.phase = AttachPhase::Refused;
                Err(error.message())
            },
        }
    }

    /// The reply was sent, or could not be. Returns whether to install the viewer
    /// and relay.
    pub fn on_replied(&mut self, sent: bool) -> (relay: bool)
        requires
            old(self).phase == AttachPhase::Replying,
        ensures
            relay == sent,
            final(self).phase == (if sent {
                AttachPhase::Relaying
            } else {
                AttachPhase::Leaving
            }),
    {
        if sent {
            self.phase = AttachPhase::Relaying;
        } else {
            self.phase = AttachPhase::Leaving;
        }
        sent
    }

    /// A message was read while relaying, or reading failed.
    pub fn on_message(&mut self, message: Message) -> (step: RelayStep)
        requires
            old(self).phase == AttachPhase::Relaying,
        ensures
            match relayed(message_of(message)) {
                RelayModel::Input(bytes) => step matches RelayStep::Input(b) && b@ == bytes,
                RelayModel::Resize(size) => step matches RelayStep::Resize(g) && g@ == size,
                RelayModel::Skip => step is Skip,
                RelayModel::Leave => step is Leave,
            },
            final(self).phase == (if step is Leave {
                AttachPhase::Leaving
            } else {
                AttachPhase::Relaying
            }),
    {
        match message {
            Err(_) => {
                self.phase = AttachPhase::Leaving;
                RelayStep::Leave
            },
            Ok((msg_type, payload)) => {
                if msg_type == MSG_DATA {
                    RelayStep::Input(payload)
                } else if msg_type == MSG_RESIZE {
                    match parse_resize(payload.as_slice()) {
                        Some(size) => RelayStep::Resize(size),
                        None => RelayStep::Skip,
                    }
                } else if msg_type == MSG_DETACH {
                    self.phase = AttachPhase::Leaving;
                    RelayStep::Leave
                } else {
                    RelayStep::Skip
                }
            },
        }
    }

    /// Input was queued, or given up because the client has left behind a full
    /// queue.
    pub fn on_queued(&mut self, queued: bool)
        requires
            old(self).phase == AttachPhase::Relaying,
        ensures
            final(self).phase == (if queued {
                AttachPhase::Relaying
            } else {
                AttachPhase::Leaving
            }),
    {
        if !queued {
            self.phase = AttachPhase::Leaving;
        }
    }
}

// A push.

/// How far a push has come.
#[derive(Clone, Copy, Debug, PartialEq, Eq, Structural)]
pub enum PushPhase {
    Registering,
    Asking,
    Replying,
    /// The next frame is read.
    Reading,
    /// A frame is being written to the PTY.
    Writing,
    /// The end of the input is being confirmed.
    Ending,
    Over,
}

/// How a push ended, as its client is told.
#[derive(Clone, Copy, Debug, PartialEq, Eq, Structural)]
pub struct PushReport {
    pub status: u8,
    /// Bytes written to the PTY.
    pub accepted: u64,
    /// Bytes that were read from the client.
    pub received: u64,
    /// Control may still be held and has to be given up.
    pub disconnect: bool,
}

/// What to do next.
#[derive(Clone, Debug, PartialEq, Eq)]
pub enum PushStep {
    /// Read the next frame.
    Read,
    /// Queue these bytes for the PTY and wait for their outcome.
    Write(Vec<u8>),
    /// Release control once everything queued is written, and wait for that.
    End,
    /// Forget the connection and tell the client.
    Report(PushReport),
    /// The client is gone: forget it, shut the connection down and cancel what it
    /// has queued. There is nobody to report to.
    Gone,
}

/// How waiting for one push write ended.
#[derive(Clone, Copy, Debug, PartialEq, Eq, Structural)]
pub enum PushWrite {
    Done(InputOutcome),
    WriterGone,
    ClientGone,
}

/// One acknowledged agent push: claim control if nobody holds it, write each
/// received frame before reading the next (so the client feels the PTY's
/// backpressure), and report exactly what was written.
#[derive(Clone, Copy, Debug, PartialEq, Eq, Structural)]
pub struct PushConnection {
    pub phase: PushPhase,
    pub accepted: u64,
    pub received: u64,
    /// Bytes of the frame that is being written.
    pub in_flight: u64,
}

/// The outcome is one that a request of `n` bytes can have.
pub open spec fn outcome_of_request(outcome: InputOutcome, n: u64) -> bool {
    match outcome {
        InputOutcome::Accepted { bytes, .. } => bytes == n,
        InputOutcome::Incomplete { accepted, total, .. } => accepted < total && total == n,
    }
}

/// Whatever outcome a request reaches, it is one that a request of its bytes can have: a
/// push may rely on what the input writer answers.
pub proof fn law_outcomes_fit_their_requests(pending: PendingModel, outcome: InputOutcome)
    requires
        pending.wf(),
        pending.outcome == Some(outcome),
    ensures
        outcome_of_request(outcome, pending.bytes.len() as u64),
{
}

impl PushConnection {
    /// Everything received before the frame in flight was written.
    pub open spec fn wf(self) -> bool {
        match self.phase {
            PushPhase::Writing => self.accepted + self.in_flight == self.received,
            PushPhase::Over => self.accepted <= self.received,
            _ => self.accepted == self.received && self.in_flight == 0,
        }
    }

    /// The end with `status`.
    pub open spec fn reported(self, status: u8) -> PushReport {
        PushReport {
            status,
            accepted: self.accepted,
            received: self.received,
            disconnect: status != INPUT_WRITTEN,
        }
    }

    pub open spec fn at(self, phase: PushPhase) -> PushConnection {
        PushConnection { phase, ..self }
    }

    pub fn new() -> (connection: PushConnection)
        ensures
            connection == (PushConnection {
                phase: PushPhase::Registering,
                accepted: 0,
                received: 0,
                in_flight: 0,
            }),
            connection.wf(),
    {
        PushConnection { phase: PushPhase::Registering, accepted: 0, received: 0, in_flight: 0 }
    }

    /// The registry took the connection, or refused it because the run has ended:
    /// then it is rejected with the reason. Otherwise control is claimed.
    pub fn on_registered(&mut self, registered: bool) -> (claim: Result<(), &'static str>)
        requires
            old(self).phase == PushPhase::Registering,
            old(self).wf(),
        ensures
            final(self).wf(),
            claim is Ok <==> registered,
            claim matches Err(reason) ==> reason@ == "session ended"@,
            *final(self) == old(self).at(if registered {
                PushPhase::Asking
            } else {
                PushPhase::Over
            }),
    {
        if registered {
            self.phase = PushPhase::Asking;
            Ok(())
        } else {
            self.phase = PushPhase::Over;
            Err("session ended")
        }
    }

    /// Control was granted at an epoch, which is the reply, or refused: then the
    /// connection is forgotten and rejected with the reason.
    pub fn on_granted(&mut self, granted: Result<ControllerEpoch, RequestError>) -> (reply: Result<
        ControllerEpoch,
        String,
    >)
        requires
            old(self).phase == PushPhase::Asking,
            old(self).wf(),
        ensures
            final(self).wf(),
            match granted {
                Ok(epoch) => reply == Ok::<ControllerEpoch, String>(epoch) && *final(self) == old(
                    self).at(PushPhase::Replying),
                Err(error) => (reply matches Err(reason) && reason@ == error.text()) && *final(self)
                    == old(self).at(PushPhase::Over),
            },
    {
        match granted {
            Ok(epoch) => {
                self.phase = PushPhase::Replying;
                Ok(epoch)
            },
            Err(error) => {
                self.phase = PushPhase::Over;
                Err(error.message())
            },
        }
    }

    /// The reply was sent, or could not be.
    pub fn on_replied(&mut self, sent: bool) -> (step: PushStep)
        requires
            old(self).phase == PushPhase::Replying,
            old(self).wf(),
        ensures
            final(self).wf(),
            sent ==> step is Read && *final(self) == old(self).at(PushPhase::Reading),
            !sent ==> step is Gone && *final(self) == old(self).at(PushPhase::Over),
    {
        if sent {
            self.phase = PushPhase::Reading;
            PushStep::Read
        } else {
            self.phase = PushPhase::Over;
            PushStep::Gone
        }
    }

    /// A message was read, or reading failed; `revoked` tells whether a takeover has
    /// retired this push, which also wakes it from reading. Without that, a client
    /// that cannot be read from has vanished or broken the protocol.
    pub fn on_message(&mut self, message: Message, revoked: bool) -> (step: PushStep)
        requires
            old(self).phase == PushPhase::Reading,
            old(self).wf(),
            message matches Ok((_, payload)) ==> old(self).received + payload@.len() <= u64::MAX,
        ensures
            final(self).wf(),
            match message_of(message) {
                Err(_) => if revoked {
                    step == PushStep::Report(old(self).reported(INPUT_REVOKED)) && *final(self)
                        == old(self).at(PushPhase::Over)
                } else {
                    step is Gone && *final(self) == old(self).at(PushPhase::Over)
                },
                Ok((msg_type, payload)) => if msg_type == MSG_DATA && payload.len() > 0 {
                    (step matches PushStep::Write(bytes) && bytes@ == payload) && *final(self) == (
                    PushConnection {
                        phase: PushPhase::Writing,
                        received: (old(self).received + payload.len()) as u64,
                        in_flight: payload.len() as u64,
                        ..*old(self)
                    })
                } else if msg_type == MSG_DETACH {
                    step is End && *final(self) == old(self).at(PushPhase::Ending)
                } else {
                    step is Read && *final(self) == *old(self)
                },
            },
    {
        match message {
            Err(_) => {
                self.phase = PushPhase::Over;
                if revoked {
                    PushStep::Report(self.report(INPUT_REVOKED))
                } else {
                    PushStep::Gone
                }
            },
            Ok((msg_type, payload)) => {
                if msg_type == MSG_DATA {
                    if payload.len() == 0 {
                        // An empty frame writes nothing.
                        return PushStep::Read;
                    }
                    self.received = self.received + payload.len() as u64;
                    self.in_flight = payload.len() as u64;
                    self.phase = PushPhase::Writing;
                    PushStep::Write(payload)
                } else if msg_type == MSG_DETACH {
                    self.phase = PushPhase::Ending;
                    PushStep::End
                } else {
                    PushStep::Read
                }
            },
        }
    }

    /// The frame in flight was written, or its write ended early.
    pub fn on_written(&mut self, written: PushWrite) -> (step: PushStep)
        requires
            old(self).phase == PushPhase::Writing,
            old(self).wf(),
            written matches PushWrite::Done(outcome) ==> outcome_of_request(
                outcome,
                old(self).in_flight,
            ),
        ensures
            final(self).wf(),
            match written {
                PushWrite::Done(InputOutcome::Accepted { bytes, .. }) => step is Read && *final(
                    self) == (PushConnection {
                    phase: PushPhase::Reading,
                    accepted: (old(self).accepted + bytes) as u64,
                    in_flight: 0,
                    ..*old(self)
                }),
                PushWrite::Done(InputOutcome::Incomplete { accepted, reason, .. }) => {
                    &&& *final(self) == (PushConnection {
                        phase: PushPhase::Over,
                        accepted: (old(self).accepted + accepted) as u64,
                        ..*old(self)
                    })
                    &&& step == PushStep::Report(
                        final(self).reported(
                            if reason is NotAuthorized {
                                INPUT_REVOKED
                            } else {
                                INPUT_CLOSED
                            },
                        ),
                    )
                },
                PushWrite::WriterGone => step == PushStep::Report(
                    old(self).reported(INPUT_CLOSED),
                ) && *final(self) == old(self).at(PushPhase::Over),
                PushWrite::ClientGone => step is Gone && *final(self) == old(self).at(
                    PushPhase::Over,
                ),
            },
    {
        match written {
            PushWrite::Done(InputOutcome::Accepted { bytes, .. }) => {
                self.accepted = self.accepted + bytes as u64;
                self.in_flight = 0;
                self.phase = PushPhase::Reading;
                PushStep::Read
            },
            PushWrite::Done(InputOutcome::Incomplete { accepted, reason, .. }) => {
                self.accepted = self.accepted + accepted as u64;
                self.phase = PushPhase::Over;
                let status: u8 = match reason {
                    IncompleteReason::NotAuthorized(_) => INPUT_REVOKED,
                    _ => INPUT_CLOSED,
                };
                PushStep::Report(self.report(status))
            },
            PushWrite::WriterGone => {
                self.phase = PushPhase::Over;
                PushStep::Report(self.report(INPUT_CLOSED))
            },
            PushWrite::ClientGone => {
                self.phase = PushPhase::Over;
                PushStep::Gone
            },
        }
    }

    /// The input ended; `released` tells whether control was still held then. Every
    /// earlier frame was written before the next was read, so nothing was queued.
    pub fn on_ended(&mut self, released: bool) -> (report: PushReport)
        requires
            old(self).phase == PushPhase::Ending,
            old(self).wf(),
        ensures
            final(self).wf(),
            *final(self) == old(self).at(PushPhase::Over),
            report == old(self).reported(
                if released {
                    INPUT_WRITTEN
                } else {
                    INPUT_REVOKED
                },
            ),
            report.accepted == report.received,
    {
        self.phase = PushPhase::Over;
        self.report(
            if released {
                INPUT_WRITTEN
            } else {
                INPUT_REVOKED
            },
        )
    }

    fn report(&self, status: u8) -> (report: PushReport)
        ensures
            report == self.reported(status),
    {
        PushReport {
            status,
            accepted: self.accepted,
            received: self.received,
            disconnect: status != INPUT_WRITTEN,
        }
    }
}

/// What a wait for a write's outcome has come to.
#[derive(Clone, Copy, Debug, PartialEq, Eq, Structural)]
pub enum Waited {
    Outcome(InputOutcome),
    /// The writer dropped the request.
    Disconnected,
    Timeout,
}

/// What to do about it.
#[derive(Clone, Copy, Debug, PartialEq, Eq, Structural)]
pub enum AfterWait {
    Ended(PushWrite),
    /// The client has vanished: cancel the write, wait for its outcome, and end as
    /// [`PushWrite::ClientGone`].
    Cancel,
    WaitOn,
}

/// Waiting for a push write, watching for the client to vanish. A retired push shut
/// its own read side down; its write outcome is what ends the wait, not a hang-up.
pub fn await_push_write(waited: Waited, revoked: bool, hung_up: bool) -> (next: AfterWait)
    ensures
        next == (match waited {
            Waited::Outcome(outcome) => AfterWait::Ended(PushWrite::Done(outcome)),
            Waited::Disconnected => AfterWait::Ended(PushWrite::WriterGone),
            Waited::Timeout => if !revoked && hung_up {
                AfterWait::Cancel
            } else {
                AfterWait::WaitOn
            },
        }),
{
    match waited {
        Waited::Outcome(outcome) => AfterWait::Ended(PushWrite::Done(outcome)),
        Waited::Disconnected => AfterWait::Ended(PushWrite::WriterGone),
        Waited::Timeout => if !revoked && hung_up {
            AfterWait::Cancel
        } else {
            AfterWait::WaitOn
        },
    }
}

/// A report that every byte was written is true, and a report of anything else
/// never claims more than was received.
pub proof fn law_push_report_is_exact(p: PushConnection, status: u8)
    requires
        p.wf(),
    ensures
        p.phase == PushPhase::Ending ==> p.reported(INPUT_WRITTEN).accepted == p.reported(
            INPUT_WRITTEN,
        ).received,
        p.reported(status).accepted <= p.reported(status).received,
{
}

// Pushed stdin of a PTY session that comes through the stdin transport.

/// What to do behind a chunk of pushed stdin.
#[derive(Clone, Copy, Debug, PartialEq, Eq)]
pub enum StdinStep {
    /// Read on and forward.
    Forward,
    /// Read on and discard: the push was rejected or revoked.
    Discard,
    /// Stop forwarding, with a warning.
    Stop(&'static str),
}

/// Whether a push's next chunk is forwarded, after the outcome of the one before.
/// A push that cannot claim or whose claim is revoked has its remaining bytes
/// drained and discarded, never written to the PTY.
pub fn after_stdin_write(outcome: Option<InputOutcome>) -> (step: StdinStep)
    ensures
        match outcome {
            Some(InputOutcome::Accepted { .. }) => step is Forward,
            Some(InputOutcome::Incomplete { reason: IncompleteReason::NotAuthorized(_), .. }) => {
                step is Discard
            },
            _ => step matches StdinStep::Stop(warning) && warning@
                == "stdin forwarding: child stdin closed"@,
        },
{
    match outcome {
        Some(InputOutcome::Accepted { .. }) => StdinStep::Forward,
        Some(InputOutcome::Incomplete { reason, .. }) => match reason {
            IncompleteReason::NotAuthorized(_) => StdinStep::Discard,
            _ => StdinStep::Stop("stdin forwarding: child stdin closed"),
        },
        None => StdinStep::Stop("stdin forwarding: child stdin closed"),
    }
}

/// The warning for a push that could not claim control.
pub fn push_rejected_warning(error: RequestError) -> (warning: String)
    ensures
        warning@ == "push rejected: "@ + error.text(),
{
    let mut warning = "push rejected: ".to_owned();
    warning.append(error.message().as_str());
    warning
}

// What each operation does, in terms of what it was given and what it gave back.

/// A connection is let in where its peer is this user's own and fewer than eight are in.
pub proof fn law_connections_let_in(
    peer_verified: bool,
    active: usize,
    admitted: Result<(), &'static str>,
)
    requires
        call_ensures(let_in, (peer_verified, active), admitted),
    ensures
        admitted is Ok <==> peer_verified && active < 8,
        !peer_verified ==> (admitted matches Err(reason) && reason@ == "peer identity rejected"@),
        peer_verified && active >= 8 ==> (admitted matches Err(reason) && reason@
            == "too many attach connections"@),
{
}

/// A connection opens with a hello: a message of that type, of two bytes, the version and
/// one of the modes. It is told apart whether it was none, or one that is not understood.
pub proof fn law_connections_open_with_a_hello(
    hello: Message,
    mode: Result<Mode, &'static str>,
)
    requires
        call_ensures(read_hello, (&hello,), mode),
    ensures
        mode is Ok <==> (hello matches Ok((t, p)) && t == 4 && p@.len() == 2 && p@[0] == 1 && 1
            <= p@[1] <= 3),
        mode matches Ok(m) ==> (hello->Ok_0).1@[1] == (match m {
            Mode::Attach => 1u8,
            Mode::Takeover => 2,
            Mode::Push => 3,
        }),
        mode matches Err(reason) ==> reason@ == (if hello is Ok && (hello->Ok_0).0 == 4 {
            "unsupported attach protocol version or mode"@
        } else {
            "attach requires a protocol hello"@
        }),
{
}

/// An attach connection goes from its hello to the registry, from there to the question of
/// control, from there to the reply, and from there to relaying; wherever it is refused it
/// is over, with the reason that its client is told, and where the reply cannot be sent it
/// leaves. What it asks for is what its hello said.
pub proof fn law_attach_connection_goes_step_by_step(
    fresh: AttachConnection,
    greeting: &mut AttachConnection,
    hello: Message,
    mode: Result<Mode, &'static str>,
    next: AfterHello,
    registering: &mut AttachConnection,
    registered: bool,
    takeover: Result<bool, &'static str>,
    asking: &mut AttachConnection,
    granted: Result<ControllerEpoch, RequestError>,
    reply: Result<ControllerEpoch, String>,
    said: String,
    replying: &mut AttachConnection,
    sent: bool,
    relay: bool,
)
    requires
        call_ensures(AttachConnection::new, (), fresh),
        old(greeting).phase is Hello,
        call_ensures(read_hello, (&hello,), mode),
        call_ensures(AttachConnection::on_hello, (greeting, &hello), next),
        old(registering).phase is Registering,
        call_ensures(AttachConnection::on_registered, (registering, registered), takeover),
        old(asking).phase is Asking,
        call_ensures(AttachConnection::on_granted, (asking, granted), reply),
        granted matches Err(error) ==> call_ensures(RequestError::message, (&error,), said),
        old(replying).phase is Replying,
        call_ensures(AttachConnection::on_replied, (replying, sent), relay),
    ensures
        fresh.phase is Hello,
        mode matches Err(reason) ==> final(greeting).phase is Refused && (
        next matches AfterHello::Reject(told) && told@ == reason@),
        mode matches Ok(m) ==> match m {
            Mode::Push => next is Push && final(greeting).phase is Refused,
            Mode::Attach => next is Register && final(greeting).phase == (AttachPhase::Registering {
                takeover: false,
            }),
            Mode::Takeover => next is Register && final(greeting).phase == (
            AttachPhase::Registering { takeover: true }),
        },
        registered ==> (takeover matches Ok(t) && t == old(registering).phase->takeover) && final(registering).phase is Asking,
        !registered ==> (takeover matches Err(reason) && reason@ == "session ended"@) && final(registering).phase is Refused,
        granted matches Ok(epoch) ==> (reply matches Ok(e) && e == epoch) && final(asking).phase is Replying,
        granted is Err ==> (reply matches Err(reason) && reason@ == said@) && final(asking).phase is Refused,
        sent ==> relay && final(replying).phase is Relaying,
        !sent ==> !relay && final(replying).phase is Leaving,
{
}

/// While it relays, a connection passes input and sizes on as they came, leaves where its
/// client detaches or cannot be read from, or where its input was given up, and passes over
/// anything else.
pub proof fn law_attach_connection_relays(
    connection: &mut AttachConnection,
    message: Message,
    step: RelayStep,
    queueing: &mut AttachConnection,
    queued: bool,
)
    requires
        old(connection).phase is Relaying,
        call_ensures(AttachConnection::on_message, (connection, message), step),
        old(queueing).phase is Relaying,
        call_ensures(AttachConnection::on_queued, (queueing, queued), ()),
    ensures
        message is Err ==> step is Leave,
        message matches Ok((t, p)) ==> {
            let sized = p@.len() >= 4 && be_at(p@, 0, 2) as u16 != 0 && be_at(p@, 2, 2) as u16 != 0;
            &&& t == 1 ==> (step matches RelayStep::Input(bytes) && bytes@ == p@)
            &&& t == 2 && sized ==> (step matches RelayStep::Resize(size) && size@.rows == be_at(
                p@,
                0,
                2,
            ) as u16 && size@.cols == be_at(p@, 2, 2) as u16)
            &&& t == 2 && !sized ==> step is Skip
            &&& t == 3 ==> step is Leave
            &&& t != 1 && t != 2 && t != 3 ==> step is Skip
        },
        step is Leave ==> final(connection).phase is Leaving,
        !(step is Leave) ==> final(connection).phase is Relaying,
        queued ==> final(queueing).phase is Relaying,
        !queued ==> final(queueing).phase is Leaving,
{
}

/// A push goes from the registry to the question of control, to the reply, and to its first
/// frame; wherever it is refused, or its client is gone, it is over. It starts with nothing
/// received and nothing accepted, and none of this changes that.
pub proof fn law_push_starts_step_by_step(
    fresh: PushConnection,
    registering: &mut PushConnection,
    registered: bool,
    claim: Result<(), &'static str>,
    asking: &mut PushConnection,
    granted: Result<ControllerEpoch, RequestError>,
    reply: Result<ControllerEpoch, String>,
    said: String,
    replying: &mut PushConnection,
    sent: bool,
    step: PushStep,
)
    requires
        call_ensures(PushConnection::new, (), fresh),
        old(registering).phase is Registering && old(registering).wf(),
        call_ensures(PushConnection::on_registered, (registering, registered), claim),
        old(asking).phase is Asking && old(asking).wf(),
        call_ensures(PushConnection::on_granted, (asking, granted), reply),
        granted matches Err(error) ==> call_ensures(RequestError::message, (&error,), said),
        old(replying).phase is Replying && old(replying).wf(),
        call_ensures(PushConnection::on_replied, (replying, sent), step),
    ensures
        fresh.phase is Registering && fresh.accepted == 0 && fresh.received == 0 && fresh.in_flight
            == 0,
        registered ==> claim is Ok && final(registering).phase is Asking,
        !registered ==> (claim matches Err(reason) && reason@ == "session ended"@) && final(registering).phase is Over,
        granted matches Ok(epoch) ==> (reply matches Ok(e) && e == epoch) && final(asking).phase is Replying,
        granted is Err ==> (reply matches Err(reason) && reason@ == said@) && final(asking).phase is Over,
        sent ==> step is Read && final(replying).phase is Reading,
        !sent ==> step is Gone && final(replying).phase is Over,
        final(registering).accepted == old(registering).accepted && final(registering).received
            == old(registering).received,
        final(asking).accepted == old(asking).accepted && final(asking).received == old(asking).received,
        final(replying).accepted == old(replying).accepted && final(replying).received == old(replying).received,
{
}

/// A frame of data is received and written whole, and only one at a time; the client's
/// detach ends the input. A client that cannot be read from is told of the takeover where
/// there was one, and is gone otherwise. Anything else is passed over.
pub proof fn law_push_receives_frame_by_frame(
    push: &mut PushConnection,
    message: Message,
    revoked: bool,
    step: PushStep,
)
    requires
        old(push).phase is Reading && old(push).wf(),
        message matches Ok((_, payload)) ==> old(push).received + payload@.len() <= u64::MAX,
        call_ensures(PushConnection::on_message, (push, message, revoked), step),
    ensures
        final(push).accepted == old(push).accepted,
        message matches Ok((t, p)) ==> (if t == 1 && p@.len() > 0 {
            &&& step matches PushStep::Write(bytes)
            &&& bytes@ == p@
            &&& final(push).phase is Writing
            &&& final(push).received == old(push).received + p@.len()
            &&& final(push).in_flight == p@.len()
        } else if t == 3 {
            step is End && final(push).phase is Ending && final(push).received == old(push).received
        } else {
            step is Read && *final(push) == *old(push)
        }),
        message is Err ==> final(push).phase is Over && final(push).received == old(push).received,
        message is Err && !revoked ==> step is Gone,
        message is Err && revoked ==> (step matches PushStep::Report(report) && report.status == 1
            && report.accepted == old(push).accepted && report.received == old(push).received
            && report.disconnect),
{
}

/// A frame that was written counts, and the next is read. One that was not written in full
/// ends the push, with what of it was: as revoked where its handle no longer authorized it,
/// as closed otherwise. A writer that is gone closes it, and a client that is gone is told
/// nothing. Nothing more is received by any of it.
pub proof fn law_push_counts_what_was_written(
    push: &mut PushConnection,
    written: PushWrite,
    step: PushStep,
)
    requires
        old(push).phase is Writing && old(push).wf(),
        written matches PushWrite::Done(outcome) ==> outcome_of_request(
            outcome,
            old(push).in_flight,
        ),
        call_ensures(PushConnection::on_written, (push, written), step),
    ensures
        final(push).received == old(push).received,
        match written {
            PushWrite::Done(InputOutcome::Accepted { .. }) => step is Read && final(push).phase is Reading && final(push).accepted == old(push).received && final(push).in_flight == 0,
            PushWrite::Done(InputOutcome::Incomplete { accepted, reason, .. }) => {
                &&& final(push).phase is Over
                &&& final(push).accepted == old(push).accepted + accepted
                &&& step matches PushStep::Report(report)
                &&& report.status == (if reason is NotAuthorized {
                    1u8
                } else {
                    2
                })
                &&& report.accepted == old(push).accepted + accepted
                &&& report.received == old(push).received
                &&& report.disconnect
            },
            PushWrite::WriterGone => final(push).phase is Over && (step matches PushStep::Report(
                report,
            ) && report.status == 2 && report.accepted == old(push).accepted && report.received
                == old(push).received && report.disconnect),
            PushWrite::ClientGone => step is Gone && final(push).phase is Over && final(push).accepted == old(push).accepted,
        },
{
}

/// A push that ended is told as written where control was still held, and as revoked
/// otherwise; either way with all that it received as accepted. Only one that was written
/// has nothing to give up.
pub proof fn law_push_end_is_told(push: &mut PushConnection, released: bool, report: PushReport)
    requires
        old(push).phase is Ending && old(push).wf(),
        call_ensures(PushConnection::on_ended, (push, released), report),
    ensures
        final(push).phase is Over,
        report.received == old(push).received && report.accepted == old(push).received,
        released ==> report.status == 0 && !report.disconnect,
        !released ==> report.status == 1 && report.disconnect,
{
}

/// A write is waited for until it has an outcome or the writer is gone; it is cancelled only
/// where its client has hung up and was not retired.
pub proof fn law_push_write_is_waited_for(
    waited: Waited,
    revoked: bool,
    hung_up: bool,
    next: AfterWait,
)
    requires
        call_ensures(await_push_write, (waited, revoked, hung_up), next),
    ensures
        waited matches Waited::Outcome(outcome) ==> next == AfterWait::Ended(
            PushWrite::Done(outcome),
        ),
        waited is Disconnected ==> next == AfterWait::Ended(PushWrite::WriterGone),
        waited is Timeout ==> (next is Cancel <==> hung_up && !revoked),
        waited is Timeout ==> (next is WaitOn <==> !hung_up || revoked),
{
}

/// Pushed stdin is forwarded on while it is accepted, discarded once it is not authorized
/// any more, and stopped where there is no outcome or another one. A push that could not
/// claim control is told why.
pub proof fn law_stdin_is_forwarded_while_accepted(
    outcome: Option<InputOutcome>,
    step: StdinStep,
    error: RequestError,
    said: String,
    warning: String,
)
    requires
        call_ensures(after_stdin_write, (outcome,), step),
        call_ensures(RequestError::message, (&error,), said),
        call_ensures(push_rejected_warning, (error,), warning),
    ensures
        step is Forward <==> (outcome matches Some(o) && o is Accepted),
        step is Discard <==> (outcome matches Some(InputOutcome::Incomplete { reason, .. })
            && reason is NotAuthorized),
        step matches StdinStep::Stop(told) ==> told@ == "stdin forwarding: child stdin closed"@,
        warning@ == "push rejected: "@ + said@,
{
}

} // verus!
