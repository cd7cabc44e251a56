//! `push`: stdin for a running session.

use crate::attach_proto::{Frame, FrameError, FrameModel, PushOutcome, Reply, ReplyModel};
use crate::io_error::ErrorKind;
use crate::model::meta::Meta;
use crate::model::pty::PtyControl;
use crate::model::state::RunStatus;
use crate::text::{decimal, push_decimal};
use vstd::prelude::*;

verus! {

/// Where a push goes.
#[derive(Clone, Copy, Debug, PartialEq, Eq, Structural)]
pub enum PushRoute {
    /// The attach socket, which reports exactly what reached the terminal.
    AttachSocket,
    /// The stdin transport of a pipe session.
    Stdin,
}

/// Where a push to a session goes, or why there is none: it needs a running session
/// that was started with `--stdin` and that no human is attached to.
pub fn push_route(meta: &Meta, stdin_pipe: bool) -> (route: Result<PushRoute, &'static str>)
    ensures
        match route {
            Ok(r) => {
                &&& meta@.status is Running
                &&& meta@.pty matches Some(pty) ==> pty.control != PtyControl::HumanControl
                &&& stdin_pipe
                &&& r == if meta@.pty is Some {
                    PushRoute::AttachSocket
                } else {
                    PushRoute::Stdin
                }
            },
            Err(reason) => {
                ||| !(meta@.status is Running) && reason@ == "session is not running"@
                ||| meta@.status is Running && (meta@.pty matches Some(pty) && pty.control
                    == PtyControl::HumanControl) && reason@ == "session is under human control"@
                ||| meta@.status is Running && (meta@.pty matches Some(pty) ==> pty.control
                    != PtyControl::HumanControl) && !stdin_pipe && reason@
                    == "session was not started with --stdin"@
            },
        },
{
    match *meta.status() {
        RunStatus::Running { .. } => {},
        _ => return Err("session is not running"),
    }
    if let Some(pty) = meta.pty() {
        if pty.control == PtyControl::HumanControl {
            return Err("session is under human control");
        }
    }
    if !stdin_pipe {
        return Err("session was not started with --stdin");
    }
    if meta.pty().is_some() {
        Ok(PushRoute::AttachSocket)
    } else {
        Ok(PushRoute::Stdin)
    }
}

/// What to do when the stdin transport could not be opened.
#[derive(Clone, Copy, Debug, PartialEq, Eq, Structural)]
pub enum OpenRetry {
    /// Nobody reads yet: try again.
    Again,
    /// The session ended before the push could connect.
    SessionExited,
    Fail,
}

/// What to do when the stdin transport could not be opened while the session is
/// still running or not.
pub fn after_open_failure(kind: ErrorKind, running: bool) -> (next: OpenRetry)
    ensures
        next == (if kind != ErrorKind::ConnectionRefused {
            OpenRetry::Fail
        } else if running {
            OpenRetry::Again
        } else {
            OpenRetry::SessionExited
        }),
{
    if kind != ErrorKind::ConnectionRefused {
        OpenRetry::Fail
    } else if running {
        OpenRetry::Again
    } else {
        OpenRetry::SessionExited
    }
}

/// Why the session did not accept a push; `None` where it did. `detail` describes
/// the reply.
pub open spec fn refusal_of(reply: ReplyModel, detail: Seq<char>) -> Option<Seq<char>> {
    match reply {
        ReplyModel::Frame(FrameModel::Accepted(_)) => None,
        ReplyModel::Frame(FrameModel::Rejected(reason)) => Some("push refused: "@ + reason),
        ReplyModel::Frame(_) => Some("unexpected push reply "@ + detail),
        ReplyModel::Bad(FrameError::Unknown(msg_type)) => Some(
            "the session replied with attach message type "@ + decimal(msg_type as nat)
                + ", which this tendr does not know; it may be newer"@,
        ),
        _ => Some(
            "the session did not accept the push ("@ + detail
                + "); it may predate acknowledged push"@,
        ),
    }
}

/// Whether the session's reply to the hello lets the push go on.
pub fn push_accepted(reply: &Reply, detail: &str) -> (accepted: Result<(), String>)
    ensures
        match refusal_of(reply@, detail@) {
            None => accepted is Ok,
            Some(text) => accepted matches Err(message) && message@ == text,
        },
{
    let mut message = String::new();
    match reply {
        Reply::Frame(Frame::Accepted(_)) => return Ok(()),
        Reply::Frame(Frame::Rejected(reason)) => {
            message.append("push refused: ");
            message.append(reason.as_str());
        },
        Reply::Frame(_) => {
            message.append("unexpected push reply ");
            message.append(detail);
        },
        Reply::Bad(FrameError::Unknown(msg_type)) => {
            message.append("the session replied with attach message type ");
            push_decimal(&mut message, *msg_type as u64);
            message.append(", which this tendr does not know; it may be newer");
        },
        _ => {
            message.append("the session did not accept the push (");
            message.append(detail);
            message.append("); it may predate acknowledged push");
        },
    }
    assert(message@ =~= refusal_of(reply@, detail@)->0);
    Err(message)
}

/// Every byte of stdin was written: all of it was sent, and as much was accepted.
pub open spec fn every_byte_written(accepted: u64, sent: u64, all_sent: bool) -> bool {
    all_sent && accepted == sent
}

/// Why a push failed; `None` where it succeeded.
pub open spec fn push_failure(outcome: PushOutcome, sent: u64, all_sent: bool) -> Option<
    Seq<char>,
> {
    match outcome {
        PushOutcome::Written { .. } => None,
        PushOutcome::Revoked(p) => if every_byte_written(p.accepted, sent, all_sent) {
            None
        } else {
            Some(
                "push revoked after "@ + decimal(p.accepted as nat) + " of "@ + decimal(sent as nat)
                    + " bytes: another client took control of the terminal"@,
            )
        },
        PushOutcome::Closed(p) => if every_byte_written(p.accepted, sent, all_sent) {
            None
        } else {
            Some(
                "push stopped after "@ + decimal(p.accepted as nat) + " of "@ + decimal(sent as nat)
                    + " bytes: the session stopped accepting input"@,
            )
        },
    }
}

/// The push's result from the session's `outcome`, given that `sent` bytes
/// were sent and `all_sent` is whether stdin was sent to its end.
///
/// Success means every byte was written. A push stopped after its last byte was
/// written (a takeover while its end marker was still on its way) wrote them
/// all, so it succeeds whatever the outcome.
pub fn push_outcome(outcome: PushOutcome, sent: u64, all_sent: bool) -> (result: Result<
    (),
    String,
>)
    ensures
        match push_failure(outcome, sent, all_sent) {
            None => result is Ok,
            Some(text) => result matches Err(message) && message@ == text,
        },
{
    let mut message = String::new();
    match outcome {
        PushOutcome::Written { .. } => return Ok(()),
        PushOutcome::Revoked(p) => {
            if all_sent && p.accepted == sent {
                return Ok(());
            }
            message.append("push revoked after ");
            push_decimal(&mut message, p.accepted);
            message.append(" of ");
            push_decimal(&mut message, sent);
            message.append(" bytes: another client took control of the terminal");
        },
        PushOutcome::Closed(p) => {
            if all_sent && p.accepted == sent {
                return Ok(());
            }
            message.append("push stopped after ");
            push_decimal(&mut message, p.accepted);
            message.append(" of ");
            push_decimal(&mut message, sent);
            message.append(" bytes: the session stopped accepting input");
        },
    }
    assert(message@ =~= push_failure(outcome, sent, all_sent)->0);
    Err(message)
}

/// What a reply behind the last byte comes to: an outcome is the push's result,
/// other messages are passed over, and a closed connection or a malformed message,
/// which `detail` describes, is a failure.
pub fn push_reply(reply: &Reply, detail: &str, sent: u64, all_sent: bool) -> (result: Option<
    Result<(), String>,
>)
    ensures
        match reply@ {
            ReplyModel::Frame(FrameModel::InputDone(outcome)) => match push_failure(
                outcome,
                sent,
                all_sent,
            ) {
                None => result matches Some(Ok(_)),
                Some(text) => result matches Some(Err(message)) && message@ == text,
            },
            ReplyModel::Frame(_) => result is None,
            ReplyModel::Bad(FrameError::Unknown(_)) => result is None,
            ReplyModel::Bad(FrameError::Malformed(_)) => result matches Some(Err(message))
                && message@ == "malformed push outcome from the session: "@ + detail@,
            ReplyModel::Closed => result matches Some(Err(message)) && message@
                == "the session closed the push without reporting an outcome after "@ + decimal(
                sent as nat,
            ) + " bytes ("@ + detail@ + ")"@,
        },
{
    match reply {
        Reply::Frame(Frame::InputDone(outcome)) => Some(push_outcome(*outcome, sent, all_sent)),
        Reply::Frame(_) => None,
        Reply::Bad(FrameError::Unknown(_)) => None,
        Reply::Bad(FrameError::Malformed(_)) => {
            let mut message = "malformed push outcome from the session: ".to_owned();
            message.append(detail);
            Some(Err(message))
        },
        Reply::Closed => {
            let mut message =
                "the session closed the push without reporting an outcome after ".to_owned();
            push_decimal(&mut message, sent);
            message.append(" bytes (");
            message.append(detail);
            message.append(")");
            assert(message@ =~= "the session closed the push without reporting an outcome after "@
                + decimal(sent as nat) + " bytes ("@ + detail@ + ")"@);
            Some(Err(message))
        },
    }
}

/// A push succeeds exactly where the session reports every byte written, or reports
/// as many accepted as were sent, all of stdin among them.
pub proof fn law_push_succeeds_iff_written(outcome: PushOutcome, sent: u64, all_sent: bool)
    ensures
        push_failure(outcome, sent, all_sent) is None <==> (match outcome {
            PushOutcome::Written { .. } => true,
            PushOutcome::Revoked(p) => all_sent && p.accepted == sent,
            PushOutcome::Closed(p) => all_sent && p.accepted == sent,
        }),
{
}

// What each operation does, in terms of what it was given and what it gave back.

/// A push goes to a running session that takes input and that no human controls: through
/// the attach socket where it has a PTY, to its stdin otherwise. Where it cannot, the first
/// of these that fails is told.
pub proof fn law_push_routes(
    meta: Meta,
    stdin_pipe: bool,
    route: Result<PushRoute, &'static str>,
)
    requires
        call_ensures(push_route, (&meta, stdin_pipe), route),
    ensures
        ({
            let human = meta@.pty matches Some(pty) && pty.control is HumanControl;
            &&& route is Ok <==> meta@.status is Running && !human && stdin_pipe
            &&& route matches Ok(r) ==> (r is AttachSocket <==> meta@.pty is Some)
            &&& route matches Err(reason) ==> reason@ == (if !(meta@.status is Running) {
                "session is not running"@
            } else if human {
                "session is under human control"@
            } else {
                "session was not started with --stdin"@
            })
        }),
{
}

/// A transport that nobody reads yet is tried again while the session runs. Where it does
/// not any more, the session has exited; any other failure is one.
pub proof fn law_open_is_tried_again(kind: ErrorKind, running: bool, next: OpenRetry)
    requires
        call_ensures(after_open_failure, (kind, running), next),
    ensures
        next is Again <==> kind is ConnectionRefused && running,
        next is SessionExited <==> kind is ConnectionRefused && !running,
{
}

/// A push goes on exactly where the session accepts it; otherwise it is told why it was
/// refused, or what else came back.
pub proof fn law_push_replies_to_the_hello(
    reply: Reply,
    detail: &str,
    accepted: Result<(), String>,
)
    requires
        call_ensures(push_accepted, (&reply, detail), accepted),
    ensures
        accepted is Ok <==> (reply matches Reply::Frame(frame) && frame is Accepted),
        accepted matches Err(message) ==> match reply {
            Reply::Frame(Frame::Rejected(reason)) => message@ == "push refused: "@ + reason@,
            Reply::Frame(_) => message@ == "unexpected push reply "@ + detail@,
            Reply::Bad(FrameError::Unknown(t)) => message@
                == "the session replied with attach message type "@ + decimal(t as nat)
                + ", which this tendr does not know; it may be newer"@,
            _ => message@ == "the session did not accept the push ("@ + detail@
                + "); it may predate acknowledged push"@,
        },
{
}

/// A push succeeded where every byte of it was written, whatever ended it; otherwise it is
/// told how many of how many were, and whether another client or the session stopped it.
pub proof fn law_push_results(
    outcome: PushOutcome,
    sent: u64,
    all_sent: bool,
    result: Result<(), String>,
)
    requires
        call_ensures(push_outcome, (outcome, sent, all_sent), result),
    ensures
        ({
            let written = match outcome {
                PushOutcome::Written { .. } => true,
                PushOutcome::Revoked(p) => all_sent && p.accepted == sent,
                PushOutcome::Closed(p) => all_sent && p.accepted == sent,
            };
            &&& result is Ok <==> written
            &&& result matches Err(message) ==> match outcome {
                PushOutcome::Revoked(p) => message@ == "push revoked after "@ + decimal(
                    p.accepted as nat,
                ) + " of "@ + decimal(sent as nat)
                    + " bytes: another client took control of the terminal"@,
                PushOutcome::Closed(p) => message@ == "push stopped after "@ + decimal(
                    p.accepted as nat,
                ) + " of "@ + decimal(sent as nat)
                    + " bytes: the session stopped accepting input"@,
                PushOutcome::Written { .. } => false,
            }
        }),
{
}

/// Behind the last byte only an outcome, a message that cannot be understood and the end of
/// the connection decide; an outcome decides as it does by itself.
pub proof fn law_push_waits_for_its_outcome(
    reply: Reply,
    detail: &str,
    sent: u64,
    all_sent: bool,
    result: Option<Result<(), String>>,
    outcome: PushOutcome,
    decided: Result<(), String>,
)
    requires
        call_ensures(push_reply, (&reply, detail, sent, all_sent), result),
        reply matches Reply::Frame(Frame::InputDone(o)) ==> o == outcome,
        call_ensures(push_outcome, (outcome, sent, all_sent), decided),
    ensures
        result is None <==> match reply {
            Reply::Frame(frame) => !(frame is InputDone),
            Reply::Bad(error) => error is Unknown,
            Reply::Closed => false,
        },
        (reply matches Reply::Frame(frame) && frame is InputDone) ==> {
            &&& result matches Some(r)
            &&& r is Ok <==> decided is Ok
            &&& r is Err ==> r->Err_0@ == decided->Err_0@
        },
        reply matches Reply::Bad(error) ==> (error is Malformed ==> (result matches Some(Err(m))
            && m@ == "malformed push outcome from the session: "@ + detail@)),
        reply is Closed ==> (result matches Some(Err(m)) && m@
            == "the session closed the push without reporting an outcome after "@ + decimal(
            sent as nat,
        ) + " bytes ("@ + detail@ + ")"@),
{
}

} // verus!
