//! `attach`: the interactive relay between the user's terminal and a session.
//!
//! Three independent paths, so no blocked one can delay a detach: the keyboard side
//! recognizes the escape, watches for size changes, and only ever queues messages;
//! a sender writes queued messages to the session, controls (resize, detach) before
//! keystrokes; a reader writes session output to the terminal.

use crate::attach_escape::{Escape, EscapeMode, EscapeParser};
use crate::attach_proto::{Frame, FrameModel, Mode, Reply, ReplyModel};
use crate::model::meta::Meta;
use crate::model::pty::PtyControl;
use crate::model::state::RunStatus;
use crate::recording::Geometry;
use crate::sidecar::viewer::{chunk_bytes, chunk_models, lemma_chunk_pop};
use std::collections::VecDeque;
use vstd::prelude::*;

verus! {

/// Keystrokes that may wait for a session that is not accepting input. Beyond
/// this, further keystrokes are dropped (and reported) rather than buffered
/// without bound; the escape is still recognized.
pub const OUTBOX_DATA_LIMIT: usize = 1_048_576;

/// How often the keyboard and terminal size are checked, in milliseconds.
pub const POLL: u64 = 100;

/// How long a detach waits for the detach message to be sent, in milliseconds.
pub const DETACH_GRACE: u64 = 200;

/// Why a session cannot be attached to, as far as its record tells; the sidecar is
/// the authority.
pub fn attach_refusal(meta: &Meta, takeover: bool) -> (refusal: Option<&'static str>)
    ensures
        match refusal {
            None => meta@.status is Running && (meta@.pty matches Some(pty) && (takeover
                || pty.control != PtyControl::HumanControl)),
            Some(reason) => {
                ||| !(meta@.status is Running) && reason@ == "session is not running"@
                ||| meta@.status is Running && meta@.pty is None && reason@
                    == "session is not PTY-enabled"@
                ||| meta@.status is Running && (meta@.pty matches Some(pty) && !takeover
                    && pty.control == PtyControl::HumanControl) && reason@
                    == "session is already under human control (use --takeover to take it over)"@
            },
        },
{
    match *meta.status() {
        RunStatus::Running { .. } => {},
        _ => return Some("session is not running"),
    }
    match meta.pty() {
        None => Some("session is not PTY-enabled"),
        Some(pty) => if !takeover && pty.control == PtyControl::HumanControl {
            Some("session is already under human control (use --takeover to take it over)")
        } else {
            None
        },
    }
}

/// What the client asks for in its hello.
pub fn hello_mode(takeover: bool) -> (mode: Mode)
    ensures
        mode == (if takeover {
            Mode::Takeover
        } else {
            Mode::Attach
        }),
{
    if takeover {
        Mode::Takeover
    } else {
        Mode::Attach
    }
}

/// Why the session did not let the client attach; `None` where it did. `detail`
/// describes the reply.
pub open spec fn refusal_of(reply: ReplyModel, detail: Seq<char>) -> Option<Seq<char>> {
    match reply {
        ReplyModel::Frame(FrameModel::Accepted(_)) => None,
        ReplyModel::Frame(FrameModel::Rejected(reason)) => Some("attach rejected: "@ + reason),
        ReplyModel::Frame(_) => Some("unexpected attach reply "@ + detail),
        _ => Some(
            "the session did not complete the attach handshake ("@ + detail
                + "); it may predate attach protocol v1"@,
        ),
    }
}

/// Whether the session's reply to the hello lets the client attach.
pub fn attach_accepted(reply: &Reply, detail: &str) -> (accepted: Result<(), String>)
    ensures
        match refusal_of(reply@, detail@) {
            None => accepted is Ok,
            Some(text) => accepted matches Err(message) && message@ == text,
        },
{
    let mut message = String::new();
    match reply {
        Reply::Frame(Frame::Accepted(_)) => return Ok(()),
        Reply::Frame(Frame::Rejected(reason)) => {
            message.append("attach rejected: ");
            message.append(reason.as_str());
        },
        Reply::Frame(_) => {
            message.append("unexpected attach reply ");
            message.append(detail);
        },
        _ => {
            message.append("the session did not complete the attach handshake (");
            message.append(detail);
            message.append("); it may predate attach protocol v1");
        },
    }
    assert(message@ =~= refusal_of(reply@, detail@)->0);
    Err(message)
}

/// What to do with what the session sent.
#[derive(Clone, Debug, PartialEq, Eq)]
pub enum ReaderStep {
    /// Write these bytes to the terminal.
    Show(Vec<u8>),
    /// Another client took over; the session closes the connection next.
    Retired,
    Skip,
    /// The connection is over.
    Stop,
}

/// What to do with what the session sent: output is shown, and messages that are of
/// no concern or cannot be understood are passed over.
pub fn reader_step(reply: Reply) -> (step: ReaderStep)
    ensures
        match reply@ {
            ReplyModel::Frame(FrameModel::Data(bytes)) => step matches ReaderStep::Show(b) && b@
                == bytes,
            ReplyModel::Frame(FrameModel::Retired(_)) => step is Retired,
            ReplyModel::Frame(_) => step is Skip,
            ReplyModel::Bad(_) => step is Skip,
            ReplyModel::Closed => step is Stop,
        },
{
    match reply {
        Reply::Frame(Frame::Data(bytes)) => ReaderStep::Show(bytes),
        Reply::Frame(Frame::Retired(_)) => ReaderStep::Retired,
        Reply::Frame(_) => ReaderStep::Skip,
        Reply::Bad(_) => ReaderStep::Skip,
        Reply::Closed => ReaderStep::Stop,
    }
}

/// The seconds and nanoseconds of a timeout in milliseconds.
pub fn poll_timespec(millis: u64) -> (timespec: (u64, u64))
    ensures
        timespec.0 * 1_000_000_000 + timespec.1 == millis * 1_000_000,
        timespec.1 < 1_000_000_000,
{
    (millis / 1_000, (millis % 1_000) * 1_000_000)
}

/// What waits for the sender.
pub struct OutboxModel {
    pub controls: Seq<FrameModel>,
    pub data: Seq<Seq<u8>>,
    pub sending_control: bool,
    pub closed: bool,
}

impl OutboxModel {
    /// Never more keystrokes than the limit.
    pub open spec fn wf(self) -> bool {
        chunk_bytes(self.data) <= OUTBOX_DATA_LIMIT
    }

    /// Behind queueing keystrokes, and whether they were taken.
    pub open spec fn with_data(self, bytes: Seq<u8>) -> (OutboxModel, bool) {
        if chunk_bytes(self.data) + bytes.len() > OUTBOX_DATA_LIMIT {
            (self, false)
        } else {
            (OutboxModel { data: self.data.push(bytes), ..self }, true)
        }
    }

    pub open spec fn with_control(self, frame: FrameModel) -> OutboxModel {
        OutboxModel { controls: self.controls.push(frame), ..self }
    }

    /// Behind handing out the next message, and that message: controls first, and
    /// nothing once it is closed.
    pub open spec fn taken(self) -> (OutboxModel, Option<FrameModel>) {
        if self.closed {
            (self, None)
        } else if self.controls.len() > 0 {
            (
                OutboxModel { controls: self.controls.skip(1), sending_control: true, ..self },
                Some(self.controls[0]),
            )
        } else if self.data.len() > 0 {
            (OutboxModel { data: self.data.skip(1), ..self }, Some(FrameModel::Data(self.data[0])))
        } else {
            (self, None)
        }
    }

    /// Behind handing out `n` messages.
    pub open spec fn drained(self, n: nat) -> OutboxModel
        decreases n,
    {
        if n == 0 {
            self
        } else {
            self.taken().0.drained((n - 1) as nat)
        }
    }

    /// Every queued control was written.
    pub open spec fn settled(self) -> bool {
        self.closed || (self.controls.len() == 0 && !self.sending_control)
    }
}

pub open spec fn frame_models(frames: Seq<Frame>) -> Seq<FrameModel> {
    Seq::new(frames.len(), |i: int| frames[i]@)
}

/// What the sender finds.
#[derive(Clone, Debug, PartialEq, Eq)]
pub enum NextFrame {
    Frame(Frame),
    /// Nothing is queued yet.
    Wait,
    Closed,
}

/// Messages waiting for the sender; controls go first.
#[derive(Debug)]
pub struct Outbox {
    controls: VecDeque<Frame>,
    data: VecDeque<Vec<u8>>,
    data_bytes: usize,
    sending_control: bool,
    closed: bool,
}

impl View for Outbox {
    type V = OutboxModel;

    closed spec fn view(&self) -> OutboxModel {
        OutboxModel {
            controls: frame_models(self.controls@),
            data: chunk_models(self.data@),
            sending_control: self.sending_control,
            closed: self.closed,
        }
    }
}

impl Outbox {
    pub closed spec fn wf(&self) -> bool {
        self@.wf() && self.data_bytes == chunk_bytes(self@.data)
    }

    pub fn new() -> (outbox: Outbox)
        ensures
            outbox.wf(),
            outbox@ == (OutboxModel {
                controls: Seq::empty(),
                data: Seq::empty(),
                sending_control: false,
                closed: false,
            }),
    {
        let outbox = Outbox {
            controls: VecDeque::new(),
            data: VecDeque::new(),
            data_bytes: 0,
            sending_control: false,
            closed: false,
        };
        assert(outbox@.controls =~= Seq::empty());
        assert(outbox@.data =~= Seq::empty());
        outbox
    }

    pub fn push_control(&mut self, frame: Frame)
        requires
            old(self).wf(),
        ensures
            final(self).wf(),
            final(self)@ == old(self)@.with_control(frame@),
    {
        let ghost before = self@;
        self.controls.push_back(frame);
        assert(self@.controls =~= before.controls.push(frame@));
    }

    /// Queues keystrokes; `false` if dropped because the backlog is full.
    pub fn push_data(&mut self, bytes: Vec<u8>) -> (queued: bool)
        requires
            old(self).wf(),
        ensures
            final(self).wf(),
            (final(self)@, queued) == old(self)@.with_data(bytes@),
    {
        let ghost before = self@;
        if bytes.len() > OUTBOX_DATA_LIMIT - self.data_bytes {
            return false;
        }
        self.data_bytes = self.data_bytes + bytes.len();
        self.data.push_back(bytes);
        proof {
            assert(self@.data =~= before.data.push(bytes@));
            assert(self@.data.drop_last() =~= before.data);
        }
        true
    }

    /// The next message to send, controls first.
    pub fn next(&mut self) -> (next: NextFrame)
        requires
            old(self).wf(),
        ensures
            final(self).wf(),
            final(self)@ == old(self)@.taken().0,
            match old(self)@.taken().1 {
                Some(message) => next matches NextFrame::Frame(frame) && frame@ == message,
                None => if old(self)@.closed {
                    next is Closed
                } else {
                    next is Wait
                },
            },
    {
        if self.closed {
            return NextFrame::Closed;
        }
        let ghost before = self@;
        if self.controls.len() > 0 {
            let control = self.controls.pop_front().unwrap();
            self.sending_control = true;
            proof {
                assert(before.controls[0] == control@);
                assert(self@.controls =~= before.controls.skip(1));
            }
            return NextFrame::Frame(control);
        }
        if self.data.len() > 0 {
            let bytes = self.data.pop_front().unwrap();
            proof {
                assert(before.data[0] == bytes@);
                lemma_chunk_pop(before.data);
                assert(self@.data =~= before.data.skip(1));
            }
            self.data_bytes = self.data_bytes - bytes.len();
            return NextFrame::Frame(Frame::Data(bytes));
        }
        NextFrame::Wait
    }

    /// The message that was handed out last was written.
    pub fn sent(&mut self)
        requires
            old(self).wf(),
        ensures
            final(self).wf(),
            final(self)@ == (OutboxModel { sending_control: false, ..old(self)@ }),
    {
        self.sending_control = false;
    }

    /// Whether every queued control was written, so that a detach need not wait.
    pub fn controls_sent(&self) -> (settled: bool)
        ensures
            settled == self@.settled(),
    {
        self.closed || (self.controls.len() == 0 && !self.sending_control)
    }

    pub fn close(&mut self)
        requires
            old(self).wf(),
        ensures
            final(self).wf(),
            final(self)@ == (OutboxModel { closed: true, ..old(self)@ }),
    {
        self.closed = true;
    }
}

/// How a relay ended.
#[derive(Clone, Copy, Debug, PartialEq, Eq, Structural)]
pub enum Ending {
    Detached,
    SessionClosed,
    KeyboardClosed,
}

/// What was read from the keyboard.
#[derive(Clone, Debug, PartialEq, Eq)]
pub enum Keyboard {
    /// Nothing to read, or reading was interrupted.
    Nothing,
    Bytes(Vec<u8>),
    /// End of input, or an error.
    Closed,
}

/// The keyboard side of a relay.
#[derive(Debug)]
pub struct Relay {
    pub parser: EscapeParser,
    /// The terminal's size as the session was last told it.
    pub size: Option<Geometry>,
    /// Typed bytes that were dropped while the session was not accepting input.
    pub dropped: usize,
}

impl Relay {
    /// The relay of a terminal with this size, of which the session is told.
    pub fn new(escape: EscapeMode, size: Option<Geometry>, outbox: &mut Outbox) -> (relay: Relay)
        requires
            old(outbox).wf(),
        ensures
            final(outbox).wf(),
            relay == (Relay {
                parser: EscapeParser { mode: escape, prefix_pending: false },
                size,
                dropped: 0,
            }),
            final(outbox)@ == (match size {
                Some(s) => old(outbox)@.with_control(FrameModel::Resize(s@)),
                None => old(outbox)@,
            }),
    {
        if let Some(size) = size {
            outbox.push_control(Frame::Resize(size));
        }
        Relay { parser: EscapeParser::new(escape), size, dropped: 0 }
    }

    /// The terminal has this size now: the session is told where it changed. A size
    /// that is not known changes nothing.
    pub fn on_size(&mut self, now: Option<Geometry>, outbox: &mut Outbox)
        requires
            old(outbox).wf(),
        ensures
            final(outbox).wf(),
            match now {
                Some(s) if old(self).size != now => *final(self) == (Relay {
                    size: now,
                    ..*old(self)
                }) && final(outbox)@ == old(outbox)@.with_control(FrameModel::Resize(s@)),
                _ => *final(self) == *old(self) && final(outbox)@ == old(outbox)@,
            },
    {
        if let Some(size) = now {
            let changed = match self.size {
                Some(told) => told != size,
                None => true,
            };
            if changed {
                self.size = now;
                outbox.push_control(Frame::Resize(size));
            }
        }
    }

    /// Keys were typed: they are forwarded, but for the escape. Keys that do not fit
    /// into the outbox are counted as dropped.
    pub fn on_keys(&mut self, keys: &Keyboard, outbox: &mut Outbox) -> (ending: Option<Ending>)
        requires
            old(outbox).wf(),
            *keys matches Keyboard::Bytes(bytes) ==> old(self).dropped + old(self).parser.fed(
                bytes@,
            ).forward.len() <= usize::MAX,
        ensures
            final(outbox).wf(),
            match *keys {
                Keyboard::Nothing => ending is None && *final(self) == *old(self) && final(
                    outbox)@ == old(outbox)@,
                Keyboard::Closed => ending == Some(Ending::KeyboardClosed) && *final(self) == *old(
                    self) && final(outbox)@ == old(outbox)@,
                Keyboard::Bytes(bytes) => {
                    let fed = old(self).parser.fed(bytes@);
                    let (queued, taken) = if fed.forward.len() > 0 {
                        old(outbox)@.with_data(fed.forward)
                    } else {
                        (old(outbox)@, true)
                    };
                    &&& final(outbox)@ == queued
                    &&& *final(self) == (Relay {
                        parser: fed.parser,
                        dropped: if taken {
                            old(self).dropped
                        } else {
                            (old(self).dropped + fed.forward.len()) as usize
                        },
                        ..*old(self)
                    })
                    &&& ending == if fed.escape == Escape::Detach {
                        Some(Ending::Detached)
                    } else {
                        None
                    }
                },
            },
    {
        match keys {
            Keyboard::Nothing => None,
            Keyboard::Closed => Some(Ending::KeyboardClosed),
            Keyboard::Bytes(bytes) => {
                let mut forward: Vec<u8> = Vec::new();
                let ghost fed = self.parser.fed(bytes@);
                let decision = self.parser.feed(bytes.as_slice(), &mut forward);
                assert(forward@ =~= fed.forward);
                let len: usize = forward.len();
                if len > 0 {
                    if !outbox.push_data(forward) {
                        self.dropped = self.dropped + len;
                    }
                }
                if decision == Escape::Detach {
                    Some(Ending::Detached)
                } else {
                    None
                }
            },
        }
    }

    /// The relay ends: a detach is told to the session.
    pub fn on_ending(&self, ending: Ending, outbox: &mut Outbox)
        requires
            old(outbox).wf(),
        ensures
            final(outbox).wf(),
            final(outbox)@ == (if ending == Ending::Detached {
                old(outbox)@.with_control(FrameModel::Detach)
            } else {
                old(outbox)@
            }),
    {
        if ending == Ending::Detached {
            outbox.push_control(Frame::Detach);
        }
    }

    /// What is reported once the terminal is restored: whether to say that another
    /// client took over, and how many typed bytes were dropped. Nothing after a user
    /// detach, whose terminal may be the thing that is blocked.
    pub fn report(&self, ending: Ending, retired: bool) -> (report: (bool, usize))
        ensures
            report == (if ending == Ending::Detached {
                (false, 0usize)
            } else {
                (retired, self.dropped)
            }),
    {
        if ending == Ending::Detached {
            (false, 0)
        } else {
            (retired, self.dropped)
        }
    }
}

/// A detach is never held up by keystrokes: a control that is queued on an open outbox
/// is handed out right behind the controls before it, however many keystrokes wait, and
/// all of those are still there then.
pub proof fn law_controls_go_first(o: OutboxModel, frame: FrameModel)
    requires
        !o.closed,
    ensures
        o.with_control(frame).drained(o.controls.len()).taken().1 == Some(frame),
        o.with_control(frame).drained(o.controls.len()).data == o.data,
    decreases o.controls.len(),
{
    if o.controls.len() > 0 {
        let next = o.taken().0;
        law_controls_go_first(next, frame);
        assert(o.with_control(frame).controls.skip(1) =~= next.with_control(frame).controls);
        assert(o.with_control(frame).taken().0 == next.with_control(frame));
    }
}

// What each operation does, in terms of what it was given and what it gave back.

/// A session can be attached to where it runs, has a PTY, and no human controls it or the
/// takeover was asked for. Otherwise the first of these that fails is told.
pub proof fn law_attach_needs_a_free_terminal(
    meta: Meta,
    takeover: bool,
    refusal: Option<&'static str>,
    mode: Mode,
)
    requires
        call_ensures(attach_refusal, (&meta, takeover), refusal),
        call_ensures(hello_mode, (takeover,), mode),
    ensures
        refusal is None <==> meta@.status is Running && (meta@.pty matches Some(pty) && (takeover
            || !(pty.control is HumanControl))),
        refusal matches Some(reason) ==> reason@ == (if !(meta@.status is Running) {
            "session is not running"@
        } else if meta@.pty is None {
            "session is not PTY-enabled"@
        } else {
            "session is already under human control (use --takeover to take it over)"@
        }),
        takeover ==> mode is Takeover,
        !takeover ==> mode is Attach,
{
}

/// The client is attached exactly where the session says so; it tells why it was rejected,
/// and what else came back where the session said neither.
pub proof fn law_attach_replies(reply: Reply, detail: &str, accepted: Result<(), String>)
    requires
        call_ensures(attach_accepted, (&reply, detail), accepted),
    ensures
        accepted is Ok <==> (reply matches Reply::Frame(frame) && frame is Accepted),
        accepted matches Err(message) ==> match reply {
            Reply::Frame(Frame::Rejected(reason)) => message@ == "attach rejected: "@ + reason@,
            Reply::Frame(_) => message@ == "unexpected attach reply "@ + detail@,
            _ => message@ == "the session did not complete the attach handshake ("@ + detail@
                + "); it may predate attach protocol v1"@,
        },
{
}

/// Output of the session is shown as it came, a retirement is noted, the end of the
/// connection ends the reader, and anything else is passed over.
pub proof fn law_reader_shows_output(reply: Reply, step: ReaderStep)
    requires
        call_ensures(reader_step, (reply,), step),
    ensures
        reply matches Reply::Frame(Frame::Data(bytes)) ==> (step matches ReaderStep::Show(shown)
            && shown@ == bytes@),
        step is Show ==> (reply matches Reply::Frame(frame) && frame is Data),
        step is Retired <==> (reply matches Reply::Frame(frame) && frame is Retired),
        step is Stop <==> reply is Closed,
{
}

/// A timeout is as long in seconds and nanoseconds as it is in milliseconds.
pub proof fn law_timeouts_keep_their_length(millis: u64, timespec: (u64, u64))
    requires
        call_ensures(poll_timespec, (millis,), timespec),
    ensures
        timespec.0 == millis / 1_000,
        timespec.1 == (millis % 1_000) * 1_000_000,
{
    assert(millis == (millis / 1_000) * 1_000 + millis % 1_000);
    assert(timespec.0 * 1_000 + timespec.1 / 1_000_000 == millis);
}

/// Keystrokes are queued behind those that wait, as they were typed, while no more than a
/// mebibyte of them waits, and are dropped otherwise; a control is queued behind the
/// controls. Neither touches the other.
pub proof fn law_outbox_queues_in_order(
    typing: &mut Outbox,
    bytes: Vec<u8>,
    queued: bool,
    controlling: &mut Outbox,
    frame: Frame,
    fresh: Outbox,
)
    requires
        old(typing).wf(),
        old(controlling).wf(),
        call_ensures(Outbox::push_data, (typing, bytes), queued),
        call_ensures(Outbox::push_control, (controlling, frame), ()),
        call_ensures(Outbox::new, (), fresh),
    ensures
        queued <==> chunk_bytes(old(typing)@.data) + bytes@.len() <= 1_048_576,
        queued ==> final(typing)@.data == old(typing)@.data.push(bytes@),
        !queued ==> final(typing)@ == old(typing)@,
        final(typing)@.controls == old(typing)@.controls,
        final(typing)@.closed == old(typing)@.closed,
        final(controlling)@.controls == old(controlling)@.controls.push(frame@),
        final(controlling)@.data == old(controlling)@.data,
        final(controlling)@.closed == old(controlling)@.closed,
        final(controlling)@.sending_control == old(controlling)@.sending_control,
        fresh@.controls.len() == 0 && fresh@.data.len() == 0 && !fresh@.closed
            && !fresh@.sending_control,
{
}

/// What is handed out is the control that waits longest, and only where none waits the
/// keystrokes that wait longest; it leaves its queue. Nothing is handed out once the outbox
/// is closed, or while nothing waits.
pub proof fn law_outbox_hands_out_controls_first(outbox: &mut Outbox, next: NextFrame)
    requires
        old(outbox).wf(),
        call_ensures(Outbox::next, (outbox,), next),
    ensures
        ({
            let o = old(outbox)@;
            let after = final(outbox)@;
            &&& next is Closed <==> o.closed
            &&& next is Wait <==> !o.closed && o.controls.len() == 0 && o.data.len() == 0
            &&& !(next is Frame) ==> after == o
            &&& next matches NextFrame::Frame(frame) ==> (if o.controls.len() > 0 {
                &&& frame@ == o.controls[0]
                &&& after.controls == o.controls.skip(1)
                &&& after.data == o.data
                &&& after.sending_control
            } else {
                &&& frame@ == FrameModel::Data(o.data[0])
                &&& after.data == o.data.skip(1)
                &&& after.controls == o.controls
                &&& after.sending_control == o.sending_control
            })
            &&& after.closed == o.closed
        }),
{
}

/// Every control was sent once none waits and the one that was handed out last was written,
/// or once the outbox is closed.
pub proof fn law_controls_are_sent_once_written(
    sending: &mut Outbox,
    closing: &mut Outbox,
    outbox: Outbox,
    settled: bool,
)
    requires
        old(sending).wf(),
        old(closing).wf(),
        call_ensures(Outbox::sent, (sending,), ()),
        call_ensures(Outbox::close, (closing,), ()),
        call_ensures(Outbox::controls_sent, (&outbox,), settled),
    ensures
        !final(sending)@.sending_control,
        final(sending)@.controls == old(sending)@.controls,
        final(sending)@.data == old(sending)@.data,
        final(sending)@.closed == old(sending)@.closed,
        final(closing)@.closed,
        final(closing)@.controls == old(closing)@.controls,
        final(closing)@.data == old(closing)@.data,
        settled <==> outbox@.closed || (outbox@.controls.len() == 0 && !outbox@.sending_control),
{
}

/// The session is told the terminal's size when the relay starts, where it is known, and
/// then whenever it is another one. A size that is not known, or the same, is not told.
pub proof fn law_session_is_told_the_size(
    escape: EscapeMode,
    size: Option<Geometry>,
    starting: &mut Outbox,
    fresh: Relay,
    relay: &mut Relay,
    now: Option<Geometry>,
    outbox: &mut Outbox,
)
    requires
        old(starting).wf(),
        old(outbox).wf(),
        call_ensures(Relay::new, (escape, size, starting), fresh),
        call_ensures(Relay::on_size, (relay, now, outbox), ()),
    ensures
        fresh.size == size && fresh.dropped == 0 && fresh.parser.mode == escape
            && !fresh.parser.prefix_pending,
        size is None ==> final(starting)@ == old(starting)@,
        size matches Some(s) ==> final(starting)@.controls == old(starting)@.controls.push(
            FrameModel::Resize(s@),
        ),
        final(relay).parser == old(relay).parser && final(relay).dropped == old(relay).dropped,
        now is None || now == old(relay).size ==> final(relay).size == old(relay).size && final(outbox)@ == old(outbox)@,
        now matches Some(s) ==> (now != old(relay).size ==> final(relay).size == now && final(outbox)@.controls == old(outbox)@.controls.push(FrameModel::Resize(s@)) && final(outbox)@.data
            == old(outbox)@.data),
{
}

/// What is typed is what the escape recognizer forwards of it: queued together where it
/// fits, and counted as dropped where it does not. The relay ends where the escape asks to
/// detach, or the keyboard is closed, and only there.
pub proof fn law_typed_keys_are_forwarded(
    relay: &mut Relay,
    keys: Keyboard,
    outbox: &mut Outbox,
    ending: Option<Ending>,
    parser: &mut EscapeParser,
    typed: &[u8],
    forward: &mut Vec<u8>,
    escape: Escape,
)
    requires
        old(outbox).wf(),
        keys matches Keyboard::Bytes(bytes) ==> typed@ == bytes@,
        *old(parser) == old(relay).parser,
        old(forward)@.len() == 0,
        call_ensures(EscapeParser::feed, (parser, typed, forward), escape),
        keys is Bytes ==> old(relay).dropped + final(forward)@.len() <= usize::MAX,
        call_ensures(Relay::on_keys, (relay, &keys, outbox), ending),
    ensures
        final(relay).size == old(relay).size,
        final(outbox)@.controls == old(outbox)@.controls,
        keys is Nothing ==> ending is None && *final(relay) == *old(relay) && final(outbox)@ == old(outbox)@,
        keys is Closed ==> ending == Some(Ending::KeyboardClosed) && *final(relay) == *old(relay)
            && final(outbox)@ == old(outbox)@,
        keys is Bytes ==> {
            let sent = final(forward)@;
            let fits = chunk_bytes(old(outbox)@.data) + sent.len() <= 1_048_576;
            &&& ending == (if escape is Detach {
                Some(Ending::Detached)
            } else {
                None
            })
            &&& final(relay).parser == *final(parser)
            &&& sent.len() == 0 ==> final(outbox)@ == old(outbox)@ && final(relay).dropped == old(relay).dropped
            &&& sent.len() > 0 && fits ==> final(outbox)@.data == old(outbox)@.data.push(sent)
                && final(relay).dropped == old(relay).dropped
            &&& sent.len() > 0 && !fits ==> final(outbox)@ == old(outbox)@ && final(relay).dropped
                == old(relay).dropped + sent.len()
        },
{
    if keys is Bytes {
        assert(final(forward)@ =~= old(relay).parser.fed(typed@).forward);
    }
}

/// A detach is told to the session, no other ending is. After a detach nothing is reported;
/// otherwise it is whether another client took over, and how many typed bytes were dropped.
pub proof fn law_endings_are_told(
    relay: Relay,
    ending: Ending,
    outbox: &mut Outbox,
    retired: bool,
    report: (bool, usize),
)
    requires
        old(outbox).wf(),
        call_ensures(Relay::on_ending, (&relay, ending, outbox), ()),
        call_ensures(Relay::report, (&relay, ending, retired), report),
    ensures
        ending is Detached ==> final(outbox)@.controls == old(outbox)@.controls.push(
            FrameModel::Detach,
        ) && final(outbox)@.data == old(outbox)@.data && report == (false, 0usize),
        !(ending is Detached) ==> final(outbox)@ == old(outbox)@ && report == (
            retired,
            relay.dropped,
        ),
{
}

} // verus!
