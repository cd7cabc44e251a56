//! Attach protocol messages.
//!
//! Minimal framing: 1 byte type + 4 byte big-endian length + payload.

use crate::bytes::{
    be_at, be_bytes, be_u16, be_u32, be_u64, lemma_be_bytes_len, lemma_be_value_of_bytes,
    lemma_pow256, push_be,
};
use crate::io_error::ErrorKind;
use crate::recording::format::GeometryModel;
use crate::recording::Geometry;
use vstd::prelude::*;
use vstd::slice::{slice_subrange, slice_to_vec};
use vstd::utf8::{encode_utf8, encode_utf8_decode_utf8, encode_utf8_valid_utf8, valid_utf8};

verus! {

pub const MSG_DATA: u8 = 0x01;

pub const MSG_RESIZE: u8 = 0x02;

pub const MSG_DETACH: u8 = 0x03;

/// Client → sidecar, first message of every connection: `[version, mode]`.
/// A connection that does not open with a valid hello is closed without
/// gaining control.
pub const MSG_HELLO: u8 = 0x04;

/// Sidecar → client: control granted. Payload: the controller epoch (u64 BE).
pub const MSG_ACCEPTED: u8 = 0x05;

/// Sidecar → client: control refused. Payload: UTF-8 reason. The sidecar then
/// closes the connection.
pub const MSG_REJECTED: u8 = 0x06;

/// Sidecar → client: another client took over. Payload: the new epoch (u64 BE).
/// The sidecar then shuts the connection down.
pub const MSG_RETIRED: u8 = 0x07;

/// The attach protocol version carried in [`MSG_HELLO`].
pub const PROTOCOL_VERSION: u8 = 1;

/// [`MSG_HELLO`] mode: take control only if nobody holds it.
pub const MODE_ATTACH: u8 = 1;

/// [`MSG_HELLO`] mode: take control, retiring any current controller.
pub const MODE_TAKEOVER: u8 = 2;

/// [`MSG_HELLO`] mode: an agent push. Claims control only if nobody holds it,
/// streams input as [`MSG_DATA`], ends it with [`MSG_DETACH`], and receives a
/// [`MSG_INPUT_DONE`] outcome. No output is sent to a push connection.
pub const MODE_PUSH: u8 = 3;

/// Sidecar → push client: the push's outcome, then the connection closes.
/// Payload: `[status u8][accepted u64 BE][received u64 BE]`, where `accepted`
/// counts bytes written to the PTY and `received` counts bytes the sidecar read.
pub const MSG_INPUT_DONE: u8 = 0x08;

/// [`MSG_INPUT_DONE`] status: every received byte was written.
pub const INPUT_WRITTEN: u8 = 0;

/// [`MSG_INPUT_DONE`] status: control was taken over; the rest was dropped.
pub const INPUT_REVOKED: u8 = 1;

/// [`MSG_INPUT_DONE`] status: the PTY stopped accepting input.
pub const INPUT_CLOSED: u8 = 2;

/// How long the sidecar waits for a connection's hello, in milliseconds.
pub const HELLO_TIMEOUT: u64 = 5_000;

/// Largest payload any attach frame may carry. [`read_msg`] rejects a larger
/// length before allocating for it.
pub const MAX_FRAME_PAYLOAD: usize = 65_536;

/// The bytes in front of a payload.
pub const FRAME_HEADER_LEN: usize = 5;

// Payloads.

/// A [`MSG_INPUT_DONE`] payload.
pub open spec fn input_done_bytes(status: u8, accepted: u64, received: u64) -> Seq<u8> {
    seq![status] + be_bytes(accepted as nat, 8) + be_bytes(received as nat, 8)
}

/// Encodes a [`MSG_INPUT_DONE`] payload.
pub fn input_done_payload(status: u8, accepted: u64, received: u64) -> (payload: Vec<u8>)
    ensures
        payload@ == input_done_bytes(status, accepted, received),
{
    let mut payload: Vec<u8> = vec![status];
    push_be(&mut payload, accepted, 8);
    push_be(&mut payload, received, 8);
    assert(payload@ =~= input_done_bytes(status, accepted, received));
    payload
}

/// Decodes a [`MSG_INPUT_DONE`] payload into `(status, accepted, received)`.
pub fn parse_input_done(payload: &[u8]) -> (done: Option<(u8, u64, u64)>)
    ensures
        done is Some <==> payload@.len() == 17,
        done matches Some((status, accepted, received)) ==> {
            &&& status == payload@[0]
            &&& accepted == be_at(payload@, 1, 8)
            &&& received == be_at(payload@, 9, 8)
        },
{
    if payload.len() != 17 {
        return None;
    }
    Some((payload[0], be_u64(payload, 1), be_u64(payload, 9)))
}

/// What an outcome payload says is read back from it.
pub proof fn law_input_done_round_trip(status: u8, accepted: u64, received: u64)
    ensures
        input_done_bytes(status, accepted, received).len() == 17,
        input_done_bytes(status, accepted, received)[0] == status,
        be_at(input_done_bytes(status, accepted, received), 1, 8) == accepted,
        be_at(input_done_bytes(status, accepted, received), 9, 8) == received,
{
    lemma_pow256();
    let a = be_bytes(accepted as nat, 8);
    let r = be_bytes(received as nat, 8);
    let bytes = input_done_bytes(status, accepted, received);
    lemma_be_value_of_bytes(accepted as nat, 8);
    lemma_be_value_of_bytes(received as nat, 8);
    assert(bytes.subrange(1, 9) =~= a);
    assert(bytes.subrange(9, 17) =~= r);
}

/// A [`MSG_RESIZE`] payload.
pub open spec fn resize_bytes(size: GeometryModel) -> Seq<u8> {
    be_bytes(size.rows as nat, 2) + be_bytes(size.cols as nat, 2)
}

/// Encodes a [`MSG_RESIZE`] payload: `[rows u16 BE][cols u16 BE]`.
pub fn resize_payload(size: Geometry) -> (payload: Vec<u8>)
    ensures
        payload@ == resize_bytes(size@),
{
    let mut payload: Vec<u8> = Vec::new();
    push_be(&mut payload, size.rows() as u64, 2);
    push_be(&mut payload, size.cols() as u64, 2);
    assert(payload@ =~= resize_bytes(size@));
    payload
}

/// The size that a [`MSG_RESIZE`] payload asks for.
pub open spec fn resize_of(payload: Seq<u8>) -> Option<GeometryModel> {
    let size = GeometryModel {
        rows: be_at(payload, 0, 2) as u16,
        cols: be_at(payload, 2, 2) as u16,
    };
    if payload.len() >= 4 && size.valid() {
        Some(size)
    } else {
        None
    }
}

/// Decodes a [`MSG_RESIZE`] payload. `None` if it is short or either dimension
/// is zero: no terminal program can draw into such a size, and it cannot be
/// recorded, so it is refused here rather than at the PTY.
pub fn parse_resize(payload: &[u8]) -> (size: Option<Geometry>)
    ensures
        match resize_of(payload@) {
            Some(s) => size matches Some(g) && g@ == s,
            None => size is None,
        },
{
    if payload.len() < 4 {
        return None;
    }
    Geometry::new(be_u16(payload, 0), be_u16(payload, 2))
}

/// A resize round-trips.
pub proof fn law_resize_round_trip(size: GeometryModel)
    requires
        size.valid(),
    ensures
        resize_of(resize_bytes(size)) == Some(size),
{
    lemma_pow256();
    let r = be_bytes(size.rows as nat, 2);
    let c = be_bytes(size.cols as nat, 2);
    lemma_be_value_of_bytes(size.rows as nat, 2);
    lemma_be_value_of_bytes(size.cols as nat, 2);
    assert(resize_bytes(size).subrange(0, 2) =~= r);
    assert(resize_bytes(size).subrange(2, 4) =~= c);
}

// Framing.

/// A message on the wire.
pub open spec fn msg_bytes(msg_type: u8, payload: Seq<u8>) -> Seq<u8> {
    seq![msg_type] + be_bytes(payload.len(), 4) + payload
}

/// A message as it goes on the wire.
pub fn write_msg(msg_type: u8, payload: &[u8]) -> (bytes: Vec<u8>)
    ensures
        bytes@ == msg_bytes(msg_type, payload@),
{
    let mut bytes: Vec<u8> = vec![msg_type];
    push_be(&mut bytes, payload.len() as u64, 4);
    bytes.extend_from_slice(payload);
    assert(bytes@ =~= msg_bytes(msg_type, payload@));
    bytes
}

/// The payload length that a frame header declares; a length over the limit is
/// refused.
pub fn declared_len(header: &[u8]) -> (len: Result<usize, ErrorKind>)
    requires
        header@.len() >= FRAME_HEADER_LEN,
    ensures
        len == (if be_at(header@, 1, 4) <= MAX_FRAME_PAYLOAD {
            Ok::<usize, ErrorKind>(be_at(header@, 1, 4) as usize)
        } else {
            Err(ErrorKind::InvalidData)
        }),
{
    let len: usize = be_u32(header, 1) as usize;
    if len > MAX_FRAME_PAYLOAD {
        Err(ErrorKind::InvalidData)
    } else {
        Ok(len)
    }
}

/// The message at the start of a stream, or why it cannot be read.
pub open spec fn msg_of(stream: Seq<u8>) -> Result<(u8, Seq<u8>), ErrorKind> {
    let len = be_at(stream, 1, 4);
    if stream.len() < FRAME_HEADER_LEN {
        Err(ErrorKind::UnexpectedEof)
    } else if len > MAX_FRAME_PAYLOAD {
        Err(ErrorKind::InvalidData)
    } else if stream.len() < FRAME_HEADER_LEN + len {
        Err(ErrorKind::UnexpectedEof)
    } else {
        Ok((stream[0], stream.subrange(FRAME_HEADER_LEN as int, FRAME_HEADER_LEN + len)))
    }
}

/// Reads the message at the start of `stream`. An oversized frame is refused by
/// its declared length alone.
pub fn read_msg(stream: &[u8]) -> (msg: Result<(u8, Vec<u8>), ErrorKind>)
    ensures
        match msg_of(stream@) {
            Ok((t, p)) => msg matches Ok((msg_type, payload)) && msg_type == t && payload@ == p,
            Err(kind) => msg == Err::<(u8, Vec<u8>), ErrorKind>(kind),
        },
{
    if stream.len() < FRAME_HEADER_LEN {
        return Err(ErrorKind::UnexpectedEof);
    }
    let len: usize = match declared_len(stream) {
        Ok(len) => len,
        Err(kind) => return Err(kind),
    };
    if stream.len() - FRAME_HEADER_LEN < len {
        return Err(ErrorKind::UnexpectedEof);
    }
    let payload = slice_to_vec(slice_subrange(stream, FRAME_HEADER_LEN, FRAME_HEADER_LEN + len));
    Ok((stream[0], payload))
}

/// A message within the limit is read back, whatever follows it.
pub proof fn law_msg_round_trip(msg_type: u8, payload: Seq<u8>, rest: Seq<u8>)
    requires
        payload.len() <= MAX_FRAME_PAYLOAD,
    ensures
        msg_of(msg_bytes(msg_type, payload) + rest) == Ok::<(u8, Seq<u8>), ErrorKind>(
            (msg_type, payload),
        ),
{
    lemma_pow256();
    let n = be_bytes(payload.len(), 4);
    lemma_be_value_of_bytes(payload.len(), 4);
    let stream = msg_bytes(msg_type, payload) + rest;
    assert(stream.subrange(1, 5) =~= n);
    assert(stream.subrange(5, 5 + payload.len() as int) =~= payload);
}

/// A frame over the limit is refused, however much of it is there.
pub proof fn law_oversized_frame_is_refused(stream: Seq<u8>)
    requires
        stream.len() >= FRAME_HEADER_LEN,
        be_at(stream, 1, 4) > MAX_FRAME_PAYLOAD,
    ensures
        msg_of(stream) == Err::<(u8, Seq<u8>), ErrorKind>(ErrorKind::InvalidData),
{
}

// Typed messages.

/// What a client asks for in its hello.
#[derive(Clone, Copy, Debug, PartialEq, Eq, Structural)]
pub enum Mode {
    Attach,
    Takeover,
    Push,
}

impl Mode {
    pub open spec fn byte(self) -> u8 {
        match self {
            Mode::Attach => MODE_ATTACH,
            Mode::Takeover => MODE_TAKEOVER,
            Mode::Push => MODE_PUSH,
        }
    }

    pub fn to_byte(self) -> (byte: u8)
        ensures
            byte == self.byte(),
    {
        match self {
            Mode::Attach => MODE_ATTACH,
            Mode::Takeover => MODE_TAKEOVER,
            Mode::Push => MODE_PUSH,
        }
    }

    pub open spec fn of_byte(byte: u8) -> Option<Mode> {
        if byte == MODE_ATTACH {
            Some(Mode::Attach)
        } else if byte == MODE_TAKEOVER {
            Some(Mode::Takeover)
        } else if byte == MODE_PUSH {
            Some(Mode::Push)
        } else {
            None
        }
    }

    pub fn from_byte(byte: u8) -> (mode: Option<Mode>)
        ensures
            mode == Mode::of_byte(byte),
    {
        if byte == MODE_ATTACH {
            Some(Mode::Attach)
        } else if byte == MODE_TAKEOVER {
            Some(Mode::Takeover)
        } else if byte == MODE_PUSH {
            Some(Mode::Push)
        } else {
            None
        }
    }
}

/// How far a push that was stopped had come.
#[derive(Clone, Copy, Debug, PartialEq, Eq, Structural)]
pub struct Progress {
    /// Bytes written to the PTY.
    pub accepted: u64,
    /// Bytes that the session read and did not write.
    pub unwritten: u64,
}

/// How a push ended.
#[derive(Clone, Copy, Debug, PartialEq, Eq, Structural)]
pub enum PushOutcome {
    /// Every received byte was written.
    Written { bytes: u64 },
    /// Control was taken over; the rest was dropped.
    Revoked(Progress),
    /// The PTY stopped accepting input.
    Closed(Progress),
}

impl PushOutcome {
    /// The outcome that a status and its counts stand for.
    pub open spec fn of_counts(status: u8, accepted: u64, received: u64) -> Option<PushOutcome> {
        let progress = Progress { accepted, unwritten: (received - accepted) as u64 };
        if accepted > received {
            None
        } else if status == INPUT_WRITTEN && accepted == received {
            Some(PushOutcome::Written { bytes: accepted })
        } else if status == INPUT_REVOKED {
            Some(PushOutcome::Revoked(progress))
        } else if status == INPUT_CLOSED {
            Some(PushOutcome::Closed(progress))
        } else {
            None
        }
    }

    /// `None` where the counts contradict the status or each other.
    pub fn from_counts(status: u8, accepted: u64, received: u64) -> (outcome: Option<PushOutcome>)
        ensures
            outcome == PushOutcome::of_counts(status, accepted, received),
    {
        if accepted > received {
            return None;
        }
        let progress = Progress { accepted, unwritten: received - accepted };
        if status == INPUT_WRITTEN && accepted == received {
            Some(PushOutcome::Written { bytes: accepted })
        } else if status == INPUT_REVOKED {
            Some(PushOutcome::Revoked(progress))
        } else if status == INPUT_CLOSED {
            Some(PushOutcome::Closed(progress))
        } else {
            None
        }
    }
}

/// A message and its content.
#[derive(Clone, Debug, PartialEq, Eq)]
pub enum Frame {
    Hello(Mode),
    Accepted(u64),
    Rejected(String),
    Retired(u64),
    Data(Vec<u8>),
    Resize(Geometry),
    Detach,
    InputDone(PushOutcome),
}

/// Why a message is not a frame.
#[derive(Clone, Copy, Debug, PartialEq, Eq, Structural)]
pub enum FrameError {
    /// The payload does not fit the message type.
    Malformed(u8),
    /// The message type is not known.
    Unknown(u8),
}

/// What a frame says.
pub enum FrameModel {
    Hello(Mode),
    Accepted(u64),
    Rejected(Seq<char>),
    Retired(u64),
    Data(Seq<u8>),
    Resize(GeometryModel),
    Detach,
    InputDone(PushOutcome),
}

impl View for Frame {
    type V = FrameModel;

    open spec fn view(&self) -> FrameModel {
        match *self {
            Frame::Hello(mode) => FrameModel::Hello(mode),
            Frame::Accepted(epoch) => FrameModel::Accepted(epoch),
            Frame::Rejected(reason) => FrameModel::Rejected(reason@),
            Frame::Retired(epoch) => FrameModel::Retired(epoch),
            Frame::Data(bytes) => FrameModel::Data(bytes@),
            Frame::Resize(size) => FrameModel::Resize(size@),
            Frame::Detach => FrameModel::Detach,
            Frame::InputDone(outcome) => FrameModel::InputDone(outcome),
        }
    }
}

impl PushOutcome {
    /// The status and the counts that stand for an outcome.
    pub open spec fn counts(self) -> (u8, u64, u64) {
        match self {
            PushOutcome::Written { bytes } => (INPUT_WRITTEN, bytes, bytes),
            PushOutcome::Revoked(p) => (
                INPUT_REVOKED,
                p.accepted,
                (p.accepted + p.unwritten) as u64,
            ),
            PushOutcome::Closed(p) => (INPUT_CLOSED, p.accepted, (p.accepted + p.unwritten) as u64),
        }
    }

    /// The counts of the outcome fit their fields.
    pub open spec fn valid(self) -> bool {
        match self {
            PushOutcome::Written { .. } => true,
            PushOutcome::Revoked(p) => p.accepted + p.unwritten <= u64::MAX,
            PushOutcome::Closed(p) => p.accepted + p.unwritten <= u64::MAX,
        }
    }
}

impl FrameModel {
    /// The type of the message.
    pub open spec fn msg_type(self) -> u8 {
        match self {
            FrameModel::Hello(_) => MSG_HELLO,
            FrameModel::Accepted(_) => MSG_ACCEPTED,
            FrameModel::Rejected(_) => MSG_REJECTED,
            FrameModel::Retired(_) => MSG_RETIRED,
            FrameModel::Data(_) => MSG_DATA,
            FrameModel::Resize(_) => MSG_RESIZE,
            FrameModel::Detach => MSG_DETACH,
            FrameModel::InputDone(_) => MSG_INPUT_DONE,
        }
    }

    /// The payload of the message.
    pub open spec fn payload(self) -> Seq<u8> {
        match self {
            FrameModel::Hello(mode) => seq![PROTOCOL_VERSION, mode.byte()],
            FrameModel::Accepted(epoch) => be_bytes(epoch as nat, 8),
            FrameModel::Rejected(reason) => encode_utf8(reason),
            FrameModel::Retired(epoch) => be_bytes(epoch as nat, 8),
            FrameModel::Data(bytes) => bytes,
            FrameModel::Resize(size) => resize_bytes(size),
            FrameModel::Detach => Seq::empty(),
            FrameModel::InputDone(outcome) => input_done_bytes(
                outcome.counts().0,
                outcome.counts().1,
                outcome.counts().2,
            ),
        }
    }

    /// The content fits its fields.
    pub open spec fn fits(self) -> bool {
        self matches FrameModel::InputDone(outcome) ==> outcome.valid()
    }

    /// The content is one that a frame can have.
    pub open spec fn valid(self) -> bool {
        match self {
            FrameModel::Resize(size) => size.valid(),
            _ => self.fits(),
        }
    }
}

/// What a message of a type with a payload says.
pub open spec fn frame_of(msg_type: u8, payload: Seq<u8>) -> Result<FrameModel, FrameError> {
    let malformed = Err(FrameError::Malformed(msg_type));
    if msg_type == MSG_HELLO {
        if payload.len() == 2 && payload[0] == PROTOCOL_VERSION && Mode::of_byte(
            payload[1],
        ) is Some {
            Ok(FrameModel::Hello(Mode::of_byte(payload[1])->0))
        } else {
            malformed
        }
    } else if msg_type == MSG_ACCEPTED {
        if payload.len() == 8 {
            Ok(FrameModel::Accepted(be_at(payload, 0, 8) as u64))
        } else {
            malformed
        }
    } else if msg_type == MSG_RETIRED {
        if payload.len() == 8 {
            Ok(FrameModel::Retired(be_at(payload, 0, 8) as u64))
        } else {
            malformed
        }
    } else if msg_type == MSG_REJECTED {
        if valid_utf8(payload) {
            Ok(FrameModel::Rejected(vstd::utf8::decode_utf8(payload)))
        } else {
            malformed
        }
    } else if msg_type == MSG_DATA {
        Ok(FrameModel::Data(payload))
    } else if msg_type == MSG_RESIZE {
        match resize_of(payload) {
            Some(size) => Ok(FrameModel::Resize(size)),
            None => malformed,
        }
    } else if msg_type == MSG_DETACH {
        Ok(FrameModel::Detach)
    } else if msg_type == MSG_INPUT_DONE {
        if payload.len() == 17 {
            match PushOutcome::of_counts(
                payload[0],
                be_at(payload, 1, 8) as u64,
                be_at(payload, 9, 8) as u64,
            ) {
                Some(outcome) => Ok(FrameModel::InputDone(outcome)),
                None => malformed,
            }
        } else {
            malformed
        }
    } else {
        Err(FrameError::Unknown(msg_type))
    }
}

/// `String::from_utf8`: the text that the bytes encode, where they are UTF-8.
#[verifier::external_body]
fn text_from_utf8(bytes: Vec<u8>) -> (text: Option<String>)
    ensures
        text is Some <==> valid_utf8(bytes@),
        text matches Some(t) ==> t@ == vstd::utf8::decode_utf8(bytes@),
{
    String::from_utf8(bytes).ok()
}

impl Frame {
    /// What a message says.
    pub fn from_msg(msg_type: u8, payload: Vec<u8>) -> (frame: Result<Frame, FrameError>)
        ensures
            match frame_of(msg_type, payload@) {
                Ok(model) => frame matches Ok(f) && f@ == model,
                Err(error) => frame == Err::<Frame, FrameError>(error),
            },
    {
        let malformed = Err(FrameError::Malformed(msg_type));
        if msg_type == MSG_HELLO {
            if payload.len() != 2 || payload[0] != PROTOCOL_VERSION {
                return malformed;
            }
            match Mode::from_byte(payload[1]) {
                Some(mode) => Ok(Frame::Hello(mode)),
                None => malformed,
            }
        } else if msg_type == MSG_ACCEPTED {
            if payload.len() != 8 {
                return malformed;
            }
            Ok(Frame::Accepted(be_u64(payload.as_slice(), 0)))
        } else if msg_type == MSG_RETIRED {
            if payload.len() != 8 {
                return malformed;
            }
            Ok(Frame::Retired(be_u64(payload.as_slice(), 0)))
        } else if msg_type == MSG_REJECTED {
            match text_from_utf8(payload) {
                Some(reason) => Ok(Frame::Rejected(reason)),
                None => malformed,
            }
        } else if msg_type == MSG_DATA {
            Ok(Frame::Data(payload))
        } else if msg_type == MSG_RESIZE {
            match parse_resize(payload.as_slice()) {
                Some(size) => Ok(Frame::Resize(size)),
                None => malformed,
            }
        } else if msg_type == MSG_DETACH {
            Ok(Frame::Detach)
        } else if msg_type == MSG_INPUT_DONE {
            match parse_input_done(payload.as_slice()) {
                Some((status, accepted, received)) => match PushOutcome::from_counts(
                    status,
                    accepted,
                    received,
                ) {
                    Some(outcome) => Ok(Frame::InputDone(outcome)),
                    None => malformed,
                },
                None => malformed,
            }
        } else {
            Err(FrameError::Unknown(msg_type))
        }
    }

    /// The message that says this, as it goes on the wire.
    pub fn to_bytes(&self) -> (bytes: Vec<u8>)
        requires
            self@.fits(),
        ensures
            bytes@ == msg_bytes(self@.msg_type(), self@.payload()),
    {
        match self {
            Frame::Hello(mode) => {
                let payload = vec![PROTOCOL_VERSION, mode.to_byte()];
                assert(payload@ =~= self@.payload());
                write_msg(MSG_HELLO, payload.as_slice())
            },
            Frame::Accepted(epoch) => write_epoch(MSG_ACCEPTED, *epoch),
            Frame::Rejected(reason) => write_msg(MSG_REJECTED, reason.as_str().as_bytes()),
            Frame::Retired(epoch) => write_epoch(MSG_RETIRED, *epoch),
            Frame::Data(bytes) => write_msg(MSG_DATA, bytes.as_slice()),
            Frame::Resize(size) => write_msg(MSG_RESIZE, resize_payload(*size).as_slice()),
            Frame::Detach => {
                let payload: Vec<u8> = Vec::new();
                assert(payload@ =~= self@.payload());
                write_msg(MSG_DETACH, payload.as_slice())
            },
            Frame::InputDone(outcome) => {
                let (status, accepted, received): (u8, u64, u64) = match outcome {
                    PushOutcome::Written { bytes } => (INPUT_WRITTEN, *bytes, *bytes),
                    PushOutcome::Revoked(p) => (
                        INPUT_REVOKED,
                        p.accepted,
                        p.accepted + p.unwritten,
                    ),
                    PushOutcome::Closed(p) => (INPUT_CLOSED, p.accepted, p.accepted + p.unwritten),
                };
                write_msg(
                    MSG_INPUT_DONE,
                    input_done_payload(status, accepted, received).as_slice(),
                )
            },
        }
    }
}

/// A message that carries an epoch.
fn write_epoch(msg_type: u8, epoch: u64) -> (bytes: Vec<u8>)
    ensures
        bytes@ == msg_bytes(msg_type, be_bytes(epoch as nat, 8)),
{
    let mut payload: Vec<u8> = Vec::new();
    push_be(&mut payload, epoch, 8);
    assert(payload@ =~= be_bytes(epoch as nat, 8));
    write_msg(msg_type, payload.as_slice())
}

/// A frame is read back from the message that says it.
pub proof fn law_frame_round_trip(frame: FrameModel)
    requires
        frame.valid(),
    ensures
        frame_of(frame.msg_type(), frame.payload()) == Ok::<FrameModel, FrameError>(frame),
{
    lemma_pow256();
    match frame {
        FrameModel::Hello(_) => {},
        FrameModel::Accepted(epoch) => {
            lemma_be_value_of_bytes(epoch as nat, 8);
            assert(frame.payload().subrange(0, 8) =~= frame.payload());
        },
        FrameModel::Rejected(reason) => {
            encode_utf8_valid_utf8(reason);
            encode_utf8_decode_utf8(reason);
        },
        FrameModel::Retired(epoch) => {
            lemma_be_value_of_bytes(epoch as nat, 8);
            assert(frame.payload().subrange(0, 8) =~= frame.payload());
        },
        FrameModel::Data(_) => {},
        FrameModel::Resize(size) => {
            law_resize_round_trip(size);
        },
        FrameModel::Detach => {},
        FrameModel::InputDone(outcome) => {
            let (status, accepted, received) = outcome.counts();
            law_input_done_round_trip(status, accepted, received);
        },
    }
}

/// What a client read, or why there is no frame.
#[derive(Clone, Debug, PartialEq, Eq)]
pub enum Reply {
    Frame(Frame),
    /// The message is not a frame.
    Bad(FrameError),
    /// Nothing could be read.
    Closed,
}

/// What a client read, in the abstract.
pub enum ReplyModel {
    Frame(FrameModel),
    Bad(FrameError),
    Closed,
}

impl View for Reply {
    type V = ReplyModel;

    open spec fn view(&self) -> ReplyModel {
        match *self {
            Reply::Frame(frame) => ReplyModel::Frame(frame@),
            Reply::Bad(error) => ReplyModel::Bad(error),
            Reply::Closed => ReplyModel::Closed,
        }
    }
}

// What goes on the wire and what is made of it, in terms of the bytes themselves.

/// A message is its type, the length of its payload in four bytes, and its payload. What is
/// read at the start of a stream is exactly that, and nothing of what follows: there is too
/// little of it where the stream ends before it does, and it is refused where it says that
/// it has more than 65536 bytes, however much is there.
pub proof fn law_messages_on_the_wire(
    msg_type: u8,
    payload: &[u8],
    bytes: Vec<u8>,
    stream: &[u8],
    msg: Result<(u8, Vec<u8>), ErrorKind>,
)
    requires
        payload@.len() <= u32::MAX,
        call_ensures(write_msg, (msg_type, payload), bytes),
        call_ensures(read_msg, (stream,), msg),
    ensures
        bytes@.len() == 5 + payload@.len(),
        bytes@[0] == msg_type,
        be_at(bytes@, 1, 4) == payload@.len(),
        bytes@.skip(5) =~= payload@,
        stream@.len() < 5 ==> msg == Err::<(u8, Vec<u8>), ErrorKind>(ErrorKind::UnexpectedEof),
        stream@.len() >= 5 ==> {
            let len = be_at(stream@, 1, 4);
            &&& len > 65_536 ==> msg == Err::<(u8, Vec<u8>), ErrorKind>(ErrorKind::InvalidData)
            &&& len <= 65_536 && stream@.len() < 5 + len ==> msg == Err::<(u8, Vec<u8>), ErrorKind>(
                ErrorKind::UnexpectedEof,
            )
            &&& len <= 65_536 && stream@.len() >= 5 + len ==> (msg matches Ok((t, p)) && t
                == stream@[0] && p@ =~= stream@.subrange(5, 5int + len))
        },
{
    let len = payload@.len();
    lemma_be_bytes_len(len, 4);
    lemma_pow256();
    lemma_be_value_of_bytes(len, 4);
    assert(bytes@.subrange(1, 5) =~= be_bytes(len, 4));
    assert(bytes@.skip(5) =~= payload@);
}

/// A frame header declares the length of the payload, which is refused where it is more
/// than 65536.
pub proof fn law_declared_length(header: &[u8], len: Result<usize, ErrorKind>)
    requires
        header@.len() >= 5,
        call_ensures(declared_len, (header,), len),
    ensures
        be_at(header@, 1, 4) > 65_536 ==> len == Err::<usize, ErrorKind>(ErrorKind::InvalidData),
        be_at(header@, 1, 4) <= 65_536 ==> (len matches Ok(n) && n == be_at(header@, 1, 4)),
{
}

/// A frame is read back from the message that says it: what is written is read as the same
/// type and payload, and that as the same frame.
pub proof fn law_frame_is_read_back(
    frame: Frame,
    bytes: Vec<u8>,
    stream: &[u8],
    msg_type: u8,
    payload: Vec<u8>,
    read: Result<Frame, FrameError>,
)
    requires
        frame@.valid(),
        frame@.payload().len() <= 65_536,
        call_ensures(Frame::to_bytes, (&frame,), bytes),
        stream@ == bytes@,
        call_ensures(read_msg, (stream,), Ok::<(u8, Vec<u8>), ErrorKind>((msg_type, payload))),
        call_ensures(Frame::from_msg, (msg_type, payload), read),
    ensures
        read matches Ok(again) && again@ == frame@,
        msg_type == (match frame {
            Frame::Data(_) => 1u8,
            Frame::Resize(_) => 2,
            Frame::Detach => 3,
            Frame::Hello(_) => 4,
            Frame::Accepted(_) => 5,
            Frame::Rejected(_) => 6,
            Frame::Retired(_) => 7,
            Frame::InputDone(_) => 8,
        }),
        frame matches Frame::Data(data) ==> payload@ == data@,
        frame is Detach ==> payload@.len() == 0,
        frame matches Frame::Hello(mode) ==> payload@ =~= seq![
            1u8,
            match mode {
                Mode::Attach => 1u8,
                Mode::Takeover => 2,
                Mode::Push => 3,
            },
        ],
        frame matches Frame::Accepted(epoch) ==> payload@ =~= be_bytes(epoch as nat, 8),
        frame matches Frame::Retired(epoch) ==> payload@ =~= be_bytes(epoch as nat, 8),
        frame matches Frame::Rejected(reason) ==> payload@ == encode_utf8(reason@),
        frame matches Frame::Resize(size) ==> payload@ =~= be_bytes(size@.rows as nat, 2)
            + be_bytes(size@.cols as nat, 2),
{
    law_msg_round_trip(frame@.msg_type(), frame@.payload(), Seq::empty());
    assert(msg_bytes(frame@.msg_type(), frame@.payload()) + Seq::<u8>::empty() =~= stream@);
    law_frame_round_trip(frame@);
}

/// What a message says, by its type and payload, and which messages say nothing: a hello
/// has two bytes, the version and a known mode; an epoch has eight; a reason is UTF-8; a
/// size has two numbers, neither of them zero; an outcome has seventeen bytes that do not
/// contradict each other; data and detaching are always understood. A payload that does not
/// fit its type, and a type that is not known, are told by that type.
pub proof fn law_messages_are_understood(
    msg_type: u8,
    payload: Vec<u8>,
    frame: Result<Frame, FrameError>,
)
    requires
        call_ensures(Frame::from_msg, (msg_type, payload), frame),
    ensures
        ({
            let p = payload@;
            &&& frame is Err ==> frame->Err_0 == (if 1 <= msg_type <= 8 {
                FrameError::Malformed(msg_type)
            } else {
                FrameError::Unknown(msg_type)
            })
            &&& !(1 <= msg_type <= 8) ==> frame is Err
            &&& msg_type == 1 ==> (frame matches Ok(Frame::Data(data)) && data@ == p)
            &&& msg_type == 2 ==> (frame is Ok <==> p.len() >= 4 && be_at(p, 0, 2) as u16 != 0
                && be_at(p, 2, 2) as u16 != 0)
            &&& msg_type == 2 ==> (frame matches Ok(f) ==> (f matches Frame::Resize(size)
                && size@.rows == be_at(p, 0, 2) as u16 && size@.cols == be_at(p, 2, 2) as u16))
            &&& msg_type == 3 ==> (frame matches Ok(Frame::Detach))
            &&& msg_type == 4 ==> (frame is Ok <==> p.len() == 2 && p[0] == 1 && 1 <= p[1] <= 3)
            &&& msg_type == 4 ==> (frame matches Ok(f) ==> f == Frame::Hello(
                if p[1] == 1 {
                    Mode::Attach
                } else if p[1] == 2 {
                    Mode::Takeover
                } else {
                    Mode::Push
                },
            ))
            &&& msg_type == 5 || msg_type == 7 ==> (frame is Ok <==> p.len() == 8)
            &&& msg_type == 5 ==> (frame matches Ok(f) ==> f == Frame::Accepted(
                be_at(p, 0, 8) as u64,
            ))
            &&& msg_type == 7 ==> (frame matches Ok(f) ==> f == Frame::Retired(
                be_at(p, 0, 8) as u64,
            ))
            &&& msg_type == 6 ==> (frame is Ok <==> valid_utf8(p))
            &&& msg_type == 6 ==> (frame matches Ok(f) ==> (f matches Frame::Rejected(reason)
                && reason@ == vstd::utf8::decode_utf8(p)))
            &&& msg_type == 8 ==> (frame is Ok ==> p.len() == 17)
            &&& msg_type == 8 ==> (frame matches Ok(f) ==> f is InputDone)
        }),
{
}

/// What a push came to, by its status and counts: all that was received was written, or it
/// was revoked, or the PTY was closed, with what was written and what was left. Counts that
/// contradict the status or each other, and a status that is not known, are nothing.
pub proof fn law_push_outcomes(
    status: u8,
    accepted: u64,
    received: u64,
    outcome: Option<PushOutcome>,
    payload: Vec<u8>,
    stored: &[u8],
    done: Option<(u8, u64, u64)>,
)
    requires
        call_ensures(PushOutcome::from_counts, (status, accepted, received), outcome),
        call_ensures(input_done_payload, (status, accepted, received), payload),
        stored@ == payload@,
        call_ensures(parse_input_done, (stored,), done),
    ensures
        done == Some((status, accepted, received)),
        payload@.len() == 17 && payload@[0] == status,
        outcome is Some <==> accepted <= received && status <= 2 && (status == 0 ==> accepted
            == received),
        outcome matches Some(o) ==> match o {
            PushOutcome::Written { bytes } => status == 0 && bytes == received,
            PushOutcome::Revoked(p) => status == 1 && p.accepted == accepted && p.accepted
                + p.unwritten == received,
            PushOutcome::Closed(p) => status == 2 && p.accepted == accepted && p.accepted
                + p.unwritten == received,
        },
{
    law_input_done_round_trip(status, accepted, received);
}

/// A size that is written is read back, and a mode that is written is read back as the same
/// one; what is too short or has a zero is no size, and any other byte is no mode.
pub proof fn law_sizes_and_modes_are_read_back(
    size: Geometry,
    payload: Vec<u8>,
    stored: &[u8],
    read: Option<Geometry>,
    other: &[u8],
    parsed: Option<Geometry>,
    mode: Mode,
    byte: u8,
    again: Option<Mode>,
    any: u8,
    known: Option<Mode>,
)
    requires
        size@.valid(),
        call_ensures(resize_payload, (size,), payload),
        stored@ == payload@,
        call_ensures(parse_resize, (stored,), read),
        call_ensures(parse_resize, (other,), parsed),
        call_ensures(Mode::to_byte, (mode,), byte),
        call_ensures(Mode::from_byte, (byte,), again),
        call_ensures(Mode::from_byte, (any,), known),
    ensures
        read matches Some(g) && g@ == size@,
        payload@.len() == 4,
        other@.len() < 4 ==> parsed is None,
        other@.len() >= 4 ==> (parsed is None <==> be_at(other@, 0, 2) as u16 == 0 || be_at(
            other@,
            2,
            2,
        ) as u16 == 0),
        again == Some(mode),
        known is Some <==> 1 <= any <= 3,
        byte == (match mode {
            Mode::Attach => 1u8,
            Mode::Takeover => 2,
            Mode::Push => 3,
        }),
{
    law_resize_round_trip(size@);
    lemma_be_bytes_len(size@.rows as nat, 2);
    lemma_be_bytes_len(size@.cols as nat, 2);
}

} // verus!
