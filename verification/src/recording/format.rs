//! What a recording is, byte for byte: the layout of headers and records, and
//! what a reader makes of any byte string.

use crate::bytes::{be_at, be_bytes};
use crate::model::ids::{version_of, RUN_ID_VERSION};
use crate::recording::{Corruption, DecodeErrorKind, EncodeError, SegmentEnd, Violation};
use vstd::prelude::*;

verus! {

/// The format version that this crate reads and writes.
pub const FORMAT_VERSION: u16 = 1;

/// Maximum `OUTPUT`/`INPUT` payload size in bytes.
pub const MAX_PAYLOAD: usize = 65_536;

/// Maximum `TERM` length in bytes.
pub const MAX_TERM_LEN: usize = 256;

/// `TNDRREC` and a zero byte, as one big-endian word.
pub const MAGIC: u64 = 0x544E_4452_5245_4300;

pub const HEADER_FIXED_LEN: usize = 56;

pub const CRC_LEN: usize = 4;

pub const HEADER_MIN_LEN: usize = 60;

pub const HEADER_MAX_LEN: usize = 316;

pub const PREFIX_LEN: usize = 8;

pub const BODY_FIXED_LEN: usize = 17;

pub const BODY_MAX_LEN: usize = 65_553;

pub const RESIZE_PAYLOAD_LEN: usize = 9;

pub const KIND_OUTPUT: u8 = 0x01;

pub const KIND_RESIZE: u8 = 0x02;

pub const KIND_INPUT: u8 = 0x03;

pub const CAUSE_USER: u8 = 0x01;

pub const CAUSE_REPAINT: u8 = 0x02;

/// The Castagnoli polynomial, lowest bit first.
pub const CRC_POLYNOMIAL: u32 = 0x82f6_3b78;

/// A CRC-32C register behind `n` more bits of zero.
pub open spec fn crc32c_shifted(register: u32, n: nat) -> u32
    decreases n,
{
    if n == 0 {
        register
    } else {
        let before = crc32c_shifted(register, (n - 1) as nat);
        if before & 1 == 1 {
            (before >> 1) ^ CRC_POLYNOMIAL
        } else {
            before >> 1
        }
    }
}

/// The CRC-32C register, which starts with all bits set, behind a byte string.
pub open spec fn crc32c_register(bytes: Seq<u8>) -> u32
    decreases bytes.len(),
{
    if bytes.len() == 0 {
        0xffff_ffff
    } else {
        crc32c_shifted(crc32c_register(bytes.drop_last()) ^ (bytes.last() as u32), 8)
    }
}

/// The CRC-32C of a byte string.
#[verifier::opaque]
pub open spec fn crc32c_of(bytes: Seq<u8>) -> u32 {
    crc32c_register(bytes) ^ 0xffff_ffff
}

/// `crc32c::crc32c`: the CRC-32C of the bytes. Each byte goes into the register lowest bit
/// first, the register starts with all bits set, and the result has them inverted.
#[verifier::external_body]
pub(crate) fn crc32c(bytes: &[u8]) -> (crc: u32)
    ensures
        crc == crc32c_of(bytes@),
{
    crc32c::crc32c(bytes)
}

/// Terminal dimensions.
pub struct GeometryModel {
    pub rows: u16,
    pub cols: u16,
}

/// Why a geometry change was applied.
pub enum CauseModel {
    User,
    Repaint { correlation: u32 },
}

/// A record's content.
pub enum KindModel {
    Output(Seq<u8>),
    Resize { geometry: GeometryModel, cause: CauseModel },
    Input(Seq<u8>),
}

/// One recorded observation.
pub struct RecordModel {
    pub sequence: u64,
    pub elapsed_ns: u64,
    pub kind: KindModel,
}

/// The fields of a segment header.
pub struct HeaderModel {
    pub run_id: (u64, u64),
    pub segment_index: u32,
    pub first_sequence: u64,
    pub origin_unix_ns: u64,
    pub geometry: GeometryModel,
    pub input_recorded: bool,
    pub term: Seq<char>,
}

/// A decoded segment.
pub struct SegmentModel {
    pub header: HeaderModel,
    pub records: Seq<RecordModel>,
    pub end: SegmentEnd,
}

/// A decoded recording.
pub struct RecordingModel {
    pub header: HeaderModel,
    pub segment_count: nat,
    pub records: Seq<RecordModel>,
    pub end: SegmentEnd,
}

/// A decoding failure and its place.
pub struct ErrorModel {
    pub kind: DecodeErrorKind,
    pub segment: Option<u32>,
    pub offset: nat,
    pub last_valid_sequence: Option<u64>,
}

impl GeometryModel {
    /// Both dimensions are at least one.
    pub open spec fn valid(self) -> bool {
        self.rows >= 1 && self.cols >= 1
    }
}

/// A character that a `TERM` value may hold: `0x21..=0x7E`.
pub open spec fn term_char(c: char) -> bool {
    '!' <= c <= '~'
}

/// A value that `TERM` may have.
pub open spec fn term_valid(term: Seq<char>) -> bool {
    term.len() <= MAX_TERM_LEN && forall|i: int| 0 <= i < term.len() ==> term_char(#[trigger] term[i])
}

impl HeaderModel {
    /// The rules on a header's fields, each by itself and the start of segment 0.
    pub open spec fn valid(self) -> bool {
        &&& version_of(self.run_id.0) == RUN_ID_VERSION
        &&& self.first_sequence >= 1
        &&& self.segment_index == 0 ==> self.first_sequence == 1
        &&& self.geometry.valid()
        &&& term_valid(self.term)
    }
}

impl KindModel {
    /// The rules on a record's content in a segment that may record input.
    pub open spec fn valid(self, input_recorded: bool) -> bool {
        match self {
            KindModel::Output(bytes) => 1 <= bytes.len() <= MAX_PAYLOAD,
            KindModel::Input(bytes) => 1 <= bytes.len() <= MAX_PAYLOAD && input_recorded,
            KindModel::Resize { geometry, cause } => geometry.valid() && (cause matches
                CauseModel::Repaint { correlation } ==> correlation >= 1),
        }
    }
}

// What is written.

/// The bytes of a `TERM` value.
pub open spec fn term_bytes(term: Seq<char>) -> Seq<u8> {
    Seq::new(term.len(), |i: int| term[i] as u8)
}

/// `TERM` as read from its bytes.
pub open spec fn term_text(bytes: Seq<u8>) -> Seq<char> {
    Seq::new(bytes.len(), |i: int| bytes[i] as char)
}

/// A byte string followed by its checksum.
pub open spec fn sealed(body: Seq<u8>) -> Seq<u8> {
    body + be_bytes(crc32c_of(body) as nat, CRC_LEN as nat)
}

pub open spec fn flags_word(input_recorded: bool) -> nat {
    if input_recorded {
        1
    } else {
        0
    }
}

/// A header without its checksum: the fields in order, each big-endian.
#[verifier::opaque]
pub open spec fn header_body(h: HeaderModel) -> Seq<u8> {
    be_bytes(MAGIC as nat, 8) + be_bytes(FORMAT_VERSION as nat, 2) + be_bytes(
        HEADER_MIN_LEN as nat + h.term.len(),
        2,
    ) + be_bytes(flags_word(h.input_recorded), 2) + be_bytes(h.run_id.0 as nat, 8) + be_bytes(
        h.run_id.1 as nat,
        8,
    ) + be_bytes(h.segment_index as nat, 4) + be_bytes(h.first_sequence as nat, 8) + be_bytes(
        h.origin_unix_ns as nat,
        8,
    ) + be_bytes(h.geometry.rows as nat, 2) + be_bytes(h.geometry.cols as nat, 2) + be_bytes(
        h.term.len(),
        2,
    ) + term_bytes(h.term)
}

/// A header as it stands at the start of a segment.
pub open spec fn header_bytes(h: HeaderModel) -> Seq<u8> {
    sealed(header_body(h))
}

pub open spec fn kind_code(kind: KindModel) -> u8 {
    match kind {
        KindModel::Output(_) => KIND_OUTPUT,
        KindModel::Resize { .. } => KIND_RESIZE,
        KindModel::Input(_) => KIND_INPUT,
    }
}

pub open spec fn cause_code(cause: CauseModel) -> u8 {
    match cause {
        CauseModel::User => CAUSE_USER,
        CauseModel::Repaint { .. } => CAUSE_REPAINT,
    }
}

pub open spec fn correlation_word(cause: CauseModel) -> u32 {
    match cause {
        CauseModel::User => 0,
        CauseModel::Repaint { correlation } => correlation,
    }
}

/// The payload of a record.
pub open spec fn payload_bytes(kind: KindModel) -> Seq<u8> {
    match kind {
        KindModel::Output(bytes) => bytes,
        KindModel::Input(bytes) => bytes,
        KindModel::Resize { geometry, cause } => be_bytes(geometry.rows as nat, 2) + be_bytes(
            geometry.cols as nat,
            2,
        ) + seq![cause_code(cause)] + be_bytes(correlation_word(cause) as nat, 4),
    }
}

/// The checksummed part of a record behind its length prefix.
pub open spec fn record_body(r: RecordModel) -> Seq<u8> {
    seq![kind_code(r.kind)] + be_bytes(r.sequence as nat, 8) + be_bytes(r.elapsed_ns as nat, 8)
        + payload_bytes(r.kind)
}

/// The length of a body and its complement, each as one word.
pub open spec fn length_prefix(body_len: nat) -> Seq<u8> {
    be_bytes(body_len, 4) + be_bytes((0xFFFF_FFFF - body_len) as nat, 4)
}

/// A record without its checksum.
#[verifier::opaque]
pub open spec fn record_frame(r: RecordModel) -> Seq<u8> {
    length_prefix(record_body(r).len()) + record_body(r)
}

/// A record as it stands in a segment.
pub open spec fn record_bytes(r: RecordModel) -> Seq<u8> {
    sealed(record_frame(r))
}

/// Records one after the other.
pub open spec fn records_bytes(records: Seq<RecordModel>) -> Seq<u8>
    decreases records.len(),
{
    if records.len() == 0 {
        Seq::empty()
    } else {
        records_bytes(records.drop_last()) + record_bytes(records.last())
    }
}

/// A whole segment.
pub open spec fn segment_bytes(h: HeaderModel, records: Seq<RecordModel>) -> Seq<u8> {
    header_bytes(h) + records_bytes(records)
}

// What holds at a point of a segment, told by the records so far.

/// The sequence that follows `n` records from `first` on; `None` past `u64::MAX`.
pub open spec fn next_sequence(first: u64, n: nat) -> Option<u64> {
    if first + n <= u64::MAX {
        Some((first + n) as u64)
    } else {
        None
    }
}

/// The sequence of the last record.
pub open spec fn last_sequence(records: Seq<RecordModel>) -> Option<u64> {
    if records.len() == 0 {
        None
    } else {
        Some(records.last().sequence)
    }
}

/// The time of the last record, or `carried` where there is none.
pub open spec fn last_elapsed(carried: Option<u64>, records: Seq<RecordModel>) -> Option<u64> {
    if records.len() == 0 {
        carried
    } else {
        Some(records.last().elapsed_ns)
    }
}

/// The geometry in effect after `records`.
pub open spec fn geometry_after(start: GeometryModel, records: Seq<RecordModel>) -> GeometryModel
    decreases records.len(),
{
    if records.len() == 0 {
        start
    } else {
        match records.last().kind {
            KindModel::Resize { geometry, .. } => geometry,
            _ => geometry_after(start, records.drop_last()),
        }
    }
}

/// `elapsed` lies before `previous`.
pub open spec fn regressed(previous: Option<u64>, elapsed: u64) -> bool {
    previous matches Some(p) && elapsed < p
}

// What a writer refuses.

/// The fault of an `OUTPUT` or `INPUT` payload.
pub open spec fn payload_error(bytes: Seq<u8>) -> Option<EncodeError> {
    if bytes.len() == 0 {
        Some(EncodeError::EmptyPayload)
    } else if bytes.len() > MAX_PAYLOAD {
        Some(EncodeError::PayloadTooLarge { len: bytes.len() as usize })
    } else {
        None
    }
}

/// The first rule that `r` breaks behind `records`, in the order in which the
/// rules are asked: sequence, time, payload, input policy.
pub open spec fn encode_error(
    h: HeaderModel,
    carried: Option<u64>,
    records: Seq<RecordModel>,
    r: RecordModel,
) -> Option<EncodeError> {
    match next_sequence(h.first_sequence, records.len()) {
        None => Some(EncodeError::SequenceExhausted),
        Some(expected) => if r.sequence != expected {
            Some(EncodeError::Sequence { expected, got: r.sequence })
        } else if regressed(last_elapsed(carried, records), r.elapsed_ns) {
            Some(
                EncodeError::ElapsedRegressed {
                    previous: last_elapsed(carried, records)->0,
                    got: r.elapsed_ns,
                },
            )
        } else {
            match r.kind {
                KindModel::Output(bytes) => payload_error(bytes),
                KindModel::Input(bytes) => if payload_error(bytes) is Some {
                    payload_error(bytes)
                } else if !h.input_recorded {
                    Some(EncodeError::InputNotRecorded)
                } else {
                    None
                },
                KindModel::Resize { .. } => None,
            }
        },
    }
}

// What a reader makes of bytes.

/// The length of the header that `bytes` claims to start with, where its
/// framing holds.
pub open spec fn header_frame(bytes: Seq<u8>) -> Result<nat, DecodeErrorKind> {
    if bytes.len() < HEADER_MIN_LEN {
        Err(DecodeErrorKind::Corrupt(Corruption::HeaderIncomplete))
    } else if be_at(bytes, 0, 8) != MAGIC {
        Err(DecodeErrorKind::BadMagic)
    } else if be_at(bytes, 8, 2) != FORMAT_VERSION {
        Err(DecodeErrorKind::UnsupportedVersion(be_at(bytes, 8, 2) as u16))
    } else if !(HEADER_MIN_LEN <= be_at(bytes, 10, 2) <= HEADER_MAX_LEN) {
        Err(DecodeErrorKind::Corrupt(Corruption::HeaderLength))
    } else if bytes.len() < be_at(bytes, 10, 2) {
        Err(DecodeErrorKind::Corrupt(Corruption::HeaderIncomplete))
    } else {
        Ok(be_at(bytes, 10, 2))
    }
}

/// The fields of a header of `header_len` bytes whose checksum holds.
pub open spec fn header_fields(bytes: Seq<u8>, header_len: nat) -> Result<HeaderModel, Violation> {
    let term_len = be_at(bytes, 54, 2);
    let term = bytes.subrange(HEADER_FIXED_LEN as int, HEADER_FIXED_LEN + term_len);
    let run_id = (be_at(bytes, 14, 8) as u64, be_at(bytes, 22, 8) as u64);
    let segment_index = be_at(bytes, 30, 4) as u32;
    let first_sequence = be_at(bytes, 34, 8) as u64;
    let geometry = GeometryModel {
        rows: be_at(bytes, 50, 2) as u16,
        cols: be_at(bytes, 52, 2) as u16,
    };
    if HEADER_MIN_LEN + term_len != header_len {
        Err(Violation::HeaderLengthMismatch)
    } else if be_at(bytes, 12, 2) > 1 {
        Err(Violation::ReservedFlags)
    } else if version_of(run_id.0) != RUN_ID_VERSION {
        Err(Violation::RunIdVersion)
    } else if first_sequence == 0 || (segment_index == 0 && first_sequence != 1) {
        Err(Violation::FirstSequence)
    } else if !geometry.valid() {
        Err(Violation::ZeroGeometry)
    } else if !term_valid(term_text(term)) {
        Err(Violation::TermByte)
    } else {
        Ok(
            HeaderModel {
                run_id,
                segment_index,
                first_sequence,
                origin_unix_ns: be_at(bytes, 42, 8) as u64,
                geometry,
                input_recorded: be_at(bytes, 12, 2) == 1,
                term: term_text(term),
            },
        )
    }
}

/// The header at the start of `bytes` and its length.
pub open spec fn parse_header(bytes: Seq<u8>) -> Result<(HeaderModel, nat), DecodeErrorKind> {
    match header_frame(bytes) {
        Err(kind) => Err(kind),
        Ok(len) => if crc32c_of(bytes.subrange(0, len - CRC_LEN)) != be_at(
            bytes,
            len - CRC_LEN,
            CRC_LEN as int,
        ) {
            Err(DecodeErrorKind::Corrupt(Corruption::HeaderChecksum))
        } else {
            match header_fields(bytes, len) {
                Err(v) => Err(DecodeErrorKind::Invalid(v)),
                Ok(h) => Ok((h, len)),
            }
        },
    }
}

/// The content of a record of kind `code`.
pub open spec fn parse_kind(
    code: u8,
    payload: Seq<u8>,
    input_recorded: bool,
) -> Result<KindModel, Violation> {
    if code == KIND_OUTPUT {
        if payload.len() == 0 {
            Err(Violation::PayloadSize)
        } else {
            Ok(KindModel::Output(payload))
        }
    } else if code == KIND_INPUT {
        if payload.len() == 0 {
            Err(Violation::PayloadSize)
        } else if !input_recorded {
            Err(Violation::InputNotRecorded)
        } else {
            Ok(KindModel::Input(payload))
        }
    } else if code == KIND_RESIZE {
        let geometry = GeometryModel {
            rows: be_at(payload, 0, 2) as u16,
            cols: be_at(payload, 2, 2) as u16,
        };
        let correlation = be_at(payload, 5, 4) as u32;
        if payload.len() != RESIZE_PAYLOAD_LEN {
            Err(Violation::PayloadSize)
        } else if !geometry.valid() {
            Err(Violation::ZeroGeometry)
        } else if payload[4] == CAUSE_USER {
            if correlation != 0 {
                Err(Violation::Correlation)
            } else {
                Ok(KindModel::Resize { geometry, cause: CauseModel::User })
            }
        } else if payload[4] == CAUSE_REPAINT {
            if correlation == 0 {
                Err(Violation::Correlation)
            } else {
                Ok(KindModel::Resize { geometry, cause: CauseModel::Repaint { correlation } })
            }
        } else {
            Err(Violation::UnknownResizeCause(payload[4]))
        }
    } else {
        Err(Violation::UnknownKind(code))
    }
}

/// The record with the checksummed body `body`, where `next` is the sequence
/// that it must carry and `previous` the time of the record before it.
pub open spec fn parse_body(
    body: Seq<u8>,
    input_recorded: bool,
    next: Option<u64>,
    previous: Option<u64>,
) -> Result<RecordModel, Violation> {
    let sequence = be_at(body, 1, 8) as u64;
    let elapsed_ns = be_at(body, 9, 8) as u64;
    match parse_kind(
        body[0],
        body.subrange(BODY_FIXED_LEN as int, body.len() as int),
        input_recorded,
    ) {
        Err(v) => Err(v),
        Ok(kind) => if next != Some(sequence) {
            Err(Violation::Sequence)
        } else if regressed(previous, elapsed_ns) {
            Err(Violation::ElapsedRegressed)
        } else {
            Ok(RecordModel { sequence, elapsed_ns, kind })
        },
    }
}

/// What stands at one place in a segment.
pub enum RecordStep {
    /// The data ends here.
    End,
    /// A record starts here that is not all there.
    Partial,
    /// A whole record that takes `len` bytes.
    Whole { record: RecordModel, len: nat },
    Bad(DecodeErrorKind),
}

/// What `rest`, the data behind `records`, starts with.
pub open spec fn record_step(
    h: HeaderModel,
    records: Seq<RecordModel>,
    rest: Seq<u8>,
) -> RecordStep {
    let body_len = be_at(rest, 0, 4);
    let crc_at = PREFIX_LEN + body_len;
    if rest.len() == 0 {
        RecordStep::End
    } else if rest.len() < PREFIX_LEN {
        RecordStep::Partial
    } else if be_at(rest, 4, 4) != 0xFFFF_FFFF - body_len {
        RecordStep::Bad(DecodeErrorKind::Corrupt(Corruption::LengthCheck))
    } else if !(BODY_FIXED_LEN <= body_len <= BODY_MAX_LEN) {
        RecordStep::Bad(DecodeErrorKind::Corrupt(Corruption::LengthBounds))
    } else if rest.len() < crc_at + CRC_LEN {
        RecordStep::Partial
    } else if crc32c_of(rest.subrange(0, crc_at)) != be_at(rest, crc_at, CRC_LEN as int) {
        RecordStep::Bad(DecodeErrorKind::Corrupt(Corruption::RecordChecksum))
    } else {
        match parse_body(
            rest.subrange(PREFIX_LEN as int, crc_at),
            h.input_recorded,
            next_sequence(h.first_sequence, records.len()),
            last_elapsed(None, records),
        ) {
            Err(v) => RecordStep::Bad(DecodeErrorKind::Invalid(v)),
            Ok(record) => RecordStep::Whole { record, len: (crc_at + CRC_LEN) as nat },
        }
    }
}

/// A failure at `offset`, behind `records`.
pub open spec fn failure(
    kind: DecodeErrorKind,
    offset: nat,
    records: Seq<RecordModel>,
) -> ErrorModel {
    ErrorModel { kind, segment: None, offset, last_valid_sequence: last_sequence(records) }
}

/// The segment with header `h` whose data from byte `pos` on is `rest`, when
/// `records` stand before that.
pub open spec fn parse_records(
    h: HeaderModel,
    records: Seq<RecordModel>,
    rest: Seq<u8>,
    pos: nat,
) -> Result<SegmentModel, ErrorModel>
    decreases rest.len(),
{
    match record_step(h, records, rest) {
        RecordStep::End => Ok(SegmentModel { header: h, records, end: SegmentEnd::Clean }),
        RecordStep::Partial => Ok(
            SegmentModel { header: h, records, end: SegmentEnd::Truncated { offset: pos as u64 } },
        ),
        RecordStep::Bad(kind) => Err(failure(kind, pos, records)),
        RecordStep::Whole { record, len } => parse_records(
            h,
            records.push(record),
            rest.subrange(len as int, rest.len() as int),
            pos + len,
        ),
    }
}

/// What one segment's bytes decode to.
pub open spec fn parse_segment(bytes: Seq<u8>) -> Result<SegmentModel, ErrorModel> {
    match parse_header(bytes) {
        Err(kind) => Err(failure(kind, 0, Seq::empty())),
        Ok((h, len)) => parse_records(
            h,
            Seq::empty(),
            bytes.subrange(len as int, bytes.len() as int),
            len,
        ),
    }
}

// What a reader asks of segments together.

/// The length of a header as it is written.
pub open spec fn header_len(h: HeaderModel) -> nat {
    HEADER_MIN_LEN as nat + h.term.len()
}

/// The last sequence of the last segment in `done`.
pub open spec fn last_so_far(done: Seq<SegmentModel>) -> Option<u64> {
    if done.len() == 0 {
        None
    } else {
        last_sequence(done.last().records)
    }
}

/// `b` where `a` is `None`.
pub open spec fn or_else(a: Option<u64>, b: Option<u64>) -> Option<u64> {
    if a is Some {
        a
    } else {
        b
    }
}

/// The first rule that segment `s` breaks behind the segments `done`, and the
/// byte at fault.
pub open spec fn segment_violation(
    done: Seq<SegmentModel>,
    s: SegmentModel,
    is_final: bool,
) -> Option<(Violation, nat)> {
    let first = done[0].header;
    let prev = done.last();
    if s.header.segment_index != done.len() {
        Some((Violation::SegmentIndex, 0))
    } else if done.len() > 0 && s.header.run_id != first.run_id {
        Some((Violation::SegmentRun, 0))
    } else if done.len() > 0 && s.header.origin_unix_ns != first.origin_unix_ns {
        Some((Violation::SegmentOrigin, 0))
    } else if done.len() > 0 && s.header.input_recorded != first.input_recorded {
        Some((Violation::SegmentFlags, 0))
    } else if done.len() > 0 && s.header.term != first.term {
        Some((Violation::SegmentTerm, 0))
    } else if done.len() > 0 && next_sequence(prev.header.first_sequence, prev.records.len())
        != Some(s.header.first_sequence) {
        Some((Violation::SegmentFirstSequence, 0))
    } else if done.len() > 0 && s.header.geometry != geometry_after(
        prev.header.geometry,
        prev.records,
    ) {
        Some((Violation::SegmentGeometry, 0))
    } else if done.len() > 0 && s.records.len() > 0 && regressed(
        last_elapsed(None, prev.records),
        s.records[0].elapsed_ns,
    ) {
        Some((Violation::SegmentElapsed, header_len(s.header)))
    } else if s.records.len() == 0 && !is_final {
        Some((Violation::EmptyInteriorSegment, header_len(s.header)))
    } else if done.len() >= u32::MAX {
        Some((Violation::SegmentIndex, 0))
    } else {
        None
    }
}

/// The segment that `bytes` holds behind the segments `done`, or the failure.
pub open spec fn parse_next_segment(
    done: Seq<SegmentModel>,
    bytes: Seq<u8>,
    is_final: bool,
) -> Result<SegmentModel, ErrorModel> {
    let segment = Some(done.len() as u32);
    match parse_segment(bytes) {
        Err(e) => Err(
            ErrorModel {
                segment,
                last_valid_sequence: or_else(e.last_valid_sequence, last_so_far(done)),
                ..e
            },
        ),
        Ok(s) => if s.end is Truncated && !is_final {
            Err(
                ErrorModel {
                    kind: DecodeErrorKind::Corrupt(Corruption::TruncatedInteriorSegment),
                    segment,
                    offset: s.end->offset as nat,
                    last_valid_sequence: or_else(last_sequence(s.records), last_so_far(done)),
                },
            )
        } else {
            match segment_violation(done, s, is_final) {
                Some((v, offset)) => Err(
                    ErrorModel {
                        kind: DecodeErrorKind::Invalid(v),
                        segment,
                        offset,
                        last_valid_sequence: last_so_far(done),
                    },
                ),
                None => Ok(s),
            }
        },
    }
}

/// The segments that `segments` holds, when `done` are the first of them.
pub open spec fn parse_segments(
    segments: Seq<Seq<u8>>,
    done: Seq<SegmentModel>,
) -> Result<Seq<SegmentModel>, ErrorModel>
    decreases segments.len() - done.len(),
{
    if done.len() >= segments.len() {
        Ok(done)
    } else {
        match parse_next_segment(
            done,
            segments[done.len() as int],
            done.len() + 1 == segments.len(),
        ) {
            Err(e) => Err(e),
            Ok(s) => parse_segments(segments, done.push(s)),
        }
    }
}

/// The records of segments, in order.
pub open spec fn all_records(done: Seq<SegmentModel>) -> Seq<RecordModel>
    decreases done.len(),
{
    if done.len() == 0 {
        Seq::empty()
    } else {
        all_records(done.drop_last()) + done.last().records
    }
}

/// What a list of segments decodes to.
pub open spec fn parse_recording(segments: Seq<Seq<u8>>) -> Result<RecordingModel, ErrorModel> {
    if segments.len() == 0 {
        Err(failure(DecodeErrorKind::Invalid(Violation::NoSegments), 0, Seq::empty()))
    } else {
        match parse_segments(segments, Seq::empty()) {
            Err(e) => Err(e),
            Ok(done) => Ok(
                RecordingModel {
                    header: done[0].header,
                    segment_count: done.len(),
                    records: all_records(done),
                    end: done.last().end,
                },
            ),
        }
    }
}

} // verus!
