//! Exact PTY recording codec, format version 1.
//!
//! A recording preserves exactly what a PTY owner observed and applied for one
//! run: output bytes, applied geometry, and, only when enabled at launch,
//! accepted input bytes. It is not `output.log`, which is a lossy readable
//! transcript.
//!
//! - [`SegmentEncoder`] writes one segment and enforces the format's sequence,
//!   time, payload, and input-policy rules, so a writer cannot emit a segment the
//!   decoder would reject. [`SegmentEncoder::next_segment`] rotates to the next
//!   segment with the continuity fields filled in.
//! - [`decode_segment`] decodes one segment. A segment that ends exactly at a
//!   record boundary ends [`SegmentEnd::Clean`]; one whose final record is missing
//!   bytes ends [`SegmentEnd::Truncated`] and excludes that record. A complete
//!   record with a bad checksum is always an error, never a truncated tail.
//! - [`decode_recording`] decodes an ordered list of segments and enforces the
//!   cross-segment rules.
//!
//! The layout itself is in [`format`], and what holds of the codec as a whole in
//! [`laws`].

pub mod dump;
pub mod format;
pub mod laws;
pub mod messages;
pub mod scan;

use crate::bytes::{be_bytes, be_u16, be_u32, be_u64, lemma_be_bytes_len, push_be};
use crate::model::ids::RunId;
use crate::recording::format::{
    all_records, correlation_word, crc32c, encode_error, geometry_after, header_body, header_bytes,
    header_fields, header_frame, header_len, last_elapsed, last_sequence, next_sequence, parse_body,
    parse_header, parse_kind, parse_recording, parse_records, parse_segment, parse_segments,
    payload_bytes, payload_error, record_body, record_bytes, record_frame, record_step,
    segment_violation, term_bytes, term_char, term_text, term_valid, RecordStep,
    CauseModel, ErrorModel, GeometryModel, HeaderModel, KindModel, RecordModel, RecordingModel,
    SegmentModel, BODY_FIXED_LEN, BODY_MAX_LEN, CAUSE_REPAINT, CAUSE_USER, CRC_LEN,
    HEADER_FIXED_LEN, HEADER_MAX_LEN, HEADER_MIN_LEN, KIND_INPUT, KIND_OUTPUT, KIND_RESIZE, MAGIC,
    PREFIX_LEN, RESIZE_PAYLOAD_LEN,
};
use vstd::prelude::*;
use vstd::slice::{slice_subrange, slice_to_vec};
use vstd::utf8::{encode_utf8, is_ascii_chars, is_ascii_chars_encode_utf8};
pub use crate::recording::format::{FORMAT_VERSION, MAX_PAYLOAD, MAX_TERM_LEN};

verus! {

/// Terminal dimensions; both are at least one.
#[derive(Clone, Copy, Debug, PartialEq, Eq, Hash, Structural)]
pub struct Geometry {
    rows: u16,
    cols: u16,
}

impl View for Geometry {
    type V = GeometryModel;

    closed spec fn view(&self) -> GeometryModel {
        GeometryModel { rows: self.rows, cols: self.cols }
    }
}

/// A geometry is its two dimensions.
pub broadcast proof fn lemma_geometry_ext(a: Geometry, b: Geometry)
    ensures
        #[trigger] a@ == #[trigger] b@ <==> a == b,
{
}

impl Geometry {
    #[verifier::type_invariant]
    pub open spec fn valid(self) -> bool {
        self@.valid()
    }

    /// `None` if either dimension is zero.
    pub fn new(rows: u16, cols: u16) -> (geometry: Option<Geometry>)
        ensures
            geometry is Some <==> rows != 0 && cols != 0,
            geometry matches Some(g) ==> g@ == (GeometryModel { rows, cols }),
    {
        if rows == 0 || cols == 0 {
            None
        } else {
            Some(Geometry { rows, cols })
        }
    }

    pub fn rows(self) -> (rows: u16)
        ensures
            rows == self@.rows,
            rows >= 1,
    {
        proof {
            use_type_invariant(&self);
        }
        self.rows
    }

    pub fn cols(self) -> (cols: u16)
        ensures
            cols == self@.cols,
            cols >= 1,
    {
        proof {
            use_type_invariant(&self);
        }
        self.cols
    }
}

/// A record's position in the run. Starts at one.
#[derive(Clone, Copy, Debug, PartialEq, Eq, PartialOrd, Ord, Hash, Structural)]
pub struct Sequence(u64);

impl View for Sequence {
    type V = u64;

    closed spec fn view(&self) -> u64 {
        self.0
    }
}

impl Sequence {
    #[verifier::type_invariant]
    pub open spec fn valid(self) -> bool {
        self@ >= 1
    }

    /// The first sequence of every run.
    pub fn first() -> (sequence: Sequence)
        ensures
            sequence@ == 1,
    {
        Sequence(1)
    }

    /// `None` for zero.
    pub fn new(value: u64) -> (sequence: Option<Sequence>)
        ensures
            sequence is Some <==> value != 0,
            sequence matches Some(s) ==> s@ == value,
    {
        if value == 0 {
            None
        } else {
            Some(Sequence(value))
        }
    }

    pub fn get(self) -> (value: u64)
        ensures
            value == self@,
            value >= 1,
    {
        proof {
            use_type_invariant(&self);
        }
        self.0
    }

    /// The following sequence; `None` at `u64::MAX`.
    pub fn next(self) -> (sequence: Option<Sequence>)
        ensures
            sequence is Some <==> self@ < u64::MAX,
            sequence matches Some(s) ==> s@ == self@ + 1,
    {
        if self.0 == u64::MAX {
            None
        } else {
            Some(Sequence(self.0 + 1))
        }
    }
}

/// Ties the two records of a repaint together. Never zero.
#[derive(Clone, Copy, Debug, PartialEq, Eq, Hash, Structural)]
pub struct Correlation(u32);

impl View for Correlation {
    type V = u32;

    closed spec fn view(&self) -> u32 {
        self.0
    }
}

impl Correlation {
    #[verifier::type_invariant]
    pub open spec fn valid(self) -> bool {
        self@ >= 1
    }

    /// `None` for zero.
    pub fn new(value: u32) -> (correlation: Option<Correlation>)
        ensures
            correlation is Some <==> value != 0,
            correlation matches Some(c) ==> c@ == value,
    {
        if value == 0 {
            None
        } else {
            Some(Correlation(value))
        }
    }

    pub fn get(self) -> (value: u32)
        ensures
            value == self@,
            value >= 1,
    {
        proof {
            use_type_invariant(&self);
        }
        self.0
    }
}

/// The child's `TERM`: at most [`MAX_TERM_LEN`] bytes, each in `0x21..=0x7E`.
#[derive(Debug, PartialEq, Eq, Hash)]
pub struct TermName(String);

impl Clone for TermName {
    fn clone(&self) -> (name: TermName)
        ensures
            name@ == self@,
    {
        proof {
            use_type_invariant(self);
        }
        TermName(self.0.clone())
    }
}

#[derive(Clone, Copy, Debug, PartialEq, Eq, Structural)]
pub enum TermNameError {
    /// `TERM` is longer than [`MAX_TERM_LEN`] bytes.
    TooLong,
    /// `TERM` contains a byte outside `0x21..=0x7E`.
    InvalidByte,
}

impl View for TermName {
    type V = Seq<char>;

    closed spec fn view(&self) -> Seq<char> {
        self.0@
    }
}

impl TermName {
    #[verifier::type_invariant]
    pub open spec fn valid(self) -> bool {
        term_valid(self@)
    }

    pub fn new(value: &str) -> (name: Result<TermName, TermNameError>)
        ensures
            name == Err::<TermName, TermNameError>(TermNameError::TooLong)
                <==> encode_utf8(value@).len() > MAX_TERM_LEN,
            name is Ok <==> term_valid(value@),
            name matches Ok(n) ==> n@ == value@,
    {
        let bytes = value.as_bytes();
        let mut printable = true;
        let mut i: usize = 0;
        let count: usize = value.unicode_len();
        while i < count
            invariant
                count == value@.len(),
                i <= count,
                printable <==> forall|j: int| 0 <= j < i ==> term_char(#[trigger] value@[j]),
            decreases count - i,
        {
            let c: char = value.get_char(i);
            if !('!' <= c && c <= '~') {
                printable = false;
            }
            i = i + 1;
        }
        proof {
            if printable {
                assert forall|j: int| 0 <= j < value@.len() implies '\0' <= #[trigger] value@[j]
                    <= '\u{7f}' by {
                    assert(term_char(value@[j]));
                }
                assert(is_ascii_chars(value@));
                is_ascii_chars_encode_utf8(value@);
            }
        }
        if bytes.len() > MAX_TERM_LEN {
            Err(TermNameError::TooLong)
        } else if !printable {
            Err(TermNameError::InvalidByte)
        } else {
            Ok(TermName(value.to_owned()))
        }
    }

    /// No `TERM`.
    pub fn empty() -> (name: TermName)
        ensures
            name@ == Seq::<char>::empty(),
    {
        TermName(String::new())
    }

    pub fn as_str(&self) -> (text: &str)
        ensures
            text@ == self@,
    {
        self.0.as_str()
    }
}

/// Why a geometry change was applied.
#[derive(Clone, Copy, Debug, PartialEq, Eq, Hash, Structural)]
pub enum ResizeCause {
    /// A client resize.
    User,
    /// A repaint nudge; both records of a shrink/restore pair share `correlation`.
    Repaint { correlation: Correlation },
}

/// A record's content.
#[derive(Clone, Debug, PartialEq, Eq)]
pub enum RecordKind {
    /// Exact PTY output bytes.
    Output(Vec<u8>),
    /// Geometry the owner applied.
    Resize { geometry: Geometry, cause: ResizeCause },
    /// Accepted input bytes (only in segments with input recording enabled).
    Input(Vec<u8>),
}

/// One recorded observation.
#[derive(Clone, Debug, PartialEq, Eq)]
pub struct Record {
    pub sequence: Sequence,
    /// Nanoseconds since the recording origin, from a monotonic clock.
    pub elapsed_ns: u64,
    pub kind: RecordKind,
}

/// Segment header fields.
#[derive(Debug, PartialEq, Eq)]
pub struct SegmentHeader {
    pub run_id: RunId,
    pub segment_index: u32,
    pub first_sequence: Sequence,
    /// Wall clock (Unix epoch, ns) when the run's recording started.
    pub origin_unix_ns: u64,
    /// Geometry in effect at segment start.
    pub geometry: Geometry,
    pub input_recorded: bool,
    pub term: TermName,
}

#[derive(Clone, Copy, Debug, PartialEq, Eq, Structural)]
pub enum EncodeError {
    /// Segment 0 must start at sequence 1.
    FirstSequence,
    Sequence { expected: u64, got: u64 },
    /// The sequence space is exhausted.
    SequenceExhausted,
    /// Elapsed time went backwards.
    ElapsedRegressed { previous: u64, got: u64 },
    /// The record payload is empty.
    EmptyPayload,
    /// The record payload is longer than [`MAX_PAYLOAD`].
    PayloadTooLarge { len: usize },
    /// An input record in a segment without input recording.
    InputNotRecorded,
    /// There is no rotating away from a segment with no records.
    EmptySegmentRotation,
    /// The segment index space is exhausted.
    SegmentIndexExhausted,
}

/// How a decoded segment ended.
#[derive(Clone, Copy, Debug, PartialEq, Eq, Structural)]
pub enum SegmentEnd {
    /// The data ended exactly at a record boundary.
    Clean,
    /// The final record starting at byte `offset` was incomplete and is excluded.
    Truncated { offset: u64 },
}

/// A decoded segment.
#[derive(Clone, Debug, PartialEq, Eq)]
pub struct DecodedSegment {
    pub header: SegmentHeader,
    pub records: Vec<Record>,
    pub end: SegmentEnd,
}

/// A decoded recording.
#[derive(Clone, Debug, PartialEq, Eq)]
pub struct DecodedRecording {
    /// Segment 0's header.
    pub header: SegmentHeader,
    pub segment_count: u32,
    pub records: Vec<Record>,
    /// How the final segment ended.
    pub end: SegmentEnd,
}

/// Damage that checksums or framing checks detected.
#[derive(Clone, Copy, Debug, PartialEq, Eq, Structural)]
pub enum Corruption {
    HeaderIncomplete,
    HeaderLength,
    HeaderChecksum,
    LengthCheck,
    LengthBounds,
    RecordChecksum,
    TruncatedInteriorSegment,
}

/// Checksummed data that breaks a format rule.
#[derive(Clone, Copy, Debug, PartialEq, Eq, Structural)]
pub enum Violation {
    HeaderLengthMismatch,
    ReservedFlags,
    RunIdVersion,
    FirstSequence,
    ZeroGeometry,
    TermByte,
    UnknownKind(u8),
    PayloadSize,
    UnknownResizeCause(u8),
    Correlation,
    InputNotRecorded,
    Sequence,
    ElapsedRegressed,
    NoSegments,
    SegmentIndex,
    SegmentRun,
    SegmentOrigin,
    SegmentFlags,
    SegmentTerm,
    SegmentFirstSequence,
    SegmentGeometry,
    SegmentElapsed,
    EmptyInteriorSegment,
}

#[derive(Clone, Copy, Debug, PartialEq, Eq, Structural)]
pub enum DecodeErrorKind {
    BadMagic,
    UnsupportedVersion(u16),
    Corrupt(Corruption),
    Invalid(Violation),
}

/// A decoding failure, located precisely.
#[derive(Clone, Copy, Debug, PartialEq, Eq)]
pub struct DecodeError {
    pub kind: DecodeErrorKind,
    /// Position in the list given to [`decode_recording`]; `None` from
    /// [`decode_segment`].
    pub segment: Option<u32>,
    /// Byte offset within the segment of the header or record at fault.
    pub offset: u64,
    /// The last record that decoded validly before the failure.
    pub last_valid_sequence: Option<Sequence>,
}

// What each type stands for.

pub open spec fn sequence_model(sequence: Option<Sequence>) -> Option<u64> {
    match sequence {
        Some(s) => Some(s@),
        None => None,
    }
}

impl View for ResizeCause {
    type V = CauseModel;

    open spec fn view(&self) -> CauseModel {
        match *self {
            ResizeCause::User => CauseModel::User,
            ResizeCause::Repaint { correlation } => CauseModel::Repaint {
                correlation: correlation@,
            },
        }
    }
}

impl View for RecordKind {
    type V = KindModel;

    open spec fn view(&self) -> KindModel {
        match *self {
            RecordKind::Output(bytes) => KindModel::Output(bytes@),
            RecordKind::Resize { geometry, cause } => KindModel::Resize {
                geometry: geometry@,
                cause: cause@,
            },
            RecordKind::Input(bytes) => KindModel::Input(bytes@),
        }
    }
}

impl View for Record {
    type V = RecordModel;

    open spec fn view(&self) -> RecordModel {
        RecordModel {
            sequence: self.sequence@,
            elapsed_ns: self.elapsed_ns,
            kind: self.kind@,
        }
    }
}

pub open spec fn record_models(records: Seq<Record>) -> Seq<RecordModel> {
    Seq::new(records.len(), |i: int| records[i]@)
}

impl View for SegmentHeader {
    type V = HeaderModel;

    open spec fn view(&self) -> HeaderModel {
        HeaderModel {
            run_id: self.run_id@,
            segment_index: self.segment_index,
            first_sequence: self.first_sequence@,
            origin_unix_ns: self.origin_unix_ns,
            geometry: self.geometry@,
            input_recorded: self.input_recorded,
            term: self.term@,
        }
    }
}

impl Clone for SegmentHeader {
    fn clone(&self) -> (header: SegmentHeader)
        ensures
            header@ == self@,
    {
        SegmentHeader {
            run_id: self.run_id,
            segment_index: self.segment_index,
            first_sequence: self.first_sequence,
            origin_unix_ns: self.origin_unix_ns,
            geometry: self.geometry,
            input_recorded: self.input_recorded,
            term: self.term.clone(),
        }
    }
}

impl View for DecodedSegment {
    type V = SegmentModel;

    open spec fn view(&self) -> SegmentModel {
        SegmentModel {
            header: self.header@,
            records: record_models(self.records@),
            end: self.end,
        }
    }
}

impl View for DecodedRecording {
    type V = RecordingModel;

    open spec fn view(&self) -> RecordingModel {
        RecordingModel {
            header: self.header@,
            segment_count: self.segment_count as nat,
            records: record_models(self.records@),
            end: self.end,
        }
    }
}

impl View for DecodeError {
    type V = ErrorModel;

    open spec fn view(&self) -> ErrorModel {
        ErrorModel {
            kind: self.kind,
            segment: self.segment,
            offset: self.offset as nat,
            last_valid_sequence: sequence_model(self.last_valid_sequence),
        }
    }
}

// Writing.

/// What an encoder has written: its header, the time that it continues from,
/// and its records.
pub struct EncoderModel {
    pub header: HeaderModel,
    pub carried: Option<u64>,
    pub records: Seq<RecordModel>,
}

impl EncoderModel {
    /// Every record was within the rules when it was written.
    pub open spec fn valid(self) -> bool {
        self.header.valid() && accepted(self.header, self.carried, self.records)
    }
}

/// `records`, one after the other, keep the rules of a segment with header `h`
/// that continues from the time `carried`.
pub open spec fn accepted(h: HeaderModel, carried: Option<u64>, records: Seq<RecordModel>) -> bool
    decreases records.len(),
{
    records.len() > 0 ==> {
        &&& accepted(h, carried, records.drop_last())
        &&& encode_error(h, carried, records.drop_last(), records.last()) is None
        &&& records.last().kind.valid(h.input_recorded)
    }
}

/// Writes one segment, enforcing the format rules on every record.
pub struct SegmentEncoder {
    header: SegmentHeader,
    progress: Progress,
}

/// How far a segment has come.
struct Progress {
    next_sequence: Option<Sequence>,
    last_elapsed_ns: Option<u64>,
    geometry: Geometry,
    records: u64,
    carried: Ghost<Option<u64>>,
    written: Ghost<Seq<RecordModel>>,
}

impl View for SegmentEncoder {
    type V = EncoderModel;

    closed spec fn view(&self) -> EncoderModel {
        EncoderModel { header: self.header@, carried: self.progress.carried@, records: self.progress.written@ }
    }
}

impl SegmentEncoder {
    /// The counters tell what the records written so far say.
    #[verifier::type_invariant]
    spec fn inv(self) -> bool {
        &&& self@.valid()
        &&& sequence_model(self.progress.next_sequence) == next_sequence(
            self@.header.first_sequence,
            self@.records.len(),
        )
        &&& self.progress.last_elapsed_ns == last_elapsed(self@.carried, self@.records)
        &&& self.progress.geometry@ == geometry_after(self@.header.geometry, self@.records)
        &&& self.progress.records == self@.records.len()
    }

    /// Refused only where segment 0 does not start at sequence 1.
    pub fn new(header: SegmentHeader) -> (encoder: Result<SegmentEncoder, EncodeError>)
        ensures
            encoder is Ok <==> (header@.segment_index == 0 ==> header@.first_sequence == 1),
            encoder matches Ok(e) ==> e@ == (EncoderModel {
                header: header@,
                carried: None,
                records: Seq::empty(),
            }) && e@.valid(),
            encoder matches Err(e) ==> e == EncodeError::FirstSequence,
    {
        if header.segment_index == 0 && header.first_sequence.get() != 1 {
            return Err(EncodeError::FirstSequence);
        }
        proof {
            use_type_invariant(&header.run_id);
            use_type_invariant(&header.first_sequence);
            use_type_invariant(&header.geometry);
            use_type_invariant(&header.term);
        }
        Ok(
            SegmentEncoder {
                progress: Progress {
                    next_sequence: Some(header.first_sequence),
                    last_elapsed_ns: None,
                    geometry: header.geometry,
                    records: 0,
                    carried: Ghost(None),
                    written: Ghost(Seq::empty()),
                },
                header,
            },
        )
    }

    pub fn header(&self) -> (header: &SegmentHeader)
        ensures
            header@ == self@.header,
    {
        &self.header
    }

    /// The encoded header, including its checksum.
    pub fn header_bytes(&self) -> (bytes: Vec<u8>)
        ensures
            bytes@ == header_bytes(self@.header),
            self@.valid(),
    {
        proof {
            use_type_invariant(self);
        }
        let mut out = header_body_bytes(&self.header);
        let crc: u32 = crc32c(out.as_slice());
        push_be(&mut out, crc as u64, 4);
        out
    }

    /// Validates `record` against the segment so far and encodes it. On an error
    /// the encoder is unchanged.
    pub fn encode(&mut self, record: &Record) -> (bytes: Result<Vec<u8>, EncodeError>)
        ensures
            match encode_error(
                old(self)@.header,
                old(self)@.carried,
                old(self)@.records,
                record@,
            ) {
                Some(error) => bytes == Err::<Vec<u8>, EncodeError>(error) && *final(self) == *old(self),
                None => bytes matches Ok(out) && out@ == record_bytes(record@) && final(self)@ == (
                EncoderModel {
                    header: old(self)@.header,
                    carried: old(self)@.carried,
                    records: old(self)@.records.push(record@),
                }) && final(self)@.valid(),
            },
    {
        proof {
            use_type_invariant(&*self);
        }
        let expected = match self.progress.next_sequence {
            Some(expected) => expected,
            None => return Err(EncodeError::SequenceExhausted),
        };
        if record.sequence.get() != expected.get() {
            return Err(
                EncodeError::Sequence { expected: expected.get(), got: record.sequence.get() },
            );
        }
        if let Some(previous) = self.progress.last_elapsed_ns {
            if record.elapsed_ns < previous {
                return Err(EncodeError::ElapsedRegressed { previous, got: record.elapsed_ns });
            }
        }
        match &record.kind {
            RecordKind::Output(bytes) => {
                if let Err(error) = checked_payload(bytes.as_slice()) {
                    return Err(error);
                }
            },
            RecordKind::Input(bytes) => {
                if let Err(error) = checked_payload(bytes.as_slice()) {
                    return Err(error);
                }
                if !self.header.input_recorded {
                    return Err(EncodeError::InputNotRecorded);
                }
            },
            RecordKind::Resize { geometry, cause } => {
                proof {
                    use_type_invariant(geometry);
                    lemma_be_bytes_len(geometry@.rows as nat, 2);
                    lemma_be_bytes_len(geometry@.cols as nat, 2);
                    lemma_be_bytes_len(correlation_word(cause@) as nat, 4);
                }
                if let ResizeCause::Repaint { correlation } = cause {
                    proof {
                        use_type_invariant(correlation);
                    }
                }
            },
        }
        let mut out = record_frame_bytes(record);
        let crc: u32 = crc32c(out.as_slice());
        push_be(&mut out, crc as u64, 4);

        let geometry = match record.kind {
            RecordKind::Resize { geometry, .. } => geometry,
            _ => self.progress.geometry,
        };
        proof {
            let rs = self@.records.push(record@);
            assert(rs.drop_last() =~= self@.records);
            assert(rs.last() == record@);
        }
        self.progress = Progress {
            next_sequence: expected.next(),
            last_elapsed_ns: Some(record.elapsed_ns),
            geometry,
            records: self.progress.records + 1,
            carried: Ghost(self.progress.carried@),
            written: Ghost(self.progress.written@.push(record@)),
        };
        Ok(out)
    }

    /// The geometry in effect after the records encoded so far.
    pub fn geometry(&self) -> (geometry: Geometry)
        ensures
            geometry@ == geometry_after(self@.header.geometry, self@.records),
    {
        proof {
            use_type_invariant(self);
        }
        self.progress.geometry
    }

    /// An encoder for the following segment, continuing sequence, time, and
    /// geometry. Refused for a segment with no records and at the numeric limits.
    pub fn next_segment(&self) -> (encoder: Result<SegmentEncoder, EncodeError>)
        ensures
            match rotation_error(self@) {
                Some(error) => encoder == Err::<SegmentEncoder, EncodeError>(error),
                None => encoder matches Ok(e) && e@ == rotated(self@) && e@.valid(),
            },
    {
        proof {
            use_type_invariant(self);
        }
        if self.progress.records == 0 {
            return Err(EncodeError::EmptySegmentRotation);
        }
        let first_sequence = match self.progress.next_sequence {
            Some(first_sequence) => first_sequence,
            None => return Err(EncodeError::SequenceExhausted),
        };
        if self.header.segment_index == u32::MAX {
            return Err(EncodeError::SegmentIndexExhausted);
        }
        proof {
            use_type_invariant(&first_sequence);
            use_type_invariant(&self.progress.geometry);
        }
        let header = SegmentHeader {
            run_id: self.header.run_id,
            segment_index: self.header.segment_index + 1,
            first_sequence,
            origin_unix_ns: self.header.origin_unix_ns,
            geometry: self.progress.geometry,
            input_recorded: self.header.input_recorded,
            term: self.header.term.clone(),
        };
        Ok(
            SegmentEncoder {
                header,
                progress: Progress {
                    next_sequence: Some(first_sequence),
                    last_elapsed_ns: self.progress.last_elapsed_ns,
                    geometry: self.progress.geometry,
                    records: 0,
                    carried: Ghost(last_elapsed(self@.carried, self@.records)),
                    written: Ghost(Seq::empty()),
                },
            },
        )
    }
}

/// Why a segment cannot be followed by another.
pub open spec fn rotation_error(e: EncoderModel) -> Option<EncodeError> {
    if e.records.len() == 0 {
        Some(EncodeError::EmptySegmentRotation)
    } else if next_sequence(e.header.first_sequence, e.records.len()) is None {
        Some(EncodeError::SequenceExhausted)
    } else if e.header.segment_index == u32::MAX {
        Some(EncodeError::SegmentIndexExhausted)
    } else {
        None
    }
}

/// The start of the segment that follows `e`.
pub open spec fn rotated(e: EncoderModel) -> EncoderModel {
    EncoderModel {
        header: HeaderModel {
            segment_index: (e.header.segment_index + 1) as u32,
            first_sequence: (e.header.first_sequence + e.records.len()) as u64,
            geometry: geometry_after(e.header.geometry, e.records),
            ..e.header
        },
        carried: last_elapsed(e.carried, e.records),
        records: Seq::empty(),
    }
}

/// The encoded header without its checksum.
pub fn header_body_bytes(header: &SegmentHeader) -> (bytes: Vec<u8>)
    ensures
        bytes@ == header_body(header@),
{
    proof {
        reveal(header_body);
    }
    proof {
        use_type_invariant(&header.term);
    }
    let term = header.term.as_str();
    let term_bytes = term.as_bytes();
    proof {
        lemma_term_bytes(term@);
    }
    let (hi, lo) = header.run_id.as_u64_pair();
    let flags: u64 = if header.input_recorded {
        1
    } else {
        0
    };
    let mut out: Vec<u8> = Vec::new();
    push_be(&mut out, MAGIC, 8);
    push_be(&mut out, FORMAT_VERSION as u64, 2);
    push_be(&mut out, (HEADER_MIN_LEN + term_bytes.len()) as u64, 2);
    push_be(&mut out, flags, 2);
    push_be(&mut out, hi, 8);
    push_be(&mut out, lo, 8);
    push_be(&mut out, header.segment_index as u64, 4);
    push_be(&mut out, header.first_sequence.get(), 8);
    push_be(&mut out, header.origin_unix_ns, 8);
    push_be(&mut out, header.geometry.rows() as u64, 2);
    push_be(&mut out, header.geometry.cols() as u64, 2);
    push_be(&mut out, term_bytes.len() as u64, 2);
    out.extend_from_slice(term_bytes);
    proof {
        assert(be_bytes(MAGIC as nat, 8) =~= Seq::<u8>::empty() + be_bytes(MAGIC as nat, 8));
        assert(out@ =~= header_body(header@));
    }
    out
}

/// A `TERM` value is ASCII, so each character is one byte.
proof fn lemma_term_bytes(term: Seq<char>)
    requires
        term_valid(term),
    ensures
        encode_utf8(term) == term_bytes(term),
{
    assert forall|j: int| 0 <= j < term.len() implies '\0' <= #[trigger] term[j] <= '\u{7f}' by {
        assert(term_char(term[j]));
    }
    assert(is_ascii_chars(term));
    is_ascii_chars_encode_utf8(term);
    assert(encode_utf8(term) =~= term_bytes(term));
}

/// The payload of a record.
pub fn kind_payload(kind: &RecordKind) -> (payload: Vec<u8>)
    ensures
        payload@ == payload_bytes(kind@),
{
    let mut payload: Vec<u8> = Vec::new();
    match kind {
        RecordKind::Output(bytes) => {
            payload.extend_from_slice(bytes.as_slice());
            assert(payload@ =~= payload_bytes(kind@));
        },
        RecordKind::Input(bytes) => {
            payload.extend_from_slice(bytes.as_slice());
            assert(payload@ =~= payload_bytes(kind@));
        },
        RecordKind::Resize { geometry, cause } => {
            let (code, correlation): (u8, u32) = match cause {
                ResizeCause::User => (CAUSE_USER, 0),
                ResizeCause::Repaint { correlation } => (CAUSE_REPAINT, correlation.get()),
            };
            push_be(&mut payload, geometry.rows() as u64, 2);
            push_be(&mut payload, geometry.cols() as u64, 2);
            payload.push(code);
            push_be(&mut payload, correlation as u64, 4);
            assert(payload@ =~= payload_bytes(kind@));
        },
    }
    payload
}

/// An encoded record without its checksum.
pub fn record_frame_bytes(record: &Record) -> (bytes: Vec<u8>)
    requires
        payload_bytes(record@.kind).len() <= MAX_PAYLOAD,
    ensures
        bytes@ == record_frame(record@),
{
    proof {
        reveal(record_frame);
    }
    let payload = kind_payload(&record.kind);
    let body_len: u64 = (BODY_FIXED_LEN + payload.len()) as u64;
    let code: u8 = match record.kind {
        RecordKind::Output(_) => KIND_OUTPUT,
        RecordKind::Resize { .. } => KIND_RESIZE,
        RecordKind::Input(_) => KIND_INPUT,
    };
    proof {
        lemma_be_bytes_len(record@.sequence as nat, 8);
        lemma_be_bytes_len(record@.elapsed_ns as nat, 8);
        assert(record_body(record@).len() == body_len);
    }
    let mut out: Vec<u8> = Vec::new();
    push_be(&mut out, body_len, 4);
    push_be(&mut out, 0xFFFF_FFFF - body_len, 4);
    out.push(code);
    push_be(&mut out, record.sequence.get(), 8);
    push_be(&mut out, record.elapsed_ns, 8);
    out.extend_from_slice(payload.as_slice());
    assert(out@ =~= record_frame(record@));
    out
}

/// An `OUTPUT`/`INPUT` payload within the size bounds.
pub fn checked_payload(bytes: &[u8]) -> (checked: Result<&[u8], EncodeError>)
    ensures
        match payload_error(bytes@) {
            Some(error) => checked == Err::<&[u8], EncodeError>(error),
            None => checked == Ok::<&[u8], EncodeError>(bytes),
        },
{
    if bytes.len() == 0 {
        Err(EncodeError::EmptyPayload)
    } else if bytes.len() > MAX_PAYLOAD {
        Err(EncodeError::PayloadTooLarge { len: bytes.len() })
    } else {
        Ok(bytes)
    }
}

// Reading.

/// What cross-segment validation needs from a decoded segment.
#[derive(Clone, Copy)]
pub struct SegmentSummary {
    header_len: usize,
    /// The sequence the next record must carry; `None` after `u64::MAX`.
    next_sequence: Option<Sequence>,
    last_sequence: Option<Sequence>,
    last_elapsed_ns: Option<u64>,
    first_elapsed_ns: Option<u64>,
    final_geometry: Geometry,
}

impl SegmentSummary {
    /// The summary is that of a segment with header `h` and these records.
    pub closed spec fn describes(self, h: HeaderModel, records: Seq<RecordModel>) -> bool {
        &&& self.header_len == header_len(h)
        &&& sequence_model(self.next_sequence) == next_sequence(h.first_sequence, records.len())
        &&& sequence_model(self.last_sequence) == last_sequence(records)
        &&& self.last_elapsed_ns == last_elapsed(None, records)
        &&& self.first_elapsed_ns == (if records.len() == 0 {
            None
        } else {
            Some(records[0].elapsed_ns)
        })
        &&& self.final_geometry@ == geometry_after(h.geometry, records)
    }
}

fn error_at(kind: DecodeErrorKind, offset: usize, last: Option<Sequence>) -> (error: DecodeError)
    ensures
        error@ == (ErrorModel {
            kind,
            segment: None,
            offset: offset as nat,
            last_valid_sequence: sequence_model(last),
        }),
{
    DecodeError { kind, segment: None, offset: offset as u64, last_valid_sequence: last }
}

/// `TERM` from its bytes; `None` where they break its rules.
fn term_from_bytes(bytes: &[u8]) -> (term: Option<TermName>)
    ensures
        term is Some <==> term_valid(term_text(bytes@)),
        term matches Some(t) ==> t@ == term_text(bytes@),
{
    let ghost text = term_text(bytes@);
    let mut out = String::new();
    if bytes.len() > MAX_TERM_LEN {
        return None;
    }
    let mut i: usize = 0;
    while i < bytes.len()
        invariant
            i <= bytes@.len(),
            text == term_text(bytes@),
            out@ == text.take(i as int),
            forall|j: int| 0 <= j < i ==> term_char(#[trigger] text[j]),
        decreases bytes@.len() - i,
    {
        let c: char = bytes[i] as char;
        if !('!' <= c && c <= '~') {
            assert(!term_char(text[i as int]));
            return None;
        }
        out.push(c);
        i = i + 1;
        assert(out@ =~= text.take(i as int));
    }
    assert(text.take(i as int) =~= text);
    assert(term_valid(out@));
    Some(TermName(out))
}

/// The length of the header that `bytes` claims to start with.
pub fn decode_header_frame(bytes: &[u8]) -> (len: Result<usize, DecodeErrorKind>)
    ensures
        match header_frame(bytes@) {
            Err(kind) => len == Err::<usize, DecodeErrorKind>(kind),
            Ok(n) => len matches Ok(l) && l == n && HEADER_MIN_LEN <= l <= bytes@.len(),
        },
{
    if bytes.len() < HEADER_MIN_LEN {
        return Err(DecodeErrorKind::Corrupt(Corruption::HeaderIncomplete));
    }
    if be_u64(bytes, 0) != MAGIC {
        return Err(DecodeErrorKind::BadMagic);
    }
    let version: u16 = be_u16(bytes, 8);
    if version != FORMAT_VERSION {
        return Err(DecodeErrorKind::UnsupportedVersion(version));
    }
    let header_len: usize = be_u16(bytes, 10) as usize;
    if header_len < HEADER_MIN_LEN || header_len > HEADER_MAX_LEN {
        return Err(DecodeErrorKind::Corrupt(Corruption::HeaderLength));
    }
    if bytes.len() < header_len {
        return Err(DecodeErrorKind::Corrupt(Corruption::HeaderIncomplete));
    }
    Ok(header_len)
}

/// The fields of a header of `header_len` bytes whose checksum holds.
pub fn decode_header_fields(bytes: &[u8], header_len: usize) -> (header: Result<
    SegmentHeader,
    Violation,
>)
    requires
        HEADER_MIN_LEN <= header_len <= bytes@.len(),
    ensures
        match header_fields(bytes@, header_len as nat) {
            Err(v) => header == Err::<SegmentHeader, Violation>(v),
            Ok(h) => header matches Ok(fields) && fields@ == h && h.valid() && format::header_len(h)
                == header_len,
        },
{
    let term_len: usize = be_u16(bytes, 54) as usize;
    if HEADER_MIN_LEN + term_len != header_len {
        return Err(Violation::HeaderLengthMismatch);
    }
    let flags: u16 = be_u16(bytes, 12);
    if flags > 1 {
        return Err(Violation::ReservedFlags);
    }
    let run_id = match RunId::from_v7(be_u64(bytes, 14), be_u64(bytes, 22)) {
        Some(run_id) => run_id,
        None => return Err(Violation::RunIdVersion),
    };
    let segment_index: u32 = be_u32(bytes, 30);
    let first_sequence = match Sequence::new(be_u64(bytes, 34)) {
        Some(first_sequence) => first_sequence,
        None => return Err(Violation::FirstSequence),
    };
    if segment_index == 0 && first_sequence.get() != 1 {
        return Err(Violation::FirstSequence);
    }
    let geometry = match Geometry::new(be_u16(bytes, 50), be_u16(bytes, 52)) {
        Some(geometry) => geometry,
        None => return Err(Violation::ZeroGeometry),
    };
    let term_bytes = slice_subrange(bytes, HEADER_FIXED_LEN, HEADER_FIXED_LEN + term_len);
    let term = match term_from_bytes(term_bytes) {
        Some(term) => term,
        None => return Err(Violation::TermByte),
    };
    Ok(
        SegmentHeader {
            run_id,
            segment_index,
            first_sequence,
            origin_unix_ns: be_u64(bytes, 42),
            geometry,
            input_recorded: flags == 1,
            term,
        },
    )
}

/// Decodes and validates the header in the format's decoding order.
pub fn decode_header(bytes: &[u8]) -> (header: Result<(SegmentHeader, usize), DecodeErrorKind>)
    ensures
        match parse_header(bytes@) {
            Err(kind) => header == Err::<(SegmentHeader, usize), DecodeErrorKind>(kind),
            Ok((h, n)) => header matches Ok((fields, len)) && fields@ == h && len == n && h.valid()
                && format::header_len(h) == n && n <= bytes@.len(),
        },
{
    let header_len: usize = match decode_header_frame(bytes) {
        Ok(header_len) => header_len,
        Err(kind) => return Err(kind),
    };
    let crc_at: usize = header_len - CRC_LEN;
    if crc32c(slice_subrange(bytes, 0, crc_at)) != be_u32(bytes, crc_at) {
        return Err(DecodeErrorKind::Corrupt(Corruption::HeaderChecksum));
    }
    match decode_header_fields(bytes, header_len) {
        Ok(header) => Ok((header, header_len)),
        Err(v) => Err(DecodeErrorKind::Invalid(v)),
    }
}

/// The content of a record of kind `code`.
pub fn decode_kind(code: u8, payload: &[u8], input_recorded: bool) -> (kind: Result<
    RecordKind,
    Violation,
>)
    ensures
        match parse_kind(code, payload@, input_recorded) {
            Err(v) => kind == Err::<RecordKind, Violation>(v),
            Ok(k) => kind matches Ok(decoded) && decoded@ == k,
        },
{
    if code == KIND_OUTPUT {
        if payload.len() == 0 {
            return Err(Violation::PayloadSize);
        }
        Ok(RecordKind::Output(slice_to_vec(payload)))
    } else if code == KIND_INPUT {
        if payload.len() == 0 {
            return Err(Violation::PayloadSize);
        }
        if !input_recorded {
            return Err(Violation::InputNotRecorded);
        }
        Ok(RecordKind::Input(slice_to_vec(payload)))
    } else if code == KIND_RESIZE {
        if payload.len() != RESIZE_PAYLOAD_LEN {
            return Err(Violation::PayloadSize);
        }
        let geometry = match Geometry::new(be_u16(payload, 0), be_u16(payload, 2)) {
            Some(geometry) => geometry,
            None => return Err(Violation::ZeroGeometry),
        };
        let correlation: u32 = be_u32(payload, 5);
        let cause_code: u8 = payload[4];
        if cause_code == CAUSE_USER {
            if correlation != 0 {
                return Err(Violation::Correlation);
            }
            Ok(RecordKind::Resize { geometry, cause: ResizeCause::User })
        } else if cause_code == CAUSE_REPAINT {
            match Correlation::new(correlation) {
                Some(correlation) => Ok(
                    RecordKind::Resize { geometry, cause: ResizeCause::Repaint { correlation } },
                ),
                None => Err(Violation::Correlation),
            }
        } else {
            Err(Violation::UnknownResizeCause(cause_code))
        }
    } else {
        Err(Violation::UnknownKind(code))
    }
}

/// Decodes a checksummed record body and applies the record rules, where `next`
/// is the sequence that the record must carry and `previous` the time of the
/// record before it.
pub fn decode_body(
    body: &[u8],
    input_recorded: bool,
    next: Option<Sequence>,
    previous: Option<u64>,
) -> (record: Result<Record, Violation>)
    requires
        body@.len() >= BODY_FIXED_LEN,
    ensures
        match parse_body(body@, input_recorded, sequence_model(next), previous) {
            Err(v) => record == Err::<Record, Violation>(v),
            Ok(r) => record matches Ok(decoded) && decoded@ == r,
        },
{
    let sequence_raw: u64 = be_u64(body, 1);
    let elapsed_ns: u64 = be_u64(body, 9);
    let payload = slice_subrange(body, BODY_FIXED_LEN, body.len());
    let kind = match decode_kind(body[0], payload, input_recorded) {
        Ok(kind) => kind,
        Err(v) => return Err(v),
    };
    let sequence = match next {
        Some(expected) => {
            if expected.get() != sequence_raw {
                return Err(Violation::Sequence);
            }
            expected
        },
        None => return Err(Violation::Sequence),
    };
    if let Some(p) = previous {
        if elapsed_ns < p {
            return Err(Violation::ElapsedRegressed);
        }
    }
    Ok(Record { sequence, elapsed_ns, kind })
}

/// What stands at one place of a segment's data.
enum Step {
    End,
    Partial,
    Whole { record: Record, len: usize },
    Bad(DecodeErrorKind),
}

/// Reads what `rest`, the data behind the records that `summary` tells of,
/// starts with.
fn read_record(
    rest: &[u8],
    header: &SegmentHeader,
    summary: &SegmentSummary,
    Ghost(records): Ghost<Seq<RecordModel>>,
) -> (step: Step)
    requires
        summary.describes(header@, records),
    ensures
        match record_step(header@, records, rest@) {
            RecordStep::End => step is End,
            RecordStep::Partial => step is Partial,
            RecordStep::Bad(kind) => step == Step::Bad(kind),
            RecordStep::Whole { record, len } => step matches Step::Whole { record: r, len: n }
                && r@ == record && n == len && 0 < n <= rest@.len(),
        },
{
    if rest.len() == 0 {
        return Step::End;
    }
    if rest.len() < PREFIX_LEN {
        return Step::Partial;
    }
    let body_len_word: u32 = be_u32(rest, 0);
    if be_u32(rest, 4) != 0xFFFF_FFFF - body_len_word {
        return Step::Bad(DecodeErrorKind::Corrupt(Corruption::LengthCheck));
    }
    let body_len: usize = body_len_word as usize;
    if body_len < BODY_FIXED_LEN || body_len > BODY_MAX_LEN {
        return Step::Bad(DecodeErrorKind::Corrupt(Corruption::LengthBounds));
    }
    let crc_at: usize = PREFIX_LEN + body_len;
    if rest.len() < crc_at + CRC_LEN {
        return Step::Partial;
    }
    if crc32c(slice_subrange(rest, 0, crc_at)) != be_u32(rest, crc_at) {
        return Step::Bad(DecodeErrorKind::Corrupt(Corruption::RecordChecksum));
    }
    match decode_body(
        slice_subrange(rest, PREFIX_LEN, crc_at),
        header.input_recorded,
        summary.next_sequence,
        summary.last_elapsed_ns,
    ) {
        Ok(record) => Step::Whole { record, len: crc_at + CRC_LEN },
        Err(v) => Step::Bad(DecodeErrorKind::Invalid(v)),
    }
}

/// Decodes one segment, and sums it up for the segments behind it.
pub fn decode_segment_with_summary(bytes: &[u8]) -> (segment: Result<
    (DecodedSegment, SegmentSummary),
    DecodeError,
>)
    ensures
        match parse_segment(bytes@) {
            Err(e) => segment matches Err(error) && error@ == e,
            Ok(s) => segment matches Ok((decoded, summary)) && decoded@ == s && summary.describes(
                s.header,
                s.records,
            ),
        },
{
    let (header, header_len): (SegmentHeader, usize) = match decode_header(bytes) {
        Ok(header) => header,
        Err(kind) => return Err(error_at(kind, 0, None)),
    };
    let ghost h = header@;
    let mut summary = SegmentSummary {
        header_len,
        next_sequence: Some(header.first_sequence),
        last_sequence: None,
        last_elapsed_ns: None,
        first_elapsed_ns: None,
        final_geometry: header.geometry,
    };
    let mut records: Vec<Record> = Vec::new();
    let mut pos: usize = header_len;
    assert(record_models(records@) =~= Seq::<RecordModel>::empty());
    loop
        invariant
            pos <= bytes@.len(),
            h == header@,
            summary.describes(h, record_models(records@)),
            parse_segment(bytes@) == parse_records(
                h,
                record_models(records@),
                bytes@.subrange(pos as int, bytes@.len() as int),
                pos as nat,
            ),
        decreases bytes@.len() - pos,
    {
        let rest = slice_subrange(bytes, pos, bytes.len());
        let ghost models = record_models(records@);
        match read_record(rest, &header, &summary, Ghost(models)) {
            Step::End => {
                return Ok((DecodedSegment { header, records, end: SegmentEnd::Clean }, summary));
            },
            Step::Partial => {
                let end = SegmentEnd::Truncated { offset: pos as u64 };
                return Ok((DecodedSegment { header, records, end }, summary));
            },
            Step::Bad(kind) => {
                return Err(error_at(kind, pos, summary.last_sequence));
            },
            Step::Whole { record, len } => {
                proof {
                    let pushed = models.push(record@);
                    assert(pushed.drop_last() =~= models);
                    assert(pushed.last() == record@);
                    assert(record_models(records@.push(record)) =~= pushed);
                    assert(rest@.subrange(len as int, rest@.len() as int) =~= bytes@.subrange(
                        pos + len,
                        bytes@.len() as int,
                    ));
                    lemma_step_sequence(h, models, rest@);
                }
                summary.next_sequence = record.sequence.next();
                summary.last_sequence = Some(record.sequence);
                summary.last_elapsed_ns = Some(record.elapsed_ns);
                if summary.first_elapsed_ns.is_none() {
                    summary.first_elapsed_ns = Some(record.elapsed_ns);
                }
                if let RecordKind::Resize { geometry, .. } = record.kind {
                    summary.final_geometry = geometry;
                }
                records.push(record);
                pos = pos + len;
            },
        }
    }
}

/// A record that is taken carries the sequence that was due.
proof fn lemma_step_sequence(h: HeaderModel, records: Seq<RecordModel>, rest: Seq<u8>)
    ensures
        record_step(h, records, rest) matches RecordStep::Whole { record, .. } ==> next_sequence(
            h.first_sequence,
            records.len(),
        ) == Some(record.sequence),
{
}

/// Decodes one segment.
pub fn decode_segment(bytes: &[u8]) -> (segment: Result<DecodedSegment, DecodeError>)
    ensures
        match parse_segment(bytes@) {
            Err(e) => segment matches Err(error) && error@ == e,
            Ok(s) => segment matches Ok(decoded) && decoded@ == s,
        },
{
    match decode_segment_with_summary(bytes) {
        Ok((segment, _)) => Ok(segment),
        Err(error) => Err(error),
    }
}

/// The byte strings that a list of segments holds.
pub open spec fn segment_data(segments: Seq<&[u8]>) -> Seq<Seq<u8>> {
    Seq::new(segments.len(), |i: int| segments[i]@)
}

/// The first rule that a segment breaks behind the segments `done`, and the byte
/// at fault; `first` is the header of segment 0 and `previous` sums up the
/// segment before.
fn check_segment(
    position: u32,
    first: &Option<SegmentHeader>,
    previous: &Option<SegmentSummary>,
    segment: &DecodedSegment,
    summary: &SegmentSummary,
    is_final: bool,
    Ghost(done): Ghost<Seq<SegmentModel>>,
) -> (violation: Option<(Violation, usize)>)
    requires
        position == done.len(),
        first is Some <==> done.len() > 0,
        previous is Some <==> done.len() > 0,
        first matches Some(h) ==> h@ == done[0].header,
        previous matches Some(p) ==> p.describes(done.last().header, done.last().records),
        summary.describes(segment@.header, segment@.records),
    ensures
        match segment_violation(done, segment@, is_final) {
            Some((v, offset)) => violation matches Some((w, at)) && v == w && offset == at,
            None => violation is None,
        },
{
    broadcast use lemma_geometry_ext;
    broadcast use crate::model::ids::lemma_run_id_ext;

    let header = &segment.header;
    if header.segment_index != position {
        return Some((Violation::SegmentIndex, 0));
    }
    if let (Some(first), Some(prev)) = (first, previous) {
        if header.run_id != first.run_id {
            return Some((Violation::SegmentRun, 0));
        }
        if header.origin_unix_ns != first.origin_unix_ns {
            return Some((Violation::SegmentOrigin, 0));
        }
        if header.input_recorded != first.input_recorded {
            return Some((Violation::SegmentFlags, 0));
        }
        if header.term.0 != first.term.0 {
            return Some((Violation::SegmentTerm, 0));
        }
        let continues = match prev.next_sequence {
            Some(next) => next.get() == header.first_sequence.get(),
            None => false,
        };
        if !continues {
            return Some((Violation::SegmentFirstSequence, 0));
        }
        if header.geometry != prev.final_geometry {
            return Some((Violation::SegmentGeometry, 0));
        }
        if let (Some(before), Some(after)) = (prev.last_elapsed_ns, summary.first_elapsed_ns) {
            if after < before {
                return Some((Violation::SegmentElapsed, summary.header_len));
            }
        }
    }
    if segment.records.len() == 0 && !is_final {
        return Some((Violation::EmptyInteriorSegment, summary.header_len));
    }
    if position == u32::MAX {
        return Some((Violation::SegmentIndex, 0));
    }
    None
}

/// Decodes an ordered list of segments as one recording.
pub fn decode_recording(segments: &[&[u8]]) -> (recording: Result<DecodedRecording, DecodeError>)
    ensures
        match parse_recording(segment_data(segments@)) {
            Err(e) => recording matches Err(error) && error@ == e,
            Ok(r) => recording matches Ok(decoded) && decoded@ == r,
        },
{
    if segments.len() == 0 {
        return Err(error_at(DecodeErrorKind::Invalid(Violation::NoSegments), 0, None));
    }
    let ghost data = segment_data(segments@);
    let ghost mut done: Seq<SegmentModel> = Seq::empty();
    let mut first: Option<SegmentHeader> = None;
    let mut previous: Option<SegmentSummary> = None;
    let mut records: Vec<Record> = Vec::new();
    let mut end = SegmentEnd::Clean;
    let mut position: u32 = 0;
    let mut i: usize = 0;
    assert(record_models(records@) =~= all_records(done));
    while i < segments.len()
        invariant
            data == segment_data(segments@),
            i == done.len(),
            i == position,
            i <= segments@.len(),
            parse_segments(data, Seq::empty()) == parse_segments(data, done),
            first is Some <==> done.len() > 0,
            previous is Some <==> done.len() > 0,
            first matches Some(h) ==> h@ == done[0].header,
            previous matches Some(p) ==> p.describes(done.last().header, done.last().records),
            done.len() > 0 ==> end == done.last().end,
            record_models(records@) == all_records(done),
            segments@.len() > 0,
        decreases segments@.len() - i,
    {
        let bytes = segments[i];
        let is_final = i == segments.len() - 1;
        assert(data[i as int] == bytes@);
        let last_so_far = match &previous {
            Some(summary) => summary.last_sequence,
            None => None,
        };
        let (segment, summary) = match decode_segment_with_summary(bytes) {
            Ok(decoded) => decoded,
            Err(error) => {
                let last = match error.last_valid_sequence {
                    Some(last) => Some(last),
                    None => last_so_far,
                };
                return Err(
                    DecodeError {
                        kind: error.kind,
                        segment: Some(position),
                        offset: error.offset,
                        last_valid_sequence: last,
                    },
                );
            },
        };
        if let SegmentEnd::Truncated { offset } = segment.end {
            if !is_final {
                let last = match summary.last_sequence {
                    Some(last) => Some(last),
                    None => last_so_far,
                };
                return Err(
                    DecodeError {
                        kind: DecodeErrorKind::Corrupt(Corruption::TruncatedInteriorSegment),
                        segment: Some(position),
                        offset,
                        last_valid_sequence: last,
                    },
                );
            }
        }
        if let Some((violation, offset)) = check_segment(
            position,
            &first,
            &previous,
            &segment,
            &summary,
            is_final,
            Ghost(done),
        ) {
            return Err(
                DecodeError {
                    kind: DecodeErrorKind::Invalid(violation),
                    segment: Some(position),
                    offset: offset as u64,
                    last_valid_sequence: last_so_far,
                },
            );
        }
        let ghost model = segment@;
        let ghost before = records@;
        let DecodedSegment { header, records: mut segment_records, end: segment_end } = segment;
        let ghost added = segment_records@;
        end = segment_end;
        records.append(&mut segment_records);
        if first.is_none() {
            first = Some(header);
        }
        previous = Some(summary);
        proof {
            let pushed = done.push(model);
            assert(pushed.drop_last() =~= done);
            assert(record_models(before + added) =~= record_models(before) + record_models(added));
            assert(all_records(pushed) == all_records(done) + model.records);
            done = pushed;
        }
        position = position + 1;
        i = i + 1;
    }
    Ok(DecodedRecording { header: first.unwrap(), segment_count: position, records, end })
}

} // verus!
