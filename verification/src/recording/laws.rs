//! What holds of the codec as a whole: what is written is read back, a torn
//! tail costs one record, damage is never taken for a torn tail.

use crate::bytes::{
    be_at, be_bytes, lemma_be_bytes_len, lemma_be_bytes_of_value, lemma_be_value_of_bytes,
    lemma_pow256, pow256,
};
use crate::recording::format::{
    all_records, cause_code, correlation_word, crc32c_of, encode_error, failure, flags_word, geometry_after,
    header_body, header_bytes, header_fields, header_len, kind_code, last_elapsed, last_sequence,
    length_prefix, next_sequence, parse_body, parse_header, parse_kind, parse_next_segment,
    parse_recording, parse_records,
    parse_segment, parse_segments, payload_bytes, record_body, record_bytes, record_frame,
    record_step, records_bytes, regressed, segment_bytes, segment_violation, term_bytes, term_char,
    term_text, term_valid, CauseModel, ErrorModel, GeometryModel, HeaderModel, KindModel, RecordModel, RecordStep,
    RecordingModel, SegmentModel, BODY_FIXED_LEN, BODY_MAX_LEN, CRC_LEN, FORMAT_VERSION,
    HEADER_MIN_LEN, KIND_RESIZE, MAGIC, MAX_PAYLOAD, PREFIX_LEN,
};
use crate::recording::{
    accepted, checked_payload, decode_body, decode_header, decode_header_fields,
    decode_header_frame, decode_kind, decode_recording, decode_segment,
    decode_segment_with_summary, header_body_bytes, kind_payload, record_frame_bytes, rotated,
    rotation_error,
    segment_data, sequence_model, Correlation, Corruption, DecodeError, DecodeErrorKind,
    DecodedRecording, DecodedSegment, EncodeError, EncoderModel, Geometry, Record, RecordKind, SegmentEncoder,
    SegmentEnd, SegmentHeader, SegmentSummary, Sequence, TermName, TermNameError, Violation,
};
use vstd::prelude::*;
use vstd::utf8::encode_utf8;

verus! {

/// The number that ends a prefix of `bytes` is read back behind the rest of it.
proof fn lemma_last_field(bytes: Seq<u8>, before: Seq<u8>, value: nat, n: nat)
    requires
        (before + be_bytes(value, n)).is_prefix_of(bytes),
        value < pow256(n),
    ensures
        before.is_prefix_of(bytes),
        be_at(bytes, before.len() as int, n as int) == value,
        (before + be_bytes(value, n)).len() == before.len() + n,
{
    lemma_be_value_of_bytes(value, n);
    let whole = before + be_bytes(value, n);
    assert(bytes.subrange(0, whole.len() as int) == whole);
    assert(bytes.subrange(0, before.len() as int) =~= before) by {
        assert forall|i: int| 0 <= i < before.len() implies bytes[i] == before[i] by {
            assert(bytes.subrange(0, whole.len() as int)[i] == whole[i]);
        }
    }
    assert(bytes.subrange(before.len() as int, (before.len() + n) as int) =~= be_bytes(value, n)) by {
        assert forall|i: int| 0 <= i < n implies bytes[before.len() + i] == be_bytes(value, n)[i] by {
            assert(bytes.subrange(0, whole.len() as int)[before.len() + i] == whole[before.len()
                + i]);
        }
    }
}

/// What stands behind a prefix of `bytes`, where the prefix is `before + field`.
proof fn lemma_last_part(bytes: Seq<u8>, before: Seq<u8>, field: Seq<u8>)
    requires
        (before + field).is_prefix_of(bytes),
    ensures
        before.is_prefix_of(bytes),
        bytes.subrange(before.len() as int, (before.len() + field.len()) as int) == field,
{
    let whole = before + field;
    assert(bytes.subrange(0, before.len() as int) =~= before) by {
        assert forall|i: int| 0 <= i < before.len() implies bytes[i] == before[i] by {
            assert(bytes.subrange(0, whole.len() as int)[i] == whole[i]);
        }
    }
    assert(bytes.subrange(before.len() as int, (before.len() + field.len()) as int) =~= field) by {
        assert forall|i: int| 0 <= i < field.len() implies bytes[before.len() + i] == field[i] by {
            assert(bytes.subrange(0, whole.len() as int)[before.len() + i] == whole[before.len()
                + i]);
        }
    }
}

/// `TERM` is read back from its bytes.
proof fn lemma_term_round_trip(term: Seq<char>)
    requires
        term_valid(term),
    ensures
        term_text(term_bytes(term)) == term,
{
    assert forall|i: int| 0 <= i < term.len() implies #[trigger] term_text(term_bytes(term))[i]
        == term[i] by {
        assert(term_char(term[i]));
    }
    assert(term_text(term_bytes(term)) =~= term);
}

/// A header that is written is read back, whatever follows it.
pub proof fn law_header_round_trip(h: HeaderModel, rest: Seq<u8>)
    requires
        h.valid(),
    ensures
        parse_header(header_bytes(h) + rest) == Ok::<(HeaderModel, nat), DecodeErrorKind>(
            (h, header_len(h)),
        ),
        header_bytes(h).len() == header_len(h),
{
    reveal(header_body);
    lemma_pow256();
    let bytes = header_bytes(h) + rest;
    let body = header_body(h);
    let p1 = be_bytes(MAGIC as nat, 8);
    let p2 = p1 + be_bytes(FORMAT_VERSION as nat, 2);
    let p3 = p2 + be_bytes(HEADER_MIN_LEN as nat + h.term.len(), 2);
    let p4 = p3 + be_bytes(flags_word(h.input_recorded), 2);
    let p5 = p4 + be_bytes(h.run_id.0 as nat, 8);
    let p6 = p5 + be_bytes(h.run_id.1 as nat, 8);
    let p7 = p6 + be_bytes(h.segment_index as nat, 4);
    let p8 = p7 + be_bytes(h.first_sequence as nat, 8);
    let p9 = p8 + be_bytes(h.origin_unix_ns as nat, 8);
    let p10 = p9 + be_bytes(h.geometry.rows as nat, 2);
    let p11 = p10 + be_bytes(h.geometry.cols as nat, 2);
    let p12 = p11 + be_bytes(h.term.len(), 2);
    assert(body == p12 + term_bytes(h.term));
    assert(header_bytes(h).is_prefix_of(bytes)) by {
        assert(bytes.subrange(0, header_bytes(h).len() as int) =~= header_bytes(h));
    }
    lemma_last_field(bytes, body, crc32c_of(body) as nat, 4);
    lemma_last_part(bytes, p12, term_bytes(h.term));
    lemma_last_field(bytes, p11, h.term.len(), 2);
    lemma_last_field(bytes, p10, h.geometry.cols as nat, 2);
    lemma_last_field(bytes, p9, h.geometry.rows as nat, 2);
    lemma_last_field(bytes, p8, h.origin_unix_ns as nat, 8);
    lemma_last_field(bytes, p7, h.first_sequence as nat, 8);
    lemma_last_field(bytes, p6, h.segment_index as nat, 4);
    lemma_last_field(bytes, p5, h.run_id.1 as nat, 8);
    lemma_last_field(bytes, p4, h.run_id.0 as nat, 8);
    lemma_last_field(bytes, p3, flags_word(h.input_recorded), 2);
    lemma_last_field(bytes, p2, HEADER_MIN_LEN as nat + h.term.len(), 2);
    lemma_last_field(bytes, p1, FORMAT_VERSION as nat, 2);
    assert(p1 =~= Seq::<u8>::empty() + p1);
    lemma_last_field(bytes, Seq::empty(), MAGIC as nat, 8);
    lemma_term_round_trip(h.term);
    assert(body.len() == 56 + h.term.len());
    assert(bytes.subrange(0, body.len() as int) == body);
    assert(header_fields(bytes, header_len(h)) == Ok::<HeaderModel, Violation>(h));
}

/// The payload of a record is read back.
proof fn lemma_kind_round_trip(kind: KindModel, input_recorded: bool)
    requires
        kind.valid(input_recorded),
    ensures
        parse_kind(kind_code(kind), payload_bytes(kind), input_recorded) == Ok::<KindModel, Violation>(
            kind,
        ),
        payload_bytes(kind).len() <= MAX_PAYLOAD,
{
    if let KindModel::Resize { geometry, cause } = kind {
        lemma_pow256();
        let bytes = payload_bytes(kind);
        let p1 = be_bytes(geometry.rows as nat, 2);
        let p2 = p1 + be_bytes(geometry.cols as nat, 2);
        let p3 = p2 + seq![cause_code(cause)];
        assert(bytes.is_prefix_of(bytes)) by {
            assert(bytes.subrange(0, bytes.len() as int) =~= bytes);
        }
        lemma_last_field(bytes, p3, correlation_word(cause) as nat, 4);
        lemma_last_part(bytes, p2, seq![cause_code(cause)]);
        lemma_last_field(bytes, p1, geometry.cols as nat, 2);
        assert(p1 =~= Seq::<u8>::empty() + p1);
        lemma_last_field(bytes, Seq::empty(), geometry.rows as nat, 2);
        assert(bytes[4] == bytes.subrange(4, 5)[0]);
    }
}

/// The body of a record is read back where its sequence and time are in order.
proof fn lemma_body_round_trip(
    r: RecordModel,
    input_recorded: bool,
    next: Option<u64>,
    previous: Option<u64>,
)
    requires
        r.kind.valid(input_recorded),
        next == Some(r.sequence),
        !regressed(previous, r.elapsed_ns),
    ensures
        parse_body(record_body(r), input_recorded, next, previous) == Ok::<RecordModel, Violation>(r),
        BODY_FIXED_LEN <= record_body(r).len() <= BODY_MAX_LEN,
        record_body(r).len() == BODY_FIXED_LEN + payload_bytes(r.kind).len(),
{
    lemma_pow256();
    lemma_kind_round_trip(r.kind, input_recorded);
    let body = record_body(r);
    let p1 = seq![kind_code(r.kind)];
    let p2 = p1 + be_bytes(r.sequence as nat, 8);
    let p3 = p2 + be_bytes(r.elapsed_ns as nat, 8);
    assert(body.is_prefix_of(body)) by {
        assert(body.subrange(0, body.len() as int) =~= body);
    }
    lemma_last_part(body, p3, payload_bytes(r.kind));
    lemma_last_field(body, p2, r.elapsed_ns as nat, 8);
    lemma_last_field(body, p1, r.sequence as nat, 8);
    assert(body[0] == kind_code(r.kind));
}

/// The length prefix of a record is read back from the record's first bytes.
proof fn lemma_prefix_round_trip(r: RecordModel, bytes: Seq<u8>)
    requires
        record_body(r).len() <= BODY_MAX_LEN,
        length_prefix(record_body(r).len()).is_prefix_of(bytes),
    ensures
        be_at(bytes, 0, 4) == record_body(r).len(),
        be_at(bytes, 4, 4) == 0xFFFF_FFFF - record_body(r).len(),
        length_prefix(record_body(r).len()).len() == PREFIX_LEN,
{
    lemma_pow256();
    let n = record_body(r).len();
    let p1 = be_bytes(n, 4);
    lemma_last_field(bytes, p1, (0xFFFF_FFFF - n) as nat, 4);
    assert(p1 =~= Seq::<u8>::empty() + p1);
    lemma_last_field(bytes, Seq::empty(), n, 4);
}

/// A record that the writer accepts is the next thing that the reader takes.
pub proof fn law_record_round_trip(
    h: HeaderModel,
    carried: Option<u64>,
    records: Seq<RecordModel>,
    r: RecordModel,
    rest: Seq<u8>,
)
    requires
        encode_error(h, carried, records, r) is None,
        r.kind.valid(h.input_recorded),
    ensures
        record_step(h, records, record_bytes(r) + rest) == (RecordStep::Whole {
            record: r,
            len: record_bytes(r).len(),
        }),
        record_bytes(r).len() == PREFIX_LEN + record_body(r).len() + CRC_LEN,
        BODY_FIXED_LEN <= record_body(r).len() <= BODY_MAX_LEN,
{
    reveal(record_frame);
    lemma_pow256();
    let bytes = record_bytes(r) + rest;
    let next = next_sequence(h.first_sequence, records.len());
    let previous = last_elapsed(None, records);
    let frame = record_frame(r);
    let prefix = length_prefix(record_body(r).len());
    lemma_body_round_trip(r, h.input_recorded, next, previous);
    assert(record_bytes(r).is_prefix_of(bytes)) by {
        assert(bytes.subrange(0, record_bytes(r).len() as int) =~= record_bytes(r));
    }
    lemma_last_field(bytes, frame, crc32c_of(frame) as nat, 4);
    lemma_last_part(bytes, prefix, record_body(r));
    lemma_prefix_round_trip(r, bytes);
    assert(bytes.subrange(0, frame.len() as int) == frame);
}

/// The reader takes every record of a segment that the writer accepted and goes
/// on with what stands behind them.
proof fn lemma_records_round_trip(
    h: HeaderModel,
    carried: Option<u64>,
    records: Seq<RecordModel>,
    rest: Seq<u8>,
    pos: nat,
)
    requires
        accepted(h, carried, records),
    ensures
        parse_records(h, Seq::empty(), records_bytes(records) + rest, pos) == parse_records(
            h,
            records,
            rest,
            pos + records_bytes(records).len(),
        ),
    decreases records.len(),
{
    if records.len() == 0 {
        assert(records =~= Seq::<RecordModel>::empty());
        assert(records_bytes(records) + rest =~= rest);
    } else {
        let head = records.drop_last();
        let r = records.last();
        let one = record_bytes(r);
        assert(records_bytes(records) + rest =~= records_bytes(head) + (one + rest));
        lemma_records_round_trip(h, carried, head, one + rest, pos);
        law_record_round_trip(h, carried, head, r, rest);
        assert((one + rest).subrange(one.len() as int, (one + rest).len() as int) =~= rest);
        assert(head.push(r) =~= records);
    }
}

/// The reader gets through a segment that the writer accepted and goes on with
/// what stands behind it.
pub proof fn law_segment_prefix(e: EncoderModel, tail: Seq<u8>)
    requires
        e.valid(),
    ensures
        parse_segment(segment_bytes(e.header, e.records) + tail) == parse_records(
            e.header,
            e.records,
            tail,
            segment_bytes(e.header, e.records).len(),
        ),
{
    let h = e.header;
    let rest = records_bytes(e.records) + tail;
    let bytes = segment_bytes(h, e.records) + tail;
    assert(bytes =~= header_bytes(h) + rest);
    law_header_round_trip(h, rest);
    assert(bytes.subrange(header_len(h) as int, bytes.len() as int) =~= rest);
    lemma_records_round_trip(h, e.carried, e.records, tail, header_len(h));
}

/// A writer cannot emit a segment that the decoder rejects: what was encoded
/// decodes to the same header and records, and ends cleanly.
pub proof fn law_segment_round_trip(e: EncoderModel)
    requires
        e.valid(),
    ensures
        parse_segment(segment_bytes(e.header, e.records)) == Ok::<SegmentModel, ErrorModel>(
            SegmentModel { header: e.header, records: e.records, end: SegmentEnd::Clean },
        ),
{
    law_segment_prefix(e, Seq::empty());
    assert(segment_bytes(e.header, e.records) + Seq::<u8>::empty() =~= segment_bytes(
        e.header,
        e.records,
    ));
}

/// A last record that is missing bytes is excluded, and nothing else is.
pub proof fn law_truncated_tail(e: EncoderModel, r: RecordModel, kept: nat)
    requires
        e.valid(),
        encode_error(e.header, e.carried, e.records, r) is None,
        r.kind.valid(e.header.input_recorded),
        0 < kept < record_bytes(r).len(),
    ensures
        parse_segment(segment_bytes(e.header, e.records) + record_bytes(r).take(kept as int))
            == Ok::<SegmentModel, ErrorModel>(
            SegmentModel {
                header: e.header,
                records: e.records,
                end: SegmentEnd::Truncated {
                    offset: segment_bytes(e.header, e.records).len() as u64,
                },
            },
        ),
{
    reveal(record_frame);
    let tail = record_bytes(r).take(kept as int);
    law_segment_prefix(e, tail);
    law_record_round_trip(e.header, e.carried, e.records, r, Seq::empty());
    let prefix = length_prefix(record_body(r).len());
    lemma_be_bytes_len(record_body(r).len(), 4);
    lemma_be_bytes_len((0xFFFF_FFFF - record_body(r).len()) as nat, 4);
    if kept >= PREFIX_LEN {
        assert(prefix.is_prefix_of(tail)) by {
            assert(tail.subrange(0, prefix.len() as int) =~= prefix);
        }
        lemma_prefix_round_trip(r, tail);
    }
    assert(record_step(e.header, e.records, tail) is Partial);
}

/// A complete record with a bad checksum is always an error, never a truncated
/// tail: whatever follows it, and wherever in a segment it stands.
pub proof fn law_bad_checksum_is_an_error(e: EncoderModel, tail: Seq<u8>)
    requires
        e.valid(),
        tail.len() >= PREFIX_LEN,
        be_at(tail, 4, 4) == 0xFFFF_FFFF - be_at(tail, 0, 4),
        BODY_FIXED_LEN <= be_at(tail, 0, 4) <= BODY_MAX_LEN,
        tail.len() >= PREFIX_LEN + be_at(tail, 0, 4) + CRC_LEN,
        crc32c_of(tail.subrange(0, PREFIX_LEN + be_at(tail, 0, 4))) != be_at(
            tail,
            PREFIX_LEN + be_at(tail, 0, 4),
            CRC_LEN as int,
        ),
    ensures
        parse_segment(segment_bytes(e.header, e.records) + tail) == Err::<SegmentModel, ErrorModel>(
            failure(
                DecodeErrorKind::Corrupt(Corruption::RecordChecksum),
                segment_bytes(e.header, e.records).len(),
                e.records,
            ),
        ),
{
    law_segment_prefix(e, tail);
}

/// Segments written one after the other: each but the first continues the one
/// before it, as [`rotated`] says.
#[verifier::opaque]
pub open spec fn chained(es: Seq<EncoderModel>) -> bool {
    &&& es.len() > 0
    &&& es[0].header.segment_index == 0
    &&& forall|i: int| 0 <= i < es.len() ==> (#[trigger] es[i]).valid()
    &&& forall|i: int|
        0 <= i < es.len() - 1 ==> {
            &&& rotation_error(#[trigger] es[i]) is None
            &&& es[i + 1].header == rotated(es[i]).header
            &&& es[i + 1].carried == rotated(es[i]).carried
        }
}

/// The bytes of each segment.
pub open spec fn chain_bytes(es: Seq<EncoderModel>) -> Seq<Seq<u8>> {
    Seq::new(es.len(), |i: int| segment_bytes(es[i].header, es[i].records))
}

/// The records of all segments, in order.
pub open spec fn chain_records(es: Seq<EncoderModel>) -> Seq<RecordModel>
    decreases es.len(),
{
    if es.len() == 0 {
        Seq::empty()
    } else {
        chain_records(es.drop_last()) + es.last().records
    }
}

/// No record of an accepted segment lies before the time it continues from.
proof fn lemma_first_not_regressed(
    h: HeaderModel,
    carried: Option<u64>,
    records: Seq<RecordModel>,
)
    requires
        accepted(h, carried, records),
        records.len() > 0,
    ensures
        !regressed(carried, records[0].elapsed_ns),
    decreases records.len(),
{
    if records.len() > 1 {
        lemma_first_not_regressed(h, carried, records.drop_last());
    }
}

/// What stays the same along a chain.
pub proof fn lemma_chain_constants(es: Seq<EncoderModel>, i: int)
    requires
        chained(es),
        0 <= i < es.len(),
        es.len() <= u32::MAX,
    ensures
        es[i].header.segment_index == i,
        es[i].header.run_id == es[0].header.run_id,
        es[i].header.origin_unix_ns == es[0].header.origin_unix_ns,
        es[i].header.input_recorded == es[0].header.input_recorded,
        es[i].header.term == es[0].header.term,
    decreases i,
{
    reveal(chained);
    if i > 0 {
        lemma_chain_constants(es, i - 1);
        assert(es[i - 1 + 1].header == rotated(es[i - 1]).header);
    }
}

/// The reader gets through a chain of which each segment decodes to what was
/// written, and only the last may end early.
proof fn lemma_chain_parses(
    es: Seq<EncoderModel>,
    segments: Seq<Seq<u8>>,
    models: Seq<SegmentModel>,
    i: nat,
)
    requires
        chained(es),
        es.len() <= u32::MAX,
        segments.len() == es.len(),
        models.len() == es.len(),
        i <= es.len(),
        forall|j: int|
            0 <= j < es.len() ==> {
                &&& parse_segment(#[trigger] segments[j]) == Ok::<SegmentModel, ErrorModel>(
                    models[j],
                )
                &&& models[j].header == es[j].header
                &&& models[j].records == es[j].records
                &&& j < es.len() - 1 ==> models[j].end is Clean
            },
    ensures
        parse_segments(segments, models.take(i as int)) == Ok::<Seq<SegmentModel>, ErrorModel>(
            models,
        ),
    decreases es.len() - i,
{
    reveal(chained);
    let done = models.take(i as int);
    if i == es.len() {
        assert(done =~= models);
    } else {
        let k = i as int;
        let s = models[k];
        let is_final = i + 1 == es.len();
        assert(parse_segment(segments[k]) == Ok::<SegmentModel, ErrorModel>(s));
        lemma_chain_constants(es, k);
        if i > 0 {
            let p = es[k - 1];
            assert(parse_segment(segments[k - 1]) is Ok);
            assert(parse_segment(segments[0]) is Ok);
            assert(done.last() == models[k - 1]);
            assert(rotation_error(p) is None);
            assert(es[k - 1 + 1].header == rotated(p).header);
            assert(es[k].valid());
            if s.records.len() > 0 {
                lemma_first_not_regressed(es[k].header, es[k].carried, es[k].records);
            }
        }
        assert(segment_violation(done, s, is_final) is None) by {
            if !is_final {
                assert(rotation_error(es[k]) is None);
            }
        }
        assert(done.push(s) =~= models.take(k + 1));
        lemma_chain_parses(es, segments, models, i + 1);
    }
}

proof fn lemma_chain_records(es: Seq<EncoderModel>, models: Seq<SegmentModel>)
    requires
        models.len() == es.len(),
        forall|j: int| 0 <= j < es.len() ==> (#[trigger] models[j]).records == es[j].records,
    ensures
        all_records(models) == chain_records(es),
    decreases es.len(),
{
    if es.len() > 0 {
        lemma_chain_records(es.drop_last(), models.drop_last());
    }
}

/// A recording that was written segment by segment decodes to every record that
/// was written, in order.
pub proof fn law_recording_round_trip(es: Seq<EncoderModel>)
    requires
        chained(es),
        es.len() <= u32::MAX,
    ensures
        parse_recording(chain_bytes(es)) == Ok::<RecordingModel, ErrorModel>(
            RecordingModel {
                header: es[0].header,
                segment_count: es.len(),
                records: chain_records(es),
                end: SegmentEnd::Clean,
            },
        ),
{
    reveal(chained);
    let segments = chain_bytes(es);
    let models = Seq::new(
        es.len(),
        |i: int|
            SegmentModel { header: es[i].header, records: es[i].records, end: SegmentEnd::Clean },
    );
    assert forall|j: int| 0 <= j < es.len() implies parse_segment(#[trigger] segments[j]) == Ok::<
        SegmentModel,
        ErrorModel,
    >(models[j]) by {
        law_segment_round_trip(es[j]);
    }
    lemma_chain_parses(es, segments, models, 0);
    assert(models.take(0) =~= Seq::<SegmentModel>::empty());
    lemma_chain_records(es, models);
}

/// Where the last segment of a recording ends in the middle of a record, every
/// record before that is still read.
pub proof fn law_recording_truncated_tail(es: Seq<EncoderModel>, r: RecordModel, kept: nat)
    requires
        chained(es),
        es.len() <= u32::MAX,
        encode_error(es.last().header, es.last().carried, es.last().records, r) is None,
        r.kind.valid(es.last().header.input_recorded),
        0 < kept < record_bytes(r).len(),
    ensures
        parse_recording(
            chain_bytes(es).update(
                es.len() - 1,
                chain_bytes(es).last() + record_bytes(r).take(kept as int),
            ),
        ) == Ok::<RecordingModel, ErrorModel>(
            RecordingModel {
                header: es[0].header,
                segment_count: es.len(),
                records: chain_records(es),
                end: SegmentEnd::Truncated { offset: chain_bytes(es).last().len() as u64 },
            },
        ),
{
    reveal(chained);
    let last = es.len() - 1;
    let torn = chain_bytes(es).last() + record_bytes(r).take(kept as int);
    let segments = chain_bytes(es).update(last, torn);
    let end = SegmentEnd::Truncated { offset: chain_bytes(es).last().len() as u64 };
    let models = Seq::new(
        es.len(),
        |i: int|
            SegmentModel {
                header: es[i].header,
                records: es[i].records,
                end: if i == last {
                    end
                } else {
                    SegmentEnd::Clean
                },
            },
    );
    assert forall|j: int| 0 <= j < es.len() implies parse_segment(#[trigger] segments[j]) == Ok::<
        SegmentModel,
        ErrorModel,
    >(models[j]) by {
        if j == last {
            law_truncated_tail(es[j], r, kept);
        } else {
            law_segment_round_trip(es[j]);
        }
    }
    lemma_chain_parses(es, segments, models, 0);
    assert(models.take(0) =~= Seq::<SegmentModel>::empty());
    lemma_chain_records(es, models);
}

// What is read is what a writer would write.

/// A field that is read, written again, is the same bytes.
proof fn lemma_field_rewritten(bytes: Seq<u8>, at: int, n: int)
    requires
        0 <= at,
        0 <= n,
        at + n <= bytes.len(),
    ensures
        bytes.subrange(0, at) + be_bytes(be_at(bytes, at, n), n as nat) == bytes.subrange(
            0,
            at + n,
        ),
        be_at(bytes, at, n) < pow256(n as nat),
{
    lemma_be_bytes_of_value(bytes.subrange(at, at + n));
    assert(bytes.subrange(0, at) + bytes.subrange(at, at + n) =~= bytes.subrange(0, at + n));
}

proof fn lemma_term_rewritten(bytes: Seq<u8>)
    requires
        term_valid(term_text(bytes)),
    ensures
        term_bytes(term_text(bytes)) == bytes,
{
    let text = term_text(bytes);
    assert forall|i: int| 0 <= i < bytes.len() implies #[trigger] term_bytes(text)[i] == bytes[i] by {
        assert(term_char(text[i]));
    }
    assert(term_bytes(text) =~= bytes);
}

/// A header that is read was written as [`header_bytes`] says, and is valid.
pub proof fn law_header_canonical(bytes: Seq<u8>)
    requires
        parse_header(bytes) is Ok,
    ensures
        parse_header(bytes)->Ok_0.0.valid(),
        parse_header(bytes)->Ok_0.1 == header_len(parse_header(bytes)->Ok_0.0),
        header_bytes(parse_header(bytes)->Ok_0.0) == bytes.subrange(
            0,
            parse_header(bytes)->Ok_0.1 as int,
        ),
{
    reveal(header_body);
    lemma_pow256();
    let (h, len) = parse_header(bytes)->Ok_0;
    assert(bytes.subrange(0, 0) + be_bytes(MAGIC as nat, 8) =~= be_bytes(MAGIC as nat, 8));
    lemma_field_rewritten(bytes, 0, 8);
    lemma_field_rewritten(bytes, 8, 2);
    lemma_field_rewritten(bytes, 10, 2);
    lemma_field_rewritten(bytes, 12, 2);
    lemma_field_rewritten(bytes, 14, 8);
    lemma_field_rewritten(bytes, 22, 8);
    lemma_field_rewritten(bytes, 30, 4);
    lemma_field_rewritten(bytes, 34, 8);
    lemma_field_rewritten(bytes, 42, 8);
    lemma_field_rewritten(bytes, 50, 2);
    lemma_field_rewritten(bytes, 52, 2);
    lemma_field_rewritten(bytes, 54, 2);
    let term = bytes.subrange(56, len - 4);
    lemma_term_rewritten(term);
    assert(bytes.subrange(0, 56) + term =~= bytes.subrange(0, len - 4));
    assert(header_body(h) == bytes.subrange(0, len - 4));
    lemma_field_rewritten(bytes, len - 4, 4);
}

proof fn lemma_kind_rewritten(code: u8, payload: Seq<u8>, input_recorded: bool)
    requires
        parse_kind(code, payload, input_recorded) is Ok,
        payload.len() <= MAX_PAYLOAD,
    ensures
        parse_kind(code, payload, input_recorded)->Ok_0.valid(input_recorded),
        kind_code(parse_kind(code, payload, input_recorded)->Ok_0) == code,
        payload_bytes(parse_kind(code, payload, input_recorded)->Ok_0) == payload,
{
    if code == KIND_RESIZE {
        lemma_pow256();
        lemma_field_rewritten(payload, 0, 2);
        lemma_field_rewritten(payload, 2, 2);
        lemma_field_rewritten(payload, 5, 4);
        let rows = be_at(payload, 0, 2);
        assert(payload.subrange(0, 0) + be_bytes(rows, 2) =~= be_bytes(rows, 2));
        assert(payload.subrange(0, 4) + seq![payload[4]] =~= payload.subrange(0, 5));
        assert(payload.subrange(0, 9) =~= payload);
    }
}

/// A record that is read was written as [`record_bytes`] says, and keeps the
/// rules of a segment.
pub proof fn law_record_canonical(h: HeaderModel, records: Seq<RecordModel>, rest: Seq<u8>)
    requires
        record_step(h, records, rest) is Whole,
    ensures
        record_step(h, records, rest) matches RecordStep::Whole { record, len } ==> {
            &&& len <= rest.len()
            &&& record_bytes(record) == rest.subrange(0, len as int)
            &&& encode_error(h, None, records, record) is None
            &&& record.kind.valid(h.input_recorded)
        },
{
    reveal(record_frame);
    lemma_pow256();
    if let RecordStep::Whole { record, len } = record_step(h, records, rest) {
        let body_len = be_at(rest, 0, 4) as int;
        let crc_at = PREFIX_LEN + body_len;
        let body = rest.subrange(PREFIX_LEN as int, crc_at);
        let payload = body.subrange(BODY_FIXED_LEN as int, body.len() as int);
        lemma_kind_rewritten(body[0], payload, h.input_recorded);
        lemma_field_rewritten(body, 1, 8);
        lemma_field_rewritten(body, 9, 8);
        assert(seq![body[0]] =~= body.subrange(0, 1));
        assert(body.subrange(0, 17) + payload =~= body);
        assert(record_body(record) == body);
        lemma_field_rewritten(rest, 0, 4);
        lemma_field_rewritten(rest, 4, 4);
        assert(rest.subrange(0, 0) + be_bytes(body_len as nat, 4) =~= be_bytes(body_len as nat, 4));
        assert(length_prefix(body.len()) == rest.subrange(0, 8));
        assert(rest.subrange(0, 8) + body =~= rest.subrange(0, crc_at));
        lemma_field_rewritten(rest, crc_at, 4);
    }
}

proof fn lemma_records_canonical(
    h: HeaderModel,
    records: Seq<RecordModel>,
    rest: Seq<u8>,
    pos: nat,
    torn: Seq<u8>,
)
    requires
        accepted(h, None, records),
        parse_records(h, records, rest, pos) is Ok,
        torn == rest.subrange(
            (match parse_records(h, records, rest, pos)->Ok_0.end {
                SegmentEnd::Clean => pos + rest.len(),
                SegmentEnd::Truncated { offset } => offset as nat,
            }) - pos,
            rest.len() as int,
        ),
        pos + rest.len() <= u64::MAX,
    ensures
        ({
            let s = parse_records(h, records, rest, pos)->Ok_0;
            &&& s.header == h
            &&& accepted(h, None, s.records)
            &&& records_bytes(records) + rest == records_bytes(s.records) + torn
            &&& s.end is Clean ==> torn.len() == 0
        }),
    decreases rest.len(),
{
    match record_step(h, records, rest) {
        RecordStep::Whole { record, len } => {
            law_record_canonical(h, records, rest);
            let next = records.push(record);
            let rest2 = rest.subrange(len as int, rest.len() as int);
            assert(next.drop_last() =~= records);
            assert(rest.subrange(0, len as int) + rest2 =~= rest);
            let end = parse_records(h, records, rest, pos)->Ok_0.end;
            lemma_end_in_range(h, next, rest2, pos + len);
            assert(torn =~= rest2.subrange(
                (match end {
                    SegmentEnd::Clean => pos + rest.len(),
                    SegmentEnd::Truncated { offset } => offset as nat,
                }) - (pos + len),
                rest2.len() as int,
            ));
            lemma_records_canonical(h, next, rest2, pos + len, torn);
            assert(records_bytes(records) + rest =~= records_bytes(next) + rest2);
        },
        _ => {
            assert(torn =~= rest);
        },
    }
}

proof fn lemma_end_in_range(h: HeaderModel, records: Seq<RecordModel>, rest: Seq<u8>, pos: nat)
    requires
        parse_records(h, records, rest, pos) is Ok,
        pos + rest.len() <= u64::MAX,
    ensures
        parse_records(h, records, rest, pos)->Ok_0.end matches SegmentEnd::Truncated { offset }
            ==> pos <= offset < pos + rest.len(),
    decreases rest.len(),
{
    if let RecordStep::Whole { record, len } = record_step(h, records, rest) {
        lemma_end_in_range(
            h,
            records.push(record),
            rest.subrange(len as int, rest.len() as int),
            pos + len,
        );
    }
}

/// Everything that decodes is what a writer would have written: the segment's
/// own bytes for its header and records, and behind them nothing but the torn
/// record, if the segment ends with one.
pub proof fn law_segment_canonical(bytes: Seq<u8>)
    requires
        parse_segment(bytes) is Ok,
        bytes.len() <= u64::MAX,
    ensures
        ({
            let s = parse_segment(bytes)->Ok_0;
            let written = segment_bytes(s.header, s.records);
            &&& s.header.valid()
            &&& accepted(s.header, None, s.records)
            &&& written.is_prefix_of(bytes)
            &&& s.end == if written.len() == bytes.len() {
                SegmentEnd::Clean
            } else {
                SegmentEnd::Truncated { offset: written.len() as u64 }
            }
        }),
{
    law_header_canonical(bytes);
    let (h, len) = parse_header(bytes)->Ok_0;
    let rest = bytes.subrange(len as int, bytes.len() as int);
    let s = parse_segment(bytes)->Ok_0;
    let from = match s.end {
        SegmentEnd::Clean => bytes.len() as int,
        SegmentEnd::Truncated { offset } => offset as int,
    };
    lemma_end_in_range(h, Seq::empty(), rest, len);
    let torn = rest.subrange(from - len, rest.len() as int);
    lemma_records_canonical(h, Seq::empty(), rest, len, torn);
    let written = segment_bytes(h, s.records);
    assert(bytes.subrange(0, len as int) + rest =~= bytes);
    assert(records_bytes(Seq::<RecordModel>::empty()) + rest =~= rest);
    assert(bytes =~= written + torn);
    assert(bytes.subrange(0, written.len() as int) =~= written);
}

// What writing and reading do, in terms of what they were given and what they gave back.

/// A record is taken exactly where it carries the next number, its time is not before the
/// last one, its payload has from one byte to 65536, and input is recorded where it is
/// input. Otherwise the first of these that fails is named, with the numbers in question,
/// and nothing is written.
pub proof fn law_encoder_takes_the_next_record(
    encoder: &mut SegmentEncoder,
    record: Record,
    bytes: Result<Vec<u8>, EncodeError>,
)
    requires
        call_ensures(SegmentEncoder::encode, (encoder, &record), bytes),
    ensures
        ({
            let e = old(encoder)@;
            let expected = e.header.first_sequence + e.records.len();
            let previous = if e.records.len() > 0 {
                Some(e.records.last().elapsed_ns)
            } else {
                e.carried
            };
            let payload = match record@.kind {
                KindModel::Output(payload) => payload.len() as int,
                KindModel::Input(payload) => payload.len() as int,
                KindModel::Resize { .. } => 9,
            };
            let back = previous matches Some(p) && record.elapsed_ns < p;
            let in_turn = expected <= u64::MAX && record@.sequence == expected;
            &&& bytes is Ok <==> in_turn && !back && 1 <= payload <= 65_536 && (
            record@.kind is Input ==> e.header.input_recorded)
            &&& bytes is Ok ==> final(encoder)@.header == e.header && final(encoder)@.records
                == e.records.push(record@) && final(encoder)@.carried == e.carried
            &&& bytes is Err ==> *final(encoder) == *old(encoder)
            &&& bytes matches Ok(out) ==> out@ == record_bytes(record@)
            &&& bytes matches Err(error) ==> error == (if expected > u64::MAX {
                EncodeError::SequenceExhausted
            } else if record@.sequence != expected {
                EncodeError::Sequence { expected: expected as u64, got: record@.sequence }
            } else if back {
                EncodeError::ElapsedRegressed { previous: previous->0, got: record.elapsed_ns }
            } else if payload == 0 {
                EncodeError::EmptyPayload
            } else if payload > 65_536 {
                EncodeError::PayloadTooLarge { len: payload as usize }
            } else {
                EncodeError::InputNotRecorded
            })
        }),
{
}

/// A segment can be followed exactly where it has a record, and numbers for segments and
/// records are left. The next one carries on: its number, its first record's number and
/// its time are those behind the last, its geometry is the one in effect, and everything
/// else is as it was.
pub proof fn law_next_segment_carries_on(
    encoder: SegmentEncoder,
    next: Result<SegmentEncoder, EncodeError>,
    geometry: Geometry,
)
    requires
        call_ensures(SegmentEncoder::next_segment, (&encoder,), next),
        call_ensures(SegmentEncoder::geometry, (&encoder,), geometry),
    ensures
        ({
            let e = encoder@;
            let behind = e.header.first_sequence + e.records.len();
            &&& next is Ok <==> e.records.len() > 0 && behind <= u64::MAX && e.header.segment_index
                < u32::MAX
            &&& next matches Err(error) ==> error == (if e.records.len() == 0 {
                EncodeError::EmptySegmentRotation
            } else if behind > u64::MAX {
                EncodeError::SequenceExhausted
            } else {
                EncodeError::SegmentIndexExhausted
            })
            &&& next matches Ok(n) ==> {
                &&& n@.records.len() == 0
                &&& n@.header.segment_index == e.header.segment_index + 1
                &&& n@.header.first_sequence == behind
                &&& n@.carried == Some(e.records.last().elapsed_ns)
                &&& n@.header.geometry == geometry@
                &&& n@.header.run_id == e.header.run_id
                &&& n@.header.origin_unix_ns == e.header.origin_unix_ns
                &&& n@.header.input_recorded == e.header.input_recorded
                &&& n@.header.term == e.header.term
            }
        }),
{
}

/// The geometry in effect is that of the last resize, whatever caused it, or the one that
/// the segment started with where there was none.
pub proof fn law_geometry_is_that_of_the_last_resize(
    encoder: SegmentEncoder,
    geometry: Geometry,
    last: int,
)
    requires
        call_ensures(SegmentEncoder::geometry, (&encoder,), geometry),
        -1 <= last < encoder@.records.len(),
        forall|i: int|
            last < i < encoder@.records.len() ==> !((#[trigger] encoder@.records[i]).kind is Resize),
        last >= 0 ==> encoder@.records[last].kind is Resize,
    ensures
        last < 0 ==> geometry@ == encoder@.header.geometry,
        last >= 0 ==> geometry@ == encoder@.records[last].kind->geometry,
{
    lemma_last_resize(encoder@.header.geometry, encoder@.records, last);
}

proof fn lemma_last_resize(start: GeometryModel, records: Seq<RecordModel>, last: int)
    requires
        -1 <= last < records.len(),
        forall|i: int| last < i < records.len() ==> !((#[trigger] records[i]).kind is Resize),
        last >= 0 ==> records[last].kind is Resize,
    ensures
        geometry_after(start, records) == if last < 0 {
            start
        } else {
            records[last].kind->geometry
        },
    decreases records.len(),
{
    if records.len() > 0 && last < records.len() - 1 {
        assert(!(records[records.len() - 1].kind is Resize));
        assert forall|i: int| last < i < records.drop_last().len() implies !((
        #[trigger] records.drop_last()[i]).kind is Resize) by {
            assert(records[i] == records.drop_last()[i]);
        }
        lemma_last_resize(start, records.drop_last(), last);
    }
}

/// An encoder starts with nothing written, and refuses only a first segment that does not
/// start with the first record.
pub proof fn law_new_encoder_has_written_nothing(
    header: SegmentHeader,
    encoder: Result<SegmentEncoder, EncodeError>,
    told: &SegmentHeader,
)
    requires
        call_ensures(SegmentEncoder::new, (header,), encoder),
        encoder matches Ok(e) ==> call_ensures(SegmentEncoder::header, (&e,), told),
    ensures
        encoder is Ok <==> (header.segment_index != 0 || header@.first_sequence == 1),
        encoder matches Err(error) ==> error == EncodeError::FirstSequence,
        encoder matches Ok(e) ==> e@.records.len() == 0 && e@.carried is None && e@.header
            == header@ && told@ == header@,
{
}

/// Where each field of a header stands, and what it holds: the word that marks a recording,
/// the version, the length of the header, whether input is recorded, the run, the number of
/// the segment and of its first record, when the recording started, the rows and columns,
/// and `TERM` behind its length. The checksum of all of it comes last.
pub proof fn law_header_layout(encoder: SegmentEncoder, out: Vec<u8>)
    requires
        call_ensures(SegmentEncoder::header_bytes, (&encoder,), out),
    ensures
        ({
            let h = encoder@.header;
            let n = out@.len();
            &&& n == 60 + h.term.len()
            &&& be_at(out@, 0, 8) == 0x544E_4452_5245_4300
            &&& be_at(out@, 8, 2) == 1
            &&& be_at(out@, 10, 2) == n
            &&& be_at(out@, 12, 2) == if h.input_recorded {
                1nat
            } else {
                0
            }
            &&& be_at(out@, 14, 8) as u64 == h.run_id.0
            &&& be_at(out@, 22, 8) as u64 == h.run_id.1
            &&& be_at(out@, 30, 4) as u32 == h.segment_index
            &&& be_at(out@, 34, 8) as u64 == h.first_sequence
            &&& be_at(out@, 42, 8) as u64 == h.origin_unix_ns
            &&& be_at(out@, 50, 2) as u16 == h.geometry.rows
            &&& be_at(out@, 52, 2) as u16 == h.geometry.cols
            &&& be_at(out@, 54, 2) == h.term.len()
            &&& forall|i: int|
                0 <= i < h.term.len() ==> (#[trigger] h.term[i]) as u8 == out@[56 + i]
            &&& be_at(out@, n - 4, 4) == crc32c_of(out@.subrange(0, n - 4))
        }),
{
    let h = encoder@.header;
    law_header_round_trip(h, Seq::empty());
    assert(header_bytes(h) + Seq::<u8>::empty() =~= out@);
    let term = out@.subrange(56, 56int + h.term.len());
    assert(term_text(term) == h.term);
    assert forall|i: int| 0 <= i < h.term.len() implies (#[trigger] h.term[i]) as u8 == out@[56
        + i] by {
        assert(term_text(term)[i] == term[i] as char);
    }
}

/// Where each field of a record stands, and what it holds: the length of its body and that
/// length inverted; in the body, what it is, its number, its time and its payload. The
/// checksum of all of it comes last.
pub proof fn law_record_layout(
    encoder: &mut SegmentEncoder,
    record: Record,
    bytes: Result<Vec<u8>, EncodeError>,
)
    requires
        call_ensures(SegmentEncoder::encode, (encoder, &record), bytes),
    ensures
        bytes matches Ok(out) ==> {
            let n = out@.len();
            let body = out@.subrange(8, n - 4);
            let payload = body.subrange(17, n - 12);
            &&& n >= 29
            &&& be_at(out@, 0, 4) == n - 12
            &&& be_at(out@, 4, 4) == 0xFFFF_FFFF - (n - 12)
            &&& be_at(body, 1, 8) as u64 == record@.sequence
            &&& be_at(body, 9, 8) as u64 == record.elapsed_ns
            &&& be_at(out@, n - 4, 4) == crc32c_of(out@.subrange(0, n - 4))
            &&& match record@.kind {
                KindModel::Output(data) => body[0] == 1 && payload == data,
                KindModel::Input(data) => body[0] == 3 && payload == data,
                KindModel::Resize { geometry, cause } => {
                    &&& body[0] == 2
                    &&& payload.len() == 9
                    &&& be_at(payload, 0, 2) as u16 == geometry.rows
                    &&& be_at(payload, 2, 2) as u16 == geometry.cols
                    &&& match cause {
                        CauseModel::User => payload[4] == 1 && be_at(payload, 5, 4) as u32 == 0,
                        CauseModel::Repaint { correlation } => payload[4] == 2 && be_at(
                            payload,
                            5,
                            4,
                        ) as u32 == correlation,
                    }
                },
            }
        },
{
    if let Ok(out) = bytes {
        let e = old(encoder)@;
        assert(final(encoder)@.valid());
        assert(final(encoder)@.records.last() == record@);
        assert(final(encoder)@.records.drop_last() =~= e.records);
        law_record_round_trip(e.header, e.carried, e.records, record@, Seq::empty());
        assert(record_bytes(record@) + Seq::<u8>::empty() =~= out@);
    }
}

/// A header is refused for the first thing that is wrong with it, in this order: too few
/// bytes, another kind of file, another version, a length out of bounds, fewer bytes than
/// that, a checksum that does not hold; then a length that does not fit `TERM`, unknown
/// flags, a run that is not one, a first record that cannot be, no rows or columns, and a
/// `TERM` that cannot be.
#[verifier::rlimit(40)]
pub proof fn law_header_refusals(
    bytes: &[u8],
    header: Result<(SegmentHeader, usize), DecodeErrorKind>,
)
    requires
        call_ensures(decode_header, (bytes,), header),
    ensures
        ({
            let b = bytes@;
            let n = be_at(b, 10, 2);
            if b.len() < 60 {
                header == Err::<(SegmentHeader, usize), DecodeErrorKind>(
                    DecodeErrorKind::Corrupt(Corruption::HeaderIncomplete),
                )
            } else if be_at(b, 0, 8) != 0x544E_4452_5245_4300 {
                header == Err::<(SegmentHeader, usize), DecodeErrorKind>(DecodeErrorKind::BadMagic)
            } else if be_at(b, 8, 2) != 1 {
                header == Err::<(SegmentHeader, usize), DecodeErrorKind>(
                    DecodeErrorKind::UnsupportedVersion(be_at(b, 8, 2) as u16),
                )
            } else if n < 60 || n > 316 {
                header == Err::<(SegmentHeader, usize), DecodeErrorKind>(
                    DecodeErrorKind::Corrupt(Corruption::HeaderLength),
                )
            } else if b.len() < n {
                header == Err::<(SegmentHeader, usize), DecodeErrorKind>(
                    DecodeErrorKind::Corrupt(Corruption::HeaderIncomplete),
                )
            } else if crc32c_of(b.subrange(0, n - 4)) != be_at(b, n - 4, 4) {
                header == Err::<(SegmentHeader, usize), DecodeErrorKind>(
                    DecodeErrorKind::Corrupt(Corruption::HeaderChecksum),
                )
            } else {
                let term = b.subrange(56, 56int + be_at(b, 54, 2));
                &&& header matches Ok((_, len)) ==> len == n
                &&& header matches Err(kind) ==> kind is Invalid
                &&& header matches Err(DecodeErrorKind::Invalid(v)) ==> (if 60 + be_at(b, 54, 2)
                    != n {
                    v == Violation::HeaderLengthMismatch
                } else if be_at(b, 12, 2) > 1 {
                    v == Violation::ReservedFlags
                } else if (be_at(b, 14, 8) as u64 as nat / 0x1000) % 16 != 7 {
                    v == Violation::RunIdVersion
                } else if be_at(b, 34, 8) as u64 == 0 || (be_at(b, 30, 4) as u32 == 0 && be_at(
                    b,
                    34,
                    8,
                ) as u64 != 1) {
                    v == Violation::FirstSequence
                } else if be_at(b, 50, 2) as u16 == 0 || be_at(b, 52, 2) as u16 == 0 {
                    v == Violation::ZeroGeometry
                } else {
                    v == Violation::TermByte && exists|i: int|
                        0 <= i < term.len() && !(0x21 <= (#[trigger] term[i]) <= 0x7E)
                })
            }
        }),
{
    let b = bytes@;
    if header is Err && header->Err_0 == DecodeErrorKind::Invalid(Violation::TermByte) {
        let n = be_at(b, 10, 2);
        let term = b.subrange(56, 56int + be_at(b, 54, 2));
        let text = term_text(term);
        assert(!term_valid(text));
        assert(text.len() <= 256);
        let i = choose|i: int| 0 <= i < text.len() && !term_char(#[trigger] text[i]);
        assert(text[i] == term[i] as char);
        assert(!(0x21 <= term[i] <= 0x7E));
    }
}

/// Geometries, record numbers and correlations are the numbers that they were made of, and
/// none of them is zero.
pub proof fn law_numbers_are_kept(
    rows: u16,
    cols: u16,
    value: u64,
    tie: u32,
    geometry: Option<Geometry>,
    told_rows: u16,
    told_cols: u16,
    sequence: Option<Sequence>,
    told: u64,
    next: Option<Sequence>,
    first: Sequence,
    correlation: Option<Correlation>,
    told_tie: u32,
)
    requires
        call_ensures(Geometry::new, (rows, cols), geometry),
        geometry matches Some(g) ==> call_ensures(Geometry::rows, (g,), told_rows) && call_ensures(
            Geometry::cols,
            (g,),
            told_cols,
        ),
        call_ensures(Sequence::new, (value,), sequence),
        sequence matches Some(s) ==> call_ensures(Sequence::get, (s,), told) && call_ensures(
            Sequence::next,
            (s,),
            next,
        ),
        call_ensures(Sequence::first, (), first),
        call_ensures(Correlation::new, (tie,), correlation),
        correlation matches Some(c) ==> call_ensures(Correlation::get, (c,), told_tie),
    ensures
        geometry is None <==> rows == 0 || cols == 0,
        geometry is Some ==> told_rows == rows && told_cols == cols,
        sequence is None <==> value == 0,
        sequence is Some ==> told == value,
        sequence is Some && value < u64::MAX ==> (next matches Some(n) && n@ == value + 1),
        sequence is Some && value == u64::MAX ==> next is None,
        first@ == 1,
        correlation is None <==> tie == 0,
        correlation is Some ==> told_tie == tie,
{
}

/// A `TERM` value is taken as it is: at most 256 characters, each from `!` to `~`. One of
/// more than 256 bytes is too long; any other that is refused has another character.
pub proof fn law_term_is_kept(
    value: &str,
    name: Result<TermName, TermNameError>,
    text: &str,
    none: TermName,
)
    requires
        call_ensures(TermName::new, (value,), name),
        name matches Ok(n) ==> call_ensures(TermName::as_str, (&n,), text),
        call_ensures(TermName::empty, (), none),
    ensures
        name is Ok <==> value@.len() <= 256 && forall|i: int|
            0 <= i < value@.len() ==> '!' <= (#[trigger] value@[i]) <= '~',
        name is Ok ==> text@ == value@,
        name == Err::<TermName, TermNameError>(TermNameError::TooLong) <==> encode_utf8(
            value@,
        ).len() > 256,
        none@.len() == 0,
{
    if value@.len() <= 256 && forall|i: int|
        0 <= i < value@.len() ==> '!' <= (#[trigger] value@[i]) <= '~' {
        assert(term_valid(value@)) by {
            assert forall|i: int| 0 <= i < value@.len() implies term_char(
                #[trigger] value@[i],
            ) by {}
        }
    }
    if name is Ok {
        assert forall|i: int| 0 <= i < value@.len() implies '!' <= (#[trigger] value@[i]) <= '~' by {
            assert(term_char(value@[i]));
        }
    }
}

/// What the rules of a segment come to: records are numbered without a gap from the
/// header's first number on, their times never go back, and each of them is one that can
/// be.
proof fn lemma_accepted_records(h: HeaderModel, carried: Option<u64>, records: Seq<RecordModel>)
    requires
        accepted(h, carried, records),
    ensures
        forall|i: int|
            0 <= i < records.len() ==> (#[trigger] records[i]).sequence == h.first_sequence + i,
        forall|i: int, j: int|
            0 <= i <= j < records.len() ==> (#[trigger] records[i]).elapsed_ns <= (
            #[trigger] records[j]).elapsed_ns,
        forall|i: int|
            0 <= i < records.len() ==> (#[trigger] records[i]).kind.valid(h.input_recorded),
    decreases records.len(),
{
    if records.len() > 0 {
        let head = records.drop_last();
        lemma_accepted_records(h, carried, head);
        assert forall|i: int| 0 <= i < records.len() implies (#[trigger] records[i]).sequence
            == h.first_sequence + i && records[i].kind.valid(h.input_recorded) by {
            if i < head.len() {
                assert(records[i] == head[i]);
            }
        }
        assert forall|i: int, j: int| 0 <= i <= j < records.len() implies (
        #[trigger] records[i]).elapsed_ns <= (#[trigger] records[j]).elapsed_ns by {
            if j < head.len() {
                assert(records[i] == head[i] && records[j] == head[j]);
            } else if i < head.len() {
                assert(records[i] == head[i]);
                assert(head[i].elapsed_ns <= head[head.len() - 1].elapsed_ns);
            }
        }
    }
}

/// What a segment decodes to keeps the rules: records are numbered without a gap, their
/// times never go back, each payload has from one byte to 65536, there is input only where
/// it is recorded, and no geometry or correlation is zero. It ends cleanly exactly where
/// the bytes end with the last record, and otherwise where the record that is not all
/// there starts.
pub proof fn law_decoded_segment_keeps_the_rules(
    bytes: &[u8],
    decoded: DecodedSegment,
)
    requires
        bytes@.len() <= u64::MAX,
        call_ensures(decode_segment, (bytes,), Ok::<DecodedSegment, DecodeError>(decoded)),
    ensures
        ({
            let h = decoded@.header;
            let records = decoded@.records;
            let written = segment_bytes(h, records);
            &&& (h.run_id.0 as nat / 0x1000) % 16 == 7
            &&& h.first_sequence >= 1 && (h.segment_index == 0 ==> h.first_sequence == 1)
            &&& h.geometry.rows >= 1 && h.geometry.cols >= 1
            &&& h.term.len() <= 256
            &&& forall|i: int|
                0 <= i < records.len() ==> (#[trigger] records[i]).sequence == h.first_sequence + i
            &&& forall|i: int, j: int|
                0 <= i <= j < records.len() ==> (#[trigger] records[i]).elapsed_ns <= (
                #[trigger] records[j]).elapsed_ns
            &&& forall|i: int|
                0 <= i < records.len() ==> match (#[trigger] records[i]).kind {
                    KindModel::Output(data) => 1 <= data.len() <= 65_536,
                    KindModel::Input(data) => 1 <= data.len() <= 65_536 && h.input_recorded,
                    KindModel::Resize { geometry, cause } => geometry.rows >= 1 && geometry.cols
                        >= 1 && (cause matches CauseModel::Repaint { correlation } ==> correlation
                        >= 1),
                }
            &&& written.is_prefix_of(bytes@)
            &&& decoded.end is Clean <==> written == bytes@
            &&& decoded.end matches SegmentEnd::Truncated { offset } ==> offset == written.len()
                && offset < bytes@.len()
        }),
{
    law_segment_canonical(bytes@);
    let s = parse_segment(bytes@)->Ok_0;
    assert(decoded@ == s);
    lemma_accepted_records(s.header, None, s.records);
    let written = segment_bytes(s.header, s.records);
    if written.len() == bytes@.len() {
        assert(written =~= bytes@);
    }
    assert forall|i: int| 0 <= i < s.records.len() implies match (#[trigger] s.records[i]).kind {
        KindModel::Output(data) => 1 <= data.len() <= 65_536,
        KindModel::Input(data) => 1 <= data.len() <= 65_536 && s.header.input_recorded,
        KindModel::Resize { geometry, cause } => geometry.rows >= 1 && geometry.cols >= 1 && (
        cause matches CauseModel::Repaint { correlation } ==> correlation >= 1),
    } by {
        assert(s.records[i].kind.valid(s.header.input_recorded));
    }
}

/// A record is read from its own bytes: what stands behind it does not matter.
proof fn lemma_step_is_local(h: HeaderModel, records: Seq<RecordModel>, rest: Seq<u8>, k: nat)
    requires
        record_step(h, records, rest) matches RecordStep::Whole { len, .. } && len <= k,
        k <= rest.len(),
    ensures
        record_step(h, records, rest.take(k as int)) == record_step(h, records, rest),
{
    let near = rest.take(k as int);
    assert(near.subrange(0, 4) =~= rest.subrange(0, 4));
    assert(near.subrange(4, 8) =~= rest.subrange(4, 8));
    let crc_at = PREFIX_LEN + be_at(rest, 0, 4);
    assert(near.subrange(0, crc_at) =~= rest.subrange(0, crc_at));
    assert(near.subrange(crc_at, crc_at + CRC_LEN) =~= rest.subrange(crc_at, crc_at + CRC_LEN));
    assert(near.subrange(PREFIX_LEN as int, crc_at) =~= rest.subrange(PREFIX_LEN as int, crc_at));
}

/// A failure among records stands where the records before it end, and names the last of
/// them.
#[verifier::rlimit(40)]
proof fn lemma_failure_is_located(
    h: HeaderModel,
    records: Seq<RecordModel>,
    rest: Seq<u8>,
    pos: nat,
)
    requires
        parse_records(h, records, rest, pos) is Err,
    ensures
        ({
            let e = parse_records(h, records, rest, pos)->Err_0;
            let before = parse_records(h, records, rest.take(e.offset - pos), pos);
            &&& e.segment is None
            &&& pos <= e.offset < pos + rest.len()
            &&& before matches Ok(s) && s.header == h && s.end is Clean && last_sequence(s.records)
                == e.last_valid_sequence && record_step(h, s.records, rest.skip(e.offset - pos))
                == RecordStep::Bad(e.kind)
        }),
    decreases rest.len(),
{
    let e = parse_records(h, records, rest, pos)->Err_0;
    match record_step(h, records, rest) {
        RecordStep::Bad(kind) => {
            assert(rest.take(0) =~= Seq::<u8>::empty());
            assert(rest.skip(0) =~= rest);
        },
        RecordStep::Whole { record, len } => {
            let behind = rest.subrange(len as int, rest.len() as int);
            lemma_failure_is_located(h, records.push(record), behind, pos + len);
            let k = (e.offset - pos) as nat;
            lemma_step_is_local(h, records, rest, k);
            let near = rest.take(k as int);
            assert(near.subrange(len as int, near.len() as int) =~= behind.take(k - len));
            assert(rest.skip(k as int) =~= behind.skip(k - len));
        },
        _ => {},
    }
}

/// A failure is located: the bytes before it decode, end cleanly there, and their last
/// record is the one that it names as the last valid. A failure of the header stands at the
/// start, and names none.
pub proof fn law_failure_is_located(
    bytes: &[u8],
    error: DecodeError,
    before: &[u8],
    read: Result<DecodedSegment, DecodeError>,
    header: Result<(SegmentHeader, usize), DecodeErrorKind>,
)
    requires
        call_ensures(decode_segment, (bytes,), Err::<DecodedSegment, DecodeError>(error)),
        error.offset <= bytes@.len() ==> before@ == bytes@.take(error.offset as int),
        call_ensures(decode_segment, (before,), read),
        call_ensures(decode_header, (bytes,), header),
    ensures
        error.segment is None,
        error.offset == 0 || error.offset < bytes@.len(),
        error.offset == 0 <==> header is Err,
        header matches Err(kind) ==> error.kind == kind && error.last_valid_sequence is None,
        header matches Ok((fields, len)) ==> {
            &&& error.offset >= len
            &&& read matches Ok(decoded)
            &&& decoded@.header == fields@
            &&& decoded.end is Clean
            &&& last_sequence(decoded@.records) == sequence_model(error.last_valid_sequence)
        },
{
    if let Ok((h, len)) = parse_header(bytes@) {
        let rest = bytes@.subrange(len as int, bytes@.len() as int);
        lemma_failure_is_located(h, Seq::empty(), rest, len);
        law_header_canonical(bytes@);
        let k = error.offset as int;
        assert(header_bytes(h) + before@.subrange(len as int, k) =~= before@);
        law_header_round_trip(h, before@.subrange(len as int, k));
        assert(before@.subrange(len as int, k) =~= rest.take(k - len));
    }
}

/// The segments that a list is read as: each is read by itself, behind those before it.
proof fn lemma_segments_are_read_in_order(segments: Seq<Seq<u8>>, done: Seq<SegmentModel>)
    requires
        done.len() <= segments.len(),
        parse_segments(segments, done) is Ok,
    ensures
        ({
            let all = parse_segments(segments, done)->Ok_0;
            &&& all.len() == segments.len()
            &&& all.take(done.len() as int) == done
            &&& forall|i: int|
                done.len() <= i < all.len() ==> parse_next_segment(
                    #[trigger] all.take(i),
                    segments[i],
                    i + 1 == segments.len(),
                ) == Ok::<SegmentModel, ErrorModel>(all[i])
        }),
    decreases segments.len() - done.len(),
{
    let all = parse_segments(segments, done)->Ok_0;
    if done.len() < segments.len() {
        let s = parse_next_segment(
            done,
            segments[done.len() as int],
            done.len() + 1 == segments.len(),
        )->Ok_0;
        lemma_segments_are_read_in_order(segments, done.push(s));
        assert(all.take(done.len() as int) =~= all.take(done.len() + 1int).drop_last());
        assert(done.push(s).drop_last() =~= done);
        assert(all[done.len() as int] == all.take(done.len() + 1int)[done.len() as int]);
    } else {
        assert(all.take(done.len() as int) =~= all);
    }
}

/// What the segments of a recording are to each other, each read by itself: numbered from
/// zero, of one run, one start, one input policy and one `TERM`; each starts with the
/// number and the geometry that the one before it ended with, and not before its time; and
/// only the last may be empty or end in the middle of a record.
#[verifier::opaque]
pub open spec fn continuous(segments: Seq<Seq<u8>>, parts: Seq<SegmentModel>) -> bool {
    &&& parts.len() == segments.len()
    &&& forall|i: int|
        0 <= i < parts.len() ==> {
            &&& parse_segment(segments[i]) == Ok::<SegmentModel, ErrorModel>(#[trigger] parts[i])
            &&& parts[i].header.segment_index == i
            &&& parts[i].header.run_id == parts[0].header.run_id
            &&& parts[i].header.origin_unix_ns == parts[0].header.origin_unix_ns
            &&& parts[i].header.input_recorded == parts[0].header.input_recorded
            &&& parts[i].header.term == parts[0].header.term
            &&& i > 0 ==> parts[i].header.first_sequence == parts[i - 1].header.first_sequence
                + parts[i - 1].records.len()
            &&& i > 0 ==> parts[i].header.geometry == geometry_after(
                parts[i - 1].header.geometry,
                parts[i - 1].records,
            )
            &&& i > 0 && parts[i].records.len() > 0 && parts[i - 1].records.len() > 0
                ==> parts[i - 1].records.last().elapsed_ns <= parts[i].records[0].elapsed_ns
            &&& i < parts.len() - 1 ==> parts[i].end is Clean && parts[i].records.len() > 0
        }
}

/// What one of continuous segments is, and is to the one before it.
proof fn lemma_part(segments: Seq<Seq<u8>>, parts: Seq<SegmentModel>, i: int)
    requires
        continuous(segments, parts),
        0 <= i < parts.len(),
    ensures
        parts.len() == segments.len(),
        parse_segment(segments[i]) == Ok::<SegmentModel, ErrorModel>(parts[i]),
        parts[i].header.segment_index == i,
        i > 0 ==> parts[i].header.first_sequence == parts[i - 1].header.first_sequence + parts[i
            - 1].records.len(),
        i > 0 && parts[i].records.len() > 0 && parts[i - 1].records.len() > 0 ==> parts[i
            - 1].records.last().elapsed_ns <= parts[i].records[0].elapsed_ns,
        i < parts.len() - 1 ==> parts[i].end is Clean && parts[i].records.len() > 0,
{
    reveal(continuous);
}

/// Records that go on where others end are numbered without a gap and never go back in time,
/// together with those.
proof fn lemma_joined_records(head: Seq<RecordModel>, tail: Seq<RecordModel>, first: u64)
    requires
        first == head.len() + 1,
        forall|i: int| 0 <= i < head.len() ==> (#[trigger] head[i]).sequence == 1 + i,
        forall|i: int| 0 <= i < tail.len() ==> (#[trigger] tail[i]).sequence == first + i,
        forall|i: int, j: int|
            0 <= i <= j < head.len() ==> (#[trigger] head[i]).elapsed_ns <= (
            #[trigger] head[j]).elapsed_ns,
        forall|i: int, j: int|
            0 <= i <= j < tail.len() ==> (#[trigger] tail[i]).elapsed_ns <= (
            #[trigger] tail[j]).elapsed_ns,
        head.len() > 0 && tail.len() > 0 ==> head.last().elapsed_ns <= tail[0].elapsed_ns,
    ensures
        forall|i: int|
            0 <= i < (head + tail).len() ==> (#[trigger] (head + tail)[i]).sequence == 1 + i,
        forall|i: int, j: int|
            0 <= i <= j < (head + tail).len() ==> (#[trigger] (head + tail)[i]).elapsed_ns <= (
            #[trigger] (head + tail)[j]).elapsed_ns,
{
    let all = head + tail;
    let n = head.len();
    assert forall|i: int| 0 <= i < all.len() implies (#[trigger] all[i]).sequence == 1 + i by {
        if i < n {
            assert(all[i] == head[i]);
        } else {
            assert(all[i] == tail[i - n]);
        }
    }
    assert forall|i: int, j: int| 0 <= i <= j < all.len() implies (#[trigger] all[i]).elapsed_ns
        <= (#[trigger] all[j]).elapsed_ns by {
        if j < n {
            assert(all[i] == head[i] && all[j] == head[j]);
        } else {
            assert(all[j] == tail[j - n]);
            if i < n {
                assert(all[i] == head[i]);
                assert(head[i].elapsed_ns <= head[n - 1].elapsed_ns);
                assert(tail[0].elapsed_ns <= tail[j - n].elapsed_ns);
            } else {
                assert(all[i] == tail[i - n]);
            }
        }
    }
}

/// The records of continuous segments together are numbered without a gap from one on, and
/// their times never go back.
#[verifier::rlimit(40)]
#[verifier::spinoff_prover]
proof fn lemma_continuous_records(segments: Seq<Seq<u8>>, parts: Seq<SegmentModel>, n: nat)
    requires
        continuous(segments, parts),
        forall|i: int| 0 <= i < segments.len() ==> (#[trigger] segments[i]).len() <= u64::MAX,
        n <= parts.len(),
    ensures
        ({
            let records = all_records(parts.take(n as int));
            &&& forall|i: int|
                0 <= i < records.len() ==> (#[trigger] records[i]).sequence == 1 + i
            &&& forall|i: int, j: int|
                0 <= i <= j < records.len() ==> (#[trigger] records[i]).elapsed_ns <= (
                #[trigger] records[j]).elapsed_ns
            &&& n > 0 ==> records.len() + 1 == parts[n - 1].header.first_sequence + parts[n
                - 1].records.len()
            &&& n > 0 && parts[n - 1].records.len() > 0 ==> records.len() > 0 && records.last()
                == parts[n - 1].records.last()
        }),
    decreases n,
{
    if n > 0 {
        let m = (n - 1) as nat;
        lemma_continuous_records(segments, parts, m);
        let head = all_records(parts.take(m as int));
        let s = parts[m as int];
        let records = all_records(parts.take(n as int));
        assert(parts.take(n as int).drop_last() =~= parts.take(m as int));
        assert(parts.take(n as int).last() == s);
        assert(records == head + s.records);
        lemma_part(segments, parts, m as int);
        assert(segments[m as int].len() <= u64::MAX);
        law_segment_canonical(segments[m as int]);
        lemma_accepted_records(s.header, None, s.records);
        if m == 0 {
            assert(head.len() == 0);
            assert(s.header.first_sequence == 1);
        } else {
            lemma_part(segments, parts, m - 1);
        }
        assert(s.header.first_sequence == head.len() + 1);
        lemma_joined_records(head, s.records, s.header.first_sequence);
    }
}

/// A segment that is taken behind others continues them.
proof fn lemma_taken_segment_continues(
    done: Seq<SegmentModel>,
    bytes: Seq<u8>,
    is_final: bool,
    s: SegmentModel,
)
    requires
        parse_next_segment(done, bytes, is_final) == Ok::<SegmentModel, ErrorModel>(s),
    ensures
        parse_segment(bytes) == Ok::<SegmentModel, ErrorModel>(s),
        s.header.segment_index == done.len(),
        !is_final ==> s.end is Clean && s.records.len() > 0,
        done.len() > 0 ==> {
            let first = done[0].header;
            let prev = done.last();
            &&& s.header.run_id == first.run_id
            &&& s.header.origin_unix_ns == first.origin_unix_ns
            &&& s.header.input_recorded == first.input_recorded
            &&& s.header.term == first.term
            &&& s.header.first_sequence == prev.header.first_sequence + prev.records.len()
            &&& s.header.geometry == geometry_after(prev.header.geometry, prev.records)
            &&& s.records.len() > 0 && prev.records.len() > 0
                ==> prev.records.last().elapsed_ns <= s.records[0].elapsed_ns
        },
{
}

/// Segments that are read one behind the other are continuous.
proof fn lemma_read_segments_are_continuous(segments: Seq<Seq<u8>>)
    requires
        parse_segments(segments, Seq::empty()) is Ok,
    ensures
        continuous(segments, parse_segments(segments, Seq::empty())->Ok_0),
{
    reveal(continuous);
    let parts = parse_segments(segments, Seq::empty())->Ok_0;
    lemma_segments_are_read_in_order(segments, Seq::empty());
    assert forall|i: int| 0 <= i < parts.len() implies {
        &&& parse_segment(segments[i]) == Ok::<SegmentModel, ErrorModel>(#[trigger] parts[i])
        &&& parts[i].header.segment_index == i
        &&& parts[i].header.run_id == parts[0].header.run_id
        &&& parts[i].header.origin_unix_ns == parts[0].header.origin_unix_ns
        &&& parts[i].header.input_recorded == parts[0].header.input_recorded
        &&& parts[i].header.term == parts[0].header.term
        &&& i > 0 ==> parts[i].header.first_sequence == parts[i - 1].header.first_sequence
            + parts[i - 1].records.len()
        &&& i > 0 ==> parts[i].header.geometry == geometry_after(
            parts[i - 1].header.geometry,
            parts[i - 1].records,
        )
        &&& i > 0 && parts[i].records.len() > 0 && parts[i - 1].records.len() > 0 ==> parts[i
            - 1].records.last().elapsed_ns <= parts[i].records[0].elapsed_ns
        &&& i < parts.len() - 1 ==> parts[i].end is Clean && parts[i].records.len() > 0
    } by {
        let done = parts.take(i);
        lemma_taken_segment_continues(done, segments[i], i + 1 == segments.len(), parts[i]);
        if i > 0 {
            assert(done[0] == parts[0]);
            assert(done.last() == parts[i - 1]);
        }
    }
}

/// A list that decodes is one recording: there is a segment for each byte string, they are
/// continuous, and what comes out are the records of all of them, numbered without a gap
/// from one on and with times that never go back; the header of the first; how many there
/// are; and how the last ended.
#[verifier::rlimit(40)]
pub proof fn law_decoded_recording_is_continuous(
    segments: &[&[u8]],
    recording: DecodedRecording,
)
    requires
        forall|i: int| 0 <= i < segments@.len() ==> (#[trigger] segments@[i])@.len() <= u64::MAX,
        call_ensures(
            decode_recording,
            (segments,),
            Ok::<DecodedRecording, DecodeError>(recording),
        ),
    ensures
        segments@.len() > 0,
        recording.segment_count == segments@.len(),
        forall|i: int|
            0 <= i < recording@.records.len() ==> (#[trigger] recording@.records[i]).sequence == 1
                + i,
        forall|i: int, j: int|
            0 <= i <= j < recording@.records.len() ==> (
            #[trigger] recording@.records[i]).elapsed_ns <= (
            #[trigger] recording@.records[j]).elapsed_ns,
        exists|parts: Seq<SegmentModel>|
            {
                &&& #[trigger] continuous(segment_data(segments@), parts)
                &&& recording@.header == parts[0].header
                &&& recording@.end == parts.last().end
                &&& recording@.records == all_records(parts)
            },
{
    let data = segment_data(segments@);
    let parts = parse_segments(data, Seq::empty())->Ok_0;
    lemma_read_segments_are_continuous(data);
    lemma_segments_are_read_in_order(data, Seq::empty());
    assert forall|i: int| 0 <= i < data.len() implies (#[trigger] data[i]).len() <= u64::MAX by {
        assert(data[i] == segments@[i]@);
    }
    lemma_continuous_records(data, parts, parts.len());
    assert(parts.take(parts.len() as int) =~= parts);
}

/// The segment behind those in `before` is refused.
spec fn refused_behind(
    before: Seq<SegmentModel>,
    segments: Seq<Seq<u8>>,
    error: ErrorModel,
) -> bool {
    parse_next_segment(
        before,
        segments[before.len() as int],
        before.len() + 1 == segments.len(),
    ) == Err::<SegmentModel, ErrorModel>(error)
}

/// Where a list is refused, it is for one of its segments, and those before it were read.
proof fn lemma_refusal_is_of_one_segment(segments: Seq<Seq<u8>>, done: Seq<SegmentModel>)
    requires
        done.len() < segments.len(),
        parse_segments(segments, done) is Err,
    ensures
        exists|before: Seq<SegmentModel>|
            {
                &&& done.len() <= before.len() < segments.len()
                &&& before.take(done.len() as int) == done
                &&& forall|i: int|
                    done.len() <= i < before.len() ==> parse_segment(segments[i]) == Ok::<
                        SegmentModel,
                        ErrorModel,
                    >(#[trigger] before[i])
                &&& #[trigger] refused_behind(before, segments, parse_segments(segments, done)->Err_0)
            },
    decreases segments.len() - done.len(),
{
    let next = parse_next_segment(
        done,
        segments[done.len() as int],
        done.len() + 1 == segments.len(),
    );
    if next is Err {
        assert(done.take(done.len() as int) =~= done);
        assert(refused_behind(done, segments, parse_segments(segments, done)->Err_0));
    } else {
        let more = done.push(next->Ok_0);
        assert(more.len() < segments.len());
        lemma_refusal_is_of_one_segment(segments, more);
        let before = choose|before: Seq<SegmentModel>|
            {
                &&& more.len() <= before.len() < segments.len()
                &&& before.take(more.len() as int) == more
                &&& forall|i: int|
                    more.len() <= i < before.len() ==> parse_segment(segments[i]) == Ok::<
                        SegmentModel,
                        ErrorModel,
                    >(#[trigger] before[i])
                &&& #[trigger] refused_behind(before, segments, parse_segments(segments, more)->Err_0)
            };
        assert(before.take(done.len() as int) =~= before.take(more.len() as int).drop_last());
        assert(more.drop_last() =~= done);
        assert forall|i: int| done.len() <= i < before.len() implies parse_segment(segments[i])
            == Ok::<SegmentModel, ErrorModel>(#[trigger] before[i]) by {
            if i == done.len() {
                assert(before[i] == before.take(more.len() as int)[i]);
                assert(before[i] == next->Ok_0);
            }
        }
    }
}

/// A list is refused for its first segment that is wrong, and the failure names it. A
/// segment that does not decode by itself is refused for that, at the same place; one that
/// does is refused for what it has in common, or has not, with those before it. The last
/// valid record is the last that was read, in this segment or in the one before.
#[verifier::rlimit(40)]
pub proof fn law_recording_refusals(segments: &[&[u8]], error: DecodeError)
    requires
        segments@.len() <= u32::MAX,
        call_ensures(
            decode_recording,
            (segments,),
            Err::<DecodedRecording, DecodeError>(error),
        ),
    ensures
        segments@.len() == 0 ==> error.kind == DecodeErrorKind::Invalid(Violation::NoSegments)
            && error.segment is None && error.last_valid_sequence is None,
        segments@.len() > 0 ==> exists|before: Seq<SegmentModel>|
            {
                let k = #[trigger] before.len();
                let earlier = if k > 0 && before.last().records.len() > 0 {
                    Some(before.last().records.last().sequence)
                } else {
                    None
                };
                let last_valid = sequence_model(error.last_valid_sequence);
                &&& k < segments@.len()
                &&& error.segment == Some(k as u32)
                &&& forall|i: int|
                    0 <= i < k ==> parse_segment(segments@[i]@) == Ok::<SegmentModel, ErrorModel>(
                        #[trigger] before[i],
                    )
                &&& match parse_segment(segments@[k as int]@) {
                    Err(own) => error.kind == own.kind && error.offset == own.offset && last_valid
                        == (if own.last_valid_sequence is Some {
                        own.last_valid_sequence
                    } else {
                        earlier
                    }),
                    Ok(s) => if s.end is Truncated && k + 1 < segments@.len() {
                        &&& error.kind == DecodeErrorKind::Corrupt(
                            Corruption::TruncatedInteriorSegment,
                        )
                        &&& error.offset == s.end->offset
                        &&& last_valid == (if s.records.len() > 0 {
                            Some(s.records.last().sequence)
                        } else {
                            earlier
                        })
                    } else {
                        let at_start = error.offset == 0;
                        let at_records = error.offset == 60 + s.header.term.len();
                        &&& last_valid == earlier
                        &&& error.kind matches DecodeErrorKind::Invalid(v)
                        &&& match v {
                            Violation::SegmentIndex => at_start && s.header.segment_index != k,
                            Violation::SegmentRun => at_start && k > 0 && s.header.run_id
                                != before[0].header.run_id,
                            Violation::SegmentOrigin => at_start && k > 0
                                && s.header.origin_unix_ns != before[0].header.origin_unix_ns,
                            Violation::SegmentFlags => at_start && k > 0
                                && s.header.input_recorded != before[0].header.input_recorded,
                            Violation::SegmentTerm => at_start && k > 0 && s.header.term
                                != before[0].header.term,
                            Violation::SegmentFirstSequence => at_start && k > 0
                                && s.header.first_sequence
                                != before.last().header.first_sequence
                                + before.last().records.len(),
                            Violation::SegmentGeometry => at_start && k > 0 && s.header.geometry
                                != geometry_after(
                                before.last().header.geometry,
                                before.last().records,
                            ),
                            Violation::SegmentElapsed => at_records && k > 0 && s.records.len() > 0
                                && before.last().records.len() > 0 && s.records[0].elapsed_ns
                                < before.last().records.last().elapsed_ns,
                            Violation::EmptyInteriorSegment => at_records && s.records.len() == 0
                                && k + 1 < segments@.len(),
                            _ => false,
                        }
                    },
                }
            },
{
    let data = segment_data(segments@);
    if segments@.len() > 0 {
        lemma_refusal_is_of_one_segment(data, Seq::empty());
        let before = choose|before: Seq<SegmentModel>|
            {
                &&& 0 <= before.len() < data.len()
                &&& before.take(0) == Seq::<SegmentModel>::empty()
                &&& forall|i: int|
                    0 <= i < before.len() ==> parse_segment(data[i]) == Ok::<
                        SegmentModel,
                        ErrorModel,
                    >(#[trigger] before[i])
                &&& #[trigger] refused_behind(before, data, parse_segments(data, Seq::empty())->Err_0)
            };
        let k = before.len();
        assert(data[k as int] == segments@[k as int]@);
        assert forall|i: int| 0 <= i < k implies parse_segment(segments@[i]@) == Ok::<
            SegmentModel,
            ErrorModel,
        >(#[trigger] before[i]) by {
            assert(data[i] == segments@[i]@);
        }
    }
}

/// The parts of what is written and read agree with the whole: a header and a record are
/// their bodies and checksums, a payload is checked for its size alone, and what is decoded
/// part by part is what was encoded.
pub proof fn law_parts_agree_with_the_whole(
    header: SegmentHeader,
    body: Vec<u8>,
    record: Record,
    frame: Vec<u8>,
    payload: Vec<u8>,
    data: &[u8],
    checked: Result<&[u8], EncodeError>,
    bytes: &[u8],
    whole: Result<DecodedSegment, DecodeError>,
    with_summary: Result<(DecodedSegment, SegmentSummary), DecodeError>,
)
    requires
        call_ensures(header_body_bytes, (&header,), body),
        payload_bytes(record@.kind).len() <= 65_536,
        call_ensures(record_frame_bytes, (&record,), frame),
        call_ensures(kind_payload, (&record.kind,), payload),
        call_ensures(checked_payload, (data,), checked),
        call_ensures(decode_segment, (bytes,), whole),
        call_ensures(decode_segment_with_summary, (bytes,), with_summary),
    ensures
        body@ + be_bytes(crc32c_of(body@) as nat, 4) =~= header_bytes(header@),
        frame@ + be_bytes(crc32c_of(frame@) as nat, 4) =~= record_bytes(record@),
        frame@.len() == 25 + payload@.len(),
        frame@.skip(25) =~= payload@,
        checked is Ok <==> 1 <= data@.len() <= 65_536,
        checked matches Ok(same) ==> same@ == data@,
        checked matches Err(error) ==> error == (if data@.len() == 0 {
            EncodeError::EmptyPayload
        } else {
            EncodeError::PayloadTooLarge { len: data@.len() as usize }
        }),
        whole is Ok <==> with_summary is Ok,
        with_summary matches Ok((segment, _)) ==> whole->Ok_0@ == segment@,
        with_summary matches Err(error) ==> whole->Err_0@ == error@,
{
    reveal(record_frame);
    lemma_be_bytes_len(record_body(record@).len(), 4);
    lemma_be_bytes_len((0xFFFF_FFFF - record_body(record@).len()) as nat, 4);
    lemma_be_bytes_len(record@.sequence as nat, 8);
    lemma_be_bytes_len(record@.elapsed_ns as nat, 8);
}

/// A header is read as it was written, frame first and then its fields; and so is a record's
/// body, by its kind, where its number is the one that it must carry and its time is not
/// before the last.
pub proof fn law_parts_are_read_back(
    header: SegmentHeader,
    bytes: &[u8],
    len: Result<usize, DecodeErrorKind>,
    fields: Result<SegmentHeader, Violation>,
    record: Record,
    input_recorded: bool,
    payload: &[u8],
    kind: Result<RecordKind, Violation>,
    code: u8,
)
    requires
        header@.valid(),
        bytes@ == header_bytes(header@),
        call_ensures(decode_header_frame, (bytes,), len),
        len matches Ok(n) ==> call_ensures(decode_header_fields, (bytes, n), fields),
        record@.kind.valid(input_recorded),
        payload@ == payload_bytes(record@.kind),
        code == kind_code(record@.kind),
        call_ensures(decode_kind, (code, payload, input_recorded), kind),
    ensures
        len matches Ok(n) && n == bytes@.len(),
        fields matches Ok(again) && again@ == header@,
        kind matches Ok(again) && again@ == record@.kind,
{
    law_header_round_trip(header@, Seq::empty());
    assert(header_bytes(header@) + Seq::<u8>::empty() =~= bytes@);
    lemma_kind_round_trip(record@.kind, input_recorded);
}

/// A record's body is refused for what its kind is refused for; then for its number, where
/// that is not the one that it must carry; then for its time, where that is before the last.
pub proof fn law_bodies_are_checked_in_order(
    body: &[u8],
    input_recorded: bool,
    next: Option<Sequence>,
    previous: Option<u64>,
    record: Result<Record, Violation>,
    payload: &[u8],
    kind: Result<RecordKind, Violation>,
)
    requires
        body@.len() >= 17,
        payload@ == body@.subrange(17, body@.len() as int),
        call_ensures(decode_kind, (body@[0], payload, input_recorded), kind),
        call_ensures(decode_body, (body, input_recorded, next, previous), record),
    ensures
        ({
            let sequence = be_at(body@, 1, 8) as u64;
            let elapsed = be_at(body@, 9, 8) as u64;
            let in_turn = next matches Some(s) && s@ == sequence;
            let back = previous matches Some(p) && elapsed < p;
            &&& kind matches Err(v) ==> record == Err::<Record, Violation>(v)
            &&& kind is Ok && !in_turn ==> record == Err::<Record, Violation>(Violation::Sequence)
            &&& kind is Ok && in_turn && back ==> record == Err::<Record, Violation>(
                Violation::ElapsedRegressed,
            )
            &&& kind is Ok && in_turn && !back ==> (record matches Ok(r) && r@.sequence == sequence
                && r.elapsed_ns == elapsed && r@.kind == kind->Ok_0@)
        }),
{
}

/// What a record is, by its code: output and input have something in them, input only where
/// it is recorded; a resize has nine bytes, no zero among its rows and columns, a cause that
/// is known, and a correlation exactly where that is a repaint. Otherwise the first of these
/// that fails is told.
pub proof fn law_kinds_are_checked_in_order(
    code: u8,
    payload: &[u8],
    input_recorded: bool,
    kind: Result<RecordKind, Violation>,
)
    requires
        call_ensures(decode_kind, (code, payload, input_recorded), kind),
    ensures
        ({
            let p = payload@;
            let rows = be_at(p, 0, 2) as u16;
            let cols = be_at(p, 2, 2) as u16;
            let correlation = be_at(p, 5, 4) as u32;
            &&& kind matches Err(v) ==> v == (if code == 2 {
                if p.len() != 9 {
                    Violation::PayloadSize
                } else if rows == 0 || cols == 0 {
                    Violation::ZeroGeometry
                } else if p[4] == 1 || p[4] == 2 {
                    Violation::Correlation
                } else {
                    Violation::UnknownResizeCause(p[4])
                }
            } else if code != 1 && code != 3 {
                Violation::UnknownKind(code)
            } else if p.len() == 0 {
                Violation::PayloadSize
            } else {
                Violation::InputNotRecorded
            })
            &&& code == 1 ==> (kind is Ok <==> p.len() > 0)
            &&& code == 3 ==> (kind is Ok <==> p.len() > 0 && input_recorded)
            &&& code == 2 ==> (kind is Ok <==> p.len() == 9 && rows != 0 && cols != 0 && ((p[4] == 1
                && correlation == 0) || (p[4] == 2 && correlation != 0)))
            &&& kind matches Ok(k) ==> match k@ {
                KindModel::Output(data) => code == 1 && data == p,
                KindModel::Input(data) => code == 3 && data == p,
                KindModel::Resize { geometry, cause } => code == 2 && geometry.rows == rows
                    && geometry.cols == cols && (match cause {
                    CauseModel::User => p[4] == 1,
                    CauseModel::Repaint { correlation: c } => p[4] == 2 && c == correlation,
                }),
            }
        }),
{
}

} // verus!
