//! The storage side of a recorder: encoding, rotation, and what storage was handed.

use crate::io_error::ErrorKind;
use crate::recorder::{invalid_record, RecorderLimits, StopReason};
use crate::recording::format::{
    encode_error, header_bytes, last_sequence, parse_recording, record_bytes, records_bytes,
    segment_bytes, ErrorModel, HeaderModel, RecordModel, RecordingModel,
};
use crate::recording::laws::{
    chain_bytes, chain_records, chained, law_header_round_trip, law_record_round_trip,
    law_recording_round_trip, lemma_chain_constants,
};
use crate::recording::{
    rotated, rotation_error, sequence_model, EncoderModel, Record, SegmentEncoder, SegmentEnd,
    Sequence,
};
use crate::text::{
    decimal_len, decimal_width, digits, lemma_digits_len, push_digits, same_text,
};
use vstd::prelude::*;

verus! {

/// The error that a request was answered with, if it was.
pub open spec fn error_of<T>(result: Result<T, ErrorKind>) -> Option<ErrorKind> {
    match result {
        Ok(_) => None,
        Err(kind) => Some(kind),
    }
}

/// A request to publish a segment, and what came of it.
pub struct Publication {
    pub index: u32,
    pub header: Seq<u8>,
    pub error: Option<ErrorKind>,
}

/// Where segments are written.
pub trait SegmentStore {
    type File: SegmentFile;

    /// The segments that the store was asked to publish so far. Only the store itself can
    /// say which they were, so nothing is known of them but that each request is one more.
    /// An implementation that is itself verified has to override this.
    closed spec fn requested(&self) -> Seq<Publication> {
        arbitrary()
    }

    /// Durably publishes segment `index` holding `header`, and returns a writer
    /// positioned after it.
    fn publish(&mut self, index: u32, header: &[u8]) -> (file: Result<Self::File, ErrorKind>)
        ensures
            final(self).requested() == old(self).requested().push(
                (Publication {
                    index,
                    header: header@,
                    error: error_of(file),
                }),
            ),
            file matches Ok(f) ==> f.content() == header@ && f.durable() == header@
                && f.calls().len() == 0,
    ;
}

/// A request to an open segment, and what came of it.
pub enum FileCall {
    WriteAll { bytes: Seq<u8>, error: Option<ErrorKind> },
    Sync { error: Option<ErrorKind> },
    Truncate { len: u64, error: Option<ErrorKind> },
}

impl FileCall {
    /// The error that it was answered with, if it was.
    pub open spec fn error(self) -> Option<ErrorKind> {
        match self {
            FileCall::WriteAll { error, .. } => error,
            FileCall::Sync { error } => error,
            FileCall::Truncate { error, .. } => error,
        }
    }
}

/// An open, published segment.
pub trait SegmentFile {
    /// The bytes of the segment. Only the file itself can say what they are, so nothing
    /// is known of them but what its operations do to them. An implementation that is
    /// itself verified has to override this, as it has to override `durable` and `calls`.
    closed spec fn content(&self) -> Seq<u8> {
        arbitrary()
    }

    /// The bytes of the segment that are sure to be on stable storage.
    closed spec fn durable(&self) -> Seq<u8> {
        arbitrary()
    }

    /// What the segment was asked so far.
    closed spec fn calls(&self) -> Seq<FileCall> {
        arbitrary()
    }

    /// Appends all of `bytes`; where that fails, some of them may be there.
    fn write_all(&mut self, bytes: &[u8]) -> (written: Result<(), ErrorKind>)
        ensures
            final(self).calls() == old(self).calls().push(
                (FileCall::WriteAll { bytes: bytes@, error: error_of(written) }),
            ),
            written is Ok ==> final(self).content() == old(self).content() + bytes@,
            old(self).content().is_prefix_of(final(self).content()),
            final(self).durable() == old(self).durable(),
    ;

    /// Syncs appended bytes to stable storage.
    fn sync(&mut self) -> (synced: Result<(), ErrorKind>)
        ensures
            final(self).calls() == old(self).calls().push(
                (FileCall::Sync { error: error_of(synced) }),
            ),
            final(self).content() == old(self).content(),
            synced is Ok ==> final(self).durable() == final(self).content(),
            synced is Err ==> final(self).durable() == old(self).durable(),
    ;

    /// Cuts the segment back to `len` bytes, header included; later writes append
    /// after it. The bytes before that stay, also where it fails.
    fn truncate(&mut self, len: u64) -> (cut: Result<(), ErrorKind>)
        ensures
            final(self).calls() == old(self).calls().push(
                (FileCall::Truncate { len, error: error_of(cut) }),
            ),
            cut is Ok && len <= old(self).content().len() ==> final(self).content() == old(
                self).content().take(len as int),
            len <= old(self).content().len() ==> old(self).content().take(
                len as int,
            ).is_prefix_of(final(self).content()),
            cut_to(old(self).durable(), len as nat).is_prefix_of(final(self).durable()),
    ;
}

/// The open segment was asked one thing more.
pub open spec fn with_call(calls: Seq<Seq<FileCall>>, call: FileCall) -> Seq<Seq<FileCall>> {
    calls.drop_last().push(calls.last().push(call))
}

/// At most the first `len` bytes.
pub open spec fn cut_to(bytes: Seq<u8>, len: nat) -> Seq<u8> {
    if len <= bytes.len() {
        bytes.take(len as int)
    } else {
        bytes
    }
}

/// The bytes of segments together.
pub open spec fn total_bytes(es: Seq<EncoderModel>) -> nat
    decreases es.len(),
{
    if es.len() == 0 {
        0
    } else {
        total_bytes(es.drop_last()) + segment_bytes(es.last().header, es.last().records).len()
    }
}

/// With one record more in the last segment.
pub open spec fn with_record(es: Seq<EncoderModel>, r: RecordModel) -> Seq<EncoderModel> {
    es.update(
        es.len() - 1,
        EncoderModel { records: es.last().records.push(r), ..es.last() },
    )
}

/// With one record less in the last segment.
pub open spec fn without_record(es: Seq<EncoderModel>) -> Seq<EncoderModel> {
    es.update(
        es.len() - 1,
        EncoderModel { records: es.last().records.drop_last(), ..es.last() },
    )
}

/// What the writer knows, and what it has handed to storage.
pub struct StorageModel {
    pub limits: RecorderLimits,
    /// The segments that storage took, with the records that it took.
    pub stored: Seq<EncoderModel>,
    /// The bytes of each segment.
    pub disk: Seq<Seq<u8>>,
    /// The open segment may end in bytes beyond what was taken: an append failed, or
    /// could not be cut off again.
    pub torn: bool,
    /// The bytes of each segment that are sure to be on stable storage.
    pub durable: Seq<Seq<u8>>,
    /// The segments and records that were on stable storage at the last sync.
    pub safe: Seq<EncoderModel>,
    /// The segments that the store was asked to publish.
    pub requested: Seq<Publication>,
    /// What each segment was asked.
    pub calls: Seq<Seq<FileCall>>,
    /// What the next segment continues, before there is one: its start.
    pub start: EncoderModel,
    /// The record that is encoded and not yet appended.
    pub prepared: Option<RecordModel>,
    /// The length of the open segment before the last append.
    pub mark: Option<u64>,
    /// Something went wrong: no further record can be prepared.
    pub failed: bool,
    pub last_appended: Option<Sequence>,
    pub synced: Option<Sequence>,
    pub unsynced: bool,
}

/// What preparing a record comes to.
pub enum Plan {
    /// The recording stops.
    Refuse(StopReason),
    /// The record goes into the open segment.
    Append,
    /// A new segment is published first.
    Rotate,
}

/// The bytes of the last segment.
pub open spec fn open_len(stored: Seq<EncoderModel>) -> nat {
    if stored.len() == 0 {
        0
    } else {
        segment_bytes(stored.last().header, stored.last().records).len()
    }
}

/// What preparing `r` comes to before storage is asked, where it took `stored`: a
/// segment that is full is rotated away from where that is possible.
pub open spec fn plan_of(stored: Seq<EncoderModel>, limits: RecorderLimits, r: RecordModel) -> Plan {
    let open = stored.last();
    let next = rotated(open);
    if open_len(stored) >= limits.segment_bytes && rotation_error(open) is None {
        if encode_error(next.header, next.carried, Seq::empty(), r) is Some {
            Plan::Refuse(invalid_record())
        } else if total_bytes(stored) + segment_bytes(next.header, seq![r]).len()
            > limits.max_bytes {
            Plan::Refuse(StopReason::SizeLimit)
        } else {
            Plan::Rotate
        }
    } else if encode_error(open.header, open.carried, open.records, r) is Some {
        Plan::Refuse(invalid_record())
    } else if total_bytes(stored) + record_bytes(r).len() > limits.max_bytes {
        Plan::Refuse(StopReason::SizeLimit)
    } else {
        Plan::Append
    }
}

/// With the segment behind the last one.
pub open spec fn with_next(stored: Seq<EncoderModel>) -> Seq<EncoderModel> {
    stored.push(rotated(stored.last()))
}

/// What storage took together with `r`, which nothing refuses: in the open segment, or in
/// a new one where that is full.
pub open spec fn recorded(
    stored: Seq<EncoderModel>,
    limits: RecorderLimits,
    r: RecordModel,
) -> Seq<EncoderModel> {
    if plan_of(stored, limits, r) is Rotate {
        with_record(with_next(stored), r)
    } else {
        with_record(stored, r)
    }
}

/// What storage took together with all of these records, one after the other.
pub open spec fn recorded_all(
    stored: Seq<EncoderModel>,
    limits: RecorderLimits,
    records: Seq<RecordModel>,
) -> Seq<EncoderModel>
    decreases records.len(),
{
    if records.len() == 0 {
        stored
    } else {
        recorded(recorded_all(stored, limits, records.drop_last()), limits, records.last())
    }
}

impl StorageModel {
    /// What storage took is a valid recording within the size limit.
    pub open spec fn wf(self) -> bool {
        &&& self.start.valid()
        &&& self.start.records.len() == 0
        &&& self.start.header.segment_index == 0
        &&& self.stored.len() > 0 ==> chained(self.stored)
        &&& self.stored.len() <= u32::MAX
        &&& total_bytes(self.stored) <= self.limits.max_bytes
        &&& self.stored.len() == 0 ==> self.prepared is None && self.mark is None && !self.unsynced
        &&& self.prepared matches Some(r) ==> {
            &&& !self.failed
            &&& chained(with_record(self.stored, r))
            &&& total_bytes(self.stored) + record_bytes(r).len() <= self.limits.max_bytes
        }
        &&& self.torn ==> self.failed
        &&& !self.torn ==> self.disk == chain_bytes(self.stored)
        &&& self.torn ==> {
            &&& self.stored.len() > 0
            &&& self.disk.len() == self.stored.len()
            &&& self.disk.drop_last() == chain_bytes(self.stored).drop_last()
            &&& chain_bytes(self.stored).last().is_prefix_of(self.disk.last())
        }
        &&& self.mark matches Some(m) ==> m == self.segment_len() || (
        self.stored.last().records.len() > 0 && m + record_bytes(
            self.stored.last().records.last(),
        ).len() == self.segment_len())
        &&& sequence_model(self.last_appended) == last_sequence(chain_records(self.confirmed()))
        &&& self.calls.len() == self.stored.len()
        &&& self.durable.len() == self.stored.len()
        &&& self.stored.len() > 0 ==> kept(self.stored.drop_last(), self.durable)
        &&& !self.unsynced ==> self.confirmed() == self.stored
        &&& !self.unsynced ==> kept(self.stored, self.durable)
        &&& !self.unsynced ==> self.synced == self.last_appended
        &&& self.safe.len() > 0 ==> chained(self.safe)
        &&& within(self.safe, self.confirmed())
        &&& kept(self.safe, self.durable)
        &&& sequence_model(self.synced) == last_sequence(chain_records(self.safe))
    }

    /// What storage took, without a record that was appended and not confirmed.
    pub open spec fn confirmed(self) -> Seq<EncoderModel> {
        match self.mark {
            Some(m) if m < self.segment_len() => without_record(self.stored),
            _ => self.stored,
        }
    }

    /// What storage was asked is what it was asked before, and more.
    pub open spec fn grew_from(self, before: StorageModel) -> bool {
        &&& before.calls.len() <= self.calls.len()
        &&& forall|i: int|
            0 <= i < before.calls.len() ==> (#[trigger] before.calls[i]).is_prefix_of(self.calls[i])
        &&& before.requested.is_prefix_of(self.requested)
    }

    /// How often segment `i` was asked.
    pub open spec fn asked(self, i: int) -> nat {
        if 0 <= i < self.calls.len() {
            self.calls[i].len()
        } else {
            0
        }
    }

    /// Since `before`, storage answered a request with this error.
    pub open spec fn answered_since(self, before: StorageModel, kind: ErrorKind) -> bool {
        ||| exists|i: int, j: int|
            0 <= i < self.calls.len() && before.asked(i) <= j < self.calls[i].len() && (
            #[trigger] self.calls[i][j]).error() == Some(kind)
        ||| exists|i: int|
            before.requested.len() <= i < self.requested.len() && (
            #[trigger] self.requested[i]).error == Some(kind)
    }

    /// Ready to append `r`, where nothing refuses it: a full segment is synced and the next
    /// one is published.
    pub open spec fn ready_for(self, r: RecordModel) -> StorageModel {
        if self.plan(r) is Rotate {
            self.after_sync(None).after_publish(rotated(self.stored.last()))
        } else {
            self
        }
    }

    /// Behind handing `r` to storage, which refused it with `error` or took it. What a
    /// refused one left in the open segment is not known.
    pub open spec fn after_append(self, r: RecordModel, error: Option<ErrorKind>) -> StorageModel {
        let asked = StorageModel {
            prepared: None,
            mark: Some(self.segment_len() as u64),
            calls: with_call(
                self.calls,
                FileCall::WriteAll { bytes: record_bytes(r), error },
            ),
            ..self
        };
        match error {
            None => StorageModel {
                stored: with_record(self.stored, r),
                disk: self.disk.drop_last().push(self.disk.last() + record_bytes(r)),
                unsynced: true,
                ..asked
            },
            Some(_) => StorageModel { failed: true, torn: true, ..asked },
        }
    }

    /// `after` is what writing `r` with this result leaves.
    #[verifier::opaque]
    pub open spec fn wrote(
        self,
        r: RecordModel,
        written: Result<(), StopReason>,
        after: StorageModel,
    ) -> bool {
        match written {
            Ok(_) => !(self.plan(r) is Refuse) && after == self.ready_for(r).after_append(r, None),
            Err(reason) => match self.plan(r) {
                Plan::Refuse(refused) => reason == refused && after == self.broken(),
                plan => {
                    &&& reason matches StopReason::WriteFailed(kind) && {
                        ||| plan is Rotate && self.unsynced && after == self.after_sync(
                            Some(kind),
                        ).broken()
                        ||| plan is Rotate && after == self.after_sync(None).refused(
                            rotated(self.stored.last()),
                            kind,
                        )
                        ||| after == (StorageModel {
                            disk: after.disk,
                            ..self.ready_for(r).after_append(r, Some(kind))
                        })
                    }
                },
            },
        }
    }

    /// The bytes of the open segment.
    pub open spec fn segment_len(self) -> nat {
        open_len(self.stored)
    }

    /// `adding` bytes more are within the run's size limit.
    pub open spec fn fits(self, adding: nat) -> bool {
        total_bytes(self.stored) + adding <= self.limits.max_bytes
    }

    /// What preparing `r` comes to before storage is asked.
    pub open spec fn plan(self, r: RecordModel) -> Plan {
        plan_of(self.stored, self.limits, r)
    }

    /// Behind a sync, where anything waits for one, which storage refused with `error` or
    /// did.
    pub open spec fn after_sync(self, error: Option<ErrorKind>) -> StorageModel {
        if !self.unsynced {
            self
        } else {
            let asked = StorageModel {
                calls: with_call(self.calls, FileCall::Sync { error }),
                ..self
            };
            match error {
                None => StorageModel {
                    unsynced: false,
                    synced: self.last_appended,
                    durable: self.durable.drop_last().push(self.disk.last()),
                    safe: self.stored,
                    ..asked
                },
                Some(_) => asked,
            }
        }
    }

    /// Where the store was asked to publish the segment `e`.
    pub open spec fn asked_to_publish(
        self,
        e: EncoderModel,
        error: Option<ErrorKind>,
    ) -> StorageModel {
        StorageModel {
            requested: self.requested.push(
                Publication {
                    index: self.stored.len() as u32,
                    header: header_bytes(e.header),
                    error,
                },
            ),
            ..self
        }
    }

    /// Behind the publication of the segment `e`.
    pub open spec fn after_publish(self, e: EncoderModel) -> StorageModel {
        StorageModel {
            stored: self.stored.push(e),
            disk: self.disk.push(header_bytes(e.header)),
            durable: self.durable.push(header_bytes(e.header)),
            calls: self.calls.push(Seq::empty()),
            mark: None,
            ..self.asked_to_publish(e, None)
        }
    }

    /// Where the store was asked to publish the segment `e` and refused.
    pub open spec fn refused(self, e: EncoderModel, kind: ErrorKind) -> StorageModel {
        self.asked_to_publish(e, Some(kind)).broken()
    }

    /// With no further record to come.
    pub open spec fn broken(self) -> StorageModel {
        StorageModel { failed: true, prepared: None, ..self }
    }

    /// Behind cutting off what was appended last and not confirmed, which storage refused
    /// with `error` or did. Where it was refused, what lies behind the recording in the open
    /// segment is not known.
    pub open spec fn after_cut(self, error: Option<ErrorKind>) -> StorageModel {
        match self.mark {
            Some(m) => StorageModel {
                stored: self.confirmed(),
                disk: chain_bytes(self.confirmed()),
                torn: error is Some,
                mark: None,
                failed: true,
                calls: with_call(self.calls, FileCall::Truncate { len: m, error }),
                ..self
            },
            None => StorageModel { failed: true, ..self },
        }
    }
}

/// The segments `es` are there, segment by segment, at the start of these bytes.
#[verifier::opaque]
pub open spec fn kept(es: Seq<EncoderModel>, bytes: Seq<Seq<u8>>) -> bool {
    &&& es.len() <= bytes.len()
    &&& forall|i: int|
        0 <= i < es.len() ==> (#[trigger] chain_bytes(es)[i]).is_prefix_of(bytes[i])
}

/// The recording `a` is the start of the recording `b`.
#[verifier::opaque]
pub open spec fn within(a: Seq<EncoderModel>, b: Seq<EncoderModel>) -> bool {
    &&& a.len() <= b.len()
    &&& forall|i: int|
        0 <= i < a.len() ==> (#[trigger] chain_bytes(a)[i]).is_prefix_of(chain_bytes(b)[i])
    &&& chain_records(a).is_prefix_of(chain_records(b))
}

proof fn lemma_prefix_step<T>(a: Seq<T>, b: Seq<T>, c: Seq<T>)
    requires
        a.is_prefix_of(b),
        b.is_prefix_of(c),
    ensures
        a.is_prefix_of(c),
{
    assert(a =~= c.subrange(0, a.len() as int)) by {
        assert forall|i: int| 0 <= i < a.len() implies a[i] == c[i] by {
            assert(a[i] == b.subrange(0, a.len() as int)[i]);
            assert(b[i] == c.subrange(0, b.len() as int)[i]);
        }
    }
}

proof fn lemma_prefix_refl<T>(a: Seq<T>, more: Seq<T>)
    ensures
        a.is_prefix_of(a),
        a.is_prefix_of(a + more),
{
    assert(a =~= a.subrange(0, a.len() as int));
    assert(a =~= (a + more).subrange(0, a.len() as int));
}

proof fn lemma_within_refl(a: Seq<EncoderModel>)
    ensures
        within(a, a),
        within(Seq::empty(), a),
{
    reveal(within);
    lemma_prefix_refl(chain_records(a), Seq::empty());
    assert forall|i: int| 0 <= i < a.len() implies (#[trigger] chain_bytes(a)[i]).is_prefix_of(
        chain_bytes(a)[i],
    ) by {
        lemma_prefix_refl(chain_bytes(a)[i], Seq::empty());
    }
    let none = Seq::<EncoderModel>::empty();
    assert(chain_records(none) =~= chain_records(a).subrange(0, 0));
}

proof fn lemma_within_with_record(a: Seq<EncoderModel>, b: Seq<EncoderModel>, r: RecordModel)
    requires
        within(a, b),
        b.len() > 0,
    ensures
        within(a, with_record(b, r)),
{
    reveal(within);
    let more = with_record(b, r);
    lemma_disk_with_record(b, r);
    assert forall|i: int| 0 <= i < a.len() implies (#[trigger] chain_bytes(a)[i]).is_prefix_of(
        chain_bytes(more)[i],
    ) by {
        if i < b.len() - 1 {
            assert(chain_bytes(more)[i] == chain_bytes(b).drop_last()[i]);
        } else {
            lemma_prefix_refl(chain_bytes(b)[i], record_bytes(r));
            lemma_prefix_step(chain_bytes(a)[i], chain_bytes(b)[i], chain_bytes(more)[i]);
        }
    }
    assert(more.drop_last() =~= b.drop_last());
    assert(chain_records(more) =~= chain_records(b) + seq![r]);
    lemma_prefix_refl(chain_records(b), seq![r]);
    lemma_prefix_step(chain_records(a), chain_records(b), chain_records(more));
}

proof fn lemma_within_with_segment(a: Seq<EncoderModel>, b: Seq<EncoderModel>, e: EncoderModel)
    requires
        within(a, b),
        e.records.len() == 0,
    ensures
        within(a, b.push(e)),
{
    reveal(within);
    assert forall|i: int| 0 <= i < a.len() implies (#[trigger] chain_bytes(a)[i]).is_prefix_of(
        chain_bytes(b.push(e))[i],
    ) by {
        assert(chain_bytes(b.push(e))[i] == chain_bytes(b)[i]);
    }
    assert(b.push(e).drop_last() =~= b);
    assert(chain_records(b.push(e)) =~= chain_records(b));
}

/// One more segment, which is there from its start, takes nothing away.
proof fn lemma_kept_push(es: Seq<EncoderModel>, bytes: Seq<Seq<u8>>, e: EncoderModel)
    requires
        kept(es, bytes),
        e.records.len() == 0,
    ensures
        kept(es, bytes.push(header_bytes(e.header))),
        es.len() == bytes.len() ==> kept(es.push(e), bytes.push(header_bytes(e.header))),
{
    reveal(kept);
    let more = bytes.push(header_bytes(e.header));
    lemma_disk_with_segment(es, e);
    lemma_prefix_refl(header_bytes(e.header), Seq::empty());
    assert forall|i: int| 0 <= i < es.len() implies (#[trigger] chain_bytes(es)[i]).is_prefix_of(
        more[i],
    ) by {}
    if es.len() == bytes.len() {
        assert forall|i: int| 0 <= i < es.push(e).len() implies (#[trigger] chain_bytes(
            es.push(e),
        )[i]).is_prefix_of(more[i]) by {
            if i < es.len() {
                assert(chain_bytes(es.push(e))[i] == chain_bytes(es)[i]);
            }
        }
    }
}

/// Where all but the last segment are there, and the last one is there in full now.
proof fn lemma_kept_last(es: Seq<EncoderModel>, bytes: Seq<Seq<u8>>, last: Seq<u8>)
    requires
        es.len() > 0,
        es.len() == bytes.len(),
        kept(es.drop_last(), bytes),
        chain_bytes(es).last().is_prefix_of(last),
    ensures
        kept(es, bytes.drop_last().push(last)),
        kept(es.drop_last(), bytes.drop_last().push(last)),
{
    reveal(kept);
    let more = bytes.drop_last().push(last);
    assert forall|i: int| 0 <= i < es.len() implies (#[trigger] chain_bytes(es)[i]).is_prefix_of(
        more[i],
    ) by {
        if i < es.len() - 1 {
            assert(chain_bytes(es)[i] == chain_bytes(es.drop_last())[i]);
        }
    }
    assert forall|i: int| 0 <= i < es.drop_last().len() implies (#[trigger] chain_bytes(
        es.drop_last(),
    )[i]).is_prefix_of(more[i]) by {
        assert(chain_bytes(es)[i] == chain_bytes(es.drop_last())[i]);
    }
}

/// Cutting the last segment back to `m` bytes leaves a recording there that has no more
/// than that in it.
proof fn lemma_kept_cut(
    es: Seq<EncoderModel>,
    bytes: Seq<Seq<u8>>,
    m: nat,
    last: Seq<u8>,
)
    requires
        kept(es, bytes),
        bytes.len() > 0,
        es.len() == bytes.len() ==> chain_bytes(es).last().len() <= m,
        cut_to(bytes.last(), m).is_prefix_of(last),
    ensures
        kept(es, bytes.drop_last().push(last)),
{
    reveal(kept);
    let more = bytes.drop_last().push(last);
    assert forall|i: int| 0 <= i < es.len() implies (#[trigger] chain_bytes(es)[i]).is_prefix_of(
        more[i],
    ) by {
        if i == bytes.len() - 1 {
            let seg = chain_bytes(es)[i];
            let cut = cut_to(bytes.last(), m);
            assert(seg.is_prefix_of(bytes[i]));
            assert(seg =~= cut.subrange(0, seg.len() as int)) by {
                assert forall|j: int| 0 <= j < seg.len() implies seg[j] == cut[j] by {
                    assert(seg[j] == bytes[i].subrange(0, seg.len() as int)[j]);
                }
            }
            lemma_prefix_step(seg, cut, last);
        }
    }
}

/// What is within a recording has no more in its last segment.
proof fn lemma_within_len(a: Seq<EncoderModel>, b: Seq<EncoderModel>)
    requires
        within(a, b),
        a.len() == b.len(),
        a.len() > 0,
    ensures
        chain_bytes(a).last().len() <= chain_bytes(b).last().len(),
{
    reveal(within);
    let n = a.len() - 1;
    assert(chain_bytes(a)[n].is_prefix_of(chain_bytes(b)[n]));
}

proof fn lemma_record_bytes_positive(h: HeaderModel, c: Option<u64>, rs: Seq<RecordModel>, r: RecordModel)
    requires
        encode_error(h, c, rs, r) is None,
        r.kind.valid(h.input_recorded),
    ensures
        29 <= record_bytes(r).len() <= 65_565,
{
    law_record_round_trip(h, c, rs, r, Seq::empty());
}

/// One record more: the bytes of the last segment grow by those of the record.
proof fn lemma_with_record(es: Seq<EncoderModel>, r: RecordModel)
    requires
        es.len() > 0,
        chained(es),
        encode_error(es.last().header, es.last().carried, es.last().records, r) is None,
        r.kind.valid(es.last().header.input_recorded),
    ensures
        chained(with_record(es, r)),
        segment_bytes(with_record(es, r).last().header, with_record(es, r).last().records)
            == segment_bytes(es.last().header, es.last().records) + record_bytes(r),
        total_bytes(with_record(es, r)) == total_bytes(es) + record_bytes(r).len(),
        chain_records(with_record(es, r)) == chain_records(es).push(r),
{
    reveal(chained);
    let n = es.len() - 1;
    let e = es.last();
    let e2 = EncoderModel { records: e.records.push(r), ..e };
    let es2 = with_record(es, r);
    assert(e2.records.drop_last() =~= e.records);
    assert(es[n].valid());
    assert(e2.valid());
    assert forall|i: int| 0 <= i < es2.len() implies (#[trigger] es2[i]).valid() by {
        if i < n {
            assert(es2[i] == es[i]);
        }
    }
    assert forall|i: int| 0 <= i < es2.len() - 1 implies {
        &&& rotation_error(#[trigger] es2[i]) is None
        &&& es2[i + 1].header == rotated(es2[i]).header
        &&& es2[i + 1].carried == rotated(es2[i]).carried
    } by {
        assert(es2[i] == es[i]);
        assert(rotation_error(es[i]) is None);
    }
    assert(segment_bytes(e2.header, e2.records) =~= segment_bytes(e.header, e.records)
        + record_bytes(r));
    assert(es2.drop_last() =~= es.drop_last());
    assert(chain_records(es2) =~= chain_records(es).push(r));
}

/// One record less is what there was before it.
proof fn lemma_without_record(es: Seq<EncoderModel>)
    requires
        es.len() > 0,
        chained(es),
        es.last().records.len() > 0,
    ensures
        chained(without_record(es)),
        total_bytes(without_record(es)) + record_bytes(es.last().records.last()).len()
            == total_bytes(es),
        segment_bytes(without_record(es).last().header, without_record(es).last().records).len()
            + record_bytes(es.last().records.last()).len() == segment_bytes(
            es.last().header,
            es.last().records,
        ).len(),
        chain_records(es) == chain_records(without_record(es)).push(es.last().records.last()),
{
    reveal(chained);
    let r = es.last().records.last();
    let less = without_record(es);
    let n = es.len() - 1;
    assert(es[n].valid());
    assert forall|i: int| 0 <= i < less.len() implies (#[trigger] less[i]).valid() by {
        if i < n {
            assert(less[i] == es[i]);
        }
    }
    assert forall|i: int| 0 <= i < less.len() - 1 implies {
        &&& rotation_error(#[trigger] less[i]) is None
        &&& less[i + 1].header == rotated(less[i]).header
        &&& less[i + 1].carried == rotated(less[i]).carried
    } by {
        assert(less[i] == es[i]);
        assert(rotation_error(es[i]) is None);
    }
    assert(chained(less));
    lemma_with_record(less, r);
    assert(less.last().records.push(r) =~= es.last().records);
    assert(with_record(less, r) =~= es);
}

/// One segment more.
pub(crate) proof fn lemma_with_segment(es: Seq<EncoderModel>, e: EncoderModel)
    requires
        e.valid(),
        es.len() == 0 ==> e.header.segment_index == 0,
        es.len() > 0 ==> chained(es) && rotation_error(es.last()) is None && e.header == rotated(
            es.last(),
        ).header && e.carried == rotated(es.last()).carried,
        e.records.len() == 0,
    ensures
        chained(es.push(e)),
        total_bytes(es.push(e)) == total_bytes(es) + segment_bytes(e.header, e.records).len(),
        chain_records(es.push(e)) == chain_records(es),
        segment_bytes(e.header, e.records) == header_bytes(e.header),
{
    reveal(chained);
    let es2 = es.push(e);
    assert(es2.drop_last() =~= es);
    assert forall|i: int| 0 <= i < es2.len() implies (#[trigger] es2[i]).valid() by {
        if i < es.len() {
            assert(es2[i] == es[i]);
        }
    }
    assert forall|i: int| 0 <= i < es2.len() - 1 implies {
        &&& rotation_error(#[trigger] es2[i]) is None
        &&& es2[i + 1].header == rotated(es2[i]).header
        &&& es2[i + 1].carried == rotated(es2[i]).carried
    } by {
        assert(es2[i] == es[i]);
    }
    assert(chain_records(es2) =~= chain_records(es));
    assert(segment_bytes(e.header, e.records) =~= header_bytes(e.header));
}

/// The bytes of one segment more.
proof fn lemma_disk_with_segment(es: Seq<EncoderModel>, e: EncoderModel)
    requires
        e.records.len() == 0,
    ensures
        chain_bytes(es.push(e)) == chain_bytes(es).push(header_bytes(e.header)),
{
    assert(segment_bytes(e.header, e.records) =~= header_bytes(e.header));
    assert(chain_bytes(es.push(e)) =~= chain_bytes(es).push(header_bytes(e.header)));
}

/// The bytes of one record more.
proof fn lemma_disk_with_record(es: Seq<EncoderModel>, r: RecordModel)
    requires
        es.len() > 0,
    ensures
        chain_bytes(with_record(es, r)) == chain_bytes(es).drop_last().push(
            chain_bytes(es).last() + record_bytes(r),
        ),
{
    let e = es.last();
    assert(e.records.push(r).drop_last() =~= e.records);
    assert(segment_bytes(e.header, e.records.push(r)) =~= segment_bytes(e.header, e.records)
        + record_bytes(r));
    assert(chain_bytes(with_record(es, r)) =~= chain_bytes(es).drop_last().push(
        chain_bytes(es).last() + record_bytes(r),
    ));
}

/// Cutting the open segment back to the mark leaves exactly what was taken before it.
proof fn lemma_mark(w: StorageModel)
    requires
        w.wf(),
        w.mark is Some,
    ensures
        w.stored.len() > 0,
        w.disk.len() == w.stored.len(),
        w.disk.drop_last() == chain_bytes(w.stored).drop_last(),
        w.mark->0 <= w.disk.last().len(),
        w.mark->0 == w.segment_len() ==> w.disk.drop_last().push(
            w.disk.last().take(w.mark->0 as int),
        ) == chain_bytes(w.stored),
        w.mark->0 < w.segment_len() ==> w.disk.drop_last().push(
            w.disk.last().take(w.mark->0 as int),
        ) == chain_bytes(without_record(w.stored)),
        w.mark->0 <= w.segment_len(),
{
    let m = w.mark->0 as int;
    let all = chain_bytes(w.stored);
    assert(all.last().is_prefix_of(w.disk.last())) by {
        if !w.torn {
            assert(all.last() =~= all.last().subrange(0, all.last().len() as int));
        }
    }
    assert(all.last().len() == w.segment_len());
    assert(w.disk.last().take(m) =~= all.last().take(m));
    if m == w.segment_len() {
        assert(all.last().take(m) =~= all.last());
        assert(w.disk.drop_last().push(all.last()) =~= all);
    } else {
        let less = without_record(w.stored);
        let r = w.stored.last().records.last();
        lemma_disk_with_record(less, r);
        assert(less.last().records.push(r) =~= w.stored.last().records);
        assert(with_record(less, r) =~= w.stored);
        lemma_without_record(w.stored);
        assert(chain_bytes(less).last() =~= all.last().take(m));
        assert(chain_bytes(less).drop_last() =~= all.drop_last());
        assert(w.disk.drop_last().push(all.last().take(m)) =~= chain_bytes(less));
    }
}

/// The storage side of a recorder: encodes records, rotates segments and hands the
/// bytes to storage.
pub struct Writer<S: SegmentStore> {
    limits: RecorderLimits,
    store: S,
    encoder: SegmentEncoder,
    file: Option<S::File>,
    segment_len: u64,
    total_len: u64,
    segments: u32,
    prepared: Option<Vec<u8>>,
    mark: Option<u64>,
    failed: bool,
    last_appended: Option<Sequence>,
    synced: Option<Sequence>,
    unsynced: bool,
    stored: Ghost<Seq<EncoderModel>>,
    /// The bytes of the segments before the open one.
    behind: Ghost<Seq<Seq<u8>>>,
    /// Those of them that are sure to be on stable storage.
    behind_durable: Ghost<Seq<Seq<u8>>>,
    /// What those segments were asked.
    behind_calls: Ghost<Seq<Seq<FileCall>>>,
    safe: Ghost<Seq<EncoderModel>>,
    torn: Ghost<bool>,
    start: Ghost<EncoderModel>,
    ready: Ghost<Option<RecordModel>>,
}

impl<S: SegmentStore> View for Writer<S> {
    type V = StorageModel;

    closed spec fn view(&self) -> StorageModel {
        StorageModel {
            limits: self.limits,
            stored: self.stored@,
            disk: match self.file {
                Some(file) => self.behind@.push(file.content()),
                None => self.behind@,
            },
            torn: self.torn@,
            durable: match self.file {
                Some(file) => self.behind_durable@.push(file.durable()),
                None => self.behind_durable@,
            },
            safe: self.safe@,
            requested: self.store.requested(),
            calls: match self.file {
                Some(file) => self.behind_calls@.push(file.calls()),
                None => self.behind_calls@,
            },
            start: self.start@,
            prepared: self.ready@,
            mark: self.mark,
            failed: self.failed,
            last_appended: self.last_appended,
            synced: self.synced,
            unsynced: self.unsynced,
        }
    }
}

impl<S: SegmentStore> Writer<S> {
    /// The counters tell what storage took, and the encoder has written that and
    /// what is prepared.
    pub closed spec fn wf(&self) -> bool {
        &&& self@.wf()
        &&& self.total_len == total_bytes(self.stored@)
        &&& self.segment_len == self@.segment_len()
        &&& self.segments == self.stored@.len()
        &&& self.file is Some <==> self.stored@.len() > 0
        &&& self.prepared is Some <==> self.ready@ is Some
        &&& self.prepared matches Some(bytes) ==> bytes@ == record_bytes(self.ready@->0)
        &&& !self.failed ==> self.encoder@ == if self.stored@.len() == 0 {
            self.start@
        } else if self.ready@ is Some {
            with_record(self.stored@, self.ready@->0).last()
        } else {
            self.stored@.last()
        }
    }

    /// A writer that has published nothing yet; `encoder` starts segment 0.
    pub fn new(encoder: SegmentEncoder, store: S, limits: RecorderLimits) -> (writer: Writer<S>)
        requires
            encoder@.valid(),
            encoder@.header.segment_index == 0,
            encoder@.records.len() == 0,
        ensures
            writer.wf(),
            writer@ == (StorageModel {
                limits,
                stored: Seq::empty(),
                disk: Seq::empty(),
                torn: false,
                durable: Seq::empty(),
                safe: Seq::empty(),
                requested: store.requested(),
                calls: Seq::empty(),
                start: encoder@,
                prepared: None,
                mark: None,
                failed: false,
                last_appended: None,
                synced: None,
                unsynced: false,
            }),
    {
        let ghost start = encoder@;
        proof {
            assert(chain_bytes(Seq::empty()) =~= Seq::<Seq<u8>>::empty());
            lemma_within_refl(Seq::empty());
            reveal(kept);
        }
        Writer {
            limits,
            store,
            encoder,
            file: None,
            segment_len: 0,
            total_len: 0,
            segments: 0,
            prepared: None,
            mark: None,
            failed: false,
            last_appended: None,
            synced: None,
            unsynced: false,
            stored: Ghost(Seq::empty()),
            behind: Ghost(Seq::empty()),
            behind_durable: Ghost(Seq::empty()),
            behind_calls: Ghost(Seq::empty()),
            safe: Ghost(Seq::empty()),
            torn: Ghost(false),
            start: Ghost(start),
            ready: Ghost(None),
        }
    }

    /// What the writer knows is sound.
    pub proof fn lemma_model(&self)
        requires
            self.wf(),
        ensures
            self@.wf(),
    {
    }

    /// Segments published.
    pub fn segments(&self) -> (segments: u32)
        requires
            self.wf(),
        ensures
            segments == self@.stored.len(),
    {
        self.segments
    }

    /// The last record known to be synced to stable storage.
    pub fn synced(&self) -> (synced: Option<Sequence>)
        ensures
            synced == self@.synced,
    {
        self.synced
    }

    /// Whether appended bytes wait for a sync.
    pub fn is_unsynced(&self) -> (unsynced: bool)
        ensures
            unsynced == self@.unsynced,
    {
        self.unsynced
    }

    /// Whether something went wrong, so that no further record can be prepared.
    pub fn has_failed(&self) -> (failed: bool)
        ensures
            failed == self@.failed,
    {
        self.failed
    }

    /// Whether a record is prepared and waits to be appended.
    pub fn is_prepared(&self) -> (prepared: bool)
        requires
            self.wf(),
        ensures
            prepared == (self@.prepared is Some),
    {
        self.prepared.is_some()
    }

    /// Publishes segment 0.
    pub fn publish_first(&mut self) -> (published: Result<(), StopReason>)
        requires
            old(self).wf(),
            old(self)@.stored.len() == 0,
            !old(self)@.failed,
        ensures
            final(self).wf(),
            if !old(self)@.fits(header_bytes(old(self)@.start.header).len()) {
                published == Err::<(), StopReason>(StopReason::SizeLimit) && final(self)@ == old(self)@.broken()
            } else {
                match published {
                    Ok(_) => final(self)@ == old(self)@.after_publish(old(self)@.start),
                    Err(StopReason::WriteFailed(kind)) => final(self)@ == old(self)@.refused(
                        old(self)@.start,
                        kind,
                    ),
                    Err(_) => false,
                }
            },
    {
        let header = self.encoder.header_bytes();
        let ghost before = self@;
        if !self.check_size(header.len()) {
            self.failed = true;
            return Err(StopReason::SizeLimit);
        }
        match self.store.publish(0, header.as_slice()) {
            Err(kind) => {
                self.failed = true;
                Err(StopReason::WriteFailed(kind))
            },
            Ok(file) => {
                proof {
                    lemma_with_segment(before.stored, before.start);
                    assert(before.stored =~= Seq::empty());
                    lemma_disk_with_segment(before.stored, before.start);
                    assert(before.disk =~= Seq::empty());
                    assert(before.durable =~= Seq::empty());
                    assert(before.stored.push(before.start).drop_last() =~= before.stored);
                    lemma_kept_push(before.stored, before.durable, before.start);
                    lemma_kept_push(before.safe, before.durable, before.start);
                    lemma_within_with_segment(before.safe, before.stored, before.start);
                    assert(file.calls() =~= Seq::empty());
                }
                self.file = Some(file);
                self.segment_len = header.len() as u64;
                self.total_len = header.len() as u64;
                self.segments = 1;
                self.stored = Ghost(self.stored@.push(self.start@));
                Ok(())
            },
        }
    }

    /// Encodes `record`, rotating to a new segment first if the current one is
    /// full, within the run's size limit. Where a segment is published, storage
    /// decides; everything else is decided here.
    pub fn prepare(&mut self, record: &Record) -> (prepared: Result<(), StopReason>)
        requires
            old(self).wf(),
            !old(self)@.failed,
            old(self)@.prepared is None,
            old(self)@.mark is None,
            old(self)@.stored.len() > 0,
            old(self)@.plan(record@) is Rotate ==> old(self)@.stored.len() < u32::MAX,
        ensures
            final(self).wf(),
            match old(self)@.plan(record@) {
                Plan::Refuse(reason) => prepared == Err::<(), StopReason>(reason) && final(self)@
                    == old(self)@.broken(),
                Plan::Append => prepared is Ok && final(self)@ == (StorageModel {
                    prepared: Some(record@),
                    mark: None,
                    ..old(self)@
                }),
                Plan::Rotate => match prepared {
                    Ok(_) => final(self)@ == (StorageModel {
                        prepared: Some(record@),
                        ..old(self)@.after_sync(None).after_publish(
                            rotated(old(self)@.stored.last()),
                        )
                    }),
                    Err(StopReason::WriteFailed(kind)) => {
                        ||| old(self)@.unsynced && final(self)@ == old(self)@.after_sync(
                            Some(kind),
                        ).broken()
                        ||| final(self)@ == old(self)@.after_sync(None).refused(
                            rotated(old(self)@.stored.last()),
                            kind,
                        )
                    },
                    Err(_) => false,
                },
            },
    {
        if self.segment_len >= self.limits.segment_bytes {
            if let Ok(next) = self.encoder.next_segment() {
                return self.prepare_rotated(record, next);
            }
        }
        let ghost before = self@;
        let ghost open = self.encoder@;
        let bytes = match self.encoder.encode(record) {
            Ok(bytes) => bytes,
            Err(_) => {
                self.failed = true;
                return Err(StopReason::WriteFailed(ErrorKind::InvalidData));
            },
        };
        if !self.check_size(bytes.len()) {
            self.failed = true;
            return Err(StopReason::SizeLimit);
        }
        proof {
            let rs = open.records.push(record@);
            assert(rs.drop_last() =~= open.records);
            lemma_with_record(before.stored, record@);
        }
        self.mark = None;
        self.prepared = Some(bytes);
        self.ready = Ghost(Some(record@));
        Ok(())
    }

    /// Whether one more record can be prepared: there is room for another segment, or the
    /// open one is not full.
    pub fn can_take(&self) -> (can: bool)
        requires
            self.wf(),
        ensures
            can == (self@.stored.len() < u32::MAX || self@.segment_len()
                < self@.limits.segment_bytes),
            can ==> forall|r: RecordModel| #[trigger]
                self@.plan(r) is Rotate ==> self@.stored.len() < u32::MAX,
    {
        self.segments < u32::MAX || self.segment_len < self.limits.segment_bytes
    }

    /// Whether `adding` bytes more are within the run's size limit.
    fn check_size(&self, adding: usize) -> (fits: bool)
        requires
            self.total_len == total_bytes(self@.stored),
        ensures
            fits == self@.fits(adding as nat),
    {
        let adding: u64 = adding as u64;
        adding <= self.limits.max_bytes && self.total_len <= self.limits.max_bytes - adding
    }

    /// Prepares `record` as the first of the segment that `next` starts.
    fn prepare_rotated(&mut self, record: &Record, next: SegmentEncoder) -> (prepared: Result<
        (),
        StopReason,
    >)
        requires
            old(self).wf(),
            !old(self)@.failed,
            old(self)@.prepared is None,
            old(self)@.mark is None,
            old(self)@.stored.len() > 0,
            old(self)@.plan(record@) is Rotate ==> old(self)@.stored.len() < u32::MAX,
            rotation_error(old(self)@.stored.last()) is None,
            old(self)@.segment_len() >= old(self)@.limits.segment_bytes,
            next@ == rotated(old(self)@.stored.last()),
            next@.valid(),
        ensures
            final(self).wf(),
            match old(self)@.plan(record@) {
                Plan::Refuse(reason) => prepared == Err::<(), StopReason>(reason) && final(self)@
                    == old(self)@.broken(),
                Plan::Append => false,
                Plan::Rotate => match prepared {
                    Ok(_) => final(self)@ == (StorageModel {
                        prepared: Some(record@),
                        ..old(self)@.after_sync(None).after_publish(
                            rotated(old(self)@.stored.last()),
                        )
                    }),
                    Err(StopReason::WriteFailed(kind)) => {
                        ||| old(self)@.unsynced && final(self)@ == old(self)@.after_sync(
                            Some(kind),
                        ).broken()
                        ||| final(self)@ == old(self)@.after_sync(None).refused(
                            rotated(old(self)@.stored.last()),
                            kind,
                        )
                    },
                    Err(_) => false,
                },
            },
    {
        let ghost before = self@;
        let ghost start = next@;
        let mut next = next;
        let header = next.header_bytes();
        let bytes = match next.encode(record) {
            Ok(bytes) => bytes,
            Err(_) => {
                self.failed = true;
                return Err(StopReason::WriteFailed(ErrorKind::InvalidData));
            },
        };
        proof {
            let rs = start.records.push(record@);
            assert(rs.drop_last() =~= start.records);
            lemma_rotated(before.stored, record@);
        }
        if !self.check_size(header.len() + bytes.len()) {
            self.failed = true;
            return Err(StopReason::SizeLimit);
        }
        if let Err(reason) = self.sync() {
            self.failed = true;
            return Err(reason);
        }
        self.publish_rotated(next, header, bytes, Ghost(record@))
    }

    /// Publishes the segment that `next` started with one record.
    fn publish_rotated(
        &mut self,
        next: SegmentEncoder,
        header: Vec<u8>,
        bytes: Vec<u8>,
        Ghost(r): Ghost<RecordModel>,
    ) -> (published: Result<(), StopReason>)
        requires
            old(self).wf(),
            !old(self)@.failed,
            old(self)@.prepared is None,
            old(self)@.mark is None,
            !old(self)@.unsynced,
            0 < old(self)@.stored.len() < u32::MAX,
            ({
                let start = rotated(old(self)@.stored.last());
                let more = old(self)@.stored.push(start);
                &&& next@ == with_record(more, r).last()
                &&& next@.header == start.header
                &&& start.header.segment_index == old(self)@.stored.len()
                &&& header@ == segment_bytes(start.header, start.records)
                &&& header@ == header_bytes(start.header)
                &&& bytes@ == record_bytes(r)
                &&& chained(more)
                &&& chained(with_record(more, r))
                &&& total_bytes(more) == total_bytes(old(self)@.stored) + header@.len()
                &&& total_bytes(more) + bytes@.len() <= old(self)@.limits.max_bytes
            }),
        ensures
            final(self).wf(),
            match published {
                Ok(_) => final(self)@ == (StorageModel {
                    prepared: Some(r),
                    ..old(self)@.after_publish(rotated(old(self)@.stored.last()))
                }),
                Err(StopReason::WriteFailed(kind)) => final(self)@ == old(self)@.refused(
                    rotated(old(self)@.stored.last()),
                    kind,
                ),
                Err(_) => false,
            },
    {
        let ghost start = rotated(self@.stored.last());
        let ghost before = self@;
        let index: u32 = next.header().segment_index;
        match self.store.publish(index, header.as_slice()) {
            Err(kind) => {
                self.failed = true;
                Err(StopReason::WriteFailed(kind))
            },
            Ok(file) => {
                proof {
                    lemma_disk_with_segment(before.stored, start);
                    assert(before.stored.push(start).drop_last() =~= before.stored);
                    lemma_kept_push(before.stored, before.durable, start);
                    lemma_kept_push(before.safe, before.durable, start);
                    lemma_within_with_segment(before.safe, before.stored, start);
                    lemma_empty_segment_adds_no_records(before.stored, start);
                    assert(file.calls() =~= Seq::empty());
                }
                self.behind = Ghost(before.disk);
                self.behind_durable = Ghost(before.durable);
                self.behind_calls = Ghost(before.calls);
                self.file = Some(file);
                self.segment_len = header.len() as u64;
                self.total_len = self.total_len + header.len() as u64;
                self.segments = index + 1;
                self.encoder = next;
                self.mark = None;
                self.stored = Ghost(self.stored@.push(start));
                self.prepared = Some(bytes);
                self.ready = Ghost(Some(r));
                Ok(())
            },
        }
    }

    /// Hands the prepared record to storage.
    pub fn append(&mut self) -> (appended: Result<(), StopReason>)
        requires
            old(self).wf(),
            old(self)@.prepared is Some,
            old(self)@.mark is None,
        ensures
            final(self).wf(),
            match appended {
                Ok(_) => final(self)@ == old(self)@.after_append(old(self)@.prepared->0, None),
                Err(StopReason::WriteFailed(kind)) => final(self)@ == (StorageModel {
                    disk: final(self)@.disk,
                    ..old(self)@.after_append(old(self)@.prepared->0, Some(kind))
                }),
                Err(_) => false,
            },
    {
        let ghost before = self@;
        let ghost r = self.ready@->0;
        let bytes = self.prepared.take().unwrap();
        let mut file = self.file.take().unwrap();
        let ghost content = file.content();
        proof {
            assert(before.disk == self.behind@.push(content));
            assert(before.disk.drop_last() =~= self.behind@);
        }
        let result = file.write_all(bytes.as_slice());
        let ghost longer = file.content();
        assert(self.behind_calls@.push(file.calls()) =~= with_call(
            before.calls,
            FileCall::WriteAll { bytes: bytes@, error: error_of(result) },
        ));
        self.file = Some(file);
        self.mark = Some(self.segment_len);
        self.ready = Ghost(None);
        match result {
            Err(kind) => {
                self.failed = true;
                self.torn = Ghost(true);
                proof {
                    assert(self@.disk == self.behind@.push(longer));
                    assert(self@.disk.drop_last() =~= chain_bytes(self@.stored).drop_last());
                    assert(self@.durable == before.durable);
                }
                Err(StopReason::WriteFailed(kind))
            },
            Ok(()) => {
                proof {
                    lemma_disk_with_record(before.stored, r);
                    assert(self@.disk =~= self.behind@.push(content + record_bytes(r)));
                    lemma_prepared(before.stored, r);
                    lemma_with_record(before.stored, r);
                    lemma_unconfirmed(before.stored, r);
                    assert(with_record(before.stored, r).drop_last() =~= before.stored.drop_last());
                }
                self.segment_len = self.segment_len + bytes.len() as u64;
                self.total_len = self.total_len + bytes.len() as u64;
                self.unsynced = true;
                self.stored = Ghost(with_record(self.stored@, r));
                proof {
                    assert(self@.durable =~= before.durable);
                }
                Ok(())
            },
        }
    }

    /// Prepares a record and hands it to storage. What storage took grows by exactly
    /// that record, or by none; a refused record leaves nothing to cut off but what
    /// storage may have taken of it.
    pub fn write(&mut self, record: &Record) -> (written: Result<(), StopReason>)
        requires
            old(self).wf(),
            !old(self)@.failed,
            old(self)@.prepared is None,
            old(self)@.mark is None,
            old(self)@.stored.len() > 0,
            old(self)@.plan(record@) is Rotate ==> old(self)@.stored.len() < u32::MAX,
        ensures
            final(self).wf(),
            old(self)@.wrote(record@, written, final(self)@),
            final(self)@.prepared is None,
            final(self)@.limits == old(self)@.limits,
            final(self)@.last_appended == old(self)@.last_appended,
            final(self)@.failed == (written is Err),
            final(self)@.grew_from(old(self)@),
            match written {
                Ok(_) => {
                    &&& !(old(self)@.plan(record@) is Refuse)
                    &&& chain_records(final(self)@.stored) == chain_records(
                        old(self)@.stored,
                    ).push(record@)
                    &&& 0 < final(self)@.stored.len() <= old(self)@.stored.len() + 1
                    &&& final(self)@.stored == recorded(
                        old(self)@.stored,
                        old(self)@.limits,
                        record@,
                    )
                    &&& final(self)@.unsynced && !final(self)@.torn
                    &&& final(self)@.synced == if old(self)@.plan(record@) is Rotate {
                        old(self)@.last_appended
                    } else {
                        old(self)@.synced
                    }
                },
                Err(reason) => {
                    &&& chain_records(final(self)@.stored) == chain_records(old(self)@.stored)
                    &&& 0 < final(self)@.stored.len() <= old(self)@.stored.len() + 1
                    &&& final(self)@.mark matches Some(m) ==> m == final(self)@.segment_len()
                    &&& final(self)@.stored == old(self)@.stored || (old(self)@.plan(
                        record@,
                    ) is Rotate && final(self)@.stored == with_next(old(self)@.stored))
                    &&& final(self)@.synced == old(self)@.synced || (old(self)@.plan(
                        record@,
                    ) is Rotate && final(self)@.synced == old(self)@.last_appended)
                    &&& match old(self)@.plan(record@) {
                        Plan::Refuse(refused) => reason == refused && final(self)@ == old(
                            self)@.broken(),
                        _ => reason matches StopReason::WriteFailed(kind) && final(
                            self)@.answered_since(old(self)@, kind),
                    }
                },
            },
    {
        let ghost before = self@;
        let prepared = self.prepare(record);
        let ghost mid = self@;
        proof {
            reveal(StorageModel::wrote);
            lemma_prepare_keeps_records(before, mid);
        }
        proof {
            lemma_prepare_grew(before, mid, record@, prepared);
        }
        if let Err(reason) = prepared {
            return Err(reason);
        }
        let result = self.append();
        proof {
            let error = match result {
                Err(StopReason::WriteFailed(kind)) => Some(kind),
                _ => None,
            };
            lemma_call_grew(
                mid,
                self@,
                FileCall::WriteAll { bytes: record_bytes(record@), error },
            );
            lemma_grew_further(before, mid, self@);
            if result is Ok {
                lemma_prepared(mid.stored, record@);
                lemma_with_record(mid.stored, record@);
            }
        }
        result
    }

    /// The record that was appended last is part of the recording: it is not cut off
    /// any more.
    pub fn confirm(&mut self, sequence: Sequence)
        requires
            old(self).wf(),
            old(self)@.unsynced,
            !old(self)@.torn,
            last_sequence(chain_records(old(self)@.stored)) == Some(sequence@),
        ensures
            final(self).wf(),
            final(self)@ == (StorageModel {
                last_appended: Some(sequence),
                mark: None,
                ..old(self)@
            }),
    {
        proof {
            lemma_confirmed(self@);
        }
        self.mark = None;
        self.last_appended = Some(sequence);
    }

    /// Removes whatever an append beyond the recorded boundary left behind, and
    /// takes no further record. Best effort: a segment that cannot be cut back
    /// ends in bytes past the declared boundary, which the stop report already
    /// excludes.
    pub fn cut_back(&mut self)
        requires
            old(self).wf(),
            old(self)@.prepared is None,
        ensures
            final(self).wf(),
            exists|error: Option<ErrorKind>|
                final(self)@ == (StorageModel {
                    disk: if error is None || old(self)@.mark is None {
                        (#[trigger] old(self)@.after_cut(error)).disk
                    } else {
                        final(self)@.disk
                    },
                    durable: if old(self)@.mark is None {
                        old(self)@.durable
                    } else {
                        final(self)@.durable
                    },
                    ..old(self)@.after_cut(error)
                }),
    {
        let ghost before = self@;
        self.failed = true;
        if let Some(len) = self.mark {
            let mut file = self.file.take().unwrap();
            let ghost content = file.content();
            let ghost durable = file.durable();
            proof {
                assert(before.disk == self.behind@.push(content));
                assert(before.disk.drop_last() =~= self.behind@);
                assert(before.disk.last() == content);
                assert(before.durable == self.behind_durable@.push(durable));
                assert(before.durable.drop_last() =~= self.behind_durable@);
                assert(before.durable.last() == durable);
                lemma_mark(before);
                lemma_confirmed(before);
            }
            let cut = file.truncate(len);
            let ghost left = file.content();
            let ghost sure = file.durable();
            assert(self.behind_calls@.push(file.calls()) =~= with_call(
                before.calls,
                FileCall::Truncate { len, error: error_of(cut) },
            ));
            self.file = Some(file);
            self.mark = None;
            self.torn = Ghost(cut is Err);
            assert(self@.disk == self.behind@.push(left));
            assert(self@.disk.drop_last() =~= self.behind@);
            assert(self@.durable == self.behind_durable@.push(sure));
            if len < self.segment_len {
                proof {
                    lemma_without_record(before.stored);
                }
                self.total_len = self.total_len - (self.segment_len - len);
                self.segment_len = len;
                self.stored = Ghost(without_record(self.stored@));
            }
            proof {
                let rest = before.confirmed();
                assert(self@.stored == rest);
                assert(rest.drop_last() =~= before.stored.drop_last());
                if before.safe.len() == rest.len() {
                    lemma_within_len(before.safe, rest);
                }
                lemma_kept_cut(before.safe, before.durable, len as nat, sure);
                lemma_kept_cut(rest.drop_last(), before.durable, len as nat, sure);
                if !before.unsynced {
                    lemma_kept_cut(rest, before.durable, len as nat, sure);
                }
                if cut is Ok {
                    assert(self@.disk =~= chain_bytes(rest));
                } else {
                    assert(content.take(len as int) == chain_bytes(rest).last());
                    assert(chain_bytes(rest).drop_last() =~= before.disk.drop_last());
                }
                assert(self@ == (StorageModel {
                    disk: self@.disk,
                    durable: self@.durable,
                    ..before.after_cut(error_of(cut))
                }));
            }
        } else {
            let ghost error: Option<ErrorKind> = None;
            assert(self@ == before.after_cut(error));
        }
    }

    /// Syncs appended bytes, if there are any that were not.
    pub fn sync(&mut self) -> (synced: Result<(), StopReason>)
        requires
            old(self).wf(),
            old(self)@.mark is None,
        ensures
            final(self).wf(),
            !old(self)@.unsynced ==> synced is Ok,
            match synced {
                Ok(_) => final(self)@ == old(self)@.after_sync(None),
                Err(StopReason::WriteFailed(kind)) => final(self)@ == old(self)@.after_sync(
                    Some(kind),
                ),
                Err(_) => false,
            },
    {
        if !self.unsynced {
            return Ok(());
        }
        let ghost before = self@;
        let mut file = self.file.take().unwrap();
        let ghost sure = file.durable();
        let result = file.sync();
        let ghost content = file.content();
        proof {
            assert(self.behind_calls@.push(file.calls()) =~= with_call(
                before.calls,
                FileCall::Sync { error: error_of(result) },
            ));
            assert(before.disk == self.behind@.push(content));
            assert(before.disk.last() == content);
            assert(before.durable == self.behind_durable@.push(sure));
            assert(before.durable.drop_last() =~= self.behind_durable@);
            if !before.torn {
                lemma_prefix_refl(chain_bytes(before.stored).last(), Seq::empty());
            }
            lemma_kept_last(before.stored, before.durable, content);
            lemma_within_refl(before.stored);
        }
        self.file = Some(file);
        assert(self@.disk == before.disk);
        match result {
            Err(kind) => {
                assert(self@.durable == before.durable);
                assert(self@ == before.after_sync(Some(kind)));
                Err(StopReason::WriteFailed(kind))
            },
            Ok(()) => {
                self.unsynced = false;
                self.synced = self.last_appended;
                self.safe = Ghost(self.stored@);
                proof {
                    assert(self@.durable =~= before.durable.drop_last().push(before.disk.last()));
                    assert(self@ == before.after_sync(None));
                }
                Ok(())
            },
        }
    }
}

/// A record that was appended and not confirmed is what the recording does not hold yet.
proof fn lemma_unconfirmed(es: Seq<EncoderModel>, r: RecordModel)
    requires
        es.len() > 0,
        chained(es),
        encode_error(es.last().header, es.last().carried, es.last().records, r) is None,
        r.kind.valid(es.last().header.input_recorded),
    ensures
        without_record(with_record(es, r)) == es,
        open_len(es) < open_len(with_record(es, r)),
{
    lemma_with_record(es, r);
    lemma_record_bytes_positive(es.last().header, es.last().carried, es.last().records, r);
    let more = with_record(es, r);
    assert(more.last().records.drop_last() =~= es.last().records);
    assert(without_record(more) =~= es);
}

/// Confirming what was appended: all of what storage took is the recording.
proof fn lemma_confirmed(w: StorageModel)
    requires
        w.wf(),
    ensures
        within(w.safe, w.stored),
        w.mark matches Some(m) ==> m <= w.segment_len() && chained(w.confirmed())
            && w.confirmed().len() == w.stored.len() && open_len(w.confirmed()) == m
            && total_bytes(w.confirmed()) <= total_bytes(w.stored),
{
    if let Some(m) = w.mark {
        if m < w.segment_len() {
            let less = without_record(w.stored);
            let r = w.stored.last().records.last();
            lemma_without_record(w.stored);
            assert(less.last().records.push(r) =~= w.stored.last().records);
            assert(with_record(less, r) =~= w.stored);
            lemma_within_with_record(w.safe, less, r);
        }
    }
}

/// Where storage was asked nothing.
pub(crate) proof fn lemma_unasked(before: StorageModel, after: StorageModel)
    requires
        after.calls == before.calls,
        after.requested == before.requested,
    ensures
        after.grew_from(before),
{
    lemma_prefix_refl(before.requested, Seq::empty());
    assert forall|i: int| 0 <= i < before.calls.len() implies (
    #[trigger] before.calls[i]).is_prefix_of(after.calls[i]) by {
        lemma_prefix_refl(before.calls[i], Seq::empty());
    }
}

/// Where the open segment was asked one thing more.
pub(crate) proof fn lemma_call_grew(before: StorageModel, after: StorageModel, call: FileCall)
    requires
        before.calls.len() > 0,
        after.calls == with_call(before.calls, call),
        after.requested == before.requested,
    ensures
        after.grew_from(before),
        call.error() matches Some(kind) ==> after.answered_since(before, kind),
{
    let last = before.calls.len() - 1;
    lemma_prefix_refl(before.requested, Seq::empty());
    assert forall|i: int| 0 <= i < before.calls.len() implies (
    #[trigger] before.calls[i]).is_prefix_of(after.calls[i]) by {
        if i == last {
            lemma_prefix_refl(before.calls[i], seq![call]);
            assert(before.calls[i] + seq![call] =~= after.calls[i]);
        } else {
            lemma_prefix_refl(before.calls[i], Seq::empty());
        }
    }
    assert(after.calls[last][before.asked(last) as int] == call);
}

/// Where the store was asked to publish a segment.
proof fn lemma_publish_grew(before: StorageModel, e: EncoderModel)
    ensures
        before.after_publish(e).grew_from(before),
        forall|kind: ErrorKind|
            (#[trigger] before.refused(e, kind)).grew_from(before) && before.refused(
                e,
                kind,
            ).answered_since(before, kind),
{
    let published = before.after_publish(e);
    lemma_unasked(before, before);
    lemma_prefix_refl(before.requested, seq![published.requested.last()]);
    assert(before.requested + seq![published.requested.last()] =~= published.requested);
    assert forall|kind: ErrorKind|
        (#[trigger] before.refused(e, kind)).grew_from(before) && before.refused(
            e,
            kind,
        ).answered_since(before, kind) by {
        let refused = before.refused(e, kind);
        let asked = refused.requested.last();
        lemma_prefix_refl(before.requested, seq![asked]);
        assert(before.requested + seq![asked] =~= refused.requested);
        assert(refused.requested[before.requested.len() as int].error == Some(kind));
    }
}

/// Preparing a record asks storage for more where it rotates, and fails with what storage
/// answered.
proof fn lemma_prepare_grew(
    before: StorageModel,
    mid: StorageModel,
    r: RecordModel,
    prepared: Result<(), StopReason>,
)
    requires
        before.wf(),
        before.stored.len() > 0,
        match before.plan(r) {
            Plan::Refuse(_) => mid == before.broken(),
            Plan::Append => prepared is Ok && mid == (StorageModel {
                prepared: Some(r),
                mark: None,
                ..before
            }),
            Plan::Rotate => match prepared {
                Ok(_) => mid == (StorageModel {
                    prepared: Some(r),
                    ..before.after_sync(None).after_publish(rotated(before.stored.last()))
                }),
                Err(StopReason::WriteFailed(kind)) => {
                    ||| before.unsynced && mid == before.after_sync(Some(kind)).broken()
                    ||| mid == before.after_sync(None).refused(rotated(before.stored.last()), kind)
                },
                Err(_) => false,
            },
        },
    ensures
        mid.grew_from(before),
        !(before.plan(r) is Refuse) ==> (prepared matches Err(reason) ==> (
        reason matches StopReason::WriteFailed(kind) && mid.answered_since(before, kind))),
{
    if !(before.plan(r) is Rotate) {
        lemma_unasked(before, mid);
    } else {
        let synced = before.after_sync(None);
        let e = rotated(before.stored.last());
        if before.unsynced {
            lemma_call_grew(before, synced, FileCall::Sync { error: None });
        } else {
            lemma_unasked(before, synced);
        }
        lemma_publish_grew(synced, e);
        match prepared {
            Ok(_) => {
                let published = synced.after_publish(e);
                lemma_unasked(published, mid);
                lemma_grew_further(before, synced, published);
                lemma_grew_further(before, published, mid);
            },
            Err(reason) => {
                let kind = reason->WriteFailed_0;
                if before.unsynced && mid == before.after_sync(Some(kind)).broken() {
                    lemma_call_grew(before, mid, FileCall::Sync { error: Some(kind) });
                } else {
                    lemma_grew_further(before, synced, mid);
                }
            },
        }
    }
}

/// What was answered since a later state was answered since an earlier one, and what was
/// answered by then stays answered.
pub(crate) proof fn lemma_grew_further(
    before: StorageModel,
    mid: StorageModel,
    after: StorageModel,
)
    requires
        mid.grew_from(before),
        after.grew_from(mid),
    ensures
        after.grew_from(before),
        forall|kind: ErrorKind| #[trigger]
            after.answered_since(mid, kind) ==> after.answered_since(before, kind),
        forall|kind: ErrorKind| #[trigger]
            mid.answered_since(before, kind) ==> after.answered_since(before, kind),
{
    lemma_prefix_step(before.requested, mid.requested, after.requested);
    assert forall|i: int| 0 <= i < before.calls.len() implies (
    #[trigger] before.calls[i]).is_prefix_of(after.calls[i]) by {
        assert(mid.calls[i].is_prefix_of(after.calls[i]));
        lemma_prefix_step(before.calls[i], mid.calls[i], after.calls[i]);
    }
    assert forall|kind: ErrorKind| #[trigger] after.answered_since(mid, kind) implies
        after.answered_since(before, kind) by {
        if exists|i: int, j: int|
            0 <= i < after.calls.len() && mid.asked(i) <= j < after.calls[i].len() && (
            #[trigger] after.calls[i][j]).error() == Some(kind) {
            let (i, j) = choose|i: int, j: int|
                0 <= i < after.calls.len() && mid.asked(i) <= j < after.calls[i].len() && (
                #[trigger] after.calls[i][j]).error() == Some(kind);
            if i < before.calls.len() {
                assert(before.calls[i].is_prefix_of(mid.calls[i]));
            }
            assert(before.asked(i) <= mid.asked(i));
            assert(after.calls[i][j].error() == Some(kind));
        }
    }
    assert forall|kind: ErrorKind| #[trigger] mid.answered_since(before, kind) implies
        after.answered_since(before, kind) by {
        if exists|i: int, j: int|
            0 <= i < mid.calls.len() && before.asked(i) <= j < mid.calls[i].len() && (
            #[trigger] mid.calls[i][j]).error() == Some(kind) {
            let (i, j) = choose|i: int, j: int|
                0 <= i < mid.calls.len() && before.asked(i) <= j < mid.calls[i].len() && (
                #[trigger] mid.calls[i][j]).error() == Some(kind);
            assert(mid.calls[i].is_prefix_of(after.calls[i]));
            assert(after.calls[i].subrange(0, mid.calls[i].len() as int)[j] == after.calls[i][j]);
            assert(after.calls[i][j].error() == Some(kind));
        } else {
            let i = choose|i: int|
                before.requested.len() <= i < mid.requested.len() && (
                #[trigger] mid.requested[i]).error == Some(kind);
            assert(after.requested.subrange(0, mid.requested.len() as int)[i]
                == after.requested[i]);
            assert(after.requested[i].error == Some(kind));
        }
    }
}

/// A segment without records adds none.
proof fn lemma_empty_segment_adds_no_records(es: Seq<EncoderModel>, e: EncoderModel)
    requires
        e.records.len() == 0,
    ensures
        chain_records(es.push(e)) == chain_records(es),
{
    assert(es.push(e).drop_last() =~= es);
    assert(chain_records(es.push(e)) =~= chain_records(es));
}

/// Preparing a record, which may publish a segment, adds no record to what storage
/// took.
proof fn lemma_prepare_keeps_records(before: StorageModel, mid: StorageModel)
    requires
        before.wf(),
        before.stored.len() > 0,
        mid.wf(),
        mid.stored == before.stored || (mid.stored == before.stored.push(
            rotated(before.stored.last()),
        ) && rotation_error(before.stored.last()) is None),
    ensures
        chain_records(mid.stored) == chain_records(before.stored),
        mid.stored.len() <= before.stored.len() + 1,
{
    reveal(chained);
    if mid.stored != before.stored {
        let start = rotated(before.stored.last());
        assert(mid.stored[before.stored.len() as int].valid());
        lemma_with_segment(before.stored, start);
    }
}

/// A new segment with one record.
proof fn lemma_rotated(es: Seq<EncoderModel>, r: RecordModel)
    requires
        0 < es.len() <= u32::MAX,
        chained(es),
        rotation_error(es.last()) is None,
        rotated(es.last()).valid(),
        encode_error(
            rotated(es.last()).header,
            rotated(es.last()).carried,
            Seq::empty(),
            r,
        ) is None,
        r.kind.valid(es.last().header.input_recorded),
    ensures
        ({
            let start = rotated(es.last());
            let more = es.push(start);
            &&& start.header.segment_index == es.len()
            &&& header_bytes(start.header).len() <= 316
            &&& 29 <= record_bytes(r).len() <= 65_565
            &&& segment_bytes(start.header, seq![r]) == header_bytes(start.header) + record_bytes(r)
            &&& segment_bytes(start.header, start.records) == header_bytes(start.header)
            &&& chained(more)
            &&& total_bytes(more) == total_bytes(es) + header_bytes(start.header).len()
            &&& chained(with_record(more, r))
            &&& with_record(more, r).last() == (EncoderModel {
                records: start.records.push(r),
                ..start
            })
        }),
{
    let start = rotated(es.last());
    let more = es.push(start);
    lemma_chain_constants(es, es.len() - 1);
    lemma_with_segment(es, start);
    lemma_record_bytes_positive(start.header, start.carried, start.records, r);
    law_header_round_trip(start.header, Seq::empty());
    reveal_with_fuel(records_bytes, 2);
    assert(seq![r].drop_last() =~= Seq::empty());
    assert(segment_bytes(start.header, seq![r]) =~= header_bytes(start.header) + record_bytes(r));
    lemma_with_record(more, r);
}

/// The record that makes a chain longer was one that its last segment accepts.
proof fn lemma_prepared(es: Seq<EncoderModel>, r: RecordModel)
    requires
        es.len() > 0,
        chained(es),
        chained(with_record(es, r)),
    ensures
        encode_error(es.last().header, es.last().carried, es.last().records, r) is None,
        r.kind.valid(es.last().header.input_recorded),
{
    reveal(chained);
    let last = with_record(es, r).last();
    assert(with_record(es, r)[es.len() - 1].valid());
    assert(last.records.drop_last() =~= es.last().records);
}

// Segment files.

/// The name of segment `index`: `seg-<index:08>.tndrrec`.
pub open spec fn segment_name_of(index: u32) -> Seq<char> {
    "seg-"@ + digits(index as nat, 10, if decimal_len(index as nat) > 8 {
        decimal_len(index as nat)
    } else {
        8
    }) + ".tndrrec"@
}

/// The name of the file that holds segment `index`.
pub fn segment_name(index: u32) -> (name: String)
    ensures
        name@ == segment_name_of(index),
{
    let width: usize = decimal_width(index as u64);
    let mut name = String::new();
    name.append("seg-");
    push_digits(
        &mut name,
        index as u64,
        10,
        if width > 8 {
            width
        } else {
            8
        },
    );
    name.append(".tndrrec");
    assert(name@ =~= segment_name_of(index));
    name
}

/// A decimal digit.
pub open spec fn is_decimal(c: char) -> bool {
    '0' <= c <= '9'
}

/// The name of a published segment: eight digits between the prefix and the
/// suffix.
pub open spec fn is_segment_name_of(name: Seq<char>) -> bool {
    exists|middle: Seq<char>|
        {
            &&& middle.len() == 8
            &&& forall|i: int| 0 <= i < 8 ==> is_decimal(#[trigger] middle[i])
            &&& name == #[trigger] ("seg-"@ + middle + ".tndrrec"@)
        }
}

/// Whether a file holds a published segment.
pub fn is_segment_name(name: &str) -> (yes: bool)
    ensures
        yes == is_segment_name_of(name@),
{
    proof {
        reveal_strlit("seg-");
        reveal_strlit(".tndrrec");
    }
    if name.unicode_len() != 20 {
        proof {
            assert forall|middle: Seq<char>|
                middle.len() == 8 implies name@ != #[trigger] ("seg-"@ + middle + ".tndrrec"@) by {
                assert(("seg-"@ + middle + ".tndrrec"@).len() == 20);
            }
        }
        return false;
    }
    let ghost middle = name@.subrange(4, 12);
    let prefix = name.substring_char(0, 4);
    let suffix = name.substring_char(12, 20);
    let framed = same_text(prefix, "seg-") && same_text(suffix, ".tndrrec");
    let mut numbered = true;
    let mut i: usize = 4;
    while i < 12
        invariant
            4 <= i <= 12,
            name@.len() == 20,
            middle == name@.subrange(4, 12),
            numbered == (forall|j: int| 0 <= j < i - 4 ==> is_decimal(#[trigger] middle[j])),
        decreases 12 - i,
    {
        let c: char = name.get_char(i);
        assert(middle[i - 4] == c);
        if !('0' <= c && c <= '9') {
            numbered = false;
        }
        i = i + 1;
    }
    proof {
        assert(name@ =~= prefix@ + middle + suffix@);
        if framed && numbered {
            assert(name@ == "seg-"@ + middle + ".tndrrec"@);
        }
        if is_segment_name_of(name@) {
            let m = choose|m: Seq<char>|
                {
                    &&& m.len() == 8
                    &&& forall|i: int| 0 <= i < 8 ==> is_decimal(#[trigger] m[i])
                    &&& name@ == #[trigger] ("seg-"@ + m + ".tndrrec"@)
                };
            assert(m =~= middle);
            assert(prefix@ =~= "seg-"@);
            assert(suffix@ =~= ".tndrrec"@);
        }
    }
    framed && numbered
}

/// A published segment is found again by its name, as long as eight digits name
/// it.
pub proof fn law_segment_names_are_recognised(index: u32)
    requires
        index < 100_000_000,
    ensures
        is_segment_name_of(segment_name_of(index)),
{
    reveal_with_fuel(decimal_len, 10);
    let middle = digits(index as nat, 10, 8);
    lemma_digits_len(index as nat, 10, 8);
    lemma_digits_decimal(index as nat, 8);
    assert(segment_name_of(index) == "seg-"@ + middle + ".tndrrec"@);
}

proof fn lemma_digits_decimal(value: nat, n: nat)
    ensures
        forall|i: int|
            0 <= i < digits(value, 10, n).len() ==> is_decimal(#[trigger] digits(value, 10, n)[i]),
    decreases n,
{
    if n > 0 {
        lemma_digits_decimal(value / 10, (n - 1) as nat);
        lemma_digits_len(value / 10, 10, (n - 1) as nat);
        let head = digits(value / 10, 10, (n - 1) as nat);
        assert forall|i: int| 0 <= i < digits(value, 10, n).len() implies is_decimal(
            #[trigger] digits(value, 10, n)[i],
        ) by {
            if i < head.len() {
                assert(digits(value, 10, n)[i] == head[i]);
            }
        }
    }
}

// What holds of what storage took.

/// The bytes in storage decode to exactly the records that were appended, and are never
/// more than the size limit, unless an append failed and could not be cut off.
pub proof fn law_stored_recording_decodes(w: StorageModel)
    requires
        w.wf(),
        w.stored.len() > 0,
        !w.torn,
    ensures
        w.disk == chain_bytes(w.stored),
        parse_recording(w.disk) == Ok::<RecordingModel, ErrorModel>(
            RecordingModel {
                header: w.stored[0].header,
                segment_count: w.stored.len(),
                records: chain_records(w.stored),
                end: SegmentEnd::Clean,
            },
        ),
        total_bytes(w.stored) <= w.limits.max_bytes,
{
    law_recording_round_trip(w.stored);
}

/// What is called synced is on stable storage: the bytes that are sure to be there hold,
/// segment by segment, a recording that decodes, whose last record is the one that is
/// called synced, and which is the start of the recording that was appended. Nothing is
/// excluded, neither a failed append nor one that could not be cut off.
pub proof fn law_synced_is_on_stable_storage(w: StorageModel)
    requires
        w.wf(),
    ensures
        sequence_model(w.synced) == last_sequence(chain_records(w.safe)),
        kept(w.safe, w.durable),
        chain_records(w.safe).is_prefix_of(chain_records(w.stored)),
        w.safe.len() > 0 ==> parse_recording(chain_bytes(w.safe)) == Ok::<
            RecordingModel,
            ErrorModel,
        >(
            RecordingModel {
                header: w.safe[0].header,
                segment_count: w.safe.len(),
                records: chain_records(w.safe),
                end: SegmentEnd::Clean,
            },
        ),
{
    lemma_confirmed(w);
    reveal(within);
    if w.safe.len() > 0 {
        law_recording_round_trip(w.safe);
    }
}

/// An append adds its record to the recording, behind all the others; an append
/// that turns out to lie beyond the end of the recording leaves, once it is cut
/// off, exactly what was there before it.
pub proof fn law_late_append_is_cut_off(w: StorageModel, appended: StorageModel)
    requires
        w.wf(),
        w.stored.len() > 0,
        w.prepared is Some,
        appended.wf(),
        appended.stored == with_record(w.stored, w.prepared->0),
        appended.mark == Some(w.segment_len() as u64),
        appended.limits == w.limits,
    ensures
        chain_records(appended.stored) == chain_records(w.stored).push(w.prepared->0),
        appended.after_cut(None).stored == w.stored,
        appended.after_cut(None).disk == chain_bytes(w.stored),
{
    let r = w.prepared->0;
    lemma_prepared(w.stored, r);
    lemma_with_record(w.stored, r);
    lemma_record_bytes_positive(
        w.stored.last().header,
        w.stored.last().carried,
        w.stored.last().records,
        r,
    );
    assert(w.segment_len() <= total_bytes(w.stored));
    assert(appended.stored.last().records.drop_last() =~= w.stored.last().records);
    assert(without_record(appended.stored) =~= w.stored);
}

// What each operation does, in terms of what it was given and what it gave back.

/// How many bytes there are in all.
pub open spec fn bytes_in_all(disk: Seq<Seq<u8>>) -> nat
    decreases disk.len(),
{
    if disk.len() == 0 {
        0
    } else {
        bytes_in_all(disk.drop_last()) + disk.last().len()
    }
}

/// What counts towards the size limit is every byte of every segment.
proof fn lemma_every_byte_counts(es: Seq<EncoderModel>)
    ensures
        bytes_in_all(chain_bytes(es)) == total_bytes(es),
    decreases es.len(),
{
    if es.len() > 0 {
        lemma_every_byte_counts(es.drop_last());
        assert(chain_bytes(es).drop_last() =~= chain_bytes(es.drop_last()));
    }
}

/// The first segment is published where its header is within the size limit: the store is
/// asked once, for segment zero with that header, and the segment then holds the header and
/// nothing else. Where it is not, the store is not asked, and the recording stops for its
/// size; where the store refuses, it stops with the store's error.
pub proof fn law_first_segment_is_published<S: SegmentStore>(
    writer: &mut Writer<S>,
    published: Result<(), StopReason>,
)
    requires
        old(writer).wf(),
        old(writer)@.stored.len() == 0,
        !old(writer)@.failed,
        call_ensures(Writer::<S>::publish_first, (writer,), published),
    ensures
        ({
            let header = header_bytes(old(writer)@.start.header);
            let before = old(writer)@.requested;
            let after = final(writer)@.requested;
            if header.len() > old(writer)@.limits.max_bytes {
                published == Err::<(), StopReason>(StopReason::SizeLimit) && after == before
            } else {
                &&& after.len() == before.len() + 1
                &&& after.drop_last() =~= before
                &&& after.last().index == 0
                &&& after.last().header == header
                &&& published is Ok <==> after.last().error is None
                &&& published matches Err(reason) ==> reason == StopReason::WriteFailed(
                    after.last().error->0,
                )
            }
        }),
        final(writer)@.failed <==> published is Err,
        published is Ok ==> final(writer)@.disk =~= seq![
            header_bytes(old(writer)@.start.header),
        ] && final(writer)@.durable =~= final(writer)@.disk && chain_records(
            final(writer)@.stored,
        ).len() == 0,
        published is Err ==> final(writer)@.disk == old(writer)@.disk && final(writer)@.stored.len() == 0,
        final(writer)@.synced is None <==> old(writer)@.synced is None,
{
    old(writer).lemma_model();
    final(writer).lemma_model();
    assert(final(writer)@.requested.drop_last() =~= old(writer)@.requested || final(writer)@.requested == old(writer)@.requested);
    if published is Ok {
        let stored = final(writer)@.stored;
        assert(stored =~= seq![old(writer)@.start]);
        assert(stored.drop_last() =~= Seq::<EncoderModel>::empty());
        assert(chain_records(stored) =~= chain_records(stored.drop_last())
            + stored.last().records);
        assert(old(writer)@.disk =~= Seq::<Seq<u8>>::empty());
        assert(old(writer)@.durable =~= Seq::<Seq<u8>>::empty());
    }
}

/// Preparing a record decides what becomes of it. A full segment, one with at least as many
/// bytes as a segment may have, is synced and followed by a new one, where it can be
/// followed; otherwise nothing is asked of storage. A record that breaks the rules is
/// refused as invalid; one with which the recording would be larger than it may be, the new
/// header counted where there is one, is refused for its size. Nothing that was recorded
/// changes.
#[verifier::rlimit(40)]
pub proof fn law_prepared_record_has_room<S: SegmentStore>(
    writer: &mut Writer<S>,
    record: Record,
    prepared: Result<(), StopReason>,
)
    requires
        old(writer).wf(),
        !old(writer)@.failed,
        old(writer)@.prepared is None,
        old(writer)@.mark is None,
        old(writer)@.stored.len() > 0,
        old(writer)@.plan(record@) is Rotate ==> old(writer)@.stored.len() < u32::MAX,
        call_ensures(Writer::<S>::prepare, (writer, &record), prepared),
    ensures
        ({
            let w = old(writer)@;
            let open = w.stored.last();
            let full = w.disk.last().len() >= w.limits.segment_bytes && open.records.len() > 0
                && open.header.first_sequence + open.records.len() <= u64::MAX
                && open.header.segment_index < u32::MAX;
            let next = rotated(open);
            let invalid = if full {
                encode_error(next.header, next.carried, Seq::empty(), record@) is Some
            } else {
                encode_error(open.header, open.carried, open.records, record@) is Some
            };
            let adding = record_bytes(record@).len() + if full {
                header_bytes(next.header).len()
            } else {
                0
            };
            &&& invalid ==> prepared == Err::<(), StopReason>(
                StopReason::WriteFailed(ErrorKind::InvalidData),
            )
            &&& !invalid && bytes_in_all(w.disk) + adding > w.limits.max_bytes ==> prepared
                == Err::<(), StopReason>(StopReason::SizeLimit)
            &&& prepared == Err::<(), StopReason>(StopReason::SizeLimit) ==> bytes_in_all(w.disk)
                + adding > w.limits.max_bytes
            &&& !full && !invalid && bytes_in_all(w.disk) + adding <= w.limits.max_bytes
                ==> prepared is Ok
            &&& !full ==> final(writer)@.requested == w.requested && final(writer)@.calls == w.calls
                && final(writer)@.disk == w.disk
            &&& prepared is Ok && full ==> {
                &&& final(writer)@.requested =~= w.requested.push(
                    Publication {
                        index: w.stored.len() as u32,
                        header: header_bytes(next.header),
                        error: None,
                    },
                )
                &&& final(writer)@.disk =~= w.disk.push(header_bytes(next.header))
                &&& !final(writer)@.unsynced
                &&& final(writer)@.synced == w.last_appended
            }
            &&& prepared is Ok <==> !final(writer)@.failed
            &&& prepared is Ok ==> final(writer)@.prepared == Some(record@)
            &&& prepared is Err ==> final(writer)@.prepared is None
        }),
        chain_records(final(writer)@.stored) == chain_records(old(writer)@.stored),
{
    old(writer).lemma_model();
    final(writer).lemma_model();
    let w = old(writer)@;
    let next = rotated(w.stored.last());
    lemma_every_byte_counts(w.stored);
    assert(w.disk.last() == segment_bytes(w.stored.last().header, w.stored.last().records));
    assert(records_bytes(seq![record@]) =~= record_bytes(record@)) by {
        assert(seq![record@].drop_last() =~= Seq::<RecordModel>::empty());
        assert(records_bytes(Seq::empty()) =~= Seq::<u8>::empty());
    }
    assert(segment_bytes(next.header, seq![record@]).len() == header_bytes(next.header).len()
        + record_bytes(record@).len());
    let more = with_next(w.stored);
    assert(more.drop_last() =~= w.stored);
    assert(chain_records(more) =~= chain_records(w.stored)) by {
        assert(more.last().records =~= Seq::<RecordModel>::empty());
        assert(chain_records(more) == chain_records(more.drop_last()) + more.last().records);
    }
}

/// An append asks storage once, to write exactly the bytes of the record that was prepared.
/// Where storage takes them, they stand at the end of the open segment, the record is the
/// last of the recording, and it waits for a sync. Where it does not, the recording stops
/// with storage's error, and is what it was.
#[verifier::rlimit(40)]
pub proof fn law_append_writes_the_prepared_record<S: SegmentStore>(
    writer: &mut Writer<S>,
    appended: Result<(), StopReason>,
)
    requires
        old(writer).wf(),
        old(writer)@.prepared is Some,
        old(writer)@.mark is None,
        call_ensures(Writer::<S>::append, (writer,), appended),
    ensures
        ({
            let w = old(writer)@;
            let r = w.prepared->0;
            let asked = final(writer)@.calls.last();
            &&& final(writer)@.prepared is None
            &&& final(writer)@.calls.len() == w.calls.len()
            &&& final(writer)@.calls.drop_last() =~= w.calls.drop_last()
            &&& asked.len() == w.calls.last().len() + 1
            &&& asked.drop_last() =~= w.calls.last()
            &&& asked.last() matches FileCall::WriteAll { bytes, error } && bytes == record_bytes(r)
                && (appended is Ok <==> error is None) && (appended matches Err(reason) ==> reason
                == StopReason::WriteFailed(error->0))
            &&& final(writer)@.mark == Some(w.disk.last().len() as u64)
            &&& final(writer)@.last_appended == w.last_appended
            &&& final(writer)@.synced == w.synced
            &&& appended is Ok ==> {
                &&& final(writer)@.disk.last() == w.disk.last() + record_bytes(r)
                &&& final(writer)@.disk.drop_last() =~= w.disk.drop_last()
                &&& chain_records(final(writer)@.stored) == chain_records(w.stored).push(r)
                &&& final(writer)@.unsynced
                &&& !final(writer)@.failed
            }
            &&& appended is Err ==> {
                &&& chain_records(final(writer)@.stored) == chain_records(w.stored)
                &&& final(writer)@.failed
            }
        }),
{
    old(writer).lemma_model();
    final(writer).lemma_model();
    let w = old(writer)@;
    let r = w.prepared->0;
    let asked = final(writer)@.calls;
    assert(asked.drop_last() =~= w.calls.drop_last());
    assert(asked.last().drop_last() =~= w.calls.last());
    assert(w.disk.last() == segment_bytes(w.stored.last().header, w.stored.last().records));
    if appended is Ok {
        let more = with_record(w.stored, r);
        assert(more.drop_last() =~= w.stored.drop_last());
        assert(more.last().records == w.stored.last().records.push(r));
        assert(chain_records(more) == chain_records(more.drop_last()) + more.last().records);
        assert(chain_records(more) =~= chain_records(w.stored).push(r));
        assert(final(writer)@.disk.drop_last() =~= w.disk.drop_last());
    }
}

/// A sync asks storage exactly where something waits for one, and once. Where it is done,
/// all of the open segment is on stable storage, the last record that was confirmed is the
/// one that is known to be synced, and nothing waits any more. Where it is not, the error is
/// storage's, and everything waits as before.
pub proof fn law_sync_makes_what_waits_durable<S: SegmentStore>(
    writer: &mut Writer<S>,
    synced: Result<(), StopReason>,
)
    requires
        old(writer).wf(),
        old(writer)@.mark is None,
        call_ensures(Writer::<S>::sync, (writer,), synced),
    ensures
        ({
            let w = old(writer)@;
            let after = final(writer)@;
            &&& after.disk == w.disk && after.stored == w.stored && after.prepared == w.prepared
            &&& after.last_appended == w.last_appended
            &&& after.requested == w.requested
            &&& !w.unsynced ==> synced is Ok && after == w
            &&& w.unsynced ==> {
                &&& after.calls.len() == w.calls.len()
                &&& after.calls.drop_last() =~= w.calls.drop_last()
                &&& after.calls.last().drop_last() =~= w.calls.last()
                &&& after.calls.last().len() == w.calls.last().len() + 1
                &&& after.calls.last().last() matches FileCall::Sync { error } && (synced is Ok
                    <==> error is None) && (synced matches Err(reason) ==> reason
                    == StopReason::WriteFailed(error->0))
                &&& synced is Ok ==> !after.unsynced && after.synced == w.last_appended
                    && after.durable.last() == w.disk.last()
                &&& synced is Err ==> after.unsynced && after.synced == w.synced && after.durable
                    == w.durable
            }
        }),
{
    old(writer).lemma_model();
    let w = old(writer)@;
    let after = final(writer)@;
    if w.unsynced {
        assert(after.calls.drop_last() =~= w.calls.drop_last());
        assert(after.calls.last().drop_last() =~= w.calls.last());
    }
}

/// A record that is confirmed is the last of the recording, and is not cut off any more.
/// Nothing else changes.
pub proof fn law_confirmed_record_stays<S: SegmentStore>(
    writer: &mut Writer<S>,
    sequence: Sequence,
)
    requires
        old(writer).wf(),
        old(writer)@.unsynced,
        !old(writer)@.torn,
        last_sequence(chain_records(old(writer)@.stored)) == Some(sequence@),
        call_ensures(Writer::<S>::confirm, (writer, sequence), ()),
    ensures
        final(writer)@.last_appended == Some(sequence),
        final(writer)@.mark is None,
        final(writer)@.stored == old(writer)@.stored,
        final(writer)@.disk == old(writer)@.disk,
        final(writer)@.synced == old(writer)@.synced,
        final(writer)@.unsynced,
        final(writer)@.calls == old(writer)@.calls,
        final(writer)@.failed == old(writer)@.failed,
{
}

/// Cutting back asks storage, where something was appended and not confirmed, once: to cut
/// the open segment to the length that it had before. The recording is then what was
/// confirmed, and takes no further record. Where nothing was, storage is not asked and the
/// recording stays as it is.
#[verifier::rlimit(40)]
pub proof fn law_cut_back_to_what_was_confirmed<S: SegmentStore>(writer: &mut Writer<S>)
    requires
        old(writer).wf(),
        old(writer)@.prepared is None,
        call_ensures(Writer::<S>::cut_back, (writer,), ()),
    ensures
        ({
            let w = old(writer)@;
            let after = final(writer)@;
            &&& after.failed
            &&& after.mark is None
            &&& after.synced == w.synced && after.last_appended == w.last_appended
            &&& after.requested == w.requested
            &&& w.mark is None ==> after.calls == w.calls && after.disk == w.disk && after.stored
                == w.stored
            &&& w.mark matches Some(m) ==> {
                &&& after.calls.len() == w.calls.len()
                &&& after.calls.drop_last() =~= w.calls.drop_last()
                &&& after.calls.last().drop_last() =~= w.calls.last()
                &&& after.calls.last().len() == w.calls.last().len() + 1
                &&& after.calls.last().last() matches FileCall::Truncate { len, error } && len == m
                    && (error is None ==> !after.torn && after.disk.last().len() == m)
                &&& sequence_model(w.last_appended) == last_sequence(chain_records(after.stored))
            }
        }),
{
    old(writer).lemma_model();
    final(writer).lemma_model();
    let w = old(writer)@;
    let after = final(writer)@;
    let error = choose|error: Option<ErrorKind>|
        after == (StorageModel {
            disk: if error is None || w.mark is None {
                (#[trigger] w.after_cut(error)).disk
            } else {
                after.disk
            },
            durable: if w.mark is None {
                w.durable
            } else {
                after.durable
            },
            ..w.after_cut(error)
        });
    if let Some(m) = w.mark {
        assert(after.calls.drop_last() =~= w.calls.drop_last());
        assert(after.calls.last().drop_last() =~= w.calls.last());
        let kept = w.confirmed();
        let open = w.stored.last();
        if m < w.segment_len() {
            assert(records_bytes(open.records) == records_bytes(open.records.drop_last())
                + record_bytes(open.records.last()));
            assert(kept.last().records == open.records.drop_last());
            assert(kept.last().header == open.header);
        }
        assert(open_len(kept) == m);
        assert(chain_bytes(kept).last() == segment_bytes(kept.last().header, kept.last().records));
    }
}

/// Writing a record records it, exactly once and behind all the others, or leaves the
/// recording with the records that it had, and stops it. It waits for a sync then, and no
/// record was confirmed by it.
pub proof fn law_written_record_is_recorded<S: SegmentStore>(
    writer: &mut Writer<S>,
    record: Record,
    written: Result<(), StopReason>,
)
    requires
        old(writer).wf(),
        !old(writer)@.failed,
        old(writer)@.prepared is None,
        old(writer)@.mark is None,
        old(writer)@.stored.len() > 0,
        old(writer)@.plan(record@) is Rotate ==> old(writer)@.stored.len() < u32::MAX,
        call_ensures(Writer::<S>::write, (writer, &record), written),
    ensures
        ({
            let w = old(writer)@;
            let after = final(writer)@;
            let full = w.disk.last().len() >= w.limits.segment_bytes && rotation_error(
                w.stored.last(),
            ) is None;
            &&& written is Ok ==> {
                &&& chain_records(after.stored) == chain_records(w.stored).push(record@)
                &&& after.stored.len() == w.stored.len() + if full {
                    1int
                } else {
                    0
                }
                &&& bytes_in_all(after.disk) <= w.limits.max_bytes
                &&& after.unsynced
            }
            &&& written is Err ==> chain_records(after.stored) == chain_records(w.stored)
            &&& written is Err <==> after.failed
            &&& after.last_appended == w.last_appended
            &&& after.prepared is None
        }),
{
    old(writer).lemma_model();
    final(writer).lemma_model();
    lemma_every_byte_counts(final(writer)@.stored);
    let w = old(writer)@;
    assert(w.disk.last() == segment_bytes(w.stored.last().header, w.stored.last().records));
}

/// There is room for a record of another segment while segments can be numbered, and in
/// the open one while it is not full. The writer tells how far it has come as it is.
pub proof fn law_writer_tells_how_far_it_is<S: SegmentStore>(
    writer: Writer<S>,
    can: bool,
    segments: u32,
    synced: Option<Sequence>,
    unsynced: bool,
    failed: bool,
    prepared: bool,
)
    requires
        writer.wf(),
        call_ensures(Writer::<S>::can_take, (&writer,), can),
        call_ensures(Writer::<S>::segments, (&writer,), segments),
        call_ensures(Writer::<S>::synced, (&writer,), synced),
        call_ensures(Writer::<S>::is_unsynced, (&writer,), unsynced),
        call_ensures(Writer::<S>::has_failed, (&writer,), failed),
        call_ensures(Writer::<S>::is_prepared, (&writer,), prepared),
    ensures
        segments == writer@.disk.len(),
        can <==> (segments < u32::MAX || open_len(writer@.stored) < writer@.limits.segment_bytes),
        synced == writer@.synced,
        unsynced == writer@.unsynced,
        failed == writer@.failed,
        prepared <==> writer@.prepared is Some,
        !unsynced ==> synced == writer@.last_appended,
{
    writer.lemma_model();
}

/// A new writer has published and recorded nothing, asked nothing, and is to start with the
/// encoder's segment.
pub proof fn law_new_writer_has_stored_nothing<S: SegmentStore>(
    encoder: SegmentEncoder,
    store: S,
    limits: RecorderLimits,
    writer: Writer<S>,
)
    requires
        encoder@.valid(),
        encoder@.header.segment_index == 0,
        encoder@.records.len() == 0,
        call_ensures(Writer::<S>::new, (encoder, store, limits), writer),
    ensures
        writer@.disk.len() == 0 && writer@.stored.len() == 0 && writer@.calls.len() == 0,
        writer@.requested == store.requested(),
        writer@.limits == limits,
        writer@.start == encoder@,
        !writer@.failed && !writer@.torn && !writer@.unsynced,
        writer@.prepared is None && writer@.mark is None,
        writer@.synced is None && writer@.last_appended is None,
{
}

/// A segment's file is named by its number, in at least eight decimal digits. No two
/// segments have one name, and a name is one exactly where eight digits stand between the
/// two parts that all names have.
pub proof fn law_segment_files_are_named_by_number(
    index: u32,
    name: String,
    other: &str,
    yes: bool,
)
    requires
        call_ensures(segment_name, (index,), name),
        call_ensures(is_segment_name, (other,), yes),
    ensures
        index < 100_000_000 ==> name@.len() == 20,
        "seg-"@.is_prefix_of(name@),
        yes ==> other@.len() == 20,
        yes <==> other@.len() == 20 && other@.take(4) == "seg-"@ && other@.skip(12)
            == ".tndrrec"@ && forall|i: int|
            4 <= i < 12 ==> '0' <= (#[trigger] other@[i]) <= '9',
        other@ == name@ && index < 100_000_000 ==> yes,
{
    reveal_strlit("seg-");
    reveal_strlit(".tndrrec");
    let n = if decimal_len(index as nat) > 8 {
        decimal_len(index as nat)
    } else {
        8
    };
    crate::text::lemma_digits_len(index as nat, 10, n);
    assert("seg-"@ =~= name@.take(4));
    if index < 100_000_000 {
        law_segment_names_are_recognised(index);
        let middle = choose|middle: Seq<char>|
            {
                &&& middle.len() == 8
                &&& forall|i: int| 0 <= i < 8 ==> is_decimal(#[trigger] middle[i])
                &&& name@ == #[trigger] ("seg-"@ + middle + ".tndrrec"@)
            };
    }
    if yes {
        let middle = choose|middle: Seq<char>|
            {
                &&& middle.len() == 8
                &&& forall|i: int| 0 <= i < 8 ==> is_decimal(#[trigger] middle[i])
                &&& other@ == #[trigger] ("seg-"@ + middle + ".tndrrec"@)
            };
        assert(other@.take(4) =~= "seg-"@);
        assert(other@.skip(12) =~= ".tndrrec"@);
        assert forall|i: int| 4 <= i < 12 implies '0' <= (#[trigger] other@[i]) <= '9' by {
            assert(other@[i] == middle[i - 4]);
        }
    }
    if other@.len() == 20 && other@.take(4) == "seg-"@ && other@.skip(12) == ".tndrrec"@
        && forall|i: int| 4 <= i < 12 ==> '0' <= (#[trigger] other@[i]) <= '9' {
        let middle = other@.subrange(4, 12);
        assert forall|i: int| 0 <= i < 8 implies is_decimal(#[trigger] middle[i]) by {
            assert(middle[i] == other@[i + 4]);
        }
        assert(other@ =~= "seg-"@ + middle + ".tndrrec"@);
    }
}

} // verus!
