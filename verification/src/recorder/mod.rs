//! The sidecar's exact PTY recorder.
//!
//! Capture offers output bytes and the input writer offers applied window
//! sizes through a [`Recorder`], which assigns each record its sequence and
//! places it in a byte-bounded backlog without waiting for storage. A [`Writer`]
//! takes the records one by one, encodes them with [`SegmentEncoder`], rotates
//! segments, and hands the bytes to a [`SegmentStore`]. The two meet under one
//! lock: the writer's owner takes a record, lets the writer work without the
//! lock, and settles the result.
//!
//! Recording ends explicitly, never silently. Reaching the size limit, a write
//! or sync failure, a full backlog, or storage still stalled at close stops it
//! at the last completed append: [`Stopped`] carries that sequence and the
//! reason, an append that completes after the stop is cut off again, and each
//! operation that stops the recording hands the stop out once, to be reported.
//! The recorded process and its viewers are unaffected.

pub mod storage;
pub mod thread;

use crate::io_error::ErrorKind;
use crate::recording::format::{KindModel, RecordModel};
use crate::recording::{
    record_models, sequence_model, Geometry, Record, RecordKind, ResizeCause, Sequence, MAX_PAYLOAD,
};
use std::collections::VecDeque;
use vstd::prelude::*;
use vstd::slice::{slice_subrange, slice_to_vec};
pub use crate::recorder::storage::{SegmentFile, SegmentStore, Writer};
pub use crate::recorder::thread::RecorderThread;

verus! {

/// Rotate to a new segment once the current one reaches this size.
pub const DEFAULT_SEGMENT_BYTES: u64 = 67_108_864;

/// Stop recording rather than let a run's segments exceed this.
pub const DEFAULT_MAX_BYTES: u64 = 1_073_741_824;

/// Stop recording if this many payload bytes are waiting for storage.
pub const DEFAULT_BACKLOG_BYTES: usize = 16_777_216;

/// How long closing waits for storage before declaring it stalled, in
/// milliseconds.
pub const DEFAULT_CLOSE_TIMEOUT: u64 = 5_000;

/// Longest interval between syncs while records are being appended, in
/// milliseconds.
pub const SYNC_INTERVAL: u64 = 1_000;

/// What the writer does about syncing while nothing is queued.
#[derive(Clone, Copy, Debug, PartialEq, Eq, Structural)]
pub enum SyncStep {
    /// Nothing waits for a sync: wait for the next record.
    Wait,
    /// Wait for the next record at most this many milliseconds.
    WaitAtMost(u64),
    /// Sync now.
    Sync,
}

/// What the writer does about syncing `since_sync_ms` milliseconds after the last sync.
pub fn sync_step(unsynced: bool, since_sync_ms: u64) -> (step: SyncStep)
    ensures
        step == (if !unsynced {
            SyncStep::Wait
        } else if since_sync_ms >= SYNC_INTERVAL {
            SyncStep::Sync
        } else {
            SyncStep::WaitAtMost((SYNC_INTERVAL - since_sync_ms) as u64)
        }),
{
    if !unsynced {
        SyncStep::Wait
    } else if since_sync_ms >= SYNC_INTERVAL {
        SyncStep::Sync
    } else {
        SyncStep::WaitAtMost(SYNC_INTERVAL - since_sync_ms)
    }
}

/// Backlog cost of a resize record, which carries no payload bytes.
pub const RESIZE_COST: usize = 16;

/// Limits for one run's recording.
#[derive(Clone, Copy, Debug, PartialEq, Eq, Structural)]
pub struct RecorderLimits {
    pub segment_bytes: u64,
    /// Every segment byte counts, headers included.
    pub max_bytes: u64,
    pub backlog_bytes: usize,
    /// Milliseconds.
    pub close_timeout: u64,
}

impl Default for RecorderLimits {
    fn default() -> (limits: RecorderLimits)
        ensures
            limits == (RecorderLimits {
                segment_bytes: DEFAULT_SEGMENT_BYTES,
                max_bytes: DEFAULT_MAX_BYTES,
                backlog_bytes: DEFAULT_BACKLOG_BYTES,
                close_timeout: DEFAULT_CLOSE_TIMEOUT,
            }),
    {
        RecorderLimits {
            segment_bytes: DEFAULT_SEGMENT_BYTES,
            max_bytes: DEFAULT_MAX_BYTES,
            backlog_bytes: DEFAULT_BACKLOG_BYTES,
            close_timeout: DEFAULT_CLOSE_TIMEOUT,
        }
    }
}

/// Why recording stopped before the run ended.
#[derive(Clone, Copy, Debug, PartialEq, Eq, Structural)]
pub enum StopReason {
    /// The next record would have taken the run past [`RecorderLimits::max_bytes`].
    SizeLimit,
    /// Storage rejected a write, sync, or segment publication.
    WriteFailed(ErrorKind),
    /// Storage fell [`RecorderLimits::backlog_bytes`] behind.
    BacklogFull,
    /// Storage had not finished when the recording closed.
    Stalled,
}

impl StopReason {
    pub open spec fn text(self) -> Seq<char> {
        match self {
            StopReason::SizeLimit => "size_limit"@,
            StopReason::WriteFailed(_) => "write_failed"@,
            StopReason::BacklogFull => "backlog_full"@,
            StopReason::Stalled => "stalled"@,
        }
    }

    /// Stable name for events, metadata, and warnings.
    pub fn as_str(&self) -> (name: &'static str)
        ensures
            name@ == self.text(),
    {
        match self {
            StopReason::SizeLimit => "size_limit",
            StopReason::WriteFailed(_) => "write_failed",
            StopReason::BacklogFull => "backlog_full",
            StopReason::Stalled => "stalled",
        }
    }
}

/// A record that the encoder refused; the sequencer never produces one.
pub open spec fn invalid_record() -> StopReason {
    StopReason::WriteFailed(ErrorKind::InvalidData)
}

/// Recording ended early.
#[derive(Clone, Copy, Debug, PartialEq, Eq)]
pub struct Stopped {
    /// The last record appended before the stop; nothing later is recorded.
    pub last_recorded: Option<Sequence>,
    pub reason: StopReason,
}

/// How a recording ended.
#[derive(Clone, Copy, Debug, PartialEq, Eq)]
pub struct RecorderSummary {
    /// The last record appended.
    pub last_recorded: Option<Sequence>,
    /// The last record known to be synced to stable storage.
    pub last_synced: Option<Sequence>,
    /// `Some` if recording stopped before the run ended.
    pub stopped: Option<Stopped>,
    /// Segments published.
    pub segments: u32,
}

// The sequencer.

/// Backlog cost of a record.
pub open spec fn cost_of(kind: KindModel) -> nat {
    match kind {
        KindModel::Output(bytes) => bytes.len(),
        KindModel::Input(bytes) => bytes.len(),
        KindModel::Resize { .. } => RESIZE_COST as nat,
    }
}

pub open spec fn backlog_cost(records: Seq<RecordModel>) -> nat
    decreases records.len(),
{
    if records.len() == 0 {
        0
    } else {
        backlog_cost(records.drop_last()) + cost_of(records.last().kind)
    }
}

/// What the sequencer knows.
pub struct RecorderModel {
    pub limits: RecorderLimits,
    /// The sequence the next record takes; `None` once exhausted.
    pub next: Option<u64>,
    pub backlog: Seq<RecordModel>,
    pub accepting: bool,
    /// The last record whose append completed before any stop.
    pub appended: Option<Sequence>,
    pub synced: Option<Sequence>,
    pub segments: u32,
    pub stopped: Option<Stopped>,
    pub writer_done: bool,
}

/// The sequence behind `sequence`.
pub open spec fn following(sequence: u64) -> Option<u64> {
    if sequence < u64::MAX {
        Some((sequence + 1) as u64)
    } else {
        None
    }
}

impl RecorderModel {
    /// The backlog fits, is empty once stopped, and holds consecutive sequences up
    /// to the next one. A stop names the last record that was appended.
    pub open spec fn wf(self) -> bool {
        &&& backlog_cost(self.backlog) <= self.limits.backlog_bytes
        &&& self.stopped is Some ==> self.backlog.len() == 0
        &&& self.stopped matches Some(stop) ==> stop.last_recorded == self.appended
        &&& forall|i: int|
            0 <= i < self.backlog.len() - 1 ==> following((#[trigger] self.backlog[i]).sequence)
                == Some(self.backlog[i + 1].sequence)
        &&& self.backlog.len() > 0 ==> following(self.backlog.last().sequence) == self.next
    }

    /// The recording ended at the last completed append; the first stop wins.
    pub open spec fn stop(self, reason: StopReason) -> RecorderModel {
        if self.stopped is Some {
            self
        } else {
            RecorderModel {
                stopped: Some(Stopped { last_recorded: self.appended, reason }),
                backlog: Seq::empty(),
                ..self
            }
        }
    }

    /// `kind` sequenced and queued, or the recording stopped where the backlog
    /// has no room for it or the sequences are used up.
    pub open spec fn enqueued(self, kind: KindModel, elapsed_ns: u64) -> RecorderModel {
        if self.stopped is Some || !self.accepting {
            self
        } else {
            match self.next {
                None => self.stop(StopReason::SizeLimit),
                Some(sequence) => if backlog_cost(self.backlog) + cost_of(kind)
                    > self.limits.backlog_bytes {
                    self.stop(StopReason::BacklogFull)
                } else {
                    RecorderModel {
                        next: following(sequence),
                        backlog: self.backlog.push(RecordModel { sequence, elapsed_ns, kind }),
                        ..self
                    }
                },
            }
        }
    }

    /// Output cut into records of at most [`MAX_PAYLOAD`] bytes, and each queued.
    pub open spec fn offered(self, bytes: Seq<u8>, elapsed_ns: u64) -> RecorderModel
        decreases bytes.len(),
    {
        if bytes.len() == 0 {
            self
        } else if bytes.len() <= MAX_PAYLOAD {
            self.enqueued(KindModel::Output(bytes), elapsed_ns)
        } else {
            self.enqueued(KindModel::Output(bytes.take(MAX_PAYLOAD as int)), elapsed_ns).offered(
                bytes.skip(MAX_PAYLOAD as int),
                elapsed_ns,
            )
        }
    }

    /// Without the record that was queued first, which the writer has taken.
    pub open spec fn taken(self) -> RecorderModel {
        if self.stopped is None && self.backlog.len() > 0 {
            RecorderModel { backlog: self.backlog.skip(1), ..self }
        } else {
            self
        }
    }

    /// The append of record `sequence` failed with `failure`, or completed: it is part of
    /// the recording unless the recording stopped before.
    pub open spec fn settled(
        self,
        sequence: Sequence,
        failure: Option<StopReason>,
    ) -> RecorderModel {
        if self.stopped is Some {
            self
        } else {
            match failure {
                Some(reason) => self.stop(reason),
                None => RecorderModel { appended: Some(sequence), ..self },
            }
        }
    }

    /// How closing ends it: storage that is still busy stops the recording.
    pub open spec fn finished(self) -> RecorderModel {
        if self.writer_done {
            self
        } else {
            self.stop(StopReason::Stalled)
        }
    }

    /// What is to be reported when `self` became `after`: the stop, if that was it.
    pub open spec fn report(self, after: RecorderModel) -> Option<Stopped> {
        if self.stopped is None {
            after.stopped
        } else {
            None
        }
    }
}

/// Producer side of a run's recorder. Never waits for storage.
pub struct Recorder {
    limits: RecorderLimits,
    next: Option<Sequence>,
    backlog: VecDeque<Record>,
    backlog_bytes: usize,
    accepting: bool,
    appended: Option<Sequence>,
    synced: Option<Sequence>,
    segments: u32,
    stopped: Option<Stopped>,
    writer_done: bool,
}

/// What the writer finds when it looks for its next record.
#[derive(Debug)]
pub enum Next {
    /// Append this one.
    Record(Record),
    /// Nothing is queued yet.
    Idle,
    /// Stopped, or closed with nothing queued.
    Done,
}

/// What came of an append once it met the recorder again.
#[derive(Clone, Copy, Debug, PartialEq, Eq)]
pub enum Settled {
    /// The record is part of the recording.
    Recorded,
    /// It lies beyond the end of the recording: cut it off again. Carries the
    /// stop where this append was its cause.
    Beyond(Option<Stopped>),
}

impl View for Recorder {
    type V = RecorderModel;

    closed spec fn view(&self) -> RecorderModel {
        RecorderModel {
            limits: self.limits,
            next: sequence_model(self.next),
            backlog: record_models(self.backlog@),
            accepting: self.accepting,
            appended: self.appended,
            synced: self.synced,
            segments: self.segments,
            stopped: self.stopped,
            writer_done: self.writer_done,
        }
    }
}

fn cost(kind: &RecordKind) -> (cost: usize)
    ensures
        cost == cost_of(kind@),
{
    match kind {
        RecordKind::Output(bytes) => bytes.len(),
        RecordKind::Input(bytes) => bytes.len(),
        RecordKind::Resize { .. } => RESIZE_COST,
    }
}

/// Taking the first record off a backlog takes its cost off.
proof fn lemma_backlog_pop(records: Seq<RecordModel>)
    requires
        records.len() > 0,
    ensures
        backlog_cost(records) == cost_of(records[0].kind) + backlog_cost(records.skip(1)),
    decreases records.len(),
{
    if records.len() == 1 {
        assert(records.drop_last() =~= Seq::empty());
        assert(records.skip(1) =~= Seq::empty());
    } else {
        lemma_backlog_pop(records.drop_last());
        assert(records.drop_last().skip(1) =~= records.skip(1).drop_last());
    }
}

impl Recorder {
    pub closed spec fn wf(&self) -> bool {
        &&& self@.wf()
        &&& self.backlog_bytes == backlog_cost(self@.backlog)
    }

    /// A recorder whose first record takes `first`.
    pub fn new(first: Sequence, limits: RecorderLimits) -> (recorder: Recorder)
        ensures
            recorder.wf(),
            recorder@ == (RecorderModel {
                limits,
                next: Some(first@),
                backlog: Seq::empty(),
                accepting: true,
                appended: None,
                synced: None,
                segments: 0,
                stopped: None,
                writer_done: false,
            }),
    {
        let recorder = Recorder {
            limits,
            next: Some(first),
            backlog: VecDeque::new(),
            backlog_bytes: 0,
            accepting: true,
            appended: None,
            synced: None,
            segments: 0,
            stopped: None,
            writer_done: false,
        };
        assert(recorder@.backlog =~= Seq::empty());
        recorder
    }

    /// Ends the recording at the last completed append. Queued records are
    /// discarded; the first stop wins. Returns the stop where this was it.
    pub fn stop(&mut self, reason: StopReason) -> (report: Option<Stopped>)
        requires
            old(self).wf(),
        ensures
            final(self).wf(),
            final(self)@ == old(self)@.stop(reason),
            report == old(self)@.report(final(self)@),
    {
        if self.stopped.is_some() {
            return None;
        }
        let stopped = Stopped { last_recorded: self.appended, reason };
        self.stopped = Some(stopped);
        self.backlog.clear();
        self.backlog_bytes = 0;
        assert(self@.backlog =~= Seq::empty());
        Some(stopped)
    }

    /// Sequences `kind` and queues it for the writer, or stops if the backlog has
    /// no room for it.
    pub fn enqueue(&mut self, kind: RecordKind, elapsed_ns: u64) -> (report: Option<Stopped>)
        requires
            old(self).wf(),
        ensures
            final(self).wf(),
            final(self)@ == old(self)@.enqueued(kind@, elapsed_ns),
            report == old(self)@.report(final(self)@),
    {
        if self.stopped.is_some() || !self.accepting {
            return None;
        }
        let sequence = match self.next {
            Some(sequence) => sequence,
            None => return self.stop(StopReason::SizeLimit),
        };
        let cost: usize = cost(&kind);
        if cost > self.limits.backlog_bytes || self.backlog_bytes > self.limits.backlog_bytes
            - cost {
            return self.stop(StopReason::BacklogFull);
        }
        let record = Record { sequence, elapsed_ns, kind };
        let ghost before = self@;
        let ghost model = record@;
        self.next = sequence.next();
        self.backlog.push_back(record);
        self.backlog_bytes = self.backlog_bytes + cost;
        proof {
            let after = before.backlog.push(model);
            assert(self@.backlog =~= after);
            assert(after.drop_last() =~= before.backlog);
            assert forall|i: int| 0 <= i < after.len() - 1 implies following(
                (#[trigger] after[i]).sequence,
            ) == Some(after[i + 1].sequence) by {
                if i < before.backlog.len() - 1 {
                    assert(following(before.backlog[i].sequence) == Some(
                        before.backlog[i + 1].sequence,
                    ));
                }
            }
        }
        None
    }

    /// Records PTY output.
    pub fn output(&mut self, bytes: &[u8], elapsed_ns: u64) -> (report: Option<Stopped>)
        requires
            old(self).wf(),
        ensures
            final(self).wf(),
            final(self)@ == old(self)@.offered(bytes@, elapsed_ns),
            report == old(self)@.report(final(self)@),
    {
        let ghost before = self@;
        let mut report: Option<Stopped> = None;
        let mut at: usize = 0;
        assert(bytes@.skip(0) =~= bytes@);
        while at < bytes.len()
            invariant
                at <= bytes@.len(),
                self.wf(),
                before.offered(bytes@, elapsed_ns) == self@.offered(
                    bytes@.skip(at as int),
                    elapsed_ns,
                ),
                report == before.report(self@),
                before.stopped is Some ==> self@.stopped is Some,
            decreases bytes@.len() - at,
        {
            let end: usize = if bytes.len() - at <= MAX_PAYLOAD {
                bytes.len()
            } else {
                at + MAX_PAYLOAD
            };
            let chunk = slice_to_vec(slice_subrange(bytes, at, end));
            let ghost here = self@;
            let ghost rest = bytes@.skip(at as int);
            proof {
                assert(rest.take(end - at) =~= chunk@);
                assert(rest.skip(end - at) =~= bytes@.skip(end as int));
                if rest.len() <= MAX_PAYLOAD {
                    assert(rest.take(end - at) =~= rest);
                }
            }
            let stopped = self.enqueue(RecordKind::Output(chunk), elapsed_ns);
            if stopped.is_some() {
                report = stopped;
            }
            at = end;
        }
        report
    }

    /// Records a window size once it was applied. A size that could not be applied
    /// is not recorded, and its error is handed back.
    pub fn resize_applied(
        &mut self,
        geometry: Geometry,
        cause: ResizeCause,
        applied: Result<(), ErrorKind>,
        elapsed_ns: u64,
    ) -> (report: Result<Option<Stopped>, ErrorKind>)
        requires
            old(self).wf(),
        ensures
            final(self).wf(),
            match applied {
                Err(kind) => report == Err::<Option<Stopped>, ErrorKind>(kind) && final(self)@ == old(self)@,
                Ok(_) => final(self)@ == old(self)@.enqueued(
                    KindModel::Resize { geometry: geometry@, cause: cause@ },
                    elapsed_ns,
                ) && report == Ok::<Option<Stopped>, ErrorKind>(
                    old(self)@.report(final(self)@),
                ),
            },
    {
        match applied {
            Err(kind) => Err(kind),
            Ok(()) => Ok(self.enqueue(RecordKind::Resize { geometry, cause }, elapsed_ns)),
        }
    }

    /// The stop, once recording has stopped.
    pub fn stopped(&self) -> (stopped: Option<Stopped>)
        ensures
            stopped == self@.stopped,
    {
        self.stopped
    }

    /// How many records are queued.
    pub fn queued(&self) -> (queued: usize)
        requires
            self.wf(),
        ensures
            queued == self@.backlog.len(),
    {
        self.backlog.len()
    }

    /// Takes the next queued record.
    pub fn next_record(&mut self) -> (next: Next)
        requires
            old(self).wf(),
        ensures
            final(self).wf(),
            final(self)@ == old(self)@.taken(),
            if old(self)@.stopped is Some {
                next is Done
            } else if old(self)@.backlog.len() > 0 {
                next matches Next::Record(record) && record@ == old(self)@.backlog[0]
            } else if old(self)@.accepting {
                next is Idle
            } else {
                next is Done
            },
    {
        if self.stopped.is_some() {
            return Next::Done;
        }
        let ghost before = self@;
        if self.backlog.len() > 0 {
            let record = self.backlog.pop_front().unwrap();
            proof {
                assert(before.backlog[0] == record@);
                lemma_backlog_pop(before.backlog);
                assert(self@.backlog =~= before.backlog.skip(1));
                assert forall|i: int| 0 <= i < self@.backlog.len() - 1 implies following(
                    (#[trigger] self@.backlog[i]).sequence,
                ) == Some(self@.backlog[i + 1].sequence) by {
                    assert(following(before.backlog[i + 1].sequence) == Some(
                        before.backlog[i + 1 + 1].sequence,
                    ));
                }
            }
            self.backlog_bytes = self.backlog_bytes - cost(&record.kind);
            return Next::Record(record);
        }
        if self.accepting {
            Next::Idle
        } else {
            Next::Done
        }
    }

    /// Settles the append of record `sequence`: it is part of the recording unless
    /// it failed or the recording stopped while it ran.
    pub fn settle(&mut self, sequence: Sequence, result: Result<(), StopReason>) -> (settled: Settled)
        requires
            old(self).wf(),
        ensures
            final(self).wf(),
            final(self)@ == old(self)@.settled(
                sequence,
                match result {
                    Err(reason) => Some(reason),
                    Ok(_) => None,
                },
            ),
            settled == (if old(self)@.stopped is None && result is Ok {
                Settled::Recorded
            } else {
                Settled::Beyond(old(self)@.report(final(self)@))
            }),
    {
        if self.stopped.is_some() {
            return Settled::Beyond(None);
        }
        match result {
            Err(reason) => Settled::Beyond(self.stop(reason)),
            Ok(()) => {
                self.appended = Some(sequence);
                Settled::Recorded
            },
        }
    }

    /// Takes over how far the writer has come.
    pub fn note_progress(&mut self, segments: u32, synced: Option<Sequence>)
        requires
            old(self).wf(),
        ensures
            final(self).wf(),
            final(self)@ == (RecorderModel { segments, synced, ..old(self)@ }),
    {
        self.segments = segments;
        self.synced = synced;
    }

    /// The writer has finished.
    pub fn writer_finished(&mut self)
        requires
            old(self).wf(),
        ensures
            final(self).wf(),
            final(self)@ == (RecorderModel { writer_done: true, ..old(self)@ }),
    {
        self.writer_done = true;
    }

    /// Whether the writer has finished.
    pub fn is_writer_done(&self) -> (done: bool)
        ensures
            done == self@.writer_done,
    {
        self.writer_done
    }

    /// Accepts nothing further; what is queued is still appended.
    pub fn close(&mut self)
        requires
            old(self).wf(),
        ensures
            final(self).wf(),
            final(self)@ == (RecorderModel { accepting: false, ..old(self)@ }),
    {
        self.accepting = false;
    }

    /// How the recording ended, asked once the writer finished or closing has
    /// waited long enough for it: storage that is still busy then stops the
    /// recording as [`StopReason::Stalled`].
    pub fn finish(&mut self) -> (ended: (RecorderSummary, Option<Stopped>))
        requires
            old(self).wf(),
        ensures
            final(self).wf(),
            final(self)@ == old(self)@.finished(),
            ended.1 == old(self)@.report(final(self)@),
            ended.0 == (RecorderSummary {
                last_recorded: final(self)@.appended,
                last_synced: final(self)@.synced,
                stopped: final(self)@.stopped,
                segments: final(self)@.segments,
            }),
            ended.0.stopped matches Some(stop) ==> stop.last_recorded == ended.0.last_recorded,
    {
        let report = if self.writer_done {
            None
        } else {
            self.stop(StopReason::Stalled)
        };
        let summary = RecorderSummary {
            last_recorded: self.appended,
            last_synced: self.synced,
            stopped: self.stopped,
            segments: self.segments,
        };
        (summary, report)
    }
}

// What holds of a recording as a whole.

/// The first stop wins: once stopped, nothing is queued and the stop stays what it
/// is.
pub proof fn law_first_stop_wins(
    m: RecorderModel,
    reason: StopReason,
    kind: KindModel,
    bytes: Seq<u8>,
    elapsed_ns: u64,
)
    requires
        m.stopped is Some,
    ensures
        m.stop(reason) == m,
        m.enqueued(kind, elapsed_ns) == m,
        m.offered(bytes, elapsed_ns) == m,
    decreases bytes.len(),
{
    if bytes.len() > MAX_PAYLOAD {
        law_first_stop_wins(m, reason, kind, bytes.skip(MAX_PAYLOAD as int), elapsed_ns);
    }
}

/// A stop names the last record whose append had completed.
pub proof fn law_stop_names_the_last_append(m: RecorderModel, reason: StopReason)
    requires
        m.stopped is None,
    ensures
        m.stop(reason).stopped == Some(Stopped { last_recorded: m.appended, reason }),
        m.stop(reason).backlog.len() == 0,
{
}

/// What can happen to a recorder.
pub enum RecorderStep {
    Enqueue { kind: KindModel, elapsed_ns: u64 },
    Output { bytes: Seq<u8>, elapsed_ns: u64 },
    Stop { reason: StopReason },
    /// The writer takes the next record.
    Take,
    /// The append of a record failed or completed.
    Settle { sequence: Sequence, failure: Option<StopReason> },
    Progress { segments: u32, synced: Option<Sequence> },
    WriterFinished,
    Close,
}

impl RecorderModel {
    /// Behind one step.
    pub open spec fn step(self, step: RecorderStep) -> RecorderModel {
        match step {
            RecorderStep::Enqueue { kind, elapsed_ns } => self.enqueued(kind, elapsed_ns),
            RecorderStep::Output { bytes, elapsed_ns } => self.offered(bytes, elapsed_ns),
            RecorderStep::Stop { reason } => self.stop(reason),
            RecorderStep::Take => self.taken(),
            RecorderStep::Settle { sequence, failure } => self.settled(sequence, failure),
            RecorderStep::Progress { segments, synced } => RecorderModel {
                segments,
                synced,
                ..self
            },
            RecorderStep::WriterFinished => RecorderModel { writer_done: true, ..self },
            RecorderStep::Close => RecorderModel { accepting: false, ..self },
        }
    }

    /// Behind all of these steps, one after the other.
    pub open spec fn run(self, steps: Seq<RecorderStep>) -> RecorderModel
        decreases steps.len(),
    {
        if steps.len() == 0 {
            self
        } else {
            self.run(steps.drop_last()).step(steps.last())
        }
    }

    /// What these steps hand out to be reported, in order.
    pub open spec fn reports(self, steps: Seq<RecorderStep>) -> Seq<Stopped>
        decreases steps.len(),
    {
        if steps.len() == 0 {
            Seq::empty()
        } else {
            let head = self.reports(steps.drop_last());
            match self.run(steps.drop_last()).report(self.run(steps)) {
                Some(stop) => head.push(stop),
                None => head,
            }
        }
    }
}

/// Offering output that stops the recording changes nothing of what was appended, and
/// keeps an earlier stop.
proof fn lemma_offered_stop(m: RecorderModel, bytes: Seq<u8>, elapsed_ns: u64)
    requires
        m.stopped matches Some(stop) ==> stop.last_recorded == m.appended,
    ensures
        m.offered(bytes, elapsed_ns).appended == m.appended,
        m.stopped is Some ==> m.offered(bytes, elapsed_ns).stopped == m.stopped,
        m.offered(bytes, elapsed_ns).stopped matches Some(stop) ==> stop.last_recorded
            == m.appended,
    decreases bytes.len(),
{
    if bytes.len() > MAX_PAYLOAD {
        lemma_offered_stop(
            m.enqueued(KindModel::Output(bytes.take(MAX_PAYLOAD as int)), elapsed_ns),
            bytes.skip(MAX_PAYLOAD as int),
            elapsed_ns,
        );
    }
}

/// Whatever happens to a recorder that has not stopped, its stop is handed out once to be
/// reported, if it ever stops, and nothing else is; and it names the last record that was
/// appended.
pub proof fn law_stop_is_reported_once(m: RecorderModel, steps: Seq<RecorderStep>)
    requires
        m.stopped is None,
    ensures
        m.reports(steps) == (match m.run(steps).stopped {
            Some(stop) => seq![stop],
            None => Seq::empty(),
        }),
        m.run(steps).stopped matches Some(stop) ==> stop.last_recorded == m.run(steps).appended,
    decreases steps.len(),
{
    if steps.len() > 0 {
        let before = m.run(steps.drop_last());
        law_stop_is_reported_once(m, steps.drop_last());
        if let RecorderStep::Output { bytes, elapsed_ns } = steps.last() {
            lemma_offered_stop(before, bytes, elapsed_ns);
        }
        assert(Seq::<Stopped>::empty().push(m.run(steps).stopped->0) =~= seq![
            m.run(steps).stopped->0,
        ]);
    }
}

/// However a recording went, finishing it ends its reports: a recording without a stop was
/// never reported and its writer had finished; one with a stop was reported exactly once,
/// by then, and the stop names the last record of the recording. A writer that had not
/// finished has stalled, unless the recording had stopped before.
pub proof fn law_finish_reports_what_it_returns(m: RecorderModel, steps: Seq<RecorderStep>)
    requires
        m.stopped is None,
    ensures
        ({
            let before = m.run(steps);
            let after = before.finished();
            let reported = m.reports(steps) + (match before.report(after) {
                Some(stop) => seq![stop],
                None => Seq::empty(),
            });
            &&& match after.stopped {
                None => reported.len() == 0 && before.writer_done,
                Some(stop) => reported == seq![stop] && stop.last_recorded == after.appended,
            }
            &&& !before.writer_done && before.stopped is None ==> (after.stopped matches Some(stop)
                && stop.reason == StopReason::Stalled)
            &&& after.appended == before.appended
            &&& after.synced == before.synced
        }),
{
    law_stop_is_reported_once(m, steps);
    let before = m.run(steps);
    let after = before.finished();
    if let Some(stop) = after.stopped {
        if before.stopped is None {
            assert(Seq::<Stopped>::empty() + seq![stop] =~= seq![stop]);
        } else {
            assert(seq![stop] + Seq::<Stopped>::empty() =~= seq![stop]);
        }
    }
}

/// The output bytes among queued records, in order.
pub open spec fn output_of(records: Seq<RecordModel>) -> Seq<u8>
    decreases records.len(),
{
    if records.len() == 0 {
        Seq::empty()
    } else {
        match records.last().kind {
            KindModel::Output(bytes) => output_of(records.drop_last()) + bytes,
            _ => output_of(records.drop_last()),
        }
    }
}

/// Output larger than one record is split without loss: unless the recording
/// stops, every byte that was offered is queued, in order.
pub proof fn law_output_is_split_without_loss(m: RecorderModel, bytes: Seq<u8>, elapsed_ns: u64)
    requires
        m.accepting,
        m.offered(bytes, elapsed_ns).stopped is None,
    ensures
        output_of(m.offered(bytes, elapsed_ns).backlog) == output_of(m.backlog) + bytes,
        m.offered(bytes, elapsed_ns).accepting,
    decreases bytes.len(),
{
    if bytes.len() == 0 {
        assert(output_of(m.backlog) + bytes =~= output_of(m.backlog));
    } else {
        let n = if bytes.len() <= MAX_PAYLOAD {
            bytes.len() as int
        } else {
            MAX_PAYLOAD as int
        };
        let chunk = bytes.take(n);
        assert(bytes.len() <= MAX_PAYLOAD ==> chunk =~= bytes);
        let after = m.enqueued(KindModel::Output(chunk), elapsed_ns);
        if m.stopped is Some {
            law_first_stop_wins(m, StopReason::Stalled, m.backlog[0].kind, bytes, elapsed_ns);
        }
        if after.stopped is Some {
            law_first_stop_wins(
                after,
                StopReason::Stalled,
                m.backlog[0].kind,
                bytes.skip(n),
                elapsed_ns,
            );
        }
        assert(after.backlog.drop_last() =~= m.backlog);
        assert(output_of(after.backlog) =~= output_of(m.backlog) + chunk);
        if bytes.len() > MAX_PAYLOAD {
            law_output_is_split_without_loss(after, bytes.skip(n), elapsed_ns);
            assert(output_of(m.backlog) + bytes =~= output_of(m.backlog) + chunk + bytes.skip(n));
        }
    }
}

// What each operation of a recorder is for, by what it is given and what it leaves.

/// What is queued is what was offered, when it was offered: behind offering a record at a
/// time without a stop there is exactly one record more, at the end, with that content, that
/// time and the sequence that was due; the next one due follows it; and all that was queued
/// before is as it was. Nothing is queued by a recorder that stopped or was closed, and only
/// a full backlog or a used-up sequence stops one.
pub proof fn law_queued_record_is_what_was_offered(
    recorder: &mut Recorder,
    kind: RecordKind,
    elapsed_ns: u64,
    report: Option<Stopped>,
)
    requires
        call_ensures(Recorder::enqueue, (recorder, kind, elapsed_ns), report),
        old(recorder).wf(),
    ensures
        old(recorder)@.stopped is Some || !old(recorder)@.accepting ==> final(recorder)@ == old(
            recorder)@ && report is None,
        old(recorder)@.stopped is None && old(recorder)@.accepting && final(
            recorder)@.stopped is None ==> {
            let queued = final(recorder)@.backlog;
            &&& queued.len() == old(recorder)@.backlog.len() + 1
            &&& forall|i: int|
                0 <= i < old(recorder)@.backlog.len() ==> queued[i] == #[trigger] old(
                    recorder)@.backlog[i]
            &&& queued.last().elapsed_ns == elapsed_ns
            &&& queued.last().kind == kind@
            &&& Some(queued.last().sequence) == old(recorder)@.next
            &&& final(recorder)@.next == (if queued.last().sequence == u64::MAX {
                None
            } else {
                Some((queued.last().sequence + 1) as u64)
            })
            &&& report is None
        },
        old(recorder)@.stopped is None && final(recorder)@.stopped is Some ==> {
            &&& report == final(recorder)@.stopped
            &&& report->0.last_recorded == old(recorder)@.appended
            &&& final(recorder)@.backlog.len() == 0
            &&& report->0.reason == (if old(recorder)@.next is None {
                StopReason::SizeLimit
            } else {
                StopReason::BacklogFull
            })
        },
        old(recorder)@.stopped is None && old(recorder)@.accepting && old(
            recorder)@.next is Some ==> (final(recorder)@.stopped is Some <==> backlog_cost(
            old(recorder)@.backlog,
        ) + (match kind {
            RecordKind::Output(bytes) => bytes@.len(),
            RecordKind::Input(bytes) => bytes@.len(),
            RecordKind::Resize { .. } => 16,
        }) > old(recorder)@.limits.backlog_bytes),
        final(recorder)@.appended == old(recorder)@.appended && final(recorder)@.limits == old(
            recorder)@.limits && final(recorder)@.synced == old(recorder)@.synced,
{
}

proof fn lemma_offered_records(m: RecorderModel, bytes: Seq<u8>, t: u64)
    requires
        m.accepting,
        m.offered(bytes, t).stopped is None,
    ensures
        ({
            let after = m.offered(bytes, t);
            let n = m.backlog.len();
            let added = after.backlog.skip(n as int);
            &&& m.stopped is None
            &&& after.accepting
            &&& after.backlog.len() >= n
            &&& forall|i: int| 0 <= i < n ==> after.backlog[i] == #[trigger] m.backlog[i]
            &&& forall|i: int|
                n <= i < after.backlog.len() ==> {
                    &&& (#[trigger] after.backlog[i]).elapsed_ns == t
                    &&& after.backlog[i].kind is Output
                    &&& 1 <= after.backlog[i].kind->Output_0.len() <= 65_536
                    &&& m.next matches Some(first) && after.backlog[i].sequence == first + (i - n)
                }
            &&& output_of(added) == bytes
        }),
    decreases bytes.len(),
{
    let n = m.backlog.len();
    let after = m.offered(bytes, t);
    if m.stopped is Some {
        law_first_stop_wins(m, StopReason::Stalled, KindModel::Output(bytes), bytes, t);
    }
    if bytes.len() == 0 {
        assert(after.backlog.skip(n as int) =~= Seq::empty());
        assert(bytes =~= Seq::empty());
    } else {
        let k = if bytes.len() <= MAX_PAYLOAD {
            bytes.len() as int
        } else {
            MAX_PAYLOAD as int
        };
        let chunk = bytes.take(k);
        assert(bytes.len() <= MAX_PAYLOAD ==> chunk =~= bytes);
        let mid = m.enqueued(KindModel::Output(chunk), t);
        let rest = bytes.skip(k);
        if mid.stopped is Some {
            law_first_stop_wins(mid, StopReason::Stalled, KindModel::Output(rest), rest, t);
        }
        assert(rest.len() == 0 ==> mid.offered(rest, t) == mid);
        assert(after == mid.offered(rest, t));
        lemma_offered_records(mid, rest, t);
        assert(mid.backlog.len() == n + 1);
        let added = after.backlog.skip(n as int);
        let later = after.backlog.skip((n + 1) as int);
        assert(after.backlog[n as int] == mid.backlog[n as int]);
        assert forall|i: int| 0 <= i < n implies after.backlog[i] == #[trigger] m.backlog[i] by {
            assert(mid.backlog[i] == m.backlog[i]);
        }
        assert(added =~= seq![after.backlog[n as int]] + later);
        lemma_output_front(after.backlog[n as int], later);
        assert(chunk + rest =~= bytes);
    }
}

proof fn lemma_output_front(r: RecordModel, rest: Seq<RecordModel>)
    ensures
        output_of(seq![r] + rest) == (match r.kind {
            KindModel::Output(bytes) => bytes,
            _ => Seq::empty(),
        }) + output_of(rest),
    decreases rest.len(),
{
    let all = seq![r] + rest;
    if rest.len() == 0 {
        assert(all.drop_last() =~= Seq::empty());
        assert(all.last() == r);
        assert(output_of(rest) =~= Seq::empty());
        assert(output_of(all.drop_last()) =~= Seq::empty());
        assert(output_of(all) =~= (match r.kind {
            KindModel::Output(bytes) => bytes,
            _ => Seq::empty(),
        }) + output_of(rest));
    } else {
        assert(all.drop_last() =~= seq![r] + rest.drop_last());
        lemma_output_front(r, rest.drop_last());
        assert(output_of(all) =~= (match r.kind {
            KindModel::Output(bytes) => bytes,
            _ => Seq::empty(),
        }) + output_of(rest));
    }
}

/// Output is recorded exactly: unless the recording stops, the records that are added are
/// output records whose bytes, joined, are the bytes that were offered, each of them with
/// the time of the offer, of a size that a record can have, and numbered on from the sequence
/// that was due; and all that was queued before is as it was.
pub proof fn law_output_is_recorded_exactly(
    recorder: &mut Recorder,
    bytes: &[u8],
    elapsed_ns: u64,
    report: Option<Stopped>,
)
    requires
        call_ensures(Recorder::output, (recorder, bytes, elapsed_ns), report),
        old(recorder).wf(),
        old(recorder)@.accepting,
        old(recorder)@.stopped is None,
        final(recorder)@.stopped is None,
    ensures
        ({
            let before = old(recorder)@.backlog;
            let after = final(recorder)@.backlog;
            &&& after.len() >= before.len()
            &&& forall|i: int| 0 <= i < before.len() ==> after[i] == #[trigger] before[i]
            &&& forall|i: int|
                before.len() <= i < after.len() ==> {
                    &&& (#[trigger] after[i]).elapsed_ns == elapsed_ns
                    &&& after[i].kind is Output
                    &&& 1 <= after[i].kind->Output_0.len() <= 65_536
                    &&& old(recorder)@.next matches Some(first) && after[i].sequence == first + (i
                        - before.len())
                }
            &&& output_of(after.skip(before.len() as int)) == bytes@
        }),
        report is None,
{
    lemma_offered_records(old(recorder)@, bytes@, elapsed_ns);
}

/// A window size is recorded as it was applied, with its cause and its time; one that could
/// not be applied is not recorded, and its error is the answer.
pub proof fn law_applied_size_is_recorded(
    recorder: &mut Recorder,
    geometry: Geometry,
    cause: ResizeCause,
    applied: Result<(), ErrorKind>,
    elapsed_ns: u64,
    report: Result<Option<Stopped>, ErrorKind>,
)
    requires
        call_ensures(
            Recorder::resize_applied,
            (recorder, geometry, cause, applied, elapsed_ns),
            report,
        ),
        old(recorder).wf(),
    ensures
        applied matches Err(kind) ==> report == Err::<Option<Stopped>, ErrorKind>(kind) && final(
            recorder)@ == old(recorder)@,
        applied is Ok ==> report is Ok,
        applied is Ok && old(recorder)@.stopped is None && old(recorder)@.accepting && final(
            recorder)@.stopped is None ==> {
            let queued = final(recorder)@.backlog;
            &&& queued.len() == old(recorder)@.backlog.len() + 1
            &&& queued.last().elapsed_ns == elapsed_ns
            &&& queued.last().kind == (KindModel::Resize { geometry: geometry@, cause: cause@ })
            &&& Some(queued.last().sequence) == old(recorder)@.next
        },
{
}

/// The writer is given the record that was queued first, with its very sequence, time and
/// content, and the others stay in their order behind it.
pub proof fn law_records_are_taken_in_order(recorder: &mut Recorder, next: Next)
    requires
        call_ensures(Recorder::next_record, (recorder,), next),
        old(recorder).wf(),
    ensures
        next is Record <==> old(recorder)@.stopped is None && old(recorder)@.backlog.len() > 0,
        next matches Next::Record(record) ==> {
            let first = old(recorder)@.backlog[0];
            &&& record.sequence@ == first.sequence
            &&& record.elapsed_ns == first.elapsed_ns
            &&& match record.kind {
                RecordKind::Output(bytes) => first.kind == KindModel::Output(bytes@),
                RecordKind::Input(bytes) => first.kind == KindModel::Input(bytes@),
                RecordKind::Resize { geometry, cause } => first.kind == (KindModel::Resize {
                    geometry: geometry@,
                    cause: cause@,
                }),
            }
            &&& final(recorder)@.backlog.len() == old(recorder)@.backlog.len() - 1
            &&& forall|i: int|
                0 <= i < final(recorder)@.backlog.len() ==> (#[trigger] final(recorder)@.backlog[i])
                    == old(recorder)@.backlog[i + 1]
        },
        next is Done <==> old(recorder)@.stopped is Some || (old(recorder)@.backlog.len() == 0
            && !old(recorder)@.accepting),
        final(recorder)@.stopped == old(recorder)@.stopped && final(recorder)@.appended == old(
            recorder)@.appended && final(recorder)@.next == old(recorder)@.next,
{
}

/// What was queued on an empty backlog is what the writer is given next: the very content,
/// with the time of its offer.
pub proof fn law_offered_record_is_taken(
    offered: &mut Recorder,
    kind: RecordKind,
    elapsed_ns: u64,
    report: Option<Stopped>,
    taken: &mut Recorder,
    next: Next,
)
    requires
        call_ensures(Recorder::enqueue, (offered, kind, elapsed_ns), report),
        old(offered).wf(),
        old(offered)@.backlog.len() == 0,
        old(offered)@.accepting,
        old(offered)@.stopped is None,
        *final(offered) == *old(taken),
        call_ensures(Recorder::next_record, (taken,), next),
        final(offered)@.stopped is None,
    ensures
        next matches Next::Record(record) && record.elapsed_ns == elapsed_ns && record.kind@
            == kind@ && Some(record.sequence@) == old(offered)@.next,
{
}

/// A record counts as recorded once its append completed, unless the recording stopped
/// before that; an append that failed stops the recording at the record before it.
pub proof fn law_append_settles_once(
    recorder: &mut Recorder,
    sequence: Sequence,
    result: Result<(), StopReason>,
    settled: Settled,
)
    requires
        call_ensures(Recorder::settle, (recorder, sequence, result), settled),
        old(recorder).wf(),
    ensures
        settled == Settled::Recorded <==> old(recorder)@.stopped is None && result is Ok,
        settled == Settled::Recorded ==> final(recorder)@.appended == Some(sequence) && final(
            recorder)@.stopped is None && final(recorder)@.backlog == old(recorder)@.backlog,
        !(settled == Settled::Recorded) ==> final(recorder)@.appended == old(recorder)@.appended,
        old(recorder)@.stopped is Some ==> settled == Settled::Beyond(None) && final(recorder)@
            == old(recorder)@,
        old(recorder)@.stopped is None ==> (result matches Err(reason) ==> final(recorder)@.stopped
            == Some(Stopped { last_recorded: old(recorder)@.appended, reason }) && settled
            == Settled::Beyond(final(recorder)@.stopped) && final(recorder)@.backlog.len() == 0),
{
}

/// A stop ends the recording where it is, once: it names the reason and the last record that
/// was appended, and discards what is queued. A second one changes nothing and reports
/// nothing.
pub proof fn law_stop_ends_the_recording(
    recorder: &mut Recorder,
    reason: StopReason,
    report: Option<Stopped>,
)
    requires
        call_ensures(Recorder::stop, (recorder, reason), report),
        old(recorder).wf(),
    ensures
        old(recorder)@.stopped is Some ==> report is None && final(recorder)@ == old(recorder)@,
        old(recorder)@.stopped is None ==> report == Some(
            Stopped { last_recorded: old(recorder)@.appended, reason },
        ) && final(recorder)@.stopped == report && final(recorder)@.backlog.len() == 0 && final(
            recorder)@.appended == old(recorder)@.appended,
{
}

/// How a recording ended: with what was appended, synced and published, and with its stop;
/// only a writer that has not finished makes closing itself one, as stalled.
pub proof fn law_summary_is_what_happened(
    recorder: &mut Recorder,
    ended: (RecorderSummary, Option<Stopped>),
)
    requires
        call_ensures(Recorder::finish, (recorder,), ended),
        old(recorder).wf(),
    ensures
        ended.0.last_recorded == old(recorder)@.appended,
        ended.0.last_synced == old(recorder)@.synced,
        ended.0.segments == old(recorder)@.segments,
        old(recorder)@.stopped is Some ==> ended.0.stopped == old(recorder)@.stopped
            && ended.1 is None,
        old(recorder)@.stopped is None && old(recorder)@.writer_done ==> ended.0.stopped is None
            && ended.1 is None,
        old(recorder)@.stopped is None && !old(recorder)@.writer_done ==> ended.0.stopped == Some(
            Stopped { last_recorded: old(recorder)@.appended, reason: StopReason::Stalled },
        ) && ended.1 == ended.0.stopped,
{
}

/// A new recorder has nothing behind it and gives its first record the first sequence; what
/// its writer tells it is kept, and closing it only ends what it accepts.
pub proof fn law_recorder_keeps_what_it_is_told(
    first: Sequence,
    limits: RecorderLimits,
    fresh: Recorder,
    told: &mut Recorder,
    segments: u32,
    synced: Option<Sequence>,
    done: &mut Recorder,
    closed: &mut Recorder,
)
    requires
        call_ensures(Recorder::new, (first, limits), fresh),
        call_ensures(Recorder::note_progress, (told, segments, synced), ()),
        old(told).wf(),
        call_ensures(Recorder::writer_finished, (done,), ()),
        old(done).wf(),
        call_ensures(Recorder::close, (closed,), ()),
        old(closed).wf(),
    ensures
        fresh@.next == Some(first@) && fresh@.limits == limits && fresh@.backlog.len() == 0
            && fresh@.accepting && fresh@.stopped is None && fresh@.appended is None
            && fresh@.synced is None && !fresh@.writer_done && fresh@.segments == 0,
        final(told)@.segments == segments && final(told)@.synced == synced && final(told)@.stopped
            == old(told)@.stopped && final(told)@.appended == old(told)@.appended && final(
            told)@.backlog == old(told)@.backlog,
        final(done)@ == (RecorderModel { writer_done: true, ..old(done)@ }),
        final(closed)@ == (RecorderModel { accepting: false, ..old(closed)@ }),
{
}

/// Appended records are synced at least once a second: while any waits for that, the wait
/// is never longer than what is left of the second, and once it is over a sync is due.
pub proof fn law_sync_is_due_within_a_second(unsynced: bool, since_sync_ms: u64, step: SyncStep)
    requires
        call_ensures(sync_step, (unsynced, since_sync_ms), step),
    ensures
        step == SyncStep::Wait <==> !unsynced,
        step == SyncStep::Sync <==> unsynced && since_sync_ms >= 1_000,
        step matches SyncStep::WaitAtMost(ms) ==> ms + since_sync_ms == 1_000,
{
}

/// The reasons of a stop have these names.
pub proof fn law_stop_reasons_are_named(reason: StopReason, name: &'static str)
    requires
        call_ensures(StopReason::as_str, (&reason,), name),
    ensures
        reason is SizeLimit ==> name@ == "size_limit"@,
        reason is WriteFailed ==> name@ == "write_failed"@,
        reason is BacklogFull ==> name@ == "backlog_full"@,
        reason is Stalled ==> name@ == "stalled"@,
{
}

/// Unless told otherwise, a segment is rotated at 64 MiB, a run's recording is limited to
/// 1 GiB, the backlog to 16 MiB, and closing waits five seconds.
pub proof fn law_default_limits(limits: RecorderLimits)
    requires
        call_ensures(RecorderLimits::default, (), limits),
    ensures
        limits.segment_bytes == 64 * 1024 * 1024,
        limits.max_bytes == 1024 * 1024 * 1024,
        limits.backlog_bytes == 16 * 1024 * 1024,
        limits.close_timeout == 5 * 1000,
{
}

/// A recorder tells its stop, how many records wait, and whether its writer has finished, as
/// they are.
pub proof fn law_recorder_tells_where_it_stands(
    recorder: Recorder,
    stopped: Option<Stopped>,
    queued: usize,
    done: bool,
)
    requires
        recorder.wf(),
        call_ensures(Recorder::stopped, (&recorder,), stopped),
        call_ensures(Recorder::queued, (&recorder,), queued),
        call_ensures(Recorder::is_writer_done, (&recorder,), done),
    ensures
        stopped == recorder@.stopped,
        queued == recorder@.backlog.len(),
        done == recorder@.writer_done,
{
}

/// What waits costs as much as its bytes, and sixteen for each window size.
pub proof fn law_backlog_costs_its_bytes(records: Seq<RecordModel>, r: RecordModel)
    ensures
        backlog_cost(Seq::<RecordModel>::empty()) == 0,
        backlog_cost(records.push(r)) == backlog_cost(records) + (match r.kind {
            KindModel::Output(bytes) => bytes.len(),
            KindModel::Input(bytes) => bytes.len(),
            KindModel::Resize { .. } => 16,
        }),
{
    assert(records.push(r).drop_last() =~= records);
}

/// Whether output stops a recording, and into which records it is cut where it does not.
proof fn lemma_output_fits(m: RecorderModel, bytes: Seq<u8>, t: u64)
    requires
        m.accepting,
        m.stopped is None,
        m.next matches Some(first) && first + bytes.len() <= u64::MAX,
    ensures
        ({
            let after = m.offered(bytes, t);
            let n = m.backlog.len();
            &&& after.stopped is None <==> bytes.len() == 0 || backlog_cost(m.backlog)
                + bytes.len() <= m.limits.backlog_bytes
            &&& after.stopped matches Some(stop) ==> stop == (Stopped {
                last_recorded: m.appended,
                reason: StopReason::BacklogFull,
            }) && after.backlog.len() == 0
            &&& after.stopped is None ==> after.backlog.len() == n + (bytes.len() + 65_535)
                / 65_536
            &&& after.stopped is None ==> forall|i: int|
                n <= i < after.backlog.len() - 1 ==> (
                #[trigger] after.backlog[i]).kind->Output_0.len() == 65_536
            &&& after.stopped is None ==> forall|i: int|
                0 <= i < n ==> after.backlog[i] == #[trigger] m.backlog[i]
        }),
    decreases bytes.len(),
{
    let n = m.backlog.len();
    let after = m.offered(bytes, t);
    if bytes.len() > 0 {
        let k = if bytes.len() <= MAX_PAYLOAD {
            bytes.len() as int
        } else {
            MAX_PAYLOAD as int
        };
        let chunk = bytes.take(k);
        assert(bytes.len() <= MAX_PAYLOAD ==> chunk =~= bytes);
        let mid = m.enqueued(KindModel::Output(chunk), t);
        let rest = bytes.skip(k);
        assert(rest.len() == 0 ==> mid.offered(rest, t) == mid);
        assert(after == mid.offered(rest, t));
        if mid.stopped is Some {
            law_first_stop_wins(mid, StopReason::Stalled, KindModel::Output(rest), rest, t);
        } else {
            let added = RecordModel { sequence: m.next->0, elapsed_ns: t, kind: KindModel::Output(chunk) };
            assert(mid.backlog == m.backlog.push(added));
            law_backlog_costs_its_bytes(m.backlog, added);
            if rest.len() > 0 {
                lemma_output_fits(mid, rest, t);
                if after.stopped is None {
                    assert(after.backlog[n as int] == mid.backlog[n as int]);
                    assert forall|i: int|
                        n <= i < after.backlog.len() - 1 implies (
                    #[trigger] after.backlog[i]).kind->Output_0.len() == 65_536 by {
                        if i == n {
                            assert(chunk.len() == 65_536);
                        }
                    }
                    assert forall|i: int| 0 <= i < n implies after.backlog[i]
                        == #[trigger] m.backlog[i] by {
                        assert(mid.backlog[i] == m.backlog[i]);
                    }
                }
            }
        }
    }
}

/// Output stops a recording exactly where the backlog has no room for all of it: the
/// recording then ends with what was appended, and nothing waits any more. Otherwise it is
/// cut into as few records as it can be, all but the last of them full. A recorder that has
/// stopped, or was closed, records none of it.
pub proof fn law_output_is_cut_into_full_records(
    recorder: &mut Recorder,
    bytes: &[u8],
    elapsed_ns: u64,
    report: Option<Stopped>,
)
    requires
        old(recorder).wf(),
        call_ensures(Recorder::output, (recorder, bytes, elapsed_ns), report),
    ensures
        old(recorder)@.stopped is Some || !old(recorder)@.accepting ==> final(recorder)@ == old(recorder)@ && report is None,
        (old(recorder)@.stopped is None && old(recorder)@.accepting && (
        old(recorder)@.next matches Some(first) && first + bytes@.len() <= u64::MAX)) ==> {
            let m = old(recorder)@;
            let after = final(recorder)@;
            &&& after.stopped is None <==> bytes@.len() == 0 || backlog_cost(m.backlog)
                + bytes@.len() <= m.limits.backlog_bytes
            &&& report == after.stopped
            &&& after.stopped matches Some(stop) ==> stop.last_recorded == m.appended
                && stop.reason is BacklogFull && after.backlog.len() == 0
            &&& after.stopped is None ==> after.backlog.len() == m.backlog.len() + (bytes@.len()
                + 65_535) / 65_536
            &&& after.stopped is None ==> forall|i: int|
                m.backlog.len() <= i < after.backlog.len() - 1 ==> (
                #[trigger] after.backlog[i]).kind->Output_0.len() == 65_536
        },
{
    let m = old(recorder)@;
    if m.stopped is None && m.accepting && (m.next matches Some(first) && first + bytes@.len()
        <= u64::MAX) {
        lemma_output_fits(m, bytes@, elapsed_ns);
    }
    if m.stopped is Some || !m.accepting {
        lemma_refused_output(m, bytes@, elapsed_ns);
    }
}

/// A recorder that has stopped, or was closed, is what it was behind any output.
proof fn lemma_refused_output(m: RecorderModel, bytes: Seq<u8>, t: u64)
    requires
        m.stopped is Some || !m.accepting,
    ensures
        m.offered(bytes, t) == m,
    decreases bytes.len(),
{
    if bytes.len() > MAX_PAYLOAD {
        lemma_refused_output(m, bytes.skip(MAX_PAYLOAD as int), t);
    }
}

} // verus!
