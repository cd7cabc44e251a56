//! A recorder together with its storage.

use crate::io_error::ErrorKind;
use crate::recorder::storage::{
    kept, law_stored_recording_decodes, law_synced_is_on_stable_storage, lemma_call_grew,
    lemma_grew_further, lemma_unasked, lemma_with_segment, plan_of, recorded, recorded_all,
    total_bytes, with_call, with_next, FileCall, Plan, Publication, SegmentStore, StorageModel,
    Writer,
};
use crate::recorder::{
    Next, Recorder, RecorderLimits, RecorderModel, RecorderSummary, Settled, StopReason, Stopped,
};
use crate::recording::format::{
    header_bytes, last_sequence, parse_recording, records_bytes, segment_bytes, ErrorModel,
    record_bytes, KindModel, RecordModel, RecordingModel,
};
use crate::recording::laws::{chain_bytes, chain_records};
use crate::recording::{
    rotated, sequence_model, EncoderModel, Geometry, ResizeCause, SegmentEncoder, SegmentEnd, SegmentHeader,
    Sequence, MAX_PAYLOAD,
};
use vstd::prelude::*;

verus! {

/// The last sequence of what storage took.
pub open spec fn last_stored(stored: Seq<EncoderModel>) -> Option<u64> {
    last_sequence(chain_records(stored))
}

/// What one step of a recorder came to.
#[derive(Clone, Copy, Debug, PartialEq, Eq)]
pub enum Stepped {
    /// Nothing is queued yet.
    Idle,
    /// A record was appended.
    Recorded,
    /// Nothing more will be appended. Carries the stop where this step was its cause.
    Done(Option<Stopped>),
}

/// A running recorder: the sequencer for producers, and its storage side.
pub struct RecorderThread<S: SegmentStore> {
    recorder: Recorder,
    /// `None` where the header was refused.
    writer: Option<Writer<S>>,
}

impl<S: SegmentStore> RecorderThread<S> {
    /// The sequencer's state.
    pub closed spec fn queue(&self) -> RecorderModel {
        self.recorder@
    }

    /// The state of storage; `None` where the header was refused.
    pub closed spec fn storage(&self) -> Option<StorageModel> {
        match self.writer {
            Some(writer) => Some(writer@),
            None => None,
        }
    }

    /// What storage took.
    pub open spec fn stored(&self) -> Seq<EncoderModel> {
        match self.storage() {
            Some(storage) => storage.stored,
            None => Seq::empty(),
        }
    }

    /// The bytes of each segment in storage.
    pub open spec fn disk(&self) -> Seq<Seq<u8>> {
        match self.storage() {
            Some(storage) => storage.disk,
            None => Seq::empty(),
        }
    }

    /// The last segment may end in bytes beyond the recording: an append failed and could
    /// not be cut off again.
    pub open spec fn torn(&self) -> bool {
        match self.storage() {
            Some(storage) => storage.torn,
            None => false,
        }
    }

    /// What storage took is exactly what the recorder calls recorded, and a recorder
    /// that has not stopped can go on.
    #[verifier::opaque]
    pub closed spec fn wf(&self) -> bool {
        &&& self.recorder.wf()
        &&& sequence_model(self.recorder@.appended) == last_stored(self.stored())
        &&& self.recorder@.segments == self.stored().len()
        &&& match self.writer {
            Some(writer) => {
                &&& writer.wf()
                &&& writer@.prepared is None
                &&& writer@.mark is None
                &&& writer@.limits == self.recorder@.limits
                &&& writer@.last_appended == self.recorder@.appended
                &&& writer@.synced == self.recorder@.synced
                &&& writer@.torn ==> (self.recorder@.stopped matches Some(stop)
                    && stop.reason is WriteFailed)
                &&& self.recorder@.stopped is None ==> {
                    &&& !writer@.failed
                    &&& writer@.stored.len() > 0
                }
            },
            None => self.recorder@.stopped is Some && self.recorder@.synced is None,
        }
    }

    /// What appending the record that was queued first comes to before storage is asked.
    pub open spec fn next_plan(&self) -> Plan {
        plan_of(self.stored(), self.queue().limits, self.queue().backlog[0])
    }

    /// What storage took together with the record that was queued first.
    pub open spec fn with_next_record(&self) -> Seq<EncoderModel> {
        recorded(self.stored(), self.queue().limits, self.queue().backlog[0])
    }

    /// The next record needs no segment more than can be counted.
    pub open spec fn can_step(&self) -> bool {
        self.queue().stopped is None && self.queue().backlog.len() > 0
            && self.next_plan() is Rotate ==> self.stored().len() < u32::MAX
    }

    /// There is room for one more segment per queued record.
    pub open spec fn has_room(&self) -> bool {
        self.stored().len() + self.queue().backlog.len() < u32::MAX
    }

    /// Starts recording under `header`, which must describe segment 0. Returns the
    /// stop where storage did not take the first segment or the header is refused.
    pub fn start(header: SegmentHeader, store: S, limits: RecorderLimits) -> (started: (
        RecorderThread<S>,
        Option<Stopped>,
    ))
        requires
            header@.segment_index == 0,
        ensures
            started.0.wf(),
            started.0.queue() == (RecorderModel {
                limits,
                next: Some(header@.first_sequence),
                backlog: Seq::empty(),
                accepting: true,
                appended: None,
                synced: None,
                segments: if started.1 is None {
                    1
                } else {
                    0
                },
                stopped: started.1,
                writer_done: started.1 is Some,
            }),
            started.0.stored() == (if started.1 is None {
                seq![EncoderModel { header: header@, carried: None, records: Seq::empty() }]
            } else {
                Seq::empty()
            }),
            header@.first_sequence != 1 ==> (started.1 matches Some(stop) && stop.reason
                == StopReason::WriteFailed(ErrorKind::InvalidInput)),
            header@.first_sequence == 1 && header_bytes(header@).len() > limits.max_bytes ==> (
            started.1 matches Some(stop) && stop.reason == StopReason::SizeLimit),
            header@.first_sequence == 1 && header_bytes(header@).len() <= limits.max_bytes ==> {
                &&& started.0.storage() matches Some(storage) && storage.requested
                    == store.requested().push(
                    (Publication {
                        index: 0,
                        header: header_bytes(header@),
                        error: match started.1 {
                            Some(stop) => Some(stop.reason->WriteFailed_0),
                            None => None,
                        },
                    }),
                )
                &&& started.1 matches Some(stop) ==> stop.reason is WriteFailed
            },
            started.1 matches Some(stop) ==> stop.last_recorded is None,
            !started.0.torn(),
    {
        proof {
            reveal(RecorderThread::wf);
        }
        let mut recorder = Recorder::new(header.first_sequence, limits);
        let ghost h = header@;
        match SegmentEncoder::new(header) {
            Err(_) => {
                let report = recorder.stop(StopReason::WriteFailed(ErrorKind::InvalidInput));
                recorder.writer_finished();
                (RecorderThread { recorder, writer: None }, report)
            },
            Ok(encoder) => {
                let ghost e = encoder@;
                let mut writer = Writer::new(encoder, store, limits);
                proof {
                    lemma_with_segment(Seq::empty(), e);
                    assert(Seq::<EncoderModel>::empty().push(e) =~= seq![e]);
                }
                match writer.publish_first() {
                    Ok(()) => {
                        recorder.note_progress(writer.segments(), writer.synced());
                        (RecorderThread { recorder, writer: Some(writer) }, None)
                    },
                    Err(reason) => {
                        let report = recorder.stop(reason);
                        recorder.writer_finished();
                        (RecorderThread { recorder, writer: Some(writer) }, report)
                    },
                }
            },
        }
    }

    /// Records PTY output.
    pub fn output(&mut self, bytes: &[u8], elapsed_ns: u64) -> (report: Option<Stopped>)
        requires
            old(self).wf(),
        ensures
            final(self).wf(),
            final(self).queue() == old(self).queue().offered(bytes@, elapsed_ns),
            stop_stays(old(self).queue(), final(self).queue()),
            final(self).storage() == old(self).storage(),
            report == old(self).queue().report(final(self).queue()),
    {
        proof {
            reveal(RecorderThread::wf);
            lemma_offered_keeps(self.queue(), bytes@, elapsed_ns);
        }
        self.recorder.output(bytes, elapsed_ns)
    }

    /// Records a window size once it was applied.
    pub fn resize_applied(
        &mut self,
        geometry: Geometry,
        cause: ResizeCause,
        applied: Result<(), ErrorKind>,
        elapsed_ns: u64,
    ) -> (report: Result<Option<Stopped>, ErrorKind>)
        requires
            old(self).wf(),
        ensures
            final(self).wf(),
            final(self).storage() == old(self).storage(),
            stop_stays(old(self).queue(), final(self).queue()),
            match applied {
                Err(kind) => report == Err::<Option<Stopped>, ErrorKind>(kind) && final(
                    self).queue() == old(self).queue(),
                Ok(_) => final(self).queue() == old(self).queue().enqueued(
                    KindModel::Resize { geometry: geometry@, cause: cause@ },
                    elapsed_ns,
                ) && report == Ok::<Option<Stopped>, ErrorKind>(
                    old(self).queue().report(final(self).queue()),
                ),
            },
    {
        proof {
            reveal(RecorderThread::wf);
        }
        self.recorder.resize_applied(geometry, cause, applied, elapsed_ns)
    }

    /// The recorder.
    pub fn recorder(&self) -> (recorder: &Recorder)
        ensures
            recorder@ == self.queue(),
    {
        &self.recorder
    }

    /// Whether there is room for one more segment per queued record.
    pub fn is_roomy(&self) -> (room: bool)
        requires
            self.wf(),
        ensures
            room == self.has_room(),
    {
        proof {
            reveal(RecorderThread::wf);
        }
        let segments: u32 = match &self.writer {
            Some(writer) => writer.segments(),
            None => 0,
        };
        self.recorder.queued() < (u32::MAX - segments) as usize
    }

    /// Appends the next queued record.
    #[verifier::rlimit(40)]
    fn append_next(&mut self) -> (stepped: Stepped)
        requires
            old(self).wf(),
            old(self).can_step(),
        ensures
            final(self).wf(),
            final(self).queue() == (RecorderModel {
                backlog: final(self).queue().backlog,
                appended: final(self).queue().appended,
                synced: final(self).queue().synced,
                segments: final(self).stored().len() as u32,
                stopped: final(self).queue().stopped,
                ..old(self).queue()
            }),
            final(self).stored().len() + final(self).queue().backlog.len() <= old(
                self).stored().len() + old(self).queue().backlog.len(),
            old(self).queue().stopped is None && old(self).queue().backlog.len() > 0
                ==> match old(self).next_plan() {
                Plan::Refuse(reason) => final(self).queue().stopped == Some(
                    Stopped { last_recorded: old(self).queue().appended, reason },
                ) && final(self).stored() == old(self).stored(),
                _ => final(self).queue().stopped matches Some(stop) ==> answered(
                    old(self).storage(),
                    final(self).storage(),
                    stop.reason,
                ),
            },
            grew(old(self).storage(), final(self).storage()),
            final(self).queue().stopped matches Some(stop) ==> stop.last_recorded == final(
                self).queue().appended,
            match stepped {
                Stepped::Idle => {
                    &&& old(self).queue().stopped is None && old(self).queue().backlog.len() == 0
                    &&& old(self).queue().accepting
                    &&& final(self).queue() == old(self).queue()
                    &&& final(self).storage() == old(self).storage()
                },
                Stepped::Recorded => {
                    &&& old(self).queue().stopped is None && final(self).queue().stopped is None
                    &&& old(self).queue().backlog.len() > 0
                    &&& final(self).queue().backlog == old(self).queue().backlog.skip(1)
                    &&& final(self).stored() == old(self).with_next_record()
                    &&& chain_records(final(self).stored()) == chain_records(
                        old(self).stored(),
                    ).push(old(self).queue().backlog[0])
                    &&& sequence_model(final(self).queue().appended) == Some(
                        old(self).queue().backlog[0].sequence,
                    )
                    &&& final(self).queue().synced == if old(self).next_plan() is Rotate {
                        old(self).queue().appended
                    } else {
                        old(self).queue().synced
                    }
                },
                Stepped::Done(report) => {
                    &&& report == old(self).queue().report(final(self).queue())
                    &&& old(self).queue().stopped is Some || (old(self).queue().backlog.len() == 0
                        && !old(self).queue().accepting) || final(self).queue().stopped is Some
                    &&& old(self).queue().stopped is Some || old(self).queue().backlog.len() == 0
                        ==> final(self).queue() == old(self).queue() && final(self).storage()
                        == old(self).storage()
                    &&& old(self).queue().stopped is None && old(self).queue().backlog.len() > 0
                        ==> {
                        &&& final(self).queue().backlog.len() == 0
                        &&& final(self).queue().appended == old(self).queue().appended
                        &&& chain_records(final(self).stored()) == chain_records(
                            old(self).stored(),
                        )
                        &&& final(self).stored() == old(self).stored() || (old(
                            self).next_plan() is Rotate && final(self).stored() == with_next(
                            old(self).stored(),
                        ))
                        &&& final(self).queue().synced == old(self).queue().synced || (old(
                            self).next_plan() is Rotate && final(self).queue().synced == old(
                            self).queue().appended)
                    }
                },
            },
    {
        proof {
            reveal(RecorderThread::wf);
        }
        let ghost before = self.storage();
        let record = match self.recorder.next_record() {
            Next::Done => return Stepped::Done(None),
            Next::Idle => return Stepped::Idle,
            Next::Record(record) => record,
        };
        let mut writer = match self.writer.take() {
            Some(writer) => writer,
            None => return Stepped::Done(None),
        };
        let sequence = record.sequence;
        let result = writer.write(&record);
        let ghost mid = writer@;
        self.recorder.note_progress(writer.segments(), writer.synced());
        match self.recorder.settle(sequence, result) {
            Settled::Beyond(report) => {
                give_up(&mut writer);
                self.writer = Some(writer);
                proof {
                    lemma_grew_on(before, Some(mid), self.storage());
                }
                Stepped::Done(report)
            },
            Settled::Recorded => {
                writer.confirm(sequence);
                self.writer = Some(writer);
                Stepped::Recorded
            },
        }
    }

    /// Appends the next queued record, and syncs behind it where that is due. What is
    /// appended is the record that was queued first, and then it is the last one of
    /// the recording; a record that storage or the limits refuse ends the recording
    /// at the one before it.
    pub fn step(&mut self, sync_due: bool) -> (stepped: Stepped)
        requires
            old(self).wf(),
            old(self).can_step(),
        ensures
            final(self).wf(),
            final(self).queue() == (RecorderModel {
                backlog: final(self).queue().backlog,
                appended: final(self).queue().appended,
                synced: final(self).queue().synced,
                segments: final(self).stored().len() as u32,
                stopped: final(self).queue().stopped,
                ..old(self).queue()
            }),
            final(self).stored().len() + final(self).queue().backlog.len() <= old(
                self).stored().len() + old(self).queue().backlog.len(),
            old(self).queue().stopped is None && old(self).queue().backlog.len() > 0
                ==> match old(self).next_plan() {
                Plan::Refuse(reason) => final(self).queue().stopped == Some(
                    Stopped { last_recorded: old(self).queue().appended, reason },
                ) && final(self).stored() == old(self).stored(),
                _ => final(self).queue().stopped matches Some(stop) ==> answered(
                    old(self).storage(),
                    final(self).storage(),
                    stop.reason,
                ),
            },
            stop_stays(old(self).queue(), final(self).queue()),
            grew(old(self).storage(), final(self).storage()),
            final(self).queue().stopped matches Some(stop) ==> stop.last_recorded == final(
                self).queue().appended,
            match stepped {
                Stepped::Idle => {
                    &&& old(self).queue().stopped is None && old(self).queue().backlog.len() == 0
                    &&& old(self).queue().accepting
                    &&& final(self).queue() == old(self).queue()
                    &&& final(self).storage() == old(self).storage()
                },
                Stepped::Recorded => {
                    &&& old(self).queue().stopped is None && final(self).queue().stopped is None
                    &&& old(self).queue().backlog.len() > 0
                    &&& final(self).queue().backlog == old(self).queue().backlog.skip(1)
                    &&& final(self).stored() == old(self).with_next_record()
                    &&& chain_records(final(self).stored()) == chain_records(
                        old(self).stored(),
                    ).push(old(self).queue().backlog[0])
                    &&& sequence_model(final(self).queue().appended) == Some(
                        old(self).queue().backlog[0].sequence,
                    )
                    &&& final(self).queue().synced == if sync_due {
                        final(self).queue().appended
                    } else if old(self).next_plan() is Rotate {
                        old(self).queue().appended
                    } else {
                        old(self).queue().synced
                    }
                },
                Stepped::Done(report) => {
                    &&& report == old(self).queue().report(final(self).queue())
                    &&& old(self).queue().stopped is Some || (old(self).queue().backlog.len() == 0
                        && !old(self).queue().accepting) || final(self).queue().stopped is Some
                    &&& old(self).queue().stopped is Some || old(self).queue().backlog.len() == 0
                        ==> final(self).queue() == old(self).queue() && final(self).storage()
                        == old(self).storage()
                    &&& old(self).queue().stopped is None && old(self).queue().backlog.len() > 0
                        ==> {
                        &&& final(self).queue().backlog.len() == 0
                        &&& {
                            ||| {
                                &&& final(self).queue().appended == old(self).queue().appended
                                &&& chain_records(final(self).stored()) == chain_records(
                                    old(self).stored(),
                                )
                                &&& final(self).stored() == old(self).stored() || (old(
                                    self).next_plan() is Rotate && final(self).stored()
                                    == with_next(old(self).stored()))
                            }
                            ||| {
                                &&& sync_due
                                &&& sequence_model(final(self).queue().appended) == Some(
                                    old(self).queue().backlog[0].sequence,
                                )
                                &&& final(self).stored() == old(self).with_next_record()
                                &&& chain_records(final(self).stored()) == chain_records(
                                    old(self).stored(),
                                ).push(old(self).queue().backlog[0])
                            }
                        }
                        &&& final(self).queue().synced == old(self).queue().synced || (old(
                            self).next_plan() is Rotate && final(self).queue().synced == old(
                            self).queue().appended)
                    }
                },
            },
    {
        let ghost start = self.storage();
        let stepped = self.append_next();
        if sync_due && matches!(stepped, Stepped::Recorded) {
            let ghost here = self.storage();
            let report = self.sync();
            proof {
                lemma_grew_on(start, here, self.storage());
            }
            if report.is_some() {
                return Stepped::Done(report);
            }
        }
        stepped
    }

    /// Accepts nothing further.
    fn close(&mut self)
        requires
            old(self).wf(),
        ensures
            final(self).wf(),
            final(self).storage() == old(self).storage(),
            final(self).queue() == (RecorderModel { accepting: false, ..old(self).queue() }),
    {
        proof {
            reveal(RecorderThread::wf);
        }
        self.recorder.close();
    }

    /// Accepts nothing further and appends what is queued, up to a stop. Returns the
    /// stop where this was its cause.
    fn drain(&mut self) -> (report: Option<Stopped>)
        requires
            old(self).wf(),
            old(self).has_room(),
        ensures
            final(self).wf(),
            final(self).queue() == (RecorderModel {
                backlog: Seq::empty(),
                accepting: false,
                appended: final(self).queue().appended,
                synced: final(self).queue().synced,
                segments: final(self).stored().len() as u32,
                stopped: final(self).queue().stopped,
                ..old(self).queue()
            }),
            report == old(self).queue().report(final(self).queue()),
            old(self).queue().stopped is Some ==> final(self).queue() == (RecorderModel {
                accepting: false,
                ..old(self).queue()
            }) && final(self).storage() == old(self).storage(),
            final(self).queue().stopped is None ==> final(self).stored() == recorded_all(
                old(self).stored(),
                old(self).queue().limits,
                old(self).queue().backlog,
            ),
            final(self).queue().stopped is None ==> chain_records(final(self).stored())
                == chain_records(old(self).stored()) + old(self).queue().backlog,
            chain_records(final(self).stored()).is_prefix_of(
                chain_records(old(self).stored()) + old(self).queue().backlog,
            ),
            grew(old(self).storage(), final(self).storage()),
            report matches Some(stop) ==> caused(*old(self), *final(self), stop.reason),
    {
        let ghost start = *self;
        let ghost records = chain_records(self.stored());
        let ghost queued = self.queue().backlog;
        let ghost stopped_before = self.queue().stopped;
        let mut report: Option<Stopped> = None;
        self.close();
        let ghost mut k: int = 0;
        let mut going = true;
        proof {
            assert(queued.skip(0) =~= queued);
            assert(records + queued.take(0) =~= records);
            assert(start.queue().segments == start.stored().len() && (start.queue().stopped is Some
                ==> start.queue().backlog.len() == 0)) by {
                reveal(RecorderThread::wf);
            }
        }
        while going
            invariant
                self.wf(),
                self.has_room(),
                start.wf(),
                self.queue() == (RecorderModel {
                    backlog: self.queue().backlog,
                    accepting: false,
                    appended: self.queue().appended,
                    synced: self.queue().synced,
                    segments: self.stored().len() as u32,
                    stopped: self.queue().stopped,
                    ..start.queue()
                }),
                self.queue().stopped is Some ==> self.queue().backlog.len() == 0,
                stopped_before is Some ==> self.queue() == (RecorderModel {
                    accepting: false,
                    ..start.queue()
                }) && self.storage() == start.storage(),
                stopped_before == start.queue().stopped,
                self.queue().stopped is None ==> self.stored() == recorded_all(
                    start.stored(),
                    start.queue().limits,
                    queued.take(k),
                ),
                0 <= k <= queued.len(),
                chain_records(self.stored()) == records + queued.take(k),
                self.queue().stopped is None ==> self.queue().backlog == queued.skip(k),
                stopped_before is Some ==> self.queue().stopped == stopped_before && k == 0,
                report == (if stopped_before is None {
                    self.queue().stopped
                } else {
                    None
                }),
                !going ==> self.queue().stopped is Some || k == queued.len(),
                grew(start.storage(), self.storage()),
                records == chain_records(start.stored()),
                queued == start.queue().backlog,
                report matches Some(stop) ==> caused(start, *self, stop.reason),
            decreases queued.len() - k + if going {
                1int
            } else {
                0int
            },
        {
            let ghost here = self.queue();
            let ghost before = *self;
            let stepped = self.step(false);
            proof {
                lemma_grew_on(start.storage(), before.storage(), self.storage());
            }
            match stepped {
                Stepped::Recorded => {
                    proof {
                        assert(here.backlog[0] == queued[k]);
                        assert(queued.skip(k).skip(1) =~= queued.skip(k + 1));
                        assert(queued.take(k + 1).drop_last() =~= queued.take(k));
                        assert(records + queued.take(k + 1) =~= (records + queued.take(k)).push(
                            queued[k],
                        ));
                        k = k + 1;
                    }
                },
                Stepped::Idle => {
                    going = false;
                },
                Stepped::Done(stop) => {
                    proof {
                        if here.stopped is None && here.backlog.len() > 0 {
                            assert(here.backlog[0] == queued[k]);
                            assert(chain_records(self.stored()).len() == records.len() + k);
                        }
                    }
                    if stop.is_some() {
                        report = stop;
                    }
                    going = false;
                },
            }
        }
        proof {
            let all = records + queued;
            let held = records + queued.take(k);
            assert(held =~= all.subrange(0, held.len() as int));
            if k == queued.len() {
                assert(queued.take(k) =~= queued);
            }
            assert(self.queue().backlog =~= Seq::empty());
        }
        report
    }

    /// Syncs what was appended. Returns the stop where this was its cause.
    fn sync(&mut self) -> (report: Option<Stopped>)
        requires
            old(self).wf(),
        ensures
            final(self).wf(),
            final(self).stored() == old(self).stored(),
            grew(old(self).storage(), final(self).storage()),
            report == old(self).queue().report(final(self).queue()),
            report matches Some(stop) ==> answered(
                old(self).storage(),
                final(self).storage(),
                stop.reason,
            ),
            match report {
                Some(stop) => final(self).queue() == old(self).queue().stop(stop.reason),
                None => final(self).queue() == (RecorderModel {
                    synced: final(self).queue().synced,
                    ..old(self).queue()
                }),
            },
            asked_to_sync(old(self).storage(), final(self).storage()),
            final(self).queue().synced == synced_of(final(self).storage()),
            final(self).queue().stopped is None || !sync_refused(final(self).storage())
                ==> final(self).queue().synced == final(self).queue().appended,
    {
        proof {
            reveal(RecorderThread::wf);
        }
        let mut writer = match self.writer.take() {
            Some(writer) => writer,
            None => return None,
        };
        let ghost before = writer@;
        proof {
            writer.lemma_model();
        }
        let synced = writer.sync();
        proof {
            writer.lemma_model();
            lemma_sync_grew(
                before,
                writer@,
                match synced {
                    Err(StopReason::WriteFailed(kind)) => Some(kind),
                    _ => None,
                },
            );
        }
        self.recorder.note_progress(writer.segments(), writer.synced());
        self.writer = Some(writer);
        match synced {
            Ok(()) => None,
            Err(reason) => self.recorder.stop(reason),
        }
    }

    /// Accepts nothing further, appends what is queued, syncs, and returns how the
    /// recording ended, with the stop where finishing was its cause.
    ///
    /// A recording that did not stop holds everything that was queued, and all of it
    /// is synced. One that stopped holds an exact prefix of that, and its report names
    /// the last record it holds; all of that is synced too, unless storage refused. One
    /// that had stopped before is returned with that stop, and is what it was.
    pub fn finish(&mut self) -> (ended: (RecorderSummary, Option<Stopped>))
        requires
            old(self).wf(),
            old(self).has_room(),
        ensures
            final(self).wf(),
            sequence_model(ended.0.last_recorded) == last_stored(final(self).stored()),
            final(self).torn() ==> (ended.0.stopped matches Some(stop)
                && stop.reason is WriteFailed),
            ended.0 == (RecorderSummary {
                last_recorded: final(self).queue().appended,
                last_synced: final(self).queue().synced,
                stopped: final(self).queue().stopped,
                segments: final(self).queue().segments,
            }),
            ended.0.segments == final(self).stored().len(),
            ended.0.stopped matches Some(stop) ==> stop.last_recorded == ended.0.last_recorded,
            ended.1 matches Some(stop) ==> caused(*old(self), *final(self), stop.reason),
            ended.1 == old(self).queue().report(final(self).queue()),
            old(self).queue().stopped is Some ==> {
                &&& ended.0.stopped == old(self).queue().stopped
                &&& ended.1 is None
                &&& final(self).stored() == old(self).stored()
                &&& asked_to_sync(old(self).storage(), final(self).storage())
            },
            final(self).queue() == (RecorderModel {
                backlog: Seq::empty(),
                accepting: false,
                appended: ended.0.last_recorded,
                synced: ended.0.last_synced,
                segments: ended.0.segments,
                stopped: ended.0.stopped,
                writer_done: true,
                ..old(self).queue()
            }),
            stop_stays(old(self).queue(), final(self).queue()),
            ended.0.last_synced == synced_of(final(self).storage()),
            !sync_refused(final(self).storage()) ==> ended.0.last_synced == ended.0.last_recorded,
            grew(old(self).storage(), final(self).storage()),
            ended.0.stopped is None ==> {
                &&& final(self).stored() == recorded_all(
                    old(self).stored(),
                    old(self).queue().limits,
                    old(self).queue().backlog,
                )
                &&& chain_records(final(self).stored()) == chain_records(old(self).stored()) + old(
                    self).queue().backlog
                &&& ended.0.last_synced == ended.0.last_recorded
            },
            ended.0.stopped is Some ==> chain_records(final(self).stored()).is_prefix_of(
                chain_records(old(self).stored()) + old(self).queue().backlog,
            ),
    {
        proof {
            reveal(RecorderThread::wf);
        }
        let ghost start = *self;
        let drained = self.drain();
        let ghost here = *self;
        let unsynced = self.sync();
        proof {
            lemma_grew_on(start.storage(), here.storage(), self.storage());
        }
        let report = if drained.is_some() {
            drained
        } else {
            unsynced
        };
        self.recorder.writer_finished();
        let (summary, _) = self.recorder.finish();
        (summary, report)
    }
}

/// A recording that has stopped stays stopped, with that stop.
pub open spec fn stop_stays(before: RecorderModel, after: RecorderModel) -> bool {
    before.stopped is Some ==> after.stopped == before.stopped
}

/// What starting a recording and then taking it through these states hands out to be
/// reported, in order.
pub open spec fn handed_out(states: Seq<RecorderModel>) -> Seq<Stopped>
    decreases states.len(),
{
    if states.len() == 0 {
        Seq::empty()
    } else {
        let head = handed_out(states.drop_last());
        let report = if states.len() == 1 {
            states[0].stopped
        } else {
            states[states.len() - 2].report(states.last())
        };
        match report {
            Some(stop) => head.push(stop),
            None => head,
        }
    }
}

/// From its start on, through everything that keeps a stop, as recording output and window
/// sizes, appending, and finishing do, a recorder hands out its stop exactly once where it
/// has stopped, and nothing where it has not. So what finishing returns as stopped was
/// reported by then, with that stop, and what it returns as not stopped was never reported.
pub proof fn law_thread_reports_its_stop_once(states: Seq<RecorderModel>)
    requires
        states.len() > 0,
        forall|i: int|
            0 <= i < states.len() - 1 ==> stop_stays(#[trigger] states[i], states[i + 1]),
    ensures
        handed_out(states) == (match states.last().stopped {
            Some(stop) => seq![stop],
            None => Seq::empty(),
        }),
    decreases states.len(),
{
    let head = states.drop_last();
    if states.len() == 1 {
        assert(handed_out(head) =~= Seq::empty());
    } else {
        assert forall|i: int| 0 <= i < head.len() - 1 implies stop_stays(
            #[trigger] head[i],
            head[i + 1],
        ) by {
            assert(stop_stays(states[i], states[i + 1]));
        }
        law_thread_reports_its_stop_once(head);
        assert(stop_stays(states[states.len() - 2], states[states.len() - 1]));
    }
    if let Some(stop) = states.last().stopped {
        assert(Seq::<Stopped>::empty().push(stop) =~= seq![stop]);
    }
}

/// What storage was asked is what it was asked before, and more.
pub open spec fn grew(before: Option<StorageModel>, after: Option<StorageModel>) -> bool {
    match (before, after) {
        (Some(b), Some(a)) => a.grew_from(b),
        (b, a) => b == a,
    }
}

/// The last thing that the open segment was asked was to sync, and it refused.
pub open spec fn sync_refused(storage: Option<StorageModel>) -> bool {
    &&& storage matches Some(w)
    &&& w.calls.len() > 0
    &&& w.calls.last().len() > 0
    &&& w.calls.last().last() matches FileCall::Sync { error }
    &&& error is Some
}

/// The last record that storage is known to have synced.
pub open spec fn synced_of(storage: Option<StorageModel>) -> Option<Sequence> {
    match storage {
        Some(w) => w.synced,
        None => None,
    }
}

/// Storage was asked to sync, where anything waited for that, and nothing else.
pub open spec fn asked_to_sync(
    before: Option<StorageModel>,
    after: Option<StorageModel>,
) -> bool {
    match (before, after) {
        (Some(b), Some(a)) => exists|error: Option<ErrorKind>| a == #[trigger] b.after_sync(error),
        (b, a) => b == a,
    }
}

/// Storage refused a request in between, and this reason carries its answer.
pub open spec fn answered(
    before: Option<StorageModel>,
    after: Option<StorageModel>,
    reason: StopReason,
) -> bool {
    &&& reason matches StopReason::WriteFailed(kind)
    &&& before matches Some(b)
    &&& after matches Some(a)
    &&& a.answered_since(b, kind)
}

/// What can stop a recording while its queue is appended: storage refused a request, or
/// the limits refuse the record behind the last one that was appended.
pub open spec fn caused<S: SegmentStore>(
    before: RecorderThread<S>,
    after: RecorderThread<S>,
    reason: StopReason,
) -> bool {
    let k = chain_records(after.stored()).len() - chain_records(before.stored()).len();
    ||| answered(before.storage(), after.storage(), reason)
    ||| 0 <= k < before.queue().backlog.len() && plan_of(
        after.stored(),
        before.queue().limits,
        before.queue().backlog[k],
    ) == Plan::Refuse(reason)
}

proof fn lemma_grew_on(
    before: Option<StorageModel>,
    mid: Option<StorageModel>,
    after: Option<StorageModel>,
)
    requires
        grew(before, mid),
        grew(mid, after),
    ensures
        grew(before, after),
        forall|reason: StopReason| #[trigger]
            answered(mid, after, reason) ==> answered(before, after, reason),
        forall|reason: StopReason| #[trigger]
            answered(before, mid, reason) ==> answered(before, after, reason),
{
    if let (Some(b), Some(m)) = (before, mid) {
        if let Some(a) = after {
            lemma_grew_further(b, m, a);
        }
    }
}

/// A sync asks storage at most once, and its failure is what storage answered.
proof fn lemma_sync_grew(before: StorageModel, after: StorageModel, error: Option<ErrorKind>)
    requires
        before.wf(),
        after == before.after_sync(error),
    ensures
        after.grew_from(before),
        before.unsynced ==> (error matches Some(kind) ==> after.answered_since(before, kind)),
{
    if before.unsynced {
        lemma_call_grew(before, after, FileCall::Sync { error });
    } else {
        lemma_unasked(before, after);
    }
}

/// Cuts off what a failed append may have left, and takes no further record: what storage
/// took stays as it is, and the bytes there are exactly that, unless storage did not cut
/// them back. Where nothing was left, nothing is cut.
fn give_up<S: SegmentStore>(writer: &mut Writer<S>)
    requires
        old(writer).wf(),
        old(writer)@.prepared is None,
        old(writer)@.mark matches Some(m) ==> m == old(writer)@.segment_len(),
    ensures
        final(writer).wf(),
        final(writer)@ == (StorageModel {
            disk: final(writer)@.disk,
            durable: final(writer)@.durable,
            torn: final(writer)@.torn,
            calls: final(writer)@.calls,
            mark: None,
            failed: true,
            ..old(writer)@
        }),
        final(writer)@.grew_from(old(writer)@),
        match old(writer)@.mark {
            None => final(writer)@ == (StorageModel { failed: true, ..old(writer)@ }),
            Some(m) => {
                &&& exists|error: Option<ErrorKind>|
                    final(writer)@.calls == with_call(
                        old(writer)@.calls,
                        #[trigger] cut_call(m, error),
                    ) && final(writer)@.torn == (error is Some)
                &&& !final(writer)@.torn ==> final(writer)@.disk == chain_bytes(
                    old(writer)@.stored,
                )
            },
        },
{
    let ghost before = writer@;
    proof {
        writer.lemma_model();
    }
    writer.cut_back();
    proof {
        let error = choose|error: Option<ErrorKind>|
            writer@ == (StorageModel {
                disk: if error is None || before.mark is None {
                    (#[trigger] before.after_cut(error)).disk
                } else {
                    writer@.disk
                },
                durable: if before.mark is None {
                    before.durable
                } else {
                    writer@.durable
                },
                ..before.after_cut(error)
            });
        if let Some(m) = before.mark {
            assert(before.confirmed() == before.stored);
            lemma_call_grew(before, writer@, cut_call(m, error));
        } else {
            lemma_unasked(before, writer@);
        }
    }
}

/// A cut, and what came of it.
pub open spec fn cut_call(len: u64, error: Option<ErrorKind>) -> FileCall {
    FileCall::Truncate { len, error }
}

/// What a recorder calls synced is on stable storage: the bytes that are sure to be there
/// hold a recording that decodes, up to the record that is called synced, and it is the
/// start of what was recorded.
pub proof fn law_synced_records_are_safe<S: SegmentStore>(thread: &RecorderThread<S>)
    requires
        thread.wf(),
    ensures
        thread.queue().synced is Some ==> thread.storage() is Some,
        thread.storage() matches Some(w) ==> {
            &&& sequence_model(thread.queue().synced) == last_stored(w.safe)
            &&& kept(w.safe, w.durable)
            &&& chain_records(w.safe).is_prefix_of(chain_records(thread.stored()))
            &&& w.safe.len() > 0 ==> parse_recording(chain_bytes(w.safe)) == Ok::<
                RecordingModel,
                ErrorModel,
            >(
                RecordingModel {
                    header: w.safe[0].header,
                    segment_count: w.safe.len(),
                    records: chain_records(w.safe),
                    end: SegmentEnd::Clean,
                },
            )
        },
{
    reveal(RecorderThread::wf);
    if let Some(writer) = thread.writer {
        writer.lemma_model();
        law_synced_is_on_stable_storage(writer@);
    }
}

/// Whatever state a recorder is in, the bytes in storage decode to exactly the records
/// that it calls recorded, the last of which is the one that its reports name, and are
/// never more than the size limit; only a storage failure whose rest could not be cut
/// off is excluded.
pub proof fn law_storage_holds_the_recording<S: SegmentStore>(thread: &RecorderThread<S>)
    requires
        thread.wf(),
        thread.stored().len() > 0,
    ensures
        thread.torn() ==> (thread.queue().stopped matches Some(stop) && stop.reason is WriteFailed),
        !thread.torn() ==> parse_recording(thread.disk()) == Ok::<RecordingModel, ErrorModel>(
            RecordingModel {
                header: thread.stored()[0].header,
                segment_count: thread.stored().len(),
                records: chain_records(thread.stored()),
                end: SegmentEnd::Clean,
            },
        ),
        sequence_model(thread.queue().appended) == last_stored(thread.stored()),
        total_bytes(thread.stored()) <= thread.queue().limits.max_bytes,
{
    reveal(RecorderThread::wf);
    if let Some(writer) = thread.writer {
        writer.lemma_model();
        if !writer@.torn {
            law_stored_recording_decodes(writer@);
        }
    }
}

/// Offering output changes neither the limits nor whether anything is accepted.
proof fn lemma_offered_keeps(m: RecorderModel, bytes: Seq<u8>, elapsed_ns: u64)
    ensures
        m.offered(bytes, elapsed_ns).limits == m.limits,
        m.offered(bytes, elapsed_ns).appended == m.appended,
        m.offered(bytes, elapsed_ns).synced == m.synced,
        m.offered(bytes, elapsed_ns).segments == m.segments,
        m.stopped is Some ==> m.offered(bytes, elapsed_ns) == m,
    decreases bytes.len(),
{
    if bytes.len() > MAX_PAYLOAD {
        lemma_offered_keeps(
            m.enqueued(KindModel::Output(bytes.take(MAX_PAYLOAD as int)), elapsed_ns),
            bytes.skip(MAX_PAYLOAD as int),
            elapsed_ns,
        );
    }
}

// What each operation does, in terms of what it was given and what it gave back.

/// Output and window sizes that are given to a running recorder are queued as its
/// sequencer queues them, with the same report, and storage is not asked. A window size
/// that was not applied is not recorded, and the error is handed on.
pub proof fn law_thread_queues_as_its_recorder<S: SegmentStore>(
    thread: &mut RecorderThread<S>,
    recorder: &mut Recorder,
    bytes: &[u8],
    elapsed_ns: u64,
    report: Option<Stopped>,
    told: Option<Stopped>,
    sized: &mut RecorderThread<S>,
    geometry: Geometry,
    cause: ResizeCause,
    applied: Result<(), ErrorKind>,
    answer: Result<Option<Stopped>, ErrorKind>,
)
    requires
        old(thread).wf(),
        old(sized).wf(),
        old(recorder)@ == old(thread).queue(),
        call_ensures(RecorderThread::<S>::output, (thread, bytes, elapsed_ns), report),
        call_ensures(Recorder::output, (recorder, bytes, elapsed_ns), told),
        call_ensures(
            RecorderThread::<S>::resize_applied,
            (sized, geometry, cause, applied, elapsed_ns),
            answer,
        ),
    ensures
        final(thread).queue() == final(recorder)@,
        report == told,
        final(thread).storage() == old(thread).storage(),
        final(sized).storage() == old(sized).storage(),
        applied matches Err(kind) ==> answer == Err::<Option<Stopped>, ErrorKind>(kind) && final(sized).queue() == old(sized).queue(),
        applied is Ok ==> answer is Ok && final(sized).queue() == old(sized).queue().enqueued(
            KindModel::Resize { geometry: geometry@, cause: cause@ },
            elapsed_ns,
        ),
{
}

/// A recording starts with its first segment published and nothing recorded, or stopped:
/// for its header where that does not start with the first record, for its size where the
/// header alone is too large, and otherwise with the store's own error. A recording that
/// did not start has stored nothing.
pub proof fn law_recording_starts_or_stops<S: SegmentStore>(
    header: SegmentHeader,
    store: S,
    limits: RecorderLimits,
    started: (RecorderThread<S>, Option<Stopped>),
)
    requires
        header.segment_index == 0,
        call_ensures(RecorderThread::<S>::start, (header, store, limits), started),
    ensures
        started.0.queue().backlog.len() == 0,
        started.0.queue().appended is None && started.0.queue().synced is None,
        started.0.queue().accepting,
        started.0.queue().limits == limits,
        started.0.queue().stopped == started.1,
        started.1 is None ==> header@.first_sequence == 1 && header_bytes(header@).len()
            <= limits.max_bytes,
        started.1 is None ==> started.0.queue().segments == 1 && started.0.queue().next == Some(
            1u64,
        ) && chain_bytes(started.0.stored()) =~= seq![header_bytes(header@)],
        started.1 matches Some(stop) ==> {
            &&& stop.last_recorded is None
            &&& started.0.stored().len() == 0 && started.0.queue().segments == 0
            &&& started.0.queue().writer_done
            &&& header@.first_sequence != 1 ==> stop.reason == StopReason::WriteFailed(
                ErrorKind::InvalidInput,
            )
            &&& header@.first_sequence == 1 ==> (stop.reason == StopReason::SizeLimit
                <==> header_bytes(header@).len() > limits.max_bytes)
            &&& header@.first_sequence == 1 && header_bytes(header@).len() <= limits.max_bytes
                ==> (started.0.storage() matches Some(storage)
                && storage.requested.last().error == Some(stop.reason->WriteFailed_0))
        },
{
    if started.1 is None {
        let stored = started.0.stored();
        assert(records_bytes(Seq::<RecordModel>::empty()) =~= Seq::<u8>::empty());
        assert(segment_bytes(header@, Seq::empty()) =~= header_bytes(header@));
    }
}

/// A step records the record that was queued first, and nothing else: it leaves the queue,
/// is the last of the recording then, and is synced where that was due. Where it cannot be
/// recorded the recording ends, its queue is dropped, and the stop names the last record
/// that was. There is nothing to do while nothing is queued, and nothing more to do once
/// the recording has stopped or nothing more is accepted.
#[verifier::rlimit(40)]
pub proof fn law_step_records_what_was_queued_first<S: SegmentStore>(
    thread: &mut RecorderThread<S>,
    sync_due: bool,
    stepped: Stepped,
)
    requires
        old(thread).wf(),
        old(thread).can_step(),
        call_ensures(RecorderThread::<S>::step, (thread, sync_due), stepped),
    ensures
        ({
            let q = old(thread).queue();
            let after = final(thread).queue();
            let before_records = chain_records(old(thread).stored());
            let records = chain_records(final(thread).stored());
            &&& after.limits == q.limits && after.next == q.next && after.accepting == q.accepting
            &&& after.segments == final(thread).stored().len() as u32
            &&& q.stopped is Some ==> stepped == Stepped::Done(None) && after == q && records
                == before_records
            &&& q.stopped is None && q.backlog.len() == 0 ==> after == q && records
                == before_records && stepped == (if q.accepting {
                Stepped::Idle
            } else {
                Stepped::Done(None)
            })
            &&& q.stopped is None && q.backlog.len() > 0 ==> {
                &&& stepped is Recorded <==> after.stopped is None
                &&& stepped is Recorded ==> {
                    &&& after.backlog == q.backlog.skip(1)
                    &&& records == before_records.push(q.backlog[0])
                    &&& sequence_model(after.appended) == Some(q.backlog[0].sequence)
                    &&& sync_due ==> after.synced == after.appended
                }
                &&& after.stopped matches Some(stop) ==> {
                    &&& stepped == Stepped::Done(Some(stop))
                    &&& stop.last_recorded == after.appended
                    &&& after.backlog.len() == 0
                    &&& records == before_records && after.appended == q.appended || (sync_due
                        && records == before_records.push(q.backlog[0]) && sequence_model(
                        after.appended,
                    ) == Some(q.backlog[0].sequence))
                }
            }
        }),
{
}

/// What finishing leaves: nothing queued, nothing accepted. The summary tells what is in
/// storage: its last record and how many segments it has. A recording that did not stop
/// holds all that was recorded and queued, in order, and all of it is synced. One that
/// stopped holds the start of that, and its stop names the last record that it holds. A
/// stop is told by finishing exactly where it was not stopped before.
#[verifier::rlimit(40)]
pub proof fn law_finished_recording_is_told_as_it_is<S: SegmentStore>(
    thread: &mut RecorderThread<S>,
    ended: (RecorderSummary, Option<Stopped>),
)
    requires
        old(thread).wf(),
        old(thread).has_room(),
        call_ensures(RecorderThread::<S>::finish, (thread,), ended),
    ensures
        ({
            let q = old(thread).queue();
            let all = chain_records(old(thread).stored()) + q.backlog;
            let records = chain_records(final(thread).stored());
            let summary = ended.0;
            &&& final(thread).queue().backlog.len() == 0
            &&& !final(thread).queue().accepting
            &&& final(thread).queue().writer_done
            &&& summary.segments == final(thread).stored().len()
            &&& summary.last_recorded is Some <==> records.len() > 0
            &&& summary.last_recorded matches Some(last) ==> last@ == records.last().sequence
            &&& records.is_prefix_of(all) || q.stopped is Some
            &&& summary.stopped is None ==> records == all && summary.last_synced
                == summary.last_recorded && ended.1 is None
            &&& summary.stopped matches Some(stop) ==> stop.last_recorded == summary.last_recorded
            &&& q.stopped is Some ==> summary.stopped == q.stopped && ended.1 is None && final(thread).stored() == old(thread).stored()
            &&& q.stopped is None ==> ended.1 == summary.stopped
        }),
{
}

/// There is room while each record that is queued could have a segment of its own. The
/// recorder that a thread shows is its own.
pub proof fn law_room_is_counted_by_the_queue<S: SegmentStore>(
    thread: RecorderThread<S>,
    room: bool,
    recorder: &Recorder,
)
    requires
        thread.wf(),
        call_ensures(RecorderThread::<S>::is_roomy, (&thread,), room),
        call_ensures(RecorderThread::<S>::recorder, (&thread,), recorder),
    ensures
        room <==> thread.stored().len() + thread.queue().backlog.len() < u32::MAX,
        recorder@ == thread.queue(),
{
}

/// A recording that finishing stops for its size holds all that its size allows: with the
/// record behind the last that it holds, and a header where that needs a new segment, it
/// would be larger than it may be.
pub proof fn law_size_limit_is_reached<S: SegmentStore>(
    thread: &mut RecorderThread<S>,
    ended: (RecorderSummary, Option<Stopped>),
)
    requires
        old(thread).wf(),
        old(thread).has_room(),
        call_ensures(RecorderThread::<S>::finish, (thread,), ended),
        ended.1 matches Some(stop) && stop.reason is SizeLimit,
    ensures
        ({
            let all = chain_records(old(thread).stored()) + old(thread).queue().backlog;
            let kept = chain_records(final(thread).stored());
            let next = all[kept.len() as int];
            let open = final(thread).stored().last();
            &&& kept.len() < all.len()
            &&& total_bytes(final(thread).stored()) + record_bytes(next).len() + header_bytes(
                rotated(open).header,
            ).len() > old(thread).queue().limits.max_bytes
        }),
{
    let before = chain_records(old(thread).stored());
    let all = before + old(thread).queue().backlog;
    let kept = chain_records(final(thread).stored());
    let k = kept.len() - before.len();
    let r = old(thread).queue().backlog[k];
    assert(all[kept.len() as int] == r);
    let next = rotated(final(thread).stored().last());
    assert(seq![r].drop_last() =~= Seq::<RecordModel>::empty());
    assert(records_bytes(Seq::<RecordModel>::empty()) =~= Seq::<u8>::empty());
    assert(records_bytes(seq![r]) =~= record_bytes(r));
    assert(segment_bytes(next.header, seq![r]).len() == header_bytes(next.header).len()
        + record_bytes(r).len());
}

} // verus!
