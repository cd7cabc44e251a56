//! Recording a run's terminal.

use std::cell::RefCell;
use std::rc::Rc;
use tendr::io_error::ErrorKind;
use tendr::model::ids::RunId;
use tendr::recorder::storage::{is_segment_name, segment_name};
use tendr::recorder::thread::Stepped;
use tendr::recorder::{
    sync_step, Next, Recorder, RecorderLimits, RecorderThread, SegmentFile, SegmentStore, Settled,
    StopReason, Stopped, SyncStep, Writer, DEFAULT_CLOSE_TIMEOUT, DEFAULT_MAX_BYTES,
    DEFAULT_SEGMENT_BYTES, SYNC_INTERVAL,
};
use tendr::recording::{
    decode_recording, DecodedRecording, Geometry, Record, RecordKind, ResizeCause, SegmentEncoder,
    SegmentEnd, SegmentHeader, Sequence, TermName,
};

fn header() -> SegmentHeader {
    SegmentHeader {
        run_id: RunId::from_v7(0x0190_0000_0000_7000, 1).unwrap(),
        segment_index: 0,
        first_sequence: Sequence::first(),
        origin_unix_ns: 1,
        geometry: Geometry::new(24, 80).unwrap(),
        input_recorded: false,
        term: TermName::new("xterm-256color").unwrap(),
    }
}

/// An in-memory store whose writes can fail.
#[derive(Clone, Default)]
struct MemoryStore {
    segments: Rc<RefCell<Vec<Vec<u8>>>>,
    fail_after_bytes: Option<usize>,
    refuses_to_publish: bool,
    refuses_to_sync: bool,
    refuses_to_cut: bool,
    /// How much of each segment is on stable storage.
    durable: Rc<RefCell<Vec<usize>>>,
    /// What the segments were asked.
    calls: Rc<RefCell<Vec<String>>>,
}

impl MemoryStore {
    fn total_bytes(&self) -> usize {
        self.segments.borrow().iter().map(|s| s.len()).sum()
    }

    fn decoded(&self) -> DecodedRecording {
        let segments = self.segments.borrow();
        let slices: Vec<&[u8]> = segments.iter().map(|s| s.as_slice()).collect();
        decode_recording(&slices).expect("recording decodes")
    }
}

struct MemoryFile {
    store: MemoryStore,
    index: usize,
}

impl SegmentStore for MemoryStore {
    type File = MemoryFile;

    fn publish(&mut self, index: u32, header: &[u8]) -> Result<MemoryFile, ErrorKind> {
        if self.refuses_to_publish {
            return Err(ErrorKind::NotADirectory);
        }
        let mut segments = self.segments.borrow_mut();
        assert_eq!(segments.len(), index as usize, "segments publish in order");
        segments.push(header.to_vec());
        self.durable.borrow_mut().push(header.len());
        Ok(MemoryFile {
            store: self.clone(),
            index: index as usize,
        })
    }
}

impl SegmentFile for MemoryFile {
    fn write_all(&mut self, bytes: &[u8]) -> Result<(), ErrorKind> {
        let written = self.store.total_bytes();
        self.store.calls.borrow_mut().push("write".to_owned());
        if let Some(limit) = self.store.fail_after_bytes {
            if written + bytes.len() > limit {
                let part = &bytes[..limit.saturating_sub(written)];
                self.store.segments.borrow_mut()[self.index].extend_from_slice(part);
                return Err(ErrorKind::StorageFull);
            }
        }
        self.store.segments.borrow_mut()[self.index].extend_from_slice(bytes);
        Ok(())
    }

    fn sync(&mut self) -> Result<(), ErrorKind> {
        self.store.calls.borrow_mut().push("sync".to_owned());
        if self.store.refuses_to_sync {
            Err(ErrorKind::Other)
        } else {
            self.store.durable.borrow_mut()[self.index] =
                self.store.segments.borrow()[self.index].len();
            Ok(())
        }
    }

    fn truncate(&mut self, len: u64) -> Result<(), ErrorKind> {
        self.store.calls.borrow_mut().push(format!("truncate {len}"));
        if self.store.refuses_to_cut {
            return Err(ErrorKind::PermissionDenied);
        }
        self.store.segments.borrow_mut()[self.index].truncate(len as usize);
        Ok(())
    }
}

fn outputs(recording: &DecodedRecording) -> Vec<u8> {
    let mut all = Vec::new();
    for record in &recording.records {
        if let RecordKind::Output(bytes) = &record.kind {
            all.extend_from_slice(bytes);
        }
    }
    all
}

fn last_sequence(recording: &DecodedRecording) -> Option<Sequence> {
    recording.records.last().map(|r| r.sequence)
}

fn limits() -> RecorderLimits {
    RecorderLimits::default()
}

#[test]
fn output_and_resizes_are_recorded_exactly_and_in_order() {
    let store = MemoryStore::default();
    let (mut thread, stop) = RecorderThread::start(header(), store.clone(), limits());
    assert_eq!(stop, None, "no stop expected");
    assert_eq!(thread.output(b"before\x1b[", 0), None);
    assert_eq!(
        thread.resize_applied(Geometry::new(30, 100).unwrap(), ResizeCause::User, Ok(()), 1),
        Ok(None)
    );
    assert_eq!(thread.output(b"31m\xff\xfe", 2), None);
    let (summary, stop) = thread.finish();
    assert_eq!(stop, None, "no stop expected");

    assert_eq!(summary.stopped, None);
    assert_eq!(summary.last_recorded.map(|s| s.get()), Some(3));
    assert_eq!(
        summary.last_synced, summary.last_recorded,
        "synced at close"
    );
    let recording = store.decoded();
    assert_eq!(recording.end, SegmentEnd::Clean);
    assert_eq!(outputs(&recording), b"before\x1b[31m\xff\xfe");
    assert_eq!(
        recording.records[1].kind,
        RecordKind::Resize {
            geometry: Geometry::new(30, 100).unwrap(),
            cause: ResizeCause::User
        }
    );
}

#[test]
fn a_failed_resize_is_not_recorded() {
    let store = MemoryStore::default();
    let (mut thread, _) = RecorderThread::start(header(), store.clone(), limits());
    let err = thread
        .resize_applied(
            Geometry::new(30, 100).unwrap(),
            ResizeCause::User,
            Err(ErrorKind::InvalidInput),
            0,
        )
        .unwrap_err();
    assert_eq!(err, ErrorKind::InvalidInput);
    thread.output(b"x", 0);
    let _ = thread.finish();
    let recording = store.decoded();
    assert_eq!(recording.records.len(), 1);
    assert_eq!(recording.records[0].kind, RecordKind::Output(b"x".to_vec()));
}

#[test]
fn output_larger_than_one_record_is_split_without_loss() {
    let store = MemoryStore::default();
    let (mut thread, _) = RecorderThread::start(header(), store.clone(), limits());
    let big: Vec<u8> = (0..200_000u32).map(|i| (i % 251) as u8).collect();
    thread.output(&big, 0);
    let _ = thread.finish();
    let recording = store.decoded();
    assert!(recording.records.len() > 1);
    assert_eq!(outputs(&recording), big);
}

#[test]
fn segments_rotate_into_one_contiguous_recording() {
    let store = MemoryStore::default();
    let limits = RecorderLimits {
        segment_bytes: 256,
        ..RecorderLimits::default()
    };
    let (mut thread, _) = RecorderThread::start(header(), store.clone(), limits);
    let mut expected = Vec::new();
    for i in 0..50u8 {
        let chunk = vec![i; 40];
        assert_eq!(thread.output(&chunk, i as u64), None, "no stop expected");
        expected.extend(chunk);
    }
    let (summary, stop) = thread.finish();
    assert_eq!(stop, None, "no stop expected");

    assert!(summary.segments > 1, "rotated");
    let recording = store.decoded();
    assert_eq!(recording.segment_count, summary.segments);
    assert_eq!(outputs(&recording), expected);
}

#[test]
fn reaching_the_size_limit_stops_at_the_exact_recorded_prefix() {
    let store = MemoryStore::default();
    let mut stops = Vec::new();
    let limits = RecorderLimits {
        max_bytes: 1024,
        ..RecorderLimits::default()
    };
    let (mut thread, stop) = RecorderThread::start(header(), store.clone(), limits);
    stops.extend(stop);
    for i in 0..100 {
        stops.extend(thread.output(&[b'x'; 100], i));
    }
    let (summary, stop) = thread.finish();
    stops.extend(stop);

    let stop = summary.stopped.expect("recording stopped");
    assert_eq!(stop.reason, StopReason::SizeLimit);
    assert_eq!(thread.recorder().stopped(), Some(stop));
    assert_eq!(stops, vec![stop], "reported exactly once");
    let recording = store.decoded();
    assert_eq!(
        last_sequence(&recording),
        stop.last_recorded,
        "the report names the recording's real last record"
    );
    assert!(stop.last_recorded.is_some(), "some output fit");
    let total = store.total_bytes();
    assert!(total <= 1024, "never beyond the limit ({total} bytes)");
}

#[test]
fn a_storage_failure_stops_recording_with_its_reason() {
    let store = MemoryStore {
        fail_after_bytes: Some(400),
        ..MemoryStore::default()
    };
    let (mut thread, _) = RecorderThread::start(header(), store.clone(), limits());
    for i in 0..20 {
        thread.output(&[b'y'; 50], i);
    }
    let (summary, _) = thread.finish();

    let stop = summary.stopped.expect("recording stopped");
    assert_eq!(
        stop.reason,
        StopReason::WriteFailed(ErrorKind::StorageFull)
    );
    let recording = store.decoded();
    assert_eq!(recording.end, SegmentEnd::Clean);
    assert_eq!(last_sequence(&recording), stop.last_recorded);
}

#[test]
fn stalled_storage_never_blocks_producers_and_a_full_backlog_ends_the_prefix() {
    let store = MemoryStore::default();
    let limits = RecorderLimits {
        backlog_bytes: 4096,
        ..RecorderLimits::default()
    };
    let mut recorder = Recorder::new(Sequence::first(), limits);
    let encoder = SegmentEncoder::new(header()).unwrap();
    let mut writer = Writer::new(encoder, store.clone(), limits);
    assert_eq!(writer.publish_first(), Ok(()));
    let mut stops = Vec::new();

    // Hold the first record's write in flight.
    stops.extend(recorder.output(b"in flight", 0));
    let record = match recorder.next_record() {
        Next::Record(record) => record,
        other => panic!("{other:?}"),
    };
    assert_eq!(writer.prepare(&record), Ok(()));

    for _ in 0..1000 {
        stops.extend(recorder.output(&[b'z'; 512], 1));
    }
    let stop = recorder
        .stopped()
        .expect("stopped while storage is stalled");
    assert_eq!(stop.reason, StopReason::BacklogFull);
    assert_eq!(stop.last_recorded, None, "nothing had been appended");
    assert_eq!(stops, vec![stop], "reported without waiting for storage");

    // The write that was in flight completes after the stop.
    let appended = writer.append();
    assert_eq!(appended, Ok(()));
    match recorder.settle(record.sequence, appended) {
        Settled::Beyond(None) => writer.cut_back(),
        other => panic!("{other:?}"),
    }
    recorder.writer_finished();
    let (summary, report) = recorder.finish();
    assert_eq!(report, None);
    assert_eq!(summary.stopped, Some(stop));
    let recording = store.decoded();
    assert_eq!(
        last_sequence(&recording),
        None,
        "a late append beyond the declared boundary is cut off"
    );
}

#[test]
fn storage_still_stalled_at_close_is_declared_stopped() {
    let limits = RecorderLimits {
        close_timeout: 200,
        ..RecorderLimits::default()
    };
    let mut recorder = Recorder::new(Sequence::first(), limits);
    recorder.output(b"never lands", 0);
    assert!(matches!(recorder.next_record(), Next::Record(_)));

    recorder.close();
    assert!(!recorder.is_writer_done());
    let (summary, _) = recorder.finish();
    assert_eq!(
        summary.stopped,
        Some(Stopped {
            last_recorded: None,
            reason: StopReason::Stalled
        })
    );
}

/// The stop report has run by the time `finish` returns, even for a stop
/// that `finish` itself declares: nothing reports a stop later.
#[test]
fn every_stop_is_reported_before_finish_returns() {
    let limits = RecorderLimits {
        close_timeout: 100,
        ..RecorderLimits::default()
    };
    let mut recorder = Recorder::new(Sequence::first(), limits);
    let mut stops = Vec::new();
    stops.extend(recorder.output(b"never lands", 0));
    let record = match recorder.next_record() {
        Next::Record(record) => record,
        other => panic!("{other:?}"),
    };

    recorder.close();
    let (summary, report) = recorder.finish();
    stops.extend(report);
    let stop = summary.stopped.expect("stalled at close");
    assert_eq!(stops, vec![stop]);

    // Nothing that happens later is reported.
    assert_eq!(
        recorder.settle(record.sequence, Err(StopReason::SizeLimit)),
        Settled::Beyond(None)
    );
    assert_eq!(recorder.stop(StopReason::SizeLimit), None);
    assert_eq!(recorder.stopped(), Some(stop));
}

#[test]
fn storage_that_cannot_publish_stops_before_the_first_record() {
    let store = MemoryStore {
        refuses_to_publish: true,
        ..MemoryStore::default()
    };
    let (mut thread, stop) = RecorderThread::start(header(), store, limits());
    let stop = stop.expect("recording stopped");
    assert_eq!(thread.output(b"lost", 0), None);
    let (summary, report) = thread.finish();
    assert_eq!(report, None, "reported already");
    assert_eq!(summary.stopped, Some(stop));
    assert!(matches!(stop.reason, StopReason::WriteFailed(_)));
    assert_eq!(stop.last_recorded, None);
    assert_eq!(summary.segments, 0);
}

#[test]
fn a_header_that_starts_late_is_refused() {
    let mut late = header();
    late.first_sequence = Sequence::new(2).unwrap();
    let (_, stop) = RecorderThread::start(late, MemoryStore::default(), limits());
    assert_eq!(
        stop,
        Some(Stopped {
            last_recorded: None,
            reason: StopReason::WriteFailed(ErrorKind::InvalidInput)
        })
    );
}

#[test]
fn a_failed_sync_stops_the_recording_behind_what_was_appended() {
    let store = MemoryStore {
        refuses_to_sync: true,
        ..MemoryStore::default()
    };
    let (mut thread, _) = RecorderThread::start(header(), store.clone(), limits());
    thread.output(b"a", 0);
    thread.output(b"b", 0);
    assert!(thread.is_roomy());
    assert_eq!(thread.recorder().queued(), 2);
    assert_eq!(thread.step(false), Stepped::Recorded);
    let stop = match thread.step(true) {
        Stepped::Done(Some(stop)) => stop,
        other => panic!("{other:?}"),
    };
    assert_eq!(stop.reason, StopReason::WriteFailed(ErrorKind::Other));
    assert_eq!(stop.last_recorded, Sequence::new(2));
    assert_eq!(outputs(&store.decoded()), b"ab");
    assert_eq!(thread.step(false), Stepped::Done(None));
}

#[test]
fn an_idle_recorder_waits_and_a_closed_one_is_done() {
    let mut recorder = Recorder::new(Sequence::first(), limits());
    assert!(matches!(recorder.next_record(), Next::Idle));
    recorder.close();
    assert!(matches!(recorder.next_record(), Next::Done));
    assert_eq!(recorder.output(b"late", 0), None);
    assert!(matches!(recorder.next_record(), Next::Done));
}

#[test]
fn limits_have_defaults_and_reasons_have_names() {
    let limits = limits();
    assert_eq!(limits.segment_bytes, DEFAULT_SEGMENT_BYTES);
    assert_eq!(limits.segment_bytes, 64 << 20);
    assert_eq!(limits.max_bytes, DEFAULT_MAX_BYTES);
    assert_eq!(limits.max_bytes, 1 << 30);
    assert_eq!(limits.backlog_bytes, 16 << 20);
    assert_eq!(limits.close_timeout, DEFAULT_CLOSE_TIMEOUT);
    assert_eq!(StopReason::SizeLimit.as_str(), "size_limit");
    assert_eq!(
        StopReason::WriteFailed(ErrorKind::Other).as_str(),
        "write_failed"
    );
    assert_eq!(StopReason::BacklogFull.as_str(), "backlog_full");
    assert_eq!(StopReason::Stalled.as_str(), "stalled");
}

#[test]
fn segment_names_are_recognised() {
    assert_eq!(segment_name(0), "seg-00000000.tndrrec");
    assert_eq!(segment_name(123), "seg-00000123.tndrrec");
    assert_eq!(segment_name(u32::MAX), "seg-4294967295.tndrrec");
    for index in [0, 7, 99_999_999] {
        assert!(is_segment_name(&segment_name(index)));
    }
    assert!(!is_segment_name(&segment_name(100_000_000)));
    assert!(!is_segment_name("seg-0000000a.tndrrec"));
    assert!(!is_segment_name("seg-00000000.tndrrec.tmp"));
    assert!(!is_segment_name("sag-00000000.tndrrec"));
    assert!(!is_segment_name("\u{e9}"));
}

#[test]
fn a_record_that_the_encoder_refuses_stops_the_writer() {
    let encoder = SegmentEncoder::new(header()).unwrap();
    let mut writer = Writer::new(encoder, MemoryStore::default(), limits());
    assert_eq!(writer.publish_first(), Ok(()));
    let record = Record {
        sequence: Sequence::new(5).unwrap(),
        elapsed_ns: 0,
        kind: RecordKind::Output(b"x".to_vec()),
    };
    assert_eq!(
        writer.write(&record),
        Err(StopReason::WriteFailed(ErrorKind::InvalidData))
    );
    assert!(writer.has_failed());
    assert!(!writer.is_prepared());
    assert_eq!(writer.segments(), 1);
    assert_eq!(writer.synced(), None);
    assert!(!writer.is_unsynced());
}

/// What the durable part of each segment decodes to.
fn durable(store: &MemoryStore) -> DecodedRecording {
    let segments = store.segments.borrow();
    let durable = store.durable.borrow();
    let slices: Vec<&[u8]> = segments
        .iter()
        .zip(durable.iter())
        .map(|(bytes, len)| &bytes[..*len])
        .collect();
    decode_recording(&slices).expect("recording decodes")
}

#[test]
fn what_is_called_synced_is_on_stable_storage() {
    let store = MemoryStore::default();
    let limits = RecorderLimits {
        segment_bytes: 200,
        ..RecorderLimits::default()
    };
    let (mut thread, _) = RecorderThread::start(header(), store.clone(), limits);
    for i in 0..12u8 {
        thread.output(&[i; 40], i as u64);
    }
    for i in 1..=12u64 {
        let due = i % 5 == 0;
        assert_eq!(thread.step(due), Stepped::Recorded);
        let sequence = last_sequence(&durable(&store));
        if due {
            assert_eq!(sequence.map(|s| s.get()), Some(i));
        }
        assert_eq!(last_sequence(&store.decoded()).map(|s| s.get()), Some(i));
    }
    let (summary, stop) = thread.finish();
    assert_eq!(stop, None);
    assert!(summary.segments > 1);
    assert_eq!(summary.last_synced, Sequence::new(12));
    assert_eq!(outputs(&durable(&store)), outputs(&store.decoded()));
}

#[test]
fn a_sync_is_asked_for_where_it_is_due_and_needed() {
    let store = MemoryStore::default();
    let encoder = SegmentEncoder::new(header()).unwrap();
    let mut writer = Writer::new(encoder, store.clone(), limits());
    assert_eq!(writer.publish_first(), Ok(()));
    assert_eq!(writer.sync(), Ok(()));
    assert!(store.calls.borrow().is_empty(), "nothing waits for a sync");
    assert!(writer.can_take());
    let record = Record {
        sequence: Sequence::first(),
        elapsed_ns: 0,
        kind: RecordKind::Output(b"x".to_vec()),
    };
    assert_eq!(writer.write(&record), Ok(()));
    writer.confirm(record.sequence);
    assert_eq!(writer.synced(), None);
    assert_eq!(writer.sync(), Ok(()));
    assert_eq!(writer.synced(), Some(Sequence::first()));
    assert!(!writer.is_unsynced());
    assert_eq!(*store.calls.borrow(), ["write", "sync"]);
}

#[test]
fn a_cut_asks_for_the_length_before_the_append() {
    for refuses_to_cut in [false, true] {
        let store = MemoryStore {
            refuses_to_cut,
            ..MemoryStore::default()
        };
        let encoder = SegmentEncoder::new(header()).unwrap();
        let mut writer = Writer::new(encoder, store.clone(), limits());
        assert_eq!(writer.publish_first(), Ok(()));
        let len = store.total_bytes();
        let record = Record {
            sequence: Sequence::first(),
            elapsed_ns: 0,
            kind: RecordKind::Output(b"late".to_vec()),
        };
        assert_eq!(writer.write(&record), Ok(()));
        writer.cut_back();
        assert!(writer.has_failed());
        assert_eq!(*store.calls.borrow(), ["write".to_owned(), format!("truncate {len}")]);
        assert_eq!(store.total_bytes() == len, !refuses_to_cut);
        writer.cut_back();
        assert_eq!(store.calls.borrow().len(), 2, "nothing is left to cut off");
    }
}

#[test]
fn a_stop_carries_the_answer_of_storage() {
    let unpublished = MemoryStore {
        refuses_to_publish: true,
        ..MemoryStore::default()
    };
    let (_, stop) = RecorderThread::start(header(), unpublished, limits());
    assert_eq!(
        stop.map(|s| s.reason),
        Some(StopReason::WriteFailed(ErrorKind::NotADirectory))
    );

    let full = MemoryStore {
        fail_after_bytes: Some(0),
        refuses_to_cut: true,
        ..MemoryStore::default()
    };
    let (mut thread, _) = RecorderThread::start(header(), full, limits());
    thread.output(b"x", 0);
    let (summary, stop) = thread.finish();
    let stop = stop.expect("recording stopped");
    assert_eq!(stop.reason, StopReason::WriteFailed(ErrorKind::StorageFull));
    assert_eq!(summary.stopped, Some(stop));
    assert_eq!(stop.last_recorded, summary.last_recorded);

    let unsynced = MemoryStore {
        refuses_to_sync: true,
        ..MemoryStore::default()
    };
    let (mut thread, _) = RecorderThread::start(header(), unsynced, limits());
    thread.output(b"x", 0);
    let (summary, stop) = thread.finish();
    let stop = stop.expect("recording stopped");
    assert_eq!(stop.reason, StopReason::WriteFailed(ErrorKind::Other));
    assert_eq!(stop.last_recorded, Some(Sequence::first()));
    assert_eq!(summary.last_synced, None);
}

#[test]
fn appended_records_wait_for_a_sync_no_longer_than_the_interval() {
    assert_eq!(SYNC_INTERVAL, 1_000);
    assert_eq!(sync_step(false, 5_000), SyncStep::Wait);
    assert_eq!(sync_step(true, 0), SyncStep::WaitAtMost(1_000));
    assert_eq!(sync_step(true, 999), SyncStep::WaitAtMost(1));
    assert_eq!(sync_step(true, 1_000), SyncStep::Sync);
    assert_eq!(sync_step(true, u64::MAX), SyncStep::Sync);
}

#[test]
fn a_run_without_a_stop_reports_none() {
    let mut recorder = Recorder::new(Sequence::first(), limits());
    assert_eq!(recorder.output(b"x", 0), None);
    let record = match recorder.next_record() {
        Next::Record(record) => record,
        other => panic!("{other:?}"),
    };
    assert_eq!(recorder.settle(record.sequence, Ok(())), Settled::Recorded);
    recorder.note_progress(1, Some(record.sequence));
    recorder.close();
    recorder.writer_finished();
    let (summary, report) = recorder.finish();
    assert_eq!(report, None);
    assert_eq!(summary.stopped, None);
    assert_eq!(summary.last_recorded, Some(Sequence::first()));
    assert_eq!(summary.last_synced, summary.last_recorded);
}

#[test]
fn finishing_returns_the_stop_that_was_reported_before() {
    let store = MemoryStore::default();
    let limits = RecorderLimits {
        backlog_bytes: 64,
        ..RecorderLimits::default()
    };
    let (mut thread, _) = RecorderThread::start(header(), store.clone(), limits);
    assert_eq!(thread.output(b"kept", 0), None);
    assert_eq!(thread.step(true), Stepped::Recorded);
    let stop = thread.output(&[b'z'; 65], 1).expect("the backlog is full");
    assert_eq!(stop.reason, StopReason::BacklogFull);
    assert_eq!(thread.output(b"lost", 2), None, "reported already");
    let (summary, report) = thread.finish();
    assert_eq!(report, None, "reported already");
    assert_eq!(summary.stopped, Some(stop));
    assert_eq!(summary.last_recorded, Some(Sequence::first()));
    assert_eq!(summary.last_synced, summary.last_recorded);
    assert_eq!(outputs(&store.decoded()), b"kept");
    let (again, report) = thread.finish();
    assert_eq!((again, report), (summary, None));
}

#[test]
fn a_stopped_recording_is_synced_as_far_as_storage_lets_it() {
    for refuses_to_sync in [false, true] {
        let store = MemoryStore {
            refuses_to_sync,
            ..MemoryStore::default()
        };
        let limits = RecorderLimits {
            backlog_bytes: 64,
            ..RecorderLimits::default()
        };
        let (mut thread, _) = RecorderThread::start(header(), store.clone(), limits);
        thread.output(b"kept", 0);
        assert_eq!(thread.step(false), Stepped::Recorded);
        let stop = thread.output(&[b'z'; 65], 1);
        let (summary, _) = thread.finish();
        assert_eq!(summary.stopped, stop, "the first stop wins");
        assert_eq!(summary.last_recorded, Some(Sequence::first()));
        assert_eq!(summary.last_synced.is_some(), !refuses_to_sync);
        assert_eq!(*store.calls.borrow(), ["write", "sync"]);
    }
}

#[test]
fn sequences_go_on_behind_what_was_appended() {
    let store = MemoryStore::default();
    let (mut thread, _) = RecorderThread::start(header(), store.clone(), limits());
    for i in 1..=3u64 {
        assert_eq!(thread.output(b"x", i), None);
        assert_eq!(thread.step(i == 2), Stepped::Recorded);
        assert_eq!(last_sequence(&store.decoded()), Sequence::new(i));
    }
    assert_eq!(thread.step(false), Stepped::Idle);
    assert_eq!(store.decoded().segment_count, 1);
}
