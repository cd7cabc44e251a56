//! What is recorded of a PTY run's recording, and of what went wrong around it.

use crate::io_error::ErrorKind;
use crate::json::text_of;
use crate::model::ids::{uuid_text, RunId};
use crate::model::meta::{texts, Meta, MetaModel};
use crate::model::pty::{PtyRecording, RecordingState, RecordingStopReason};
use crate::recorder::{RecorderSummary, StopReason, Stopped};
use crate::recording::format::{term_char, term_valid, HeaderModel};
use crate::recording::{sequence_model, Geometry, SegmentHeader, Sequence, TermName};
use crate::text::{decimal, lines_of, push_decimal, without_cr};
use vstd::prelude::*;

verus! {

/// Why a recording stopped, as it is recorded.
pub enum StopModel {
    SizeLimit,
    WriteFailed { error: Seq<char> },
    BacklogFull,
    Stalled,
}

impl View for RecordingStopReason {
    type V = StopModel;

    open spec fn view(&self) -> StopModel {
        match *self {
            RecordingStopReason::SizeLimit => StopModel::SizeLimit,
            RecordingStopReason::WriteFailed { error } => StopModel::WriteFailed { error: error@ },
            RecordingStopReason::BacklogFull => StopModel::BacklogFull,
            RecordingStopReason::Stalled => StopModel::Stalled,
        }
    }
}

/// The reason of a stop as it is recorded: a storage failure names its kind.
pub open spec fn stop_model(reason: StopReason) -> StopModel {
    match reason {
        StopReason::SizeLimit => StopModel::SizeLimit,
        StopReason::WriteFailed(kind) => StopModel::WriteFailed { error: kind.text() },
        StopReason::BacklogFull => StopModel::BacklogFull,
        StopReason::Stalled => StopModel::Stalled,
    }
}

/// `state` is that of a recording that stopped, of which `synced` is known to be on
/// stable storage.
pub open spec fn says_stopped(
    state: RecordingState,
    stopped: Stopped,
    synced: Option<Sequence>,
) -> bool {
    state matches RecordingState::Stopped { last_recorded_sequence, last_synced_sequence, reason }
        && last_recorded_sequence == sequence_model(stopped.last_recorded) && last_synced_sequence
        == sequence_model(synced) && reason@ == stop_model(stopped.reason)
}

fn sequence_number(sequence: Option<Sequence>) -> (number: Option<u64>)
    ensures
        number == sequence_model(sequence),
{
    match sequence {
        Some(sequence) => Some(sequence.get()),
        None => None,
    }
}

/// The state of a recording that stopped.
pub fn stopped_state(stopped: Stopped, last_synced: Option<Sequence>) -> (state: RecordingState)
    ensures
        says_stopped(state, stopped, last_synced),
{
    let reason = match stopped.reason {
        StopReason::SizeLimit => RecordingStopReason::SizeLimit,
        StopReason::WriteFailed(kind) => RecordingStopReason::WriteFailed {
            error: kind.name().to_owned(),
        },
        StopReason::BacklogFull => RecordingStopReason::BacklogFull,
        StopReason::Stalled => RecordingStopReason::Stalled,
    };
    RecordingState::Stopped {
        last_recorded_sequence: sequence_number(stopped.last_recorded),
        last_synced_sequence: sequence_number(last_synced),
        reason,
    }
}

/// The run warning for a recording that stopped early.
pub open spec fn stop_warning(stopped: Stopped) -> Seq<char> {
    "recording stopped "@ + (match stopped.last_recorded {
        None => "before its first record"@,
        Some(sequence) => "at sequence "@ + decimal(sequence@ as nat),
    }) + " ("@ + (match stopped.reason {
        StopReason::WriteFailed(kind) => "write_failed: "@ + kind.text(),
        reason => reason.text(),
    }) + "); later output was not recorded"@
}

/// The recording's final state, and a run warning if it stopped early.
pub fn finished_recording(summary: RecorderSummary) -> (finished: (RecordingState, Option<String>))
    ensures
        match summary.stopped {
            None => finished.0 == (RecordingState::Complete {
                last_recorded_sequence: sequence_model(summary.last_recorded),
                last_synced_sequence: sequence_model(summary.last_synced),
            }) && finished.1 is None,
            Some(stopped) => says_stopped(finished.0, stopped, summary.last_synced) && text_of(
                finished.1,
            ) == Some(stop_warning(stopped)),
        },
{
    let stopped = match summary.stopped {
        None => {
            return (
                RecordingState::Complete {
                    last_recorded_sequence: sequence_number(summary.last_recorded),
                    last_synced_sequence: sequence_number(summary.last_synced),
                },
                None,
            );
        },
        Some(stopped) => stopped,
    };
    let mut warning = String::new();
    warning.append("recording stopped ");
    match stopped.last_recorded {
        None => warning.append("before its first record"),
        Some(sequence) => {
            warning.append("at sequence ");
            push_decimal(&mut warning, sequence.get());
        },
    }
    warning.append(" (");
    match stopped.reason {
        StopReason::WriteFailed(kind) => {
            warning.append("write_failed: ");
            warning.append(kind.name());
        },
        reason => warning.append(reason.as_str()),
    }
    warning.append("); later output was not recorded");
    assert(warning@ =~= stop_warning(stopped));
    (stopped_state(stopped, summary.last_synced), Some(warning))
}

/// The state of a recording while the run lasts: recording, unless it has stopped.
pub fn current_state(stopped: Option<Stopped>) -> (state: RecordingState)
    ensures
        match stopped {
            None => state is Recording,
            Some(s) => says_stopped(state, s, None),
        },
{
    match stopped {
        None => RecordingState::Recording,
        Some(stopped) => stopped_state(stopped, None),
    }
}

/// A recording in `dir` as the run's record holds it: output and applied geometry,
/// never input.
pub fn recording_meta(dir: &str, state: RecordingState) -> (recording: PtyRecording)
    ensures
        recording.dir@ == dir@,
        !recording.input_recorded,
        recording.state == state,
{
    PtyRecording { dir: dir.to_owned(), input_recorded: false, state }
}

/// The directory of a run's recording, relative to the session directory.
pub fn recording_dir(run_id: RunId) -> (dir: String)
    ensures
        dir@ == "recording/"@ + uuid_text(run_id@.0, run_id@.1),
{
    let mut dir = "recording/".to_owned();
    dir.append(run_id.to_text().as_str());
    dir
}

/// The `TERM` that a recording is made under: the child's own, or the sidecar's where
/// the child has none; empty where that is unset or not recordable.
pub open spec fn recorded_term(child: Option<Seq<char>>, sidecar: Option<Seq<char>>) -> Seq<char> {
    let term = match child {
        Some(term) => Some(term),
        None => sidecar,
    };
    match term {
        Some(term) if term_valid(term) => term,
        _ => Seq::empty(),
    }
}

/// The header of a run's recording: output and applied geometry from the first
/// record on, not input. The child starts at `geometry`.
pub fn recording_header(
    run_id: RunId,
    origin_unix_ns: u64,
    geometry: Geometry,
    child_term: Option<&str>,
    sidecar_term: Option<&str>,
) -> (header: SegmentHeader)
    ensures
        header@ == (HeaderModel {
            run_id: run_id@,
            segment_index: 0,
            first_sequence: 1,
            origin_unix_ns,
            geometry: geometry@,
            input_recorded: false,
            term: recorded_term(
                match child_term {
                    Some(t) => Some(t@),
                    None => None,
                },
                match sidecar_term {
                    Some(t) => Some(t@),
                    None => None,
                },
            ),
        }),
{
    let term = match child_term {
        Some(term) => Some(term),
        None => sidecar_term,
    };
    let named = match term {
        Some(term) => match TermName::new(term) {
            Ok(name) => Some(name),
            Err(_) => None,
        },
        None => None,
    };
    let term = match named {
        Some(name) => name,
        None => TermName::empty(),
    };
    SegmentHeader {
        run_id,
        segment_index: 0,
        first_sequence: Sequence::first(),
        origin_unix_ns,
        geometry,
        input_recorded: false,
        term,
    }
}

/// What the `recording.stopped` event says: the last record, the reason, and for a
/// storage failure its kind.
pub fn stop_fact(stopped: Stopped) -> (fact: (Option<u64>, &'static str, Option<&'static str>))
    ensures
        fact.0 == sequence_model(stopped.last_recorded),
        fact.1@ == stopped.reason.text(),
        match stopped.reason {
            StopReason::WriteFailed(kind) => fact.2 matches Some(error) && error@ == kind.text(),
            _ => fact.2 is None,
        },
{
    let error = match stopped.reason {
        StopReason::WriteFailed(kind) => Some(kind.name()),
        _ => None,
    };
    (sequence_number(stopped.last_recorded), stopped.reason.as_str(), error)
}

/// Records how a run's recording ended, with a warning if it stopped early.
pub fn finish_recording(meta: &mut Meta, dir: &str, summary: RecorderSummary)
    ensures
        final(meta)@ == (MetaModel {
            warnings: match summary.stopped {
                Some(stopped) => old(meta)@.warnings.push(stop_warning(stopped)),
                None => old(meta)@.warnings,
            },
            pty: final(meta)@.pty,
            ..old(meta)@
        }),
        old(meta)@.pty is None ==> final(meta)@.pty is None,
        old(meta)@.pty matches Some(before) ==> (final(meta)@.pty matches Some(after)
            && after.control == before.control && after.enabled == before.enabled && (
        after.recording matches Some(recording) && recording.dir@ == dir@
            && !recording.input_recorded && match summary.stopped {
            None => recording.state == (RecordingState::Complete {
                last_recorded_sequence: sequence_model(summary.last_recorded),
                last_synced_sequence: sequence_model(summary.last_synced),
            }),
            Some(stopped) => says_stopped(recording.state, stopped, summary.last_synced),
        })),
{
    let (state, warning) = finished_recording(summary);
    meta.set_pty_recording(recording_meta(dir, state));
    if let Some(warning) = warning {
        meta.add_warning(warning);
    }
}

// Warnings that were collected while the run lasted.

/// A warning for each line that is not empty.
pub open spec fn capture_warnings(lines: Seq<Seq<char>>) -> Seq<Seq<char>>
    decreases lines.len(),
{
    if lines.len() == 0 {
        Seq::empty()
    } else {
        let head = capture_warnings(lines.drop_last());
        if lines.last().len() > 0 {
            head.push("log capture: "@ + lines.last())
        } else {
            head
        }
    }
}

/// Capture errors, line by line, then stdin forwarding errors.
pub open spec fn collected_warnings(
    capture_errors: Option<Seq<char>>,
    stdin_errors: Seq<Seq<char>>,
) -> Seq<Seq<char>> {
    (match capture_errors {
        Some(text) => capture_warnings(lines_of(text)),
        None => Seq::empty(),
    }) + stdin_errors
}

/// Appends the warning for one line of capture errors.
fn push_capture_warning(warnings: &mut Vec<String>, line: &str)
    ensures
        texts(final(warnings)@) == (if line@.len() > 0 {
            texts(old(warnings)@).push("log capture: "@ + line@)
        } else {
            texts(old(warnings)@)
        }),
{
    if line.unicode_len() > 0 {
        let ghost before = warnings@;
        let mut warning = "log capture: ".to_owned();
        warning.append(line);
        warnings.push(warning);
        assert(texts(warnings@) =~= texts(before).push("log capture: "@ + line@));
    }
}

/// The lines of a text that are not empty, as warnings.
fn warnings_of_lines(text: &str) -> (warnings: Vec<String>)
    ensures
        texts(warnings@) == capture_warnings(lines_of(text@)),
{
    let n: usize = text.unicode_len();
    let ghost all = text@;
    let mut warnings: Vec<String> = Vec::new();
    let mut start: usize = 0;
    let mut i: usize = 0;
    proof {
        assert(all.take(0) =~= Seq::empty());
        assert(lines_of(all.take(0)).drop_last() =~= Seq::empty());
        assert(all.subrange(0, 0) =~= Seq::empty());
        assert(texts(warnings@) =~= Seq::empty());
    }
    while i < n
        invariant
            start <= i <= n,
            n == text@.len(),
            all == text@,
            lines_of(all.take(i as int)).len() >= 1,
            lines_of(all.take(i as int)).last() == all.subrange(start as int, i as int),
            texts(warnings@) == capture_warnings(lines_of(all.take(i as int)).drop_last()),
        decreases n - i,
    {
        let c: char = text.get_char(i);
        let ghost head = lines_of(all.take(i as int));
        let ghost line = all.subrange(start as int, i as int);
        proof {
            assert(all.take(i + 1).drop_last() =~= all.take(i as int));
            assert(all.take(i + 1).last() == c);
        }
        if c == '\n' {
            let end: usize = if i > start && text.get_char(i - 1) == '\r' {
                i - 1
            } else {
                i
            };
            let stripped = text.substring_char(start, end);
            assert(stripped@ =~= without_cr(line));
            push_capture_warning(&mut warnings, stripped);
            proof {
                let next = lines_of(all.take(i + 1));
                assert(next.drop_last() =~= head.drop_last().push(without_cr(line)));
                assert(next.drop_last().drop_last() =~= head.drop_last());
                assert(all.subrange(i + 1, i + 1) =~= Seq::empty());
            }
            start = i + 1;
        } else {
            proof {
                let next = lines_of(all.take(i + 1));
                assert(next.drop_last() =~= head.drop_last());
                assert(all.subrange(start as int, i + 1) =~= line.push(c));
            }
        }
        i = i + 1;
    }
    let last = text.substring_char(start, n);
    push_capture_warning(&mut warnings, last);
    proof {
        assert(all.take(n as int) =~= all);
    }
    warnings
}

/// Collects capture errors and stdin forwarding errors into a warning list.
pub fn collect_warnings(capture_errors: Option<&str>, stdin_errors: &Vec<String>) -> (warnings: Vec<
    String,
>)
    ensures
        texts(warnings@) == collected_warnings(
            match capture_errors {
                Some(text) => Some(text@),
                None => None,
            },
            texts(stdin_errors@),
        ),
{
    let mut warnings = match capture_errors {
        Some(text) => warnings_of_lines(text),
        None => Vec::new(),
    };
    let ghost head = texts(warnings@);
    let ghost more = texts(stdin_errors@);
    proof {
        if capture_errors is None {
            assert(head =~= Seq::empty());
        }
        assert(head =~= head + more.take(0));
    }
    let mut i: usize = 0;
    while i < stdin_errors.len()
        invariant
            i <= stdin_errors@.len(),
            more == texts(stdin_errors@),
            texts(warnings@) == head + more.take(i as int),
        decreases stdin_errors@.len() - i,
    {
        let ghost before = warnings@;
        warnings.push(stdin_errors[i].clone());
        proof {
            assert(texts(warnings@) =~= texts(before).push(more[i as int]));
            assert(more.take(i + 1) =~= more.take(i as int).push(more[i as int]));
            assert(texts(warnings@) =~= head + more.take(i + 1));
        }
        i = i + 1;
    }
    assert(more.take(i as int) =~= more);
    warnings
}

// What each operation does, in terms of what it was given and what it gave back.

/// A recording that stopped is recorded with the last record that it holds, the last that is
/// known to be synced, and the reason; a storage failure by the name of its kind. While the
/// run lasts nothing is known to be synced, and a recording that has not stopped is under
/// way.
pub proof fn law_stops_are_recorded(
    stopped: Stopped,
    last_synced: Option<Sequence>,
    state: RecordingState,
    now: Option<Stopped>,
    current: RecordingState,
    kind: ErrorKind,
    name: &'static str,
)
    requires
        call_ensures(stopped_state, (stopped, last_synced), state),
        call_ensures(current_state, (now,), current),
        stopped.reason matches StopReason::WriteFailed(k) ==> k == kind,
        call_ensures(ErrorKind::name, (kind,), name),
    ensures
        state matches RecordingState::Stopped {
            last_recorded_sequence,
            last_synced_sequence,
            reason,
        } && last_recorded_sequence == sequence_model(stopped.last_recorded)
            && last_synced_sequence == sequence_model(last_synced) && (match stopped.reason {
            StopReason::SizeLimit => reason is SizeLimit,
            StopReason::BacklogFull => reason is BacklogFull,
            StopReason::Stalled => reason is Stalled,
            StopReason::WriteFailed(_) => reason matches RecordingStopReason::WriteFailed { error }
                && error@ == name@,
        }),
        now is None <==> current is Recording,
        now matches Some(s) ==> (current matches RecordingState::Stopped {
            last_recorded_sequence,
            last_synced_sequence,
            ..
        } && last_recorded_sequence == sequence_model(s.last_recorded)
            && last_synced_sequence is None),
{
}

/// A recording that ended with the run is complete, with what it holds and what is synced.
/// One that stopped before is recorded as stopped, and warned of: where it stopped, why, and
/// that later output was not recorded.
pub proof fn law_finished_recordings(
    summary: RecorderSummary,
    finished: (RecordingState, Option<String>),
    stopped: Stopped,
    state: RecordingState,
    reason: &'static str,
)
    requires
        call_ensures(finished_recording, (summary,), finished),
        summary.stopped matches Some(s) ==> s == stopped,
        call_ensures(StopReason::as_str, (&stopped.reason,), reason),
    ensures
        summary.stopped is None ==> finished.1 is None && finished.0 == (RecordingState::Complete {
            last_recorded_sequence: sequence_model(summary.last_recorded),
            last_synced_sequence: sequence_model(summary.last_synced),
        }),
        summary.stopped is Some ==> {
            &&& finished.0 matches RecordingState::Stopped {
                last_recorded_sequence,
                last_synced_sequence,
                ..
            }
            &&& last_recorded_sequence == sequence_model(stopped.last_recorded)
            &&& last_synced_sequence == sequence_model(summary.last_synced)
            &&& finished.1 matches Some(warning)
            &&& warning@ =~= "recording stopped "@ + (match stopped.last_recorded {
                None => "before its first record"@,
                Some(sequence) => "at sequence "@ + decimal(sequence@ as nat),
            }) + (" ("@ + (match stopped.reason {
                StopReason::WriteFailed(kind) => "write_failed: "@ + kind.text(),
                _ => reason@,
            })) + "); later output was not recorded"@
        },
{
    if let Some(s) = summary.stopped {
        let a = "recording stopped "@ + (match s.last_recorded {
            None => "before its first record"@,
            Some(sequence) => "at sequence "@ + decimal(sequence@ as nat),
        });
        let b = match s.reason {
            StopReason::WriteFailed(kind) => "write_failed: "@ + kind.text(),
            r => r.text(),
        };
        assert(a + " ("@ + b =~= a + (" ("@ + b));
    }
}

/// A recording lies in the directory that it was given, never has input, and starts as its
/// first segment, with its first record, under the child's `TERM`, or the sidecar's where
/// the child has none, if that can be recorded. Its directory is named by the run.
pub proof fn law_recordings_start_as_asked(
    run_id: RunId,
    origin_unix_ns: u64,
    geometry: Geometry,
    child_term: Option<&str>,
    sidecar_term: Option<&str>,
    term: Option<&str>,
    header: SegmentHeader,
    dir: &str,
    state: RecordingState,
    recording: PtyRecording,
    named: String,
)
    requires
        term == (if child_term is Some {
            child_term
        } else {
            sidecar_term
        }),
        call_ensures(
            recording_header,
            (run_id, origin_unix_ns, geometry, child_term, sidecar_term),
            header,
        ),
        call_ensures(recording_meta, (dir, state), recording),
        call_ensures(recording_dir, (run_id,), named),
    ensures
        header@.run_id == run_id@,
        header.segment_index == 0,
        header@.first_sequence == 1,
        header.origin_unix_ns == origin_unix_ns,
        header@.geometry == geometry@,
        !header.input_recorded,
        term is None ==> header@.term.len() == 0,
        term matches Some(t) ==> header@.term == t@ || header@.term.len() == 0,
        term matches Some(t) ==> (t@.len() <= 256 && (forall|i: int|
            0 <= i < t@.len() ==> '!' <= (#[trigger] t@[i]) <= '~') ==> header@.term == t@),
        forall|i: int|
            0 <= i < header@.term.len() ==> '!' <= (#[trigger] header@.term[i]) <= '~',
        header@.term.len() <= 256,
        recording.dir@ == dir@ && !recording.input_recorded && recording.state == state,
        named@ == "recording/"@ + uuid_text(run_id@.0, run_id@.1),
{
    if let Some(t) = term {
        if t@.len() <= 256 && forall|i: int|
            0 <= i < t@.len() ==> '!' <= (#[trigger] t@[i]) <= '~' {
            assert forall|i: int| 0 <= i < t@.len() implies term_char(#[trigger] t@[i]) by {}
            assert(term_valid(t@));
        }
        assert forall|i: int| 0 <= i < header@.term.len() implies '!' <= (
        #[trigger] header@.term[i]) <= '~' by {
            assert(term_valid(t@));
            assert(term_char(t@[i]));
        }
    }
}

/// The event of a stop names the last record, the reason, and for a storage failure, and
/// only for that, its kind.
pub proof fn law_stop_events(
    stopped: Stopped,
    fact: (Option<u64>, &'static str, Option<&'static str>),
    reason: &'static str,
    kind: ErrorKind,
    name: &'static str,
)
    requires
        call_ensures(stop_fact, (stopped,), fact),
        call_ensures(StopReason::as_str, (&stopped.reason,), reason),
        stopped.reason matches StopReason::WriteFailed(k) ==> k == kind,
        call_ensures(ErrorKind::name, (kind,), name),
    ensures
        stopped.last_recorded is None <==> fact.0 is None,
        stopped.last_recorded matches Some(s) ==> fact.0 == Some(s@),
        fact.1@ == reason@,
        fact.2 is Some <==> stopped.reason is WriteFailed,
        fact.2 matches Some(error) ==> error@ == name@,
{
}

/// How a recording ended is kept in the run's record, with the warning where there is one;
/// nothing else of it changes, and a run without a PTY has none.
pub proof fn law_run_keeps_its_recording(
    meta: &mut Meta,
    dir: &str,
    summary: RecorderSummary,
    finished: (RecordingState, Option<String>),
)
    requires
        call_ensures(finish_recording, (meta, dir, summary), ()),
        call_ensures(finished_recording, (summary,), finished),
    ensures
        final(meta)@.status == old(meta)@.status,
        final(meta)@.run_id == old(meta)@.run_id,
        finished.1 is None ==> final(meta)@.warnings == old(meta)@.warnings,
        finished.1 matches Some(warning) ==> final(meta)@.warnings == old(meta)@.warnings.push(
            warning@,
        ),
        old(meta)@.pty is None <==> final(meta)@.pty is None,
        old(meta)@.pty matches Some(before) ==> {
            &&& final(meta)@.pty matches Some(after)
            &&& after.control == before.control && after.enabled == before.enabled
            &&& after.recording matches Some(recording)
            &&& recording.dir@ == dir@ && !recording.input_recorded
            &&& summary.stopped is None ==> recording.state == finished.0
            &&& summary.stopped is Some ==> (recording.state matches RecordingState::Stopped {
                last_recorded_sequence,
                last_synced_sequence,
                ..
            } && last_recorded_sequence == sequence_model(summary.stopped->0.last_recorded)
                && last_synced_sequence == sequence_model(summary.last_synced))
        },
{
}

/// A line ends at its line feed.
proof fn lemma_first_line(line: Seq<char>, rest: Seq<char>)
    requires
        !line.contains('\n'),
    ensures
        lines_of(line) =~= seq![line],
        lines_of(line.push('\n') + rest) =~= seq![without_cr(line)] + lines_of(rest),
        lines_of(rest).len() > 0,
    decreases line.len() + rest.len(),
{
    if rest.len() > 0 {
        let whole = line.push('\n') + rest;
        lemma_first_line(line, rest.drop_last());
        assert(whole.drop_last() =~= line.push('\n') + rest.drop_last());
        assert(whole.last() == rest.last());
        let first = seq![without_cr(line)];
        let more = lines_of(rest.drop_last());
        let head = lines_of(whole.drop_last());
        assert(head =~= first + more);
        assert(head.last() == more.last());
        assert(head.drop_last() =~= first + more.drop_last());
    } else {
        let whole = line.push('\n') + rest;
        assert(whole =~= line.push('\n'));
        assert(line.push('\n').drop_last() =~= line);
        if line.len() > 0 {
            let head = line.drop_last();
            assert(!head.contains('\n')) by {
                if head.contains('\n') {
                    let i = choose|i: int| 0 <= i < head.len() && head[i] == '\n';
                    assert(line[i] == '\n');
                }
            }
            lemma_first_line(head, Seq::empty());
            assert(line.contains(line[line.len() - 1]));
            assert(head.push(line.last()) =~= line);
        } else {
            assert(line =~= Seq::<char>::empty());
        }
        assert(rest =~= Seq::<char>::empty());
    }
}

/// The warnings of two lists of lines are those of both together.
proof fn lemma_warnings_join(a: Seq<Seq<char>>, b: Seq<Seq<char>>)
    ensures
        capture_warnings(a + b) =~= capture_warnings(a) + capture_warnings(b),
    decreases b.len(),
{
    if b.len() == 0 {
        assert(a + b =~= a);
    } else {
        assert((a + b).drop_last() =~= a + b.drop_last());
        lemma_warnings_join(a, b.drop_last());
    }
}

/// There is a warning for each line of capture errors that is not empty, in order, and then
/// the stdin errors as they are. A carriage return in front of a line feed is no part of
/// its line.
pub proof fn law_warnings_are_collected_line_by_line(
    line: &str,
    rest: &str,
    whole: &str,
    none: Vec<String>,
    stdin_errors: Vec<String>,
    one: Vec<String>,
    others: Vec<String>,
    all: Vec<String>,
    without: Vec<String>,
    with_stdin: Vec<String>,
)
    requires
        !line@.contains('\n'),
        whole@ == line@.push('\n') + rest@,
        none@.len() == 0,
        call_ensures(collect_warnings, (Some(line), &none), one),
        call_ensures(collect_warnings, (Some(rest), &none), others),
        call_ensures(collect_warnings, (Some(whole), &none), all),
        call_ensures(collect_warnings, (None::<&str>, &stdin_errors), without),
        call_ensures(collect_warnings, (Some(whole), &stdin_errors), with_stdin),
    ensures
        ({
            let cut = if line@.len() > 0 && line@.last() == '\r' {
                line@.drop_last()
            } else {
                line@
            };
            &&& line@.len() == 0 ==> one@.len() == 0
            &&& line@.len() > 0 ==> texts(one@) =~= seq!["log capture: "@ + line@]
            &&& cut.len() == 0 ==> texts(all@) =~= texts(others@)
            &&& cut.len() > 0 ==> texts(all@) =~= seq!["log capture: "@ + cut] + texts(others@)
            &&& texts(without@) =~= texts(stdin_errors@)
            &&& texts(with_stdin@) =~= texts(all@) + texts(stdin_errors@)
        }),
{
    lemma_first_line(line@, rest@);
    let empty = Seq::<Seq<char>>::empty();
    assert(texts(none@) =~= empty);
    assert(capture_warnings(empty) =~= empty);
    assert(seq![line@].drop_last() =~= empty);
    assert(seq![without_cr(line@)].drop_last() =~= empty);
    lemma_warnings_join(seq![without_cr(line@)], lines_of(rest@));
    assert(texts(one@).len() == one@.len());
}

} // verus!
