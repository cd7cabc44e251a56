//! Plain-text dump of a decoded recording; the layout and the flagged
//! sequences are documented on [`dump`].

use crate::model::ids::uuid_text;
use crate::recording::format::{
    CauseModel, HeaderModel, KindModel, RecordModel, RecordingModel, FORMAT_VERSION,
};
use crate::recording::scan::{finding_models, Finding, FindingModel, Marker, ScanModel, Scanner};
use crate::recording::{
    record_models, DecodedRecording, Record, RecordKind, ResizeCause, SegmentEnd, SegmentHeader,
    Sequence,
};
use crate::text::{decimal, digit, digit_char, digits, push_decimal, push_digits};
use vstd::prelude::*;

verus! {

/// Nanoseconds shown as milliseconds, truncated to the microsecond.
pub open spec fn millis_text(ns: u64) -> Seq<char> {
    decimal(ns as nat / 1_000_000) + "."@ + digits((ns as nat % 1_000_000) / 1_000, 10, 3)
}

/// One byte as printable ASCII.
pub open spec fn escaped_byte(b: u8) -> Seq<char> {
    if b == 0x5c {
        seq!['\\', '\\']
    } else if b == 0x22 {
        seq!['\\', '"']
    } else if b == 0x0a {
        seq!['\\', 'n']
    } else if b == 0x0d {
        seq!['\\', 'r']
    } else if b == 0x09 {
        seq!['\\', 't']
    } else if 0x20 <= b <= 0x7e {
        seq![b as char]
    } else {
        seq!['\\', 'x', digit(b as nat / 16), digit(b as nat % 16)]
    }
}

/// Bytes as printable ASCII.
pub open spec fn escaped_text(bytes: Seq<u8>) -> Seq<char>
    decreases bytes.len(),
{
    if bytes.len() == 0 {
        Seq::empty()
    } else {
        escaped_text(bytes.drop_last()) + escaped_byte(bytes.last())
    }
}

/// The lines above the records.
pub open spec fn header_text(h: HeaderModel, segment_count: nat) -> Seq<char> {
    "format "@ + decimal(FORMAT_VERSION as nat) + "\nrun "@ + uuid_text(h.run_id.0, h.run_id.1)
        + "\nsegments "@ + decimal(segment_count) + " (first index "@ + decimal(
        h.segment_index as nat,
    ) + ", first sequence "@ + decimal(h.first_sequence as nat) + ")\norigin_unix_ns "@ + decimal(
        h.origin_unix_ns as nat,
    ) + "\ngeometry rows="@ + decimal(h.geometry.rows as nat) + " cols="@ + decimal(
        h.geometry.cols as nat,
    ) + "\nterm "@ + h.term + (if h.input_recorded {
        "\ninput recorded\n"@
    } else {
        "\ninput not recorded\n"@
    })
}

/// What a record line says of a payload.
pub open spec fn payload_text(label: Seq<char>, bytes: Seq<u8>) -> Seq<char> {
    label + decimal(bytes.len()) + " \""@ + escaped_text(bytes) + "\"\n"@
}

/// The line of one record.
pub open spec fn record_text(r: RecordModel) -> Seq<char> {
    "#"@ + decimal(r.sequence as nat) + " "@ + millis_text(r.elapsed_ns) + "ms "@ + match r.kind {
        KindModel::Output(bytes) => payload_text("output len="@, bytes),
        KindModel::Input(bytes) => payload_text("input len="@, bytes),
        KindModel::Resize { geometry, cause } => "resize rows="@ + decimal(geometry.rows as nat)
            + " cols="@ + decimal(geometry.cols as nat) + match cause {
            CauseModel::User => " user\n"@,
            CauseModel::Repaint { correlation } => " repaint correlation="@ + decimal(
                correlation as nat,
            ) + "\n"@,
        },
    }
}

/// The line of one flagged sequence that record `sequence` completes.
pub open spec fn finding_text(f: FindingModel, sequence: u64) -> Seq<char> {
    "  ^ "@ + f.marker.label_text() + " \""@ + escaped_text(f.bytes) + (if f.start != sequence {
        "\" from #"@ + decimal(f.start as nat) + "\n"@
    } else {
        "\"\n"@
    })
}

pub open spec fn findings_text(found: Seq<FindingModel>, sequence: u64) -> Seq<char>
    decreases found.len(),
{
    if found.len() == 0 {
        Seq::empty()
    } else {
        findings_text(found.drop_last(), sequence) + finding_text(found.last(), sequence)
    }
}

/// The scanner behind `records`, and what the output of the last one completes.
/// Only output is scanned.
pub open spec fn scanned(records: Seq<RecordModel>) -> (ScanModel, Seq<FindingModel>)
    decreases records.len(),
{
    if records.len() == 0 {
        (ScanModel::ground(), Seq::empty())
    } else {
        let before = scanned(records.drop_last()).0;
        match records.last().kind {
            KindModel::Output(bytes) => before.scan(records.last().sequence, bytes),
            _ => (before, Seq::empty()),
        }
    }
}

/// The lines of the records, each followed by those of the sequences that it
/// completes.
pub open spec fn records_text(records: Seq<RecordModel>) -> Seq<char>
    decreases records.len(),
{
    if records.len() == 0 {
        Seq::empty()
    } else {
        records_text(records.drop_last()) + record_text(records.last()) + findings_text(
            scanned(records).1,
            records.last().sequence,
        )
    }
}

/// The line of a sequence that is still unfinished when the output stops.
pub open spec fn unfinished_text(m: ScanModel) -> Seq<char> {
    match m.in_progress() {
        None => Seq::empty(),
        Some((start, bytes)) => "unfinished escape sequence from #"@ + decimal(start as nat)
            + ": \""@ + escaped_text(bytes) + (if m.overflow {
            "\"...\n"@
        } else {
            "\"\n"@
        }),
    }
}

/// How the final segment ended.
pub open spec fn end_text(r: RecordingModel) -> Seq<char> {
    match r.end {
        SegmentEnd::Clean => "end clean\n"@,
        SegmentEnd::Truncated { offset } => "end truncated at segment "@ + decimal(
            (r.header.segment_index + if r.segment_count > 0 {
                r.segment_count - 1
            } else {
                0
            }) as nat,
        ) + " offset "@ + decimal(offset as nat) + " (incomplete final record excluded)\n"@,
    }
}

/// A recording as plain text.
pub open spec fn dump_text(r: RecordingModel) -> Seq<char> {
    header_text(r.header, r.segment_count) + records_text(r.records) + unfinished_text(
        scanned(r.records).0,
    ) + end_text(r)
}

/// Nanoseconds as milliseconds, truncated to the microsecond.
pub fn push_millis(out: &mut String, ns: u64)
    ensures
        final(out)@ == old(out)@ + millis_text(ns),
{
    push_decimal(out, ns / 1_000_000);
    out.append(".");
    push_digits(out, ns % 1_000_000 / 1_000, 10, 3);
    assert(out@ =~= old(out)@ + millis_text(ns));
}

/// Bytes as printable ASCII: `\\`, `\"`, `\n`, `\r` and `\t` are escaped, other
/// printable ASCII is literal, and every other byte is `\xHH`.
pub fn push_escaped(out: &mut String, bytes: &[u8])
    ensures
        final(out)@ == old(out)@ + escaped_text(bytes@),
{
    let ghost before = out@;
    let mut i: usize = 0;
    assert(bytes@.take(0) =~= Seq::<u8>::empty());
    assert(out@ =~= before + escaped_text(bytes@.take(0)));
    while i < bytes.len()
        invariant
            i <= bytes@.len(),
            out@ == before + escaped_text(bytes@.take(i as int)),
        decreases bytes@.len() - i,
    {
        assert(bytes@.take(i + 1).drop_last() =~= bytes@.take(i as int));
        let ghost so_far = out@;
        let b: u8 = bytes[i];
        if b == 0x5c {
            out.push('\\');
            out.push('\\');
        } else if b == 0x22 {
            out.push('\\');
            out.push('"');
        } else if b == 0x0a {
            out.push('\\');
            out.push('n');
        } else if b == 0x0d {
            out.push('\\');
            out.push('r');
        } else if b == 0x09 {
            out.push('\\');
            out.push('t');
        } else if 0x20 <= b && b <= 0x7e {
            out.push(b as char);
        } else {
            out.push('\\');
            out.push('x');
            out.push(digit_char(b / 16));
            out.push(digit_char(b % 16));
        }
        assert(out@ =~= so_far + escaped_byte(b));
        i = i + 1;
        assert(out@ =~= before + escaped_text(bytes@.take(i as int)));
    }
    assert(bytes@.take(i as int) =~= bytes@);
}

fn push_header(out: &mut String, h: &SegmentHeader, segment_count: u32)
    ensures
        final(out)@ == old(out)@ + header_text(h@, segment_count as nat),
{
    out.append("format ");
    push_decimal(out, FORMAT_VERSION as u64);
    out.append("\nrun ");
    out.append(h.run_id.to_text().as_str());
    out.append("\nsegments ");
    push_decimal(out, segment_count as u64);
    out.append(" (first index ");
    push_decimal(out, h.segment_index as u64);
    out.append(", first sequence ");
    push_decimal(out, h.first_sequence.get());
    out.append(")\norigin_unix_ns ");
    push_decimal(out, h.origin_unix_ns);
    out.append("\ngeometry rows=");
    push_decimal(out, h.geometry.rows() as u64);
    out.append(" cols=");
    push_decimal(out, h.geometry.cols() as u64);
    out.append("\nterm ");
    out.append(h.term.as_str());
    if h.input_recorded {
        out.append("\ninput recorded\n");
    } else {
        out.append("\ninput not recorded\n");
    }
    assert(out@ =~= old(out)@ + header_text(h@, segment_count as nat));
}

fn push_payload(out: &mut String, label: &str, bytes: &[u8])
    ensures
        final(out)@ == old(out)@ + payload_text(label@, bytes@),
{
    out.append(label);
    push_decimal(out, bytes.len() as u64);
    out.append(" \"");
    push_escaped(out, bytes);
    out.append("\"\n");
    assert(out@ =~= old(out)@ + payload_text(label@, bytes@));
}

fn push_record(out: &mut String, record: &Record)
    ensures
        final(out)@ == old(out)@ + record_text(record@),
{
    out.append("#");
    push_decimal(out, record.sequence.get());
    out.append(" ");
    push_millis(out, record.elapsed_ns);
    out.append("ms ");
    match &record.kind {
        RecordKind::Output(bytes) => push_payload(out, "output len=", bytes.as_slice()),
        RecordKind::Input(bytes) => push_payload(out, "input len=", bytes.as_slice()),
        RecordKind::Resize { geometry, cause } => {
            out.append("resize rows=");
            push_decimal(out, geometry.rows() as u64);
            out.append(" cols=");
            push_decimal(out, geometry.cols() as u64);
            match cause {
                ResizeCause::User => out.append(" user\n"),
                ResizeCause::Repaint { correlation } => {
                    out.append(" repaint correlation=");
                    push_decimal(out, correlation.get() as u64);
                    out.append("\n");
                },
            }
        },
    }
    assert(out@ =~= old(out)@ + record_text(record@));
}

fn push_finding(out: &mut String, finding: &Finding, sequence: Sequence)
    ensures
        final(out)@ == old(out)@ + finding_text(finding@, sequence@),
{
    out.append("  ^ ");
    out.append(finding.marker.label());
    out.append(" \"");
    push_escaped(out, finding.bytes.as_slice());
    if finding.start.get() != sequence.get() {
        out.append("\" from #");
        push_decimal(out, finding.start.get());
        out.append("\n");
    } else {
        out.append("\"\n");
    }
    assert(out@ =~= old(out)@ + finding_text(finding@, sequence@));
}

fn push_findings(out: &mut String, found: &Vec<Finding>, sequence: Sequence)
    ensures
        final(out)@ == old(out)@ + findings_text(finding_models(found@), sequence@),
{
    let ghost before = out@;
    let ghost models = finding_models(found@);
    let mut i: usize = 0;
    assert(models.take(0) =~= Seq::<FindingModel>::empty());
    assert(out@ =~= before + findings_text(models.take(0), sequence@));
    while i < found.len()
        invariant
            i <= found@.len(),
            models == finding_models(found@),
            out@ == before + findings_text(models.take(i as int), sequence@),
        decreases found@.len() - i,
    {
        assert(models.take(i + 1).drop_last() =~= models.take(i as int));
        push_finding(out, &found[i], sequence);
        i = i + 1;
        assert(out@ =~= before + findings_text(models.take(i as int), sequence@));
    }
    assert(models.take(i as int) =~= models);
}

/// The records and what they complete; returns the scanner behind them.
fn push_records(out: &mut String, records: &Vec<Record>) -> (scanner: Scanner)
    ensures
        final(out)@ == old(out)@ + records_text(record_models(records@)),
        scanner.wf(),
        scanner@ == scanned(record_models(records@)).0,
{
    let ghost before = out@;
    let ghost models = record_models(records@);
    let mut scanner = Scanner::new();
    let mut i: usize = 0;
    assert(models.take(0) =~= Seq::<RecordModel>::empty());
    assert(out@ =~= before + records_text(models.take(0)));
    while i < records.len()
        invariant
            i <= records@.len(),
            models == record_models(records@),
            scanner.wf(),
            scanner@ == scanned(models.take(i as int)).0,
            out@ == before + records_text(models.take(i as int)),
        decreases records@.len() - i,
    {
        assert(models.take(i + 1).drop_last() =~= models.take(i as int));
        let record = &records[i];
        assert(models.take(i + 1).last() == record@);
        let mut found: Vec<Finding> = Vec::new();
        push_record(out, record);
        if let RecordKind::Output(bytes) = &record.kind {
            scanner.feed(record.sequence, bytes.as_slice(), &mut found);
        }
        assert(finding_models(found@) =~= scanned(models.take(i + 1)).1);
        push_findings(out, &found, record.sequence);
        i = i + 1;
        assert(out@ =~= before + records_text(models.take(i as int)));
    }
    assert(models.take(i as int) =~= models);
    scanner
}

fn push_unfinished(out: &mut String, scanner: &Scanner)
    requires
        scanner.wf(),
    ensures
        final(out)@ == old(out)@ + unfinished_text(scanner@),
{
    if let Some((start, bytes)) = scanner.unfinished() {
        out.append("unfinished escape sequence from #");
        push_decimal(out, start.get());
        out.append(": \"");
        push_escaped(out, bytes);
        if scanner.overflowed() {
            out.append("\"...\n");
        } else {
            out.append("\"\n");
        }
    }
    assert(out@ =~= old(out)@ + unfinished_text(scanner@));
}

fn push_end(out: &mut String, recording: &DecodedRecording)
    ensures
        final(out)@ == old(out)@ + end_text(recording@),
{
    match recording.end {
        SegmentEnd::Clean => out.append("end clean\n"),
        SegmentEnd::Truncated { offset } => {
            let interior: u64 = if recording.segment_count > 0 {
                (recording.segment_count - 1) as u64
            } else {
                0
            };
            out.append("end truncated at segment ");
            push_decimal(out, recording.header.segment_index as u64 + interior);
            out.append(" offset ");
            push_decimal(out, offset);
            out.append(" (incomplete final record excluded)\n");
        },
    }
    assert(out@ =~= old(out)@ + end_text(recording@));
}

/// `recording` as plain text.
///
/// # Layout
///
/// Header lines (format, run, segments, origin, geometry, `TERM`, input
/// policy), then one line per record:
///
/// ```text
/// #<sequence> <elapsed>ms output len=<n> "<bytes>"
/// #<sequence> <elapsed>ms input len=<n> "<bytes>"
/// #<sequence> <elapsed>ms resize rows=<r> cols=<c> user
/// #<sequence> <elapsed>ms resize rows=<r> cols=<c> repaint correlation=<id>
/// ```
///
/// Elapsed time is milliseconds since the recording origin, truncated to the
/// microsecond. Bytes are printed as ASCII.
///
/// After an output record, each flagged terminal sequence it completes gets an
/// indented `  ^ <label> "<sequence>"` line, with ` from #<n>` when the
/// sequence began in an earlier record. The dump ends with any escape sequence
/// still unfinished when the output stops, then how the final segment ended
/// (`end clean`, or where the incomplete final record was cut off).
///
/// # Detection across records
///
/// The child writes one continuous byte stream, but the recorder cuts it into
/// records wherever a read ended, so a query can begin in one output record and
/// finish in a later one. The scanner is therefore a single parser whose state
/// carries from one output record to the next, across segment boundaries and
/// across the resize and input records between them, which are not part of the
/// child's output. It remembers the record holding a sequence's `ESC`, and the
/// annotation follows the record holding its final byte.
///
/// Only 7-bit introducers are recognised; the 8-bit C1 forms (`0x9B`, `0x9D`,
/// `0x9F`) are ambiguous in UTF-8 output. At most 256 bytes of a sequence are
/// kept: a longer one is consumed to its end but not classified.
pub fn dump(recording: &DecodedRecording) -> (text: String)
    ensures
        text@ == dump_text(recording@),
{
    let mut out = String::new();
    push_header(&mut out, &recording.header, recording.segment_count);
    let scanner = push_records(&mut out, &recording.records);
    push_unfinished(&mut out, &scanner);
    push_end(&mut out, recording);
    assert(out@ =~= dump_text(recording@));
    out
}

/// A character that every terminal shows as itself.
pub open spec fn printable(c: char) -> bool {
    ' ' <= c <= '~'
}

/// Escaping leaves nothing but printable ASCII, whatever the bytes.
pub proof fn law_escaped_is_printable(bytes: Seq<u8>)
    ensures
        forall|i: int|
            0 <= i < escaped_text(bytes).len() ==> printable(#[trigger] escaped_text(bytes)[i]),
    decreases bytes.len(),
{
    if bytes.len() > 0 {
        law_escaped_is_printable(bytes.drop_last());
        let b = bytes.last();
        let head = escaped_text(bytes.drop_last());
        assert forall|i: int| 0 <= i < escaped_text(bytes).len() implies printable(
            #[trigger] escaped_text(bytes)[i],
        ) by {
            if i < head.len() {
                assert(escaped_text(bytes)[i] == head[i]);
            } else {
                assert(escaped_text(bytes)[i] == escaped_byte(b)[i - head.len()]);
            }
        }
    }
}

// What each operation does, in terms of what it was given and what it gave back.

/// Times are told in whole milliseconds and three digits of microseconds, and never more
/// than has passed.
pub proof fn law_times_are_cut_to_the_microsecond(out: &mut String, ns: u64)
    requires
        call_ensures(push_millis, (out, ns), ()),
    ensures
        final(out)@ =~= old(out)@ + (decimal(ns as nat / 1_000_000) + "."@ + digits(
            ns as nat / 1_000 % 1_000,
            10,
            3,
        )),
        (ns / 1_000_000) * 1_000_000 + (ns / 1_000 % 1_000) * 1_000 <= ns,
        ns - (ns / 1_000_000) * 1_000_000 - (ns / 1_000 % 1_000) * 1_000 < 1_000,
{
    assert((ns as nat % 1_000_000) / 1_000 == ns as nat / 1_000 % 1_000);
}

/// Escaping goes byte by byte.
proof fn lemma_escaped_joins(a: Seq<u8>, b: Seq<u8>)
    ensures
        escaped_text(a + b) =~= escaped_text(a) + escaped_text(b),
    decreases b.len(),
{
    if b.len() == 0 {
        assert(a + b =~= a);
    } else {
        assert((a + b).drop_last() =~= a + b.drop_last());
        lemma_escaped_joins(a, b.drop_last());
    }
}

/// Bytes are escaped one by one, in order. Printable ASCII stands for itself, but for the
/// backslash and the quote, which get a backslash in front; so do `n`, `r` and `t` for a
/// line feed, a carriage return and a tab; any other byte is told by its two digits.
pub proof fn law_bytes_are_escaped_one_by_one(
    first: &mut String,
    second: &mut String,
    whole: &mut String,
    head: &[u8],
    one: &[u8],
    all: &[u8],
)
    requires
        one@.len() == 1,
        all@ == head@ + one@,
        old(whole)@ == old(first)@,
        old(second)@ == final(first)@,
        call_ensures(push_escaped, (first, head), ()),
        call_ensures(push_escaped, (second, one), ()),
        call_ensures(push_escaped, (whole, all), ()),
    ensures
        final(whole)@ == final(second)@,
        ({
            let b = one@[0];
            let text = final(second)@.skip(old(second)@.len() as int);
            &&& 0x20 <= b <= 0x7e && b != 0x5c && b != 0x22 ==> text =~= seq![b as char]
            &&& b == 0x5c || b == 0x22 ==> text =~= seq!['\\', b as char]
            &&& b == 0x0a ==> text =~= seq!['\\', 'n']
            &&& b == 0x0d ==> text =~= seq!['\\', 'r']
            &&& b == 0x09 ==> text =~= seq!['\\', 't']
            &&& !(0x20 <= b <= 0x7e) && b != 0x0a && b != 0x0d && b != 0x09 ==> text.len() == 4
                && text[0] == '\\' && text[1] == 'x' && text.skip(2) =~= digits(b as nat, 16, 2)
        }),
        head@.len() == 0 ==> final(first)@ == old(first)@,
{
    lemma_escaped_joins(head@, one@);
    assert(one@.drop_last() =~= Seq::<u8>::empty());
    assert(escaped_text(one@.drop_last()) =~= Seq::<char>::empty());
    let b = one@[0];
    assert(escaped_text(one@) =~= escaped_byte(b));
    let text = final(second)@.skip(old(second)@.len() as int);
    assert(text =~= escaped_byte(b));
    assert(old(first)@ + (escaped_text(head@) + escaped_text(one@)) =~= old(first)@
        + escaped_text(head@) + escaped_text(one@));
    reveal_with_fuel(digits, 3);
    assert((b as nat / 16) % 16 == b as nat / 16);
    assert(digits(b as nat, 16, 2) =~= seq![digit(b as nat / 16), digit(b as nat % 16)]);
    if head@.len() == 0 {
        assert(escaped_text(head@) =~= Seq::<char>::empty());
    }
}

/// What a dump says of a record: its number and time, what it is, and either its length and
/// all of its bytes, or its rows, columns and cause.
pub proof fn law_record_lines(r: RecordModel)
    ensures
        ({
            let stamp = "#"@ + decimal(r.sequence as nat) + " "@ + millis_text(r.elapsed_ns)
                + "ms "@;
            record_text(r) =~= match r.kind {
                KindModel::Output(bytes) => stamp + ("output len="@ + decimal(bytes.len()) + " \""@
                    + escaped_text(bytes) + "\"\n"@),
                KindModel::Input(bytes) => stamp + ("input len="@ + decimal(bytes.len()) + " \""@
                    + escaped_text(bytes) + "\"\n"@),
                KindModel::Resize { geometry, cause } => stamp + ("resize rows="@ + decimal(
                    geometry.rows as nat,
                ) + " cols="@ + decimal(geometry.cols as nat) + match cause {
                    CauseModel::User => " user\n"@,
                    CauseModel::Repaint { correlation } => " repaint correlation="@ + decimal(
                        correlation as nat,
                    ) + "\n"@,
                }),
            }
        }),
{
}

/// A dump tells, in this order: the format, the run, the segments, the start, the geometry,
/// `TERM` and the input policy; then every record, in order, each followed by what its
/// output completes; then a sequence that output leaves unfinished; then how the recording
/// ended.
pub proof fn law_dump_tells_everything_in_order(recording: DecodedRecording, text: String)
    requires
        call_ensures(dump, (&recording,), text),
    ensures
        ({
            let r = recording@;
            let h = r.header;
            let head = "format "@ + decimal(1) + "\nrun "@ + uuid_text(h.run_id.0, h.run_id.1)
                + "\nsegments "@ + decimal(r.segment_count) + " (first index "@ + decimal(
                h.segment_index as nat,
            ) + ", first sequence "@ + decimal(h.first_sequence as nat) + ")\norigin_unix_ns "@
                + decimal(h.origin_unix_ns as nat) + "\ngeometry rows="@ + decimal(
                h.geometry.rows as nat,
            ) + " cols="@ + decimal(h.geometry.cols as nat) + "\nterm "@ + h.term;
            let policy = if h.input_recorded {
                "\ninput recorded\n"@
            } else {
                "\ninput not recorded\n"@
            };
            let unfinished = unfinished_text(scanned(r.records).0);
            let end = match r.end {
                SegmentEnd::Clean => "end clean\n"@,
                SegmentEnd::Truncated { offset } => "end truncated at segment "@ + decimal(
                    if r.segment_count > 0 {
                        (h.segment_index + r.segment_count - 1) as nat
                    } else {
                        h.segment_index as nat
                    },
                ) + " offset "@ + decimal(offset as nat)
                    + " (incomplete final record excluded)\n"@,
            };
            text@ =~= head + policy + records_text(r.records) + unfinished + end
        }),
{
}

/// One record more adds its line behind those before it, and behind that a line for each
/// sequence that it completes, if it is output; window sizes and input complete none.
pub proof fn law_dump_of_one_record_more(records: Seq<RecordModel>, r: RecordModel)
    ensures
        ({
            let before = scanned(records).0;
            let found = match r.kind {
                KindModel::Output(bytes) => before.scan(r.sequence, bytes).1,
                _ => Seq::empty(),
            };
            &&& records_text(records.push(r)) =~= records_text(records) + record_text(r)
                + findings_text(found, r.sequence)
            &&& !(r.kind is Output) ==> scanned(records.push(r)).0 == before
            &&& r.kind matches KindModel::Output(bytes) ==> scanned(records.push(r)).0
                == before.scan(r.sequence, bytes).0
        }),
{
    assert(records.push(r).drop_last() =~= records);
    assert(records.push(r).last() == r);
}

/// What a dump says of a sequence that a record completes: what it is, its bytes, and the
/// record that it began in where that is another one. A sequence that is left unfinished is
/// told with the record that it began in, and whether all of it is there.
pub proof fn law_finding_lines(
    found: Seq<FindingModel>,
    f: FindingModel,
    label: &'static str,
    sequence: u64,
    m: ScanModel,
)
    requires
        call_ensures(Marker::label, (f.marker,), label),
    ensures
        findings_text(found.push(f), sequence) =~= findings_text(found, sequence) + ("  ^ "@ + label@
            + " \""@ + escaped_text(f.bytes) + (if f.start == sequence {
            "\"\n"@
        } else {
            "\" from #"@ + decimal(f.start as nat) + "\n"@
        })),
        m.place is Ground ==> unfinished_text(m).len() == 0,
        !(m.place is Ground) ==> unfinished_text(m) =~= "unfinished escape sequence from #"@
            + decimal(m.start->0 as nat) + ": \""@ + escaped_text(m.bytes) + (if m.overflow {
            "\"...\n"@
        } else {
            "\"\n"@
        }),
{
    assert(found.push(f).drop_last() =~= found);
}

} // verus!
