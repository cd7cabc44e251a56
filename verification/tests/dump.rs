//! Dumps and the scanner behind them.

use tendr::model::ids::RunId;
use tendr::recording::dump::{dump, push_escaped, push_millis};
use tendr::recording::scan::Scanner;
use tendr::recording::{
    Correlation, DecodedRecording, Geometry, Record, RecordKind, ResizeCause, SegmentEnd,
    SegmentHeader, Sequence, TermName,
};

fn seq(n: u64) -> Sequence {
    Sequence::new(n).unwrap()
}

/// Feed each chunk as its own record (sequences 1, 2, …) and return the
/// labels found, with the record each one started in and completed in.
fn scan(chunks: &[&[u8]]) -> Vec<(&'static str, u64, u64)> {
    let mut scanner = Scanner::new();
    let mut labels = Vec::new();
    for (i, chunk) in chunks.iter().enumerate() {
        let sequence = seq(i as u64 + 1);
        let mut found = Vec::new();
        scanner.feed(sequence, chunk, &mut found);
        labels.extend(
            found
                .into_iter()
                .map(|f| (f.marker.label(), f.start.get(), sequence.get())),
        );
    }
    labels
}

fn labels(bytes: &[u8]) -> Vec<&'static str> {
    scan(&[bytes])
        .into_iter()
        .map(|(label, ..)| label)
        .collect()
}

const FLAGGED: &[(&[u8], &str)] = &[
    (b"\x1b[c", "query:da1"),
    (b"\x1b[0c", "query:da1"),
    (b"\x1b[6n", "query:dsr-cpr"),
    (b"\x1b[?u", "query:kitty-keyboard"),
    (b"\x1b[>1u", "mode:kitty-keyboard-push"),
    (b"\x1b[>u", "mode:kitty-keyboard-push"),
    (b"\x1b[<u", "mode:kitty-keyboard-pop"),
    (b"\x1b[<2u", "mode:kitty-keyboard-pop"),
    (b"\x1b[=1;1u", "mode:kitty-keyboard-set"),
    (b"\x1b]10;?\x07", "query:osc10"),
    (b"\x1b]11;?\x1b\\", "query:osc11"),
    (b"\x1b[>0q", "query:xtversion"),
    (b"\x1b[>q", "query:xtversion"),
    (b"\x1b[?1049h", "mode:alt-screen-on"),
    (b"\x1b[?1049l", "mode:alt-screen-off"),
    (b"\x1b[?2004h", "mode:bracketed-paste-on"),
    (b"\x1b[?2004l", "mode:bracketed-paste-off"),
    (b"\x1b[>c", "query:da2"),
    (b"\x1b[>0c", "query:da2"),
    (b"\x1b[5n", "query:dsr-status"),
    (b"\x1b[?1049$p", "query:decrqm"),
    (b"\x1b[?2026$p", "query:decrqm"),
    (b"\x1b[4$p", "query:decrqm"),
    (b"\x1b[>4;0m", "mode:modify-other-keys=0"),
    (b"\x1b[>4;1m", "mode:modify-other-keys=1"),
    (b"\x1b[>4;2m", "mode:modify-other-keys=2"),
    (b"\x1b[>4;3m", "mode:modify-other-keys=3"),
    (b"\x1b[>4;7m", "mode:modify-other-keys"),
    (b"\x1b[>4m", "mode:modify-other-keys=reset"),
    (b"\x1b[>4;m", "mode:modify-other-keys=reset"),
    (b"\x1b[>m", "mode:modify-other-keys=reset"),
    (b"\x1b[>4n", "mode:modify-other-keys=off"),
    (
        b"\x1b_Gi=31,s=1,v=1,a=q,t=d,f=24;AAAA\x1b\\",
        "query:kitty-graphics",
    ),
    (b"\x1b_Ga=q,i=1;AAAA\x07", "query:kitty-graphics"),
    (b"\x1b_Ga=q\x1b\\", "query:kitty-graphics"),
];

#[test]
fn each_query_and_mode_change_is_flagged() {
    for (bytes, label) in FLAGGED {
        assert_eq!(labels(bytes), [*label], "{bytes:?}");
    }
}

#[test]
fn a_flagged_sequence_split_at_any_byte_is_flagged_once_from_its_first_record() {
    for (bytes, label) in FLAGGED {
        for cut in 1..bytes.len() {
            let (head, tail) = bytes.split_at(cut);
            assert_eq!(scan(&[head, tail]), [(*label, 1, 2)], "{bytes:?} cut {cut}");
        }
    }
}

#[test]
fn a_sequence_split_across_three_records_names_the_first() {
    assert_eq!(
        scan(&[b"text\x1b", b"[?10", b"49h more"]),
        [("mode:alt-screen-on", 1, 3)]
    );
}

#[test]
fn similar_bytes_are_not_flagged() {
    let lookalikes: &[&[u8]] = &[
        b"[c [6n [?u ]11;? plain text",
        b"\x1b[>1;10;0c",                  // DA2 reply
        b"\x1b[>1c",                       // not a DA2 request
        b"\x1b[=c",                        // DA3
        b"\x1b[1c",                        // not a DA1 request
        b"\x1b[?6n",                       // DECXCPR
        b"\x1b[?5n",                       // DEC private, not DSR 5
        b"\x1b[0n",                        // "terminal OK" reply
        b"\x1b[16n",                       // not 6
        b"\x1b[u",                         // restore cursor (SCORC)
        b"\x1b[?1u",                       // not the bare query
        b"\x1b[>1;2u",                     // push takes one parameter
        b"\x1b[0q",                        // DECLL
        b"\x1b[ q",                        // DECSCUSR
        b"\x1b[>1q",                       // not XTVERSION
        b"\x1b[1049h",                     // ANSI mode, not DEC private
        b"\x1b[?104h",                     // other private mode
        b"\x1b[?10490h",                   // other private mode
        b"\x1b[?2004r",                    // restore, not set
        b"\x1b[?1049$y",                   // DECRPM reply
        b"\x1b[?$p",                       // DECRQM without a mode
        b"\x1b[?1049;1$p",                 // DECRQM takes one mode
        b"\x1b[$1p",                       // parameter after intermediate
        b"\x1b[!p",                        // DECSTR
        b"\x1b[1\"p",                      // DECSCL
        b"\x1b[4m",                        // underline
        b"\x1b[?4m",                       // not XTMODKEYS
        b"\x1b[>1;2m",                     // modifyCursorKeys
        b"\x1b[>14;2m",                    // other resource
        b"\x1b[>4;2;1m",                   // too many parameters
        b"\x1b[>4;2 m",                    // intermediate byte
        b"\x1b[>1n",                       // disables another resource
        b"\x1b]11;rgb:0000/0000/0000\x07", // sets the colour
        b"\x1b]110\x07",                   // resets it
        b"\x1b]12;?\x07",                  // cursor colour
        b"\x1b]1;?\x07",                   // icon name
        b"\x1b[\x18c",                     // CAN cancels the sequence
        b"\x1b[\x1a6n",                    // SUB cancels the sequence
        b"\x1bP>|c\x1b\\",                 // DCS, not CSI
        b"\x1b_Gi=31,a=T,f=24;AAAA\x1b\\", // kitty graphics transmit and display
        b"\x1b_Gi=31;a=q\x1b\\",           // `a=q` in the payload, not the keys
        b"\x1b_Gaa=q\x1b\\",               // another key
        b"\x1b_Ga=qq\x1b\\",               // another value
        b"\x1b_Xa=q\x1b\\",                // not a graphics command
        b"\x1b_Ga=q\x18\x1b\\",            // CAN cancels the sequence
    ];
    for bytes in lookalikes {
        assert_eq!(labels(bytes), Vec::<&str>::new(), "{bytes:?}");
    }
}

#[test]
fn c0_controls_after_escape_do_not_end_it() {
    assert_eq!(labels(b"\x1b\r[6n"), ["query:dsr-cpr"]);
    assert_eq!(labels(b"\x1b\x18[6n"), Vec::<&str>::new());
}

#[test]
fn escape_restarts_an_unfinished_sequence() {
    assert_eq!(labels(b"\x1b[?10\x1b[c"), ["query:da1"]);
    assert_eq!(labels(b"\x1b]11;\x1b[6n"), ["query:dsr-cpr"]);
    assert_eq!(labels(b"\x1b\x1b[6n"), ["query:dsr-cpr"]);
}

#[test]
fn an_escape_ending_an_osc_record_can_start_the_next_sequence() {
    assert_eq!(
        scan(&[b"\x1b]0;title\x1b", b"[6n"]),
        [("query:dsr-cpr", 1, 2)]
    );
}

#[test]
fn a_kitty_graphics_query_split_across_records_is_flagged_from_its_first() {
    assert_eq!(
        scan(&[
            b"x\x1b_Gi=31,s=1,v=1,",
            b"a=q,t=d,f=24;AA",
            b"AA\x1b",
            b"\\y"
        ]),
        [("query:kitty-graphics", 1, 4)]
    );
}

#[test]
fn an_escape_inside_an_apc_starts_a_new_sequence() {
    assert_eq!(labels(b"\x1b_Ga=q;AA\x1b[6n"), ["query:dsr-cpr"]);
    assert_eq!(scan(&[b"\x1b_Ga=T;AA\x1b", b"[c"]), [("query:da1", 1, 2)]);
}

#[test]
fn one_private_mode_sequence_can_carry_several_changes() {
    assert_eq!(
        labels(b"\x1b[?1000;1049;2004l"),
        ["mode:alt-screen-off", "mode:bracketed-paste-off"]
    );
}

#[test]
fn one_osc_can_query_both_colours() {
    assert_eq!(labels(b"\x1b]10;?;?\x07"), ["query:osc10", "query:osc11"]);
}

#[test]
fn a_long_sequence_is_consumed_without_hiding_what_follows() {
    let mut bytes = b"\x1b]52;c;".to_vec();
    bytes.extend(vec![b'A'; 100_000]);
    bytes.extend(b"\x07\x1b[c");
    assert_eq!(labels(&bytes), ["query:da1"]);

    let mut csi = b"\x1b[".to_vec();
    csi.extend(vec![b'1'; 10_000]);
    csi.extend(b"n\x1b[6n");
    assert_eq!(labels(&csi), ["query:dsr-cpr"]);
}

#[test]
fn c0_controls_inside_a_csi_do_not_end_it() {
    assert_eq!(labels(b"\x1b[\r6n"), ["query:dsr-cpr"]);
}

#[test]
fn an_unfinished_sequence_is_reported_with_its_first_record() {
    let mut scanner = Scanner::new();
    let mut found = Vec::new();
    scanner.feed(seq(1), b"ok", &mut found);
    assert_eq!(scanner.unfinished(), None);
    scanner.feed(seq(2), b"\x1b[?20", &mut found);
    scanner.feed(seq(3), b"04", &mut found);
    assert_eq!(scanner.unfinished(), Some((seq(2), &b"\x1b[?2004"[..])));
    scanner.feed(seq(4), b"h", &mut found);
    assert_eq!(scanner.unfinished(), None);
    assert_eq!(found.len(), 1);
}

fn escaped(bytes: &[u8]) -> String {
    let mut text = String::new();
    push_escaped(&mut text, bytes);
    text
}

#[test]
fn escaping_leaves_only_printable_ascii() {
    let all: Vec<u8> = (0..=255).collect();
    let text = escaped(&all);
    assert!(text.bytes().all(|b| (0x20..=0x7e).contains(&b)), "{text}");
    assert!(text.starts_with(r"\x00\x01"));
    assert!(text.contains(r"\t\n\x0b\x0c\r"));
    assert!(text.contains(r##" !\"#"##));
    assert!(text.contains(r"[\\]"));
    assert!(text.contains(r"}~\x7f\x80"));
    assert!(text.ends_with(r"\xfe\xff"));
}

fn millis(ns: u64) -> String {
    let mut text = String::new();
    push_millis(&mut text, ns);
    text
}

#[test]
fn elapsed_time_is_milliseconds_truncated_to_the_microsecond() {
    assert_eq!(millis(0), "0.000");
    assert_eq!(millis(1_234_999), "1.234");
    assert_eq!(millis(61_000_000_000), "61000.000");
}

fn recording(records: Vec<Record>, end: SegmentEnd) -> DecodedRecording {
    DecodedRecording {
        header: SegmentHeader {
            run_id: RunId::from_v7(0x0190_1234_5678_7abc, 0x8def_0123_4567_89ab).unwrap(),
            segment_index: 0,
            first_sequence: seq(1),
            origin_unix_ns: 42,
            geometry: Geometry::new(24, 80).unwrap(),
            input_recorded: true,
            term: TermName::new("xterm-256color").unwrap(),
        },
        segment_count: 2,
        records,
        end,
    }
}

#[test]
fn a_dump_has_a_line_for_everything() {
    let records = vec![
        Record {
            sequence: seq(1),
            elapsed_ns: 1_500_000,
            kind: RecordKind::Output(b"hi\x1b[".to_vec()),
        },
        Record {
            sequence: seq(2),
            elapsed_ns: 2_000_000,
            kind: RecordKind::Input(b"q".to_vec()),
        },
        Record {
            sequence: seq(3),
            elapsed_ns: 3_000_000,
            kind: RecordKind::Resize {
                geometry: Geometry::new(30, 100).unwrap(),
                cause: ResizeCause::User,
            },
        },
        Record {
            sequence: seq(4),
            elapsed_ns: 3_000_999,
            kind: RecordKind::Resize {
                geometry: Geometry::new(31, 101).unwrap(),
                cause: ResizeCause::Repaint {
                    correlation: Correlation::new(7).unwrap(),
                },
            },
        },
        Record {
            sequence: seq(5),
            elapsed_ns: 4_000_000,
            kind: RecordKind::Output(b"6n\x1b[c\x1b".to_vec()),
        },
    ];
    let text = dump(&recording(records, SegmentEnd::Truncated { offset: 77 }));
    let lines: Vec<&str> = text.lines().collect();
    assert_eq!(
        lines,
        [
            "format 1",
            "run 01901234-5678-7abc-8def-0123456789ab",
            "segments 2 (first index 0, first sequence 1)",
            "origin_unix_ns 42",
            "geometry rows=24 cols=80",
            "term xterm-256color",
            "input recorded",
            r##"#1 1.500ms output len=4 "hi\x1b[""##,
            r##"#2 2.000ms input len=1 "q""##,
            "#3 3.000ms resize rows=30 cols=100 user",
            "#4 3.000ms resize rows=31 cols=101 repaint correlation=7",
            r##"#5 4.000ms output len=6 "6n\x1b[c\x1b""##,
            r##"  ^ query:dsr-cpr "\x1b[6n" from #1"##,
            r##"  ^ query:da1 "\x1b[c""##,
            r##"unfinished escape sequence from #5: "\x1b""##,
            "end truncated at segment 1 offset 77 (incomplete final record excluded)",
        ]
    );
    assert!(text.ends_with('\n'));
}

#[test]
fn a_clean_dump_says_so() {
    let mut empty = recording(vec![], SegmentEnd::Clean);
    empty.header.input_recorded = false;
    let text = dump(&empty);
    assert!(text.contains("\ninput not recorded\nend clean\n"), "{text}");
}

#[test]
fn an_overlong_unfinished_sequence_is_cut_short() {
    let mut bytes = b"\x1b]".to_vec();
    bytes.extend(vec![b'x'; 300]);
    let text = dump(&recording(
        vec![Record {
            sequence: seq(1),
            elapsed_ns: 0,
            kind: RecordKind::Output(bytes),
        }],
        SegmentEnd::Clean,
    ));
    let expected = format!("from #1: \"\\x1b]{}\"...\n", "x".repeat(254));
    assert!(text.contains(&expected), "{text}");
}
