//! The recording format.

use tendr::model::ids::RunId;
use tendr::recording::{
    checked_payload, decode_body, decode_header, decode_kind, decode_recording, decode_segment,
    kind_payload, record_frame_bytes, Correlation, Corruption, DecodeError, DecodeErrorKind,
    EncodeError, Geometry, Record, RecordKind, ResizeCause, SegmentEncoder, SegmentEnd,
    SegmentHeader, Sequence, TermName, TermNameError, Violation, FORMAT_VERSION, MAX_PAYLOAD,
    MAX_TERM_LEN,
};

fn seq(n: u64) -> Sequence {
    Sequence::new(n).unwrap()
}

fn header() -> SegmentHeader {
    SegmentHeader {
        run_id: RunId::from_v7(0x0190_1234_5678_7abc, 0x8def_0123_4567_89ab).unwrap(),
        segment_index: 0,
        first_sequence: Sequence::first(),
        origin_unix_ns: 0x0102_0304_0506_0708,
        geometry: Geometry::new(24, 80).unwrap(),
        input_recorded: false,
        term: TermName::new("vt100").unwrap(),
    }
}

fn output(n: u64, elapsed_ns: u64, bytes: &[u8]) -> Record {
    Record {
        sequence: seq(n),
        elapsed_ns,
        kind: RecordKind::Output(bytes.to_vec()),
    }
}

fn resize(n: u64, elapsed_ns: u64, rows: u16, cols: u16) -> Record {
    Record {
        sequence: seq(n),
        elapsed_ns,
        kind: RecordKind::Resize {
            geometry: Geometry::new(rows, cols).unwrap(),
            cause: ResizeCause::User,
        },
    }
}

/// The bytes of a segment with these records.
fn segment(encoder: &mut SegmentEncoder, records: &[Record]) -> Vec<u8> {
    let mut bytes = encoder.header_bytes();
    for record in records {
        bytes.extend(encoder.encode(record).unwrap());
    }
    bytes
}

/// With the checksum of the header made right again.
fn reseal(mut bytes: Vec<u8>, header_len: usize) -> Vec<u8> {
    let crc = crc32c::crc32c(&bytes[..header_len - 4]);
    bytes[header_len - 4..header_len].copy_from_slice(&crc.to_be_bytes());
    bytes
}

#[test]
fn a_header_is_laid_out_byte_for_byte() {
    let encoder = SegmentEncoder::new(header()).unwrap();
    let bytes = encoder.header_bytes();
    let mut expected: Vec<u8> = b"TNDRREC\0".to_vec();
    expected.extend([0, 1]); // version
    expected.extend([0, 65]); // header length
    expected.extend([0, 0]); // flags
    expected.extend([0x01, 0x90, 0x12, 0x34, 0x56, 0x78, 0x7a, 0xbc]);
    expected.extend([0x8d, 0xef, 0x01, 0x23, 0x45, 0x67, 0x89, 0xab]);
    expected.extend([0, 0, 0, 0]); // segment index
    expected.extend([0, 0, 0, 0, 0, 0, 0, 1]); // first sequence
    expected.extend([1, 2, 3, 4, 5, 6, 7, 8]); // origin
    expected.extend([0, 24, 0, 80]); // geometry
    expected.extend([0, 5]); // term length
    expected.extend(b"vt100");
    let crc = crc32c::crc32c(&expected);
    expected.extend(crc.to_be_bytes());
    assert_eq!(bytes, expected);
    assert_eq!(decode_header(&bytes), Ok((header(), 65)));
    assert_eq!(FORMAT_VERSION, 1);
}

#[test]
fn a_record_is_laid_out_byte_for_byte() {
    let mut encoder = SegmentEncoder::new(header()).unwrap();
    let bytes = encoder.encode(&output(1, 258, b"hi")).unwrap();
    let mut expected = vec![0, 0, 0, 19, 0xff, 0xff, 0xff, 0xec];
    expected.push(1);
    expected.extend([0, 0, 0, 0, 0, 0, 0, 1]);
    expected.extend([0, 0, 0, 0, 0, 0, 1, 2]);
    expected.extend(b"hi");
    assert_eq!(record_frame_bytes(&output(1, 258, b"hi")), expected);
    let crc = crc32c::crc32c(&expected);
    expected.extend(crc.to_be_bytes());
    assert_eq!(bytes, expected);

    assert_eq!(
        kind_payload(&RecordKind::Resize {
            geometry: Geometry::new(30, 100).unwrap(),
            cause: ResizeCause::Repaint {
                correlation: Correlation::new(7).unwrap()
            }
        }),
        [0, 30, 0, 100, 2, 0, 0, 0, 7]
    );
}

#[test]
fn a_segment_round_trips_and_rotates() {
    let mut first = SegmentEncoder::new(header()).unwrap();
    let one = [output(1, 5, b"a"), resize(2, 5, 30, 100)];
    let a = segment(&mut first, &one);
    assert_eq!(first.geometry(), Geometry::new(30, 100).unwrap());
    let mut second = first.next_segment().unwrap();
    assert_eq!(second.header().segment_index, 1);
    assert_eq!(second.header().first_sequence, seq(3));
    assert_eq!(second.header().geometry, Geometry::new(30, 100).unwrap());
    let two = [output(3, 6, b"b")];
    let b = segment(&mut second, &two);

    let decoded = decode_segment(&a).unwrap();
    assert_eq!(decoded.header, header());
    assert_eq!(decoded.records, one);
    assert_eq!(decoded.end, SegmentEnd::Clean);

    let recording = decode_recording(&[&a, &b]).unwrap();
    assert_eq!(recording.header, header());
    assert_eq!(recording.segment_count, 2);
    assert_eq!(
        recording.records,
        vec![one[0].clone(), one[1].clone(), two[0].clone()]
    );
    assert_eq!(recording.end, SegmentEnd::Clean);
}

#[test]
fn a_truncated_tail_is_excluded_wherever_it_was_cut() {
    let mut encoder = SegmentEncoder::new(header()).unwrap();
    let mut bytes = segment(&mut encoder, &[output(1, 0, b"kept")]);
    let whole = bytes.len();
    bytes.extend(encoder.encode(&output(2, 1, b"cut")).unwrap());
    for end in whole + 1..bytes.len() {
        let decoded = decode_segment(&bytes[..end]).unwrap();
        assert_eq!(decoded.records, [output(1, 0, b"kept")]);
        assert_eq!(
            decoded.end,
            SegmentEnd::Truncated {
                offset: whole as u64
            }
        );
    }
    assert_eq!(decode_segment(&bytes).unwrap().end, SegmentEnd::Clean);
}

#[test]
fn only_the_last_segment_may_be_truncated() {
    let mut first = SegmentEncoder::new(header()).unwrap();
    let a = segment(&mut first, &[output(1, 0, b"a"), output(2, 0, b"b")]);
    let mut second = first.next_segment().unwrap();
    let b = segment(&mut second, &[output(3, 0, b"c")]);
    assert_eq!(
        decode_recording(&[&a[..a.len() - 1], &b]),
        Err(DecodeError {
            kind: DecodeErrorKind::Corrupt(Corruption::TruncatedInteriorSegment),
            segment: Some(0),
            offset: (a.len() - 30) as u64,
            last_valid_sequence: Some(seq(1)),
        })
    );
    let tail = decode_recording(&[&a, &b[..b.len() - 1]]).unwrap();
    assert_eq!(tail.records.len(), 2);
    assert_eq!(tail.end, SegmentEnd::Truncated { offset: 65 });
}

#[test]
fn damage_is_an_error_and_is_located() {
    let mut encoder = SegmentEncoder::new(header()).unwrap();
    let good = segment(&mut encoder, &[output(1, 0, b"one"), output(2, 0, b"two")]);
    let kind_of = |at: usize| {
        let mut bytes = good.clone();
        bytes[at] ^= 1;
        decode_segment(&bytes).unwrap_err()
    };
    assert_eq!(kind_of(0).kind, DecodeErrorKind::BadMagic);
    assert_eq!(kind_of(9).kind, DecodeErrorKind::UnsupportedVersion(0));
    assert_eq!(
        kind_of(50).kind,
        DecodeErrorKind::Corrupt(Corruption::HeaderChecksum)
    );
    // The second record starts behind the header and 32 bytes.
    assert_eq!(
        kind_of(65 + 32 + 4),
        DecodeError {
            kind: DecodeErrorKind::Corrupt(Corruption::LengthCheck),
            segment: None,
            offset: 97,
            last_valid_sequence: Some(seq(1)),
        }
    );
    assert_eq!(
        kind_of(65 + 32 + 12).kind,
        DecodeErrorKind::Corrupt(Corruption::RecordChecksum)
    );
    assert_eq!(
        decode_segment(&good[..40]).unwrap_err().kind,
        DecodeErrorKind::Corrupt(Corruption::HeaderIncomplete)
    );
    let mut long = good.clone();
    long[10] = 2;
    assert_eq!(
        decode_segment(&long).unwrap_err().kind,
        DecodeErrorKind::Corrupt(Corruption::HeaderLength)
    );
    let mut bounds = good[..65].to_vec();
    bounds.extend([0, 0, 0, 3, 0xff, 0xff, 0xff, 0xfc]);
    bounds.extend([0; 40]);
    assert_eq!(
        decode_segment(&bounds).unwrap_err().kind,
        DecodeErrorKind::Corrupt(Corruption::LengthBounds)
    );
}

#[test]
fn a_checksummed_header_that_breaks_a_rule_is_a_violation() {
    let good = SegmentEncoder::new(header()).unwrap().header_bytes();
    let violation = |at: usize, value: u8| {
        let mut bytes = good.clone();
        bytes[at] = value;
        match decode_segment(&reseal(bytes, 65)).unwrap_err().kind {
            DecodeErrorKind::Invalid(violation) => violation,
            other => panic!("{other:?}"),
        }
    };
    assert_eq!(violation(55, 4), Violation::HeaderLengthMismatch);
    assert_eq!(violation(13, 2), Violation::ReservedFlags);
    assert_eq!(violation(20, 0x4a), Violation::RunIdVersion);
    assert_eq!(violation(41, 0), Violation::FirstSequence);
    assert_eq!(violation(41, 2), Violation::FirstSequence);
    assert_eq!(violation(51, 0), Violation::ZeroGeometry);
    assert_eq!(violation(53, 0), Violation::ZeroGeometry);
    assert_eq!(violation(56, b' '), Violation::TermByte);
}

#[test]
fn a_record_that_breaks_a_rule_is_a_violation() {
    assert_eq!(decode_kind(9, b"x", true), Err(Violation::UnknownKind(9)));
    assert_eq!(decode_kind(1, b"", true), Err(Violation::PayloadSize));
    assert_eq!(decode_kind(3, b"", true), Err(Violation::PayloadSize));
    assert_eq!(decode_kind(3, b"q", false), Err(Violation::InputNotRecorded));
    assert_eq!(decode_kind(3, b"q", true), Ok(RecordKind::Input(b"q".to_vec())));
    assert_eq!(decode_kind(2, &[0; 8], true), Err(Violation::PayloadSize));
    assert_eq!(
        decode_kind(2, &[0, 0, 0, 1, 1, 0, 0, 0, 0], true),
        Err(Violation::ZeroGeometry)
    );
    assert_eq!(
        decode_kind(2, &[0, 1, 0, 1, 3, 0, 0, 0, 0], true),
        Err(Violation::UnknownResizeCause(3))
    );
    assert_eq!(
        decode_kind(2, &[0, 1, 0, 1, 1, 0, 0, 0, 1], true),
        Err(Violation::Correlation)
    );
    assert_eq!(
        decode_kind(2, &[0, 1, 0, 1, 2, 0, 0, 0, 0], true),
        Err(Violation::Correlation)
    );

    let frame = record_frame_bytes(&output(4, 10, b"x"));
    let body = &frame[8..];
    assert_eq!(
        decode_body(body, false, Some(seq(4)), Some(10)),
        Ok(output(4, 10, b"x"))
    );
    assert_eq!(
        decode_body(body, false, Some(seq(5)), None),
        Err(Violation::Sequence)
    );
    assert_eq!(decode_body(body, false, None, None), Err(Violation::Sequence));
    assert_eq!(
        decode_body(body, false, Some(seq(4)), Some(11)),
        Err(Violation::ElapsedRegressed)
    );
}

#[test]
fn segments_that_do_not_belong_together_are_refused() {
    let mut first = SegmentEncoder::new(header()).unwrap();
    let a = segment(&mut first, &[output(1, 5, b"a")]);
    let next = first.next_segment().unwrap();
    let b = next.header_bytes();
    let violation = |list: &[&[u8]]| match decode_recording(list).unwrap_err().kind {
        DecodeErrorKind::Invalid(violation) => violation,
        other => panic!("{other:?}"),
    };
    assert_eq!(violation(&[]), Violation::NoSegments);
    assert_eq!(violation(&[&b]), Violation::SegmentIndex);
    assert_eq!(violation(&[&a, &a]), Violation::SegmentIndex);
    let changed = |at: usize, value: u8| {
        let mut bytes = b.clone();
        bytes[at] = value;
        reseal(bytes, 65)
    };
    assert_eq!(violation(&[&a, &changed(29, 0)]), Violation::SegmentRun);
    assert_eq!(violation(&[&a, &changed(49, 0)]), Violation::SegmentOrigin);
    assert_eq!(violation(&[&a, &changed(13, 1)]), Violation::SegmentFlags);
    assert_eq!(violation(&[&a, &changed(56, b'V')]), Violation::SegmentTerm);
    assert_eq!(
        violation(&[&a, &changed(41, 3)]),
        Violation::SegmentFirstSequence
    );
    assert_eq!(
        violation(&[&a, &changed(51, 25)]),
        Violation::SegmentGeometry
    );
    let empty = SegmentEncoder::new(header()).unwrap().header_bytes();
    assert_eq!(violation(&[&empty, &b]), Violation::EmptyInteriorSegment);

    // A fresh encoder for the second segment does not know when the first ended.
    let mut forgetful = SegmentEncoder::new(SegmentHeader {
        segment_index: 1,
        first_sequence: seq(2),
        ..header()
    })
    .unwrap();
    let early = segment(&mut forgetful, &[output(2, 4, b"b")]);
    assert_eq!(violation(&[&a, &early]), Violation::SegmentElapsed);
}

#[test]
fn the_encoder_refuses_what_a_reader_would() {
    assert_eq!(
        SegmentEncoder::new(SegmentHeader {
            first_sequence: seq(2),
            ..header()
        })
        .err(),
        Some(EncodeError::FirstSequence)
    );
    let mut encoder = SegmentEncoder::new(header()).unwrap();
    assert_eq!(
        encoder.next_segment().err(),
        Some(EncodeError::EmptySegmentRotation)
    );
    assert_eq!(
        encoder.encode(&output(2, 0, b"x")),
        Err(EncodeError::Sequence {
            expected: 1,
            got: 2
        })
    );
    assert_eq!(
        encoder.encode(&output(1, 0, b"")),
        Err(EncodeError::EmptyPayload)
    );
    assert_eq!(
        encoder.encode(&output(1, 0, &vec![0; MAX_PAYLOAD + 1])),
        Err(EncodeError::PayloadTooLarge {
            len: MAX_PAYLOAD + 1
        })
    );
    assert_eq!(
        encoder.encode(&Record {
            sequence: seq(1),
            elapsed_ns: 0,
            kind: RecordKind::Input(b"q".to_vec())
        }),
        Err(EncodeError::InputNotRecorded)
    );
    encoder.encode(&output(1, 9, b"x")).unwrap();
    assert_eq!(
        encoder.encode(&output(2, 8, b"x")),
        Err(EncodeError::ElapsedRegressed {
            previous: 9,
            got: 8
        })
    );
    // A rotated encoder still knows when the segment before it ended.
    let mut next = encoder.next_segment().unwrap();
    assert_eq!(
        next.encode(&output(2, 8, b"x")),
        Err(EncodeError::ElapsedRegressed {
            previous: 9,
            got: 8
        })
    );

    let mut last = SegmentEncoder::new(SegmentHeader {
        segment_index: u32::MAX,
        first_sequence: seq(u64::MAX),
        ..header()
    })
    .unwrap();
    last.encode(&output(u64::MAX, 0, b"x")).unwrap();
    assert_eq!(
        last.encode(&output(u64::MAX, 0, b"x")),
        Err(EncodeError::SequenceExhausted)
    );
    assert!(last.next_segment().is_err());
    let mut wide = SegmentEncoder::new(SegmentHeader {
        segment_index: u32::MAX,
        first_sequence: seq(7),
        ..header()
    })
    .unwrap();
    wide.encode(&output(7, 0, b"x")).unwrap();
    assert_eq!(
        wide.next_segment().err(),
        Some(EncodeError::SegmentIndexExhausted)
    );
    assert_eq!(checked_payload(b"ok"), Ok(&b"ok"[..]));
}

#[test]
fn small_types_check_their_values() {
    assert_eq!(Geometry::new(0, 1), None);
    assert_eq!(Geometry::new(1, 0), None);
    let size = Geometry::new(40, 120).unwrap();
    assert_eq!((size.rows(), size.cols()), (40, 120));
    assert_eq!(Sequence::new(0), None);
    assert_eq!(Sequence::first().get(), 1);
    assert_eq!(Sequence::first().next(), Sequence::new(2));
    assert_eq!(seq(u64::MAX).next(), None);
    assert_eq!(Correlation::new(0), None);
    assert_eq!(TermName::new("a b"), Err(TermNameError::InvalidByte));
    assert_eq!(TermName::new("\u{e9}"), Err(TermNameError::InvalidByte));
    assert_eq!(
        TermName::new(&"x".repeat(MAX_TERM_LEN + 1)),
        Err(TermNameError::TooLong)
    );
    assert_eq!(TermName::new("").unwrap(), TermName::empty());
    assert_eq!(TermName::new("dumb").unwrap().as_str(), "dumb");
}

#[test]
fn a_run_id_is_a_version_7_uuid() {
    let (hi, lo) = (0x0190_1234_5678_7abc, 0x8def_0123_4567_89ab);
    let run = RunId::from_v7(hi, lo).unwrap();
    assert_eq!(run.as_u64_pair(), (hi, lo));
    assert_eq!(run.to_text(), "01901234-5678-7abc-8def-0123456789ab");
    assert_eq!(run.to_text(), uuid::Uuid::from_u64_pair(hi, lo).to_string());
    assert_eq!(RunId::from_v7(0x0190_1234_5678_4abc, lo), None);
}

#[test]
fn errors_say_what_is_wrong() {
    assert_eq!(
        TermNameError::TooLong.message(),
        "TERM is longer than 256 bytes"
    );
    assert_eq!(
        TermNameError::InvalidByte.message(),
        "TERM contains a byte outside 0x21..=0x7E"
    );
    assert_eq!(
        EncodeError::Sequence {
            expected: 1,
            got: 20
        }
        .message(),
        "expected sequence 1, got 20"
    );
    assert_eq!(
        EncodeError::ElapsedRegressed {
            previous: 9,
            got: 8
        }
        .message(),
        "elapsed time went backwards: 9 ns then 8 ns"
    );
    assert_eq!(
        EncodeError::PayloadTooLarge { len: 65_537 }.message(),
        "record payload is 65537 bytes; the maximum is 65536"
    );
    assert_eq!(
        EncodeError::FirstSequence.message(),
        "segment 0 must start at sequence 1"
    );
    let error = |kind: DecodeErrorKind, segment: Option<u32>| DecodeError {
        kind,
        segment,
        offset: 97,
        last_valid_sequence: None,
    };
    assert_eq!(
        error(DecodeErrorKind::UnsupportedVersion(2), None).message(),
        "recording UnsupportedVersion(2) at segment None offset 97"
    );
    for kind in [
        DecodeErrorKind::BadMagic,
        DecodeErrorKind::Corrupt(Corruption::TruncatedInteriorSegment),
        DecodeErrorKind::Invalid(Violation::EmptyInteriorSegment),
        DecodeErrorKind::Invalid(Violation::UnknownKind(9)),
        DecodeErrorKind::Invalid(Violation::UnknownResizeCause(255)),
    ] {
        assert_eq!(
            error(kind, Some(3)).message(),
            format!("recording {kind:?} at segment Some(3) offset 97")
        );
    }
}

#[test]
fn what_decodes_is_what_the_encoder_writes() {
    let mut encoder = SegmentEncoder::new(SegmentHeader {
        input_recorded: true,
        ..header()
    })
    .unwrap();
    let bytes = segment(
        &mut encoder,
        &[
            output(1, 0, b"a"),
            Record {
                sequence: seq(2),
                elapsed_ns: 0,
                kind: RecordKind::Input(b"q".to_vec()),
            },
            resize(3, 7, 30, 100),
        ],
    );
    let decoded = decode_segment(&bytes).unwrap();
    let mut again = SegmentEncoder::new(decoded.header).unwrap();
    assert_eq!(segment(&mut again, &decoded.records), bytes);
}

/// CRC-32C, bit by bit.
fn crc_by_bits(bytes: &[u8]) -> u32 {
    let mut register = u32::MAX;
    for byte in bytes {
        register ^= u32::from(*byte);
        for _ in 0..8 {
            register = if register & 1 == 1 {
                (register >> 1) ^ 0x82f6_3b78
            } else {
                register >> 1
            };
        }
    }
    !register
}

#[test]
fn headers_and_records_end_in_their_crc32c() {
    assert_eq!(crc_by_bits(b"123456789"), 0xe306_9283);
    let mut encoder = SegmentEncoder::new(header()).unwrap();
    for n in 0..40usize {
        let payload: Vec<u8> = (0..=n * 7).map(|i| (i * 31 + n) as u8).collect();
        let frame = encoder.encode(&output(n as u64 + 1, n as u64, &payload)).unwrap();
        let (body, crc) = frame.split_at(frame.len() - 4);
        assert_eq!(crc, crc_by_bits(body).to_be_bytes());
    }
    let bytes = encoder.header_bytes();
    let (body, crc) = bytes.split_at(bytes.len() - 4);
    assert_eq!(crc, crc_by_bits(body).to_be_bytes());
}
