//! Attach protocol messages.

use tendr::attach_proto::{
    declared_len, input_done_payload, parse_input_done, parse_resize, read_msg, resize_payload,
    write_msg, Frame, FrameError, Mode, Progress, PushOutcome, INPUT_CLOSED, INPUT_REVOKED,
    INPUT_WRITTEN, MAX_FRAME_PAYLOAD, MSG_ACCEPTED, MSG_DATA, MSG_DETACH, MSG_HELLO,
    MSG_INPUT_DONE, MSG_REJECTED, MSG_RESIZE, MSG_RETIRED,
};
use tendr::io_error::ErrorKind;
use tendr::recording::Geometry;

fn frame(msg_type: u8, declared_len: u32, payload: &[u8]) -> Vec<u8> {
    let mut out = vec![msg_type];
    out.extend_from_slice(&declared_len.to_be_bytes());
    out.extend_from_slice(payload);
    out
}

#[test]
fn a_resize_round_trips_and_a_zero_dimension_is_refused_at_parse() {
    let size = Geometry::new(40, 120).unwrap();
    assert_eq!(parse_resize(&resize_payload(size)), Some(size));
    assert_eq!(parse_resize(&[0, 0, 0, 100]), None, "zero rows");
    assert_eq!(parse_resize(&[0, 24, 0, 0]), None, "zero columns");
    assert_eq!(parse_resize(&[0, 24, 0]), None, "short");
}

#[test]
fn a_frame_at_the_payload_limit_is_read() {
    let payload = vec![7u8; MAX_FRAME_PAYLOAD];
    let bytes = frame(MSG_DATA, MAX_FRAME_PAYLOAD as u32, &payload);
    let (msg_type, got) = read_msg(bytes.as_slice()).unwrap();
    assert_eq!(msg_type, MSG_DATA);
    assert_eq!(got.len(), MAX_FRAME_PAYLOAD);
}

#[test]
fn an_oversized_frame_is_rejected_before_allocation() {
    // A 4 GiB declared length with no payload behind it: reading must fail
    // on the length alone, not try to allocate or wait for the bytes.
    let bytes = frame(MSG_DATA, u32::MAX, &[]);
    let err = read_msg(bytes.as_slice()).unwrap_err();
    assert_eq!(err, ErrorKind::InvalidData);

    let just_over = frame(MSG_DATA, MAX_FRAME_PAYLOAD as u32 + 1, &[]);
    let err = read_msg(just_over.as_slice()).unwrap_err();
    assert_eq!(err, ErrorKind::InvalidData);
    assert_eq!(declared_len(&just_over), Err(ErrorKind::InvalidData));
}

#[test]
fn a_resize_payload_is_two_big_endian_words() {
    assert_eq!(resize_payload(Geometry::new(1, 258).unwrap()), [0, 1, 1, 2]);
    assert_eq!(
        parse_resize(&[0, 24, 0, 80, 9, 9]),
        Geometry::new(24, 80),
        "what follows the size is not looked at"
    );
}

#[test]
fn an_outcome_payload_round_trips_and_has_one_length() {
    let payload = input_done_payload(INPUT_REVOKED, 3, 258);
    assert_eq!(
        payload,
        [1, 0, 0, 0, 0, 0, 0, 0, 3, 0, 0, 0, 0, 0, 0, 1, 2]
    );
    assert_eq!(parse_input_done(&payload), Some((INPUT_REVOKED, 3, 258)));
    assert_eq!(parse_input_done(&payload[..16]), None);
    let mut long = payload.clone();
    long.push(0);
    assert_eq!(parse_input_done(&long), None);
}

#[test]
fn a_message_is_a_type_a_length_and_a_payload() {
    let bytes = write_msg(MSG_RESIZE, &[1, 2, 3]);
    assert_eq!(bytes, [2, 0, 0, 0, 3, 1, 2, 3]);
    let mut stream = bytes.clone();
    stream.extend_from_slice(b"next");
    assert_eq!(read_msg(&stream), Ok((MSG_RESIZE, vec![1, 2, 3])));
    assert_eq!(read_msg(&bytes[..4]), Err(ErrorKind::UnexpectedEof));
    assert_eq!(read_msg(&bytes[..7]), Err(ErrorKind::UnexpectedEof));
    assert_eq!(read_msg(&[MSG_DETACH, 0, 0, 0, 0]), Ok((MSG_DETACH, vec![])));
}

#[test]
fn every_frame_is_read_back_from_its_message() {
    let frames = vec![
        Frame::Hello(Mode::Attach),
        Frame::Hello(Mode::Takeover),
        Frame::Hello(Mode::Push),
        Frame::Accepted(u64::MAX),
        Frame::Rejected("busy \u{2014} later".to_owned()),
        Frame::Retired(258),
        Frame::Data(vec![0, 255, 28]),
        Frame::Resize(Geometry::new(40, 120).unwrap()),
        Frame::Detach,
        Frame::InputDone(PushOutcome::Written { bytes: 10 }),
        Frame::InputDone(PushOutcome::Revoked(Progress {
            accepted: 4,
            unwritten: 6,
        })),
        Frame::InputDone(PushOutcome::Closed(Progress {
            accepted: 0,
            unwritten: 1,
        })),
    ];
    for frame in frames {
        let (msg_type, payload) = read_msg(&frame.to_bytes()).unwrap();
        assert_eq!(Frame::from_msg(msg_type, payload), Ok(frame));
    }
}

#[test]
fn a_message_that_is_no_frame_says_why() {
    let malformed = vec![
        (MSG_HELLO, vec![2, 1]),
        (MSG_HELLO, vec![1, 9]),
        (MSG_HELLO, vec![1]),
        (MSG_ACCEPTED, vec![0; 7]),
        (MSG_RETIRED, vec![0; 9]),
        (MSG_REJECTED, vec![0xff]),
        (MSG_RESIZE, vec![0, 0, 0, 1]),
        (MSG_INPUT_DONE, vec![0; 16]),
        (MSG_INPUT_DONE, input_done_payload(9, 1, 1)),
        (MSG_INPUT_DONE, input_done_payload(INPUT_WRITTEN, 1, 2)),
        (MSG_INPUT_DONE, input_done_payload(INPUT_CLOSED, 2, 1)),
    ];
    for (msg_type, payload) in malformed {
        assert_eq!(
            Frame::from_msg(msg_type, payload),
            Err(FrameError::Malformed(msg_type))
        );
    }
    assert_eq!(Frame::from_msg(0x7f, vec![]), Err(FrameError::Unknown(0x7f)));
}
