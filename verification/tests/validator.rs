use heapless::Vec;
use telemetry_core::error::{Outcome, Reason};
use telemetry_core::frame::{Frame, Header};
use telemetry_core::protocol::{MAX_PAYLOAD, MIN_FRAME_LEN, PROTOCOL_VERSION};
use telemetry_core::validator::Validator;

fn make_frame(seq: u32, packet_type: u8, severity: u8, payload: &[u8]) -> Frame {
    let mut p: Vec<u8, MAX_PAYLOAD> = Vec::new();
    for &b in payload {
        p.push(b).ok();
    }
    let payload_len = p.len() as u16;
    let mut frame = Frame {
        header: Header {
            version: PROTOCOL_VERSION,
            packet_type,
            severity,
            sequence: seq,
            payload_len,
        },
        payload: p,
        crc_bytes: [0; 2],
    };
    let mut raw = [0u8; MIN_FRAME_LEN + MAX_PAYLOAD];
    frame.encode_raw(&mut raw).expect("raw buffer large enough");
    let raw_len = frame.raw_len();
    frame.crc_bytes = [raw[raw_len - 2], raw[raw_len - 1]];
    frame
}

#[test]
fn valid_frame_accepted() {
    let mut v = Validator::new();
    let frame = make_frame(0, 0x01, 0x01, b"test");
    assert!(matches!(v.check(frame), Outcome::Accepted(_)));
}

#[test]
fn bad_crc_rejected() {
    let mut v = Validator::new();
    let mut frame = make_frame(0, 0x01, 0x01, b"data");
    frame.crc_bytes = [0xDE, 0xAD];
    let result = v.check(frame);
    assert!(
        matches!(result, Outcome::Rejected(Reason::Crc { .. })),
        "expected Crc rejection, got {:?}",
        result
    );
}

#[test]
fn bad_crc_contains_expected_and_actual() {
    let mut v = Validator::new();
    let frame = make_frame(0, 0x01, 0x01, b"payload");
    let correct_crc = u16::from_le_bytes(frame.crc_bytes);
    let mut bad = frame.clone();
    bad.crc_bytes = [0xDE, 0xAD];
    match v.check(bad) {
        Outcome::Rejected(Reason::Crc { expected, actual }) => {
            assert_eq!(expected, correct_crc);
            assert_eq!(actual, 0xADDE);
        }
        other => panic!("unexpected outcome: {:?}", other),
    }
}

#[test]
fn sequence_gap_rejected() {
    let mut v = Validator::new();
    let _ = v.check(make_frame(3, 0x01, 0x01, b"a"));
    let result = v.check(make_frame(5, 0x01, 0x01, b"b"));
    assert!(
        matches!(
            result,
            Outcome::Rejected(Reason::SequenceGap {
                expected: 4,
                got: 5
            })
        ),
        "got {:?}",
        result
    );
}

#[test]
fn sequence_wrap_around_accepted() {
    let mut v = Validator::new();
    let _ = v.check(make_frame(u32::MAX - 1, 0x01, 0x01, b""));
    assert!(matches!(
        v.check(make_frame(u32::MAX, 0x01, 0x01, b"")),
        Outcome::Accepted(_)
    ));
    assert!(matches!(
        v.check(make_frame(0, 0x01, 0x01, b"")),
        Outcome::Accepted(_)
    ));
    assert!(matches!(
        v.check(make_frame(1, 0x01, 0x01, b"")),
        Outcome::Accepted(_)
    ));
}

#[test]
fn first_frame_any_sequence_accepted() {
    let mut v = Validator::new();
    assert!(matches!(
        v.check(make_frame(999, 0x01, 0x01, b"")),
        Outcome::Accepted(_)
    ));
}

#[test]
fn unknown_packet_type_filtered() {
    let mut v = Validator::new();
    let frame = make_frame(0, 0xFF, 0x01, b"");
    assert!(matches!(
        v.check(frame),
        Outcome::Rejected(Reason::Filtered)
    ));
}

#[test]
fn unknown_severity_filtered() {
    let mut v = Validator::new();
    let frame = make_frame(0, 0x01, 0xFF, b"");
    assert!(matches!(
        v.check(frame),
        Outcome::Rejected(Reason::Filtered)
    ));
}

#[test]
fn sequence_gap_resyncs_state() {
    let mut v = Validator::new();
    let _ = v.check(make_frame(0, 0x01, 0x01, b""));
    let _ = v.check(make_frame(5, 0x01, 0x01, b""));
    let result = v.check(make_frame(6, 0x01, 0x01, b""));
    assert!(matches!(result, Outcome::Accepted(_)), "got {:?}", result);
}

#[test]
fn validator_crc_matches_frame_compute_crc() {
    let frame = make_frame(0xDEAD_BEEF, 0x01, 0x02, b"cross-check payload");
    let mut v = Validator::new();
    assert!(
        matches!(v.check(frame), Outcome::Accepted(_)),
        "validator CRC computation disagrees with Frame::compute_crc()"
    );
}

#[test]
fn bad_length_rejected() {
    let mut v = Validator::new();
    let mut frame = make_frame(0, 0x01, 0x01, b"abc");
    frame.header.payload_len = 2;
    frame.crc_bytes = frame.compute_crc();
    assert!(matches!(v.check(frame), Outcome::Rejected(Reason::BadLength)));
}

#[test]
fn crc_rejection_keeps_sequence_state() {
    let mut v = Validator::new();
    let _ = v.check(make_frame(10, 0x01, 0x01, b""));
    let mut bad = make_frame(20, 0x01, 0x01, b"");
    bad.crc_bytes = [0, 0];
    let _ = v.check(bad);
    assert!(matches!(v.check(make_frame(11, 0x01, 0x01, b"")), Outcome::Accepted(_)));
}

#[test]
fn accepted_frame_is_unchanged() {
    let mut v = Validator::new();
    let frame = make_frame(3, 0x02, 0x04, b"same");
    match v.check(frame.clone()) {
        Outcome::Accepted(g) => assert_eq!(g, frame),
        other => panic!("unexpected outcome: {:?}", other),
    }
}
