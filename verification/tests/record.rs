use crc::{Crc, CRC_32_ISO_HDLC};
use heapless::Vec;
use telemetry_core::error::Error;
use telemetry_core::protocol::MAX_PAYLOAD;
use telemetry_core::record::{decode, encode, RecordV1, StoredRecord, MAX_STORED_RECORD_BYTES};

fn make_v1(ts: u64, seq: u32, payload: &[u8]) -> StoredRecord {
    let mut p: Vec<u8, MAX_PAYLOAD> = Vec::new();
    for &b in payload {
        p.push(b).ok();
    }
    StoredRecord::V1(RecordV1 {
        timestamp_us: ts,
        sequence: seq,
        packet_type: 0x01,
        severity: 0x01,
        payload: p,
    })
}

#[test]
fn round_trip_v1() {
    let record = make_v1(123_456_789, 42, b"hello telemetry");
    let mut buf = [0u8; MAX_STORED_RECORD_BYTES];
    let n = encode(&record, &mut buf).expect("encode succeeds");
    let decoded = decode(&buf[..n]).expect("decode succeeds");
    assert_eq!(record, decoded);
}

#[test]
fn round_trip_empty_payload() {
    let record = make_v1(0, 0, b"");
    let mut buf = [0u8; MAX_STORED_RECORD_BYTES];
    let n = encode(&record, &mut buf).expect("encode succeeds");
    let decoded = decode(&buf[..n]).expect("decode succeeds");
    assert_eq!(record, decoded);
}

#[test]
fn round_trip_max_payload() {
    let big = [0xABu8; MAX_PAYLOAD];
    let record = make_v1(u64::MAX, u32::MAX, &big);
    let mut buf = [0u8; MAX_STORED_RECORD_BYTES];
    let n = encode(&record, &mut buf).expect("encode succeeds for max payload");
    let decoded = decode(&buf[..n]).expect("decode succeeds");
    assert_eq!(record, decoded);
}

#[test]
fn decode_without_trailing_delimiter() {
    let record = make_v1(1, 2, b"abc");
    let mut buf = [0u8; MAX_STORED_RECORD_BYTES];
    let n = encode(&record, &mut buf).expect("encode succeeds");
    assert_eq!(buf[n - 1], 0x00);
    let decoded = decode(&buf[..n - 1]).expect("decode without delimiter");
    assert_eq!(record, decoded);
}

#[test]
fn unknown_discriminant_returns_codec_error() {
    let record = make_v1(1, 1, b"x");
    let mut buf = [0u8; MAX_STORED_RECORD_BYTES];
    let n = encode(&record, &mut buf).expect("encode succeeds");

    let cobs_bytes = &buf[..n - 1];
    let mut decoded_raw = [0u8; MAX_STORED_RECORD_BYTES];
    decoded_raw[..cobs_bytes.len()].copy_from_slice(cobs_bytes);
    let dec_len = cobs::decode_in_place(&mut decoded_raw[..cobs_bytes.len()]).unwrap();

    assert_eq!(decoded_raw[0], 0x00, "V1 discriminant must be 0x00");

    decoded_raw[0] = 0xFF;

    let postcard_end = dec_len - 4;
    let new_crc = Crc::<u32>::new(&CRC_32_ISO_HDLC).checksum(&decoded_raw[..postcard_end]);
    decoded_raw[postcard_end..postcard_end + 4].copy_from_slice(&new_crc.to_le_bytes());

    let mut re_encoded = [0u8; MAX_STORED_RECORD_BYTES];
    let re_len = cobs::encode(&decoded_raw[..dec_len], &mut re_encoded);
    re_encoded[re_len] = 0x00;

    let result = decode(&re_encoded[..re_len + 1]);
    assert!(
        matches!(result, Err(Error::Codec)),
        "unknown discriminant must fail"
    );
}

#[test]
fn truncated_input_returns_codec_error() {
    let record = make_v1(1, 1, b"data");
    let mut buf = [0u8; MAX_STORED_RECORD_BYTES];
    let n = encode(&record, &mut buf).expect("encode succeeds");
    let result = decode(&buf[..n / 2]);
    assert!(matches!(result, Err(Error::Codec)));
}

#[test]
fn v1_postcard_discriminant_is_zero() {
    let record = make_v1(0, 0, b"");
    let mut buf = [0u8; 64];
    let n = encode(&record, &mut buf).expect("serialize");
    let mut body = [0u8; 64];
    body[..n - 1].copy_from_slice(&buf[..n - 1]);
    let len = cobs::decode_in_place(&mut body[..n - 1]).unwrap();
    let bytes = &body[..len - 4];
    assert_eq!(bytes[0], 0x00, "V1 discriminant must be 0x00");
}

#[test]
fn corrupted_crc_returns_codec_error() {
    let record = make_v1(42, 7, b"test");
    let mut buf = [0u8; MAX_STORED_RECORD_BYTES];
    let n = encode(&record, &mut buf).expect("encode succeeds");
    buf[n / 2] ^= 0xFF;
    let result = decode(&buf[..n]);
    assert!(matches!(result, Err(Error::Codec)));
}

#[test]
fn postcard_body_layout() {
    // timestamp 300 = varint [0xAC, 0x02]; sequence 5; type 1; severity 1; payload "hi".
    let record = make_v1(300, 5, b"hi");
    let mut buf = [0u8; 64];
    let n = encode(&record, &mut buf).unwrap();
    let mut body = [0u8; 64];
    body[..n - 1].copy_from_slice(&buf[..n - 1]);
    let len = cobs::decode_in_place(&mut body[..n - 1]).unwrap();
    let expected = [0x00u8, 0xAC, 0x02, 0x05, 0x01, 0x01, 0x02, b'h', b'i'];
    assert_eq!(&body[..len - 4], &expected[..]);
    let crc = Crc::<u32>::new(&CRC_32_ISO_HDLC).checksum(&expected);
    assert_eq!(&body[len - 4..len], &crc.to_le_bytes());
}

#[test]
fn encode_into_short_buffer_is_codec_error() {
    let record = make_v1(1, 1, b"abcdef");
    let mut buf = [0u8; 8];
    assert!(matches!(encode(&record, &mut buf), Err(Error::Codec)));
}

#[test]
fn empty_input_is_codec_error() {
    assert!(matches!(decode(&[]), Err(Error::Codec)));
    assert!(matches!(decode(&[0x00]), Err(Error::Codec)));
}

#[test]
fn oversized_payload_is_codec_error() {
    // A well-framed body announcing 481 payload bytes.
    let mut body = std::vec::Vec::new();
    body.extend_from_slice(&[0x00, 0x01, 0x01, 0x01, 0x01]);
    body.extend_from_slice(&[0xE1, 0x03]); // varint 481
    body.extend_from_slice(&[0x07u8; 481]);
    let crc = Crc::<u32>::new(&CRC_32_ISO_HDLC).checksum(&body);
    body.extend_from_slice(&crc.to_le_bytes());
    let mut wire = [0u8; 600];
    let n = cobs::encode(&body, &mut wire);
    assert!(n <= MAX_STORED_RECORD_BYTES);
    assert!(matches!(decode(&wire[..n]), Err(Error::Codec)));
}
