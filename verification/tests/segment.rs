use telemetry_core::record::{encode, RecordV1, StoredRecord, MAX_STORED_RECORD_BYTES};
use telemetry_core::segment::{read_segment, SegmentPlan};

fn make_record(seq: u32) -> StoredRecord {
    StoredRecord::V1(RecordV1 {
        timestamp_us: seq as u64 * 1000,
        sequence: seq,
        packet_type: 0x01,
        severity: 0x01,
        payload: heapless::Vec::new(),
    })
}

#[test]
fn read_segment_round_trips_multiple_records() {
    let records: Vec<StoredRecord> = (0..5).map(make_record).collect();
    let mut bytes = Vec::new();
    let mut buf = [0u8; MAX_STORED_RECORD_BYTES];
    for r in &records {
        let n = encode(r, &mut buf).unwrap();
        bytes.extend_from_slice(&buf[..n]);
    }

    let decoded: Vec<StoredRecord> = read_segment(&bytes)
        .into_iter()
        .map(|r| r.expect("valid record"))
        .collect();
    assert_eq!(decoded, records);
}

#[test]
fn read_segment_tolerates_truncated_trailing_record() {
    let record = make_record(42);
    let mut buf = [0u8; MAX_STORED_RECORD_BYTES];
    let n = encode(&record, &mut buf).unwrap();

    let mut bytes = buf[..n].to_vec();
    bytes.extend_from_slice(b"\x01\x02\x03");

    let results = read_segment(&bytes);
    assert_eq!(results.len(), 2, "one good + one bad");
    assert!(results[0].is_ok(), "first record intact");
    assert!(results[1].is_err(), "trailing garbage is an error");
}

#[test]
fn read_segment_empty_slice_yields_nothing() {
    let results = read_segment(&[]);
    assert!(results.is_empty());
}

#[test]
fn read_segment_skips_empty_chunks() {
    let record = make_record(7);
    let mut buf = [0u8; MAX_STORED_RECORD_BYTES];
    let n = encode(&record, &mut buf).unwrap();
    let mut bytes = vec![0x00, 0x00];
    bytes.extend_from_slice(&buf[..n]);
    bytes.push(0x00);
    let results = read_segment(&bytes);
    assert_eq!(results.len(), 1);
    assert_eq!(results[0].as_ref().unwrap(), &record);
}

#[test]
fn segment_plan_rotates_before_overflow() {
    let mut plan = SegmentPlan::new(64);
    assert_eq!(plan.segment_count(), 0);
    assert!(plan.needs_rotation(10));
    plan.rotated();
    plan.appended(30);
    assert!(!plan.needs_rotation(34));
    assert!(plan.needs_rotation(35));
    plan.rotated();
    assert_eq!(plan.segment_count(), 2);
    assert!(!plan.needs_rotation(64));
    assert!(plan.needs_rotation(65));
    plan.appended(100);
    assert!(plan.needs_rotation(1));
}
