//! The segment writer's rotation rule, driven over segments held in memory:
//! the same decisions the file-backed writer makes, without the files.

use telemetry_core::clock::SystemClock;
use telemetry_core::config::DefaultPipeline;
use telemetry_core::filter::FilterConfig;
use telemetry_core::frame::{Frame, MAX_COBS_FRAME_BYTES};
use telemetry_core::record::{encode, RecordV1, StoredRecord, MAX_STORED_RECORD_BYTES};
use telemetry_core::segment::{read_segment, SegmentPlan};
use telemetry_core::traits::Storage;

/// Segments kept as byte vectors; segment `i` (from 1) is `segments[i - 1]`.
struct MemorySegments {
    segments: Vec<Vec<u8>>,
    plan: SegmentPlan,
}

impl MemorySegments {
    fn new(max_segment_bytes: usize) -> Self {
        Self { segments: Vec::new(), plan: SegmentPlan::new(max_segment_bytes) }
    }

    fn segment_count(&self) -> u32 {
        self.plan.segment_count()
    }
}

impl Storage for MemorySegments {
    type Error = ();

    fn write(&mut self, data: &[u8]) -> Result<(), ()> {
        if self.plan.needs_rotation(data.len()) {
            self.segments.push(Vec::new());
            self.plan.rotated();
        }
        self.segments.last_mut().ok_or(())?.extend_from_slice(data);
        self.plan.appended(data.len());
        Ok(())
    }

    fn flush(&mut self) -> Result<(), ()> {
        Ok(())
    }
}

fn make_record(seq: u32) -> StoredRecord {
    StoredRecord::V1(RecordV1 {
        timestamp_us: seq as u64 * 1000,
        sequence: seq,
        packet_type: 0x01,
        severity: 0x01,
        payload: heapless::Vec::new(),
    })
}

#[test]
fn file_storage_creates_first_segment_on_write() {
    let mut storage = MemorySegments::new(1024 * 1024);
    assert_eq!(storage.segment_count(), 0);

    let record = make_record(1);
    let mut buf = [0u8; MAX_STORED_RECORD_BYTES];
    let n = encode(&record, &mut buf).unwrap();
    storage.write(&buf[..n]).unwrap();
    storage.flush().unwrap();

    assert_eq!(storage.segment_count(), 1);
    assert_eq!(storage.segments[0], buf[..n].to_vec());
}

#[test]
fn file_storage_rotates_on_size_overflow() {
    let mut storage = MemorySegments::new(64);
    let mut buf = [0u8; MAX_STORED_RECORD_BYTES];
    for seq in 0..10u32 {
        let record = make_record(seq);
        let n = encode(&record, &mut buf).unwrap();
        storage.write(&buf[..n]).unwrap();
    }
    storage.flush().unwrap();

    assert!(storage.segment_count() >= 2, "expected rotation, got {} segments", storage.segment_count());
    for seg in &storage.segments {
        assert!(seg.len() <= 64);
    }
}

#[test]
fn file_storage_never_splits_a_record() {
    let mut storage = MemorySegments::new(32);
    let mut buf = [0u8; MAX_STORED_RECORD_BYTES];
    let mut written = Vec::new();
    for seq in 0..5u32 {
        let record = make_record(seq);
        let n = encode(&record, &mut buf).unwrap();
        storage.write(&buf[..n]).unwrap();
        written.push(record);
    }
    storage.flush().unwrap();

    let mut decoded = Vec::new();
    for seg in &storage.segments {
        for result in read_segment(seg) {
            decoded.push(result.expect("every record must decode without error"));
        }
    }
    assert_eq!(decoded, written);
}

#[test]
fn roundtrip_encode_file_storage_decode() {
    let mut storage = MemorySegments::new(1024 * 1024);
    let clock = SystemClock::new();

    let mut pipeline = DefaultPipeline::new(FilterConfig::allow_all());
    let frame = Frame::new(0x02, 0x01, 0, b"hello").expect("fits");
    let mut buf = [0u8; MAX_COBS_FRAME_BYTES];
    let n = frame.encode_cobs(&mut buf).expect("fits");
    pipeline.ingest(&buf[..n], &clock);
    pipeline.drain(&mut storage).expect("drain succeeds");
    storage.flush().unwrap();

    assert_eq!(storage.segment_count(), 1);
    let decoded: Vec<_> = read_segment(&storage.segments[0]).into_iter().map(|r| r.expect("decode ok")).collect();

    assert_eq!(decoded.len(), 1, "one record per frame");
    let StoredRecord::V1(v) = &decoded[0] else {
        panic!("expected V1")
    };
    assert_eq!(v.sequence, 0);
    assert_eq!(v.packet_type, 0x02);
    assert_eq!(v.severity, 0x01);
    assert_eq!(&v.payload[..], b"hello");
}
