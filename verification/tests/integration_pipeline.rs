use telemetry_core::config::DefaultPipeline;
use telemetry_core::error::Error;
use telemetry_core::filter::FilterConfig;
use telemetry_core::frame::{Frame, Header, MAX_COBS_FRAME_BYTES};
use telemetry_core::pipeline::Pipeline;
use telemetry_core::protocol::{MAX_PAYLOAD, PROTOCOL_VERSION};
use telemetry_core::record;
use telemetry_core::record::StoredRecord;
use telemetry_core::traits::{Clock, Storage};

struct SimClock {
    micros: u64,
}

impl Clock for SimClock {
    fn now(&self) -> u64 {
        self.micros
    }
}

/// Storage that keeps every written byte and counts flushes.
struct CapturingStorage {
    bytes: Vec<u8>,
    flush_count: usize,
}

impl CapturingStorage {
    fn new() -> Self {
        Self { bytes: Vec::new(), flush_count: 0 }
    }

    fn written(&self) -> &[u8] {
        &self.bytes
    }
}

impl Storage for CapturingStorage {
    type Error = ();

    fn write(&mut self, data: &[u8]) -> Result<(), ()> {
        self.bytes.extend_from_slice(data);
        Ok(())
    }

    fn flush(&mut self) -> Result<(), ()> {
        self.flush_count += 1;
        Ok(())
    }
}

/// Storage whose every operation fails.
struct FailStorage;

impl Storage for FailStorage {
    type Error = ();

    fn write(&mut self, _data: &[u8]) -> Result<(), ()> {
        Err(())
    }

    fn flush(&mut self) -> Result<(), ()> {
        Err(())
    }
}

fn make_cobs(seq: u32, packet_type: u8, severity: u8, payload: &[u8]) -> Vec<u8> {
    let mut p: heapless::Vec<u8, MAX_PAYLOAD> = heapless::Vec::new();
    for &b in payload {
        p.push(b).ok();
    }
    let frame = Frame {
        header: Header {
            version: PROTOCOL_VERSION,
            packet_type,
            severity,
            sequence: seq,
            payload_len: p.len() as u16,
        },
        payload: p,
        crc_bytes: [0; 2],
    };
    let mut buf = [0u8; MAX_COBS_FRAME_BYTES];
    let n = frame.encode_cobs(&mut buf).expect("frame fits");
    buf[..n].to_vec()
}

fn valid(seq: u32) -> Vec<u8> {
    make_cobs(seq, 0x01, 0x01, b"payload")
}

fn decode_all(raw: &[u8]) -> Vec<StoredRecord> {
    let mut records = Vec::new();
    let mut pos = 0;
    while pos < raw.len() {
        let rel = raw[pos..].iter().position(|&b| b == 0x00);
        let Some(rel_end) = rel else { break };
        let end = pos + rel_end + 1;
        if let Ok(r) = record::decode(&raw[pos..end]) {
            records.push(r);
        }
        pos = end;
    }
    records
}

#[test]
fn test_ingest_mixed_stream() {
    let clock = SimClock { micros: 0 };
    let mut pipeline = DefaultPipeline::new(FilterConfig::allow_all());

    pipeline.ingest(&valid(0), &clock);
    pipeline.ingest(&valid(1), &clock);
    pipeline.ingest(&make_cobs(2, 0xFF, 0x01, b""), &clock);
    pipeline.ingest(&valid(3), &clock);

    let s = pipeline.stats();
    assert_eq!(s.ok, 2, "ok");
    assert_eq!(s.filtered, 1, "filtered (unknown type)");
    assert_eq!(s.seq_gap, 1, "seq_gap");
    assert_eq!(s.crc_fail, 0, "crc_fail");
}

#[test]
fn test_drain_roundtrip() {
    let clock = SimClock { micros: 99_000 };
    let mut pipeline = Pipeline::<512, 8>::new(FilterConfig::allow_all());

    for seq in 0..3u32 {
        pipeline.ingest(&make_cobs(seq, 0x02, 0x02, b"sensor"), &clock);
    }
    assert_eq!(pipeline.stats().ok, 3);

    let mut storage = CapturingStorage::new();
    let drained = pipeline.drain(&mut storage).expect("drain succeeds");
    assert_eq!(drained, 3);
    assert_eq!(storage.flush_count, 1);

    let records = decode_all(storage.written());
    assert_eq!(records.len(), 3);

    for (i, r) in records.iter().enumerate() {
        let StoredRecord::V1(v1) = r else {
            panic!("expected V1")
        };
        assert_eq!(v1.timestamp_us, 99_000);
        assert_eq!(v1.sequence, i as u32);
        assert_eq!(v1.packet_type, 0x02);
        assert_eq!(v1.severity, 0x02);
        assert_eq!(&v1.payload[..], b"sensor");
    }
}

#[test]
fn test_buffer_overflow() {
    let clock = SimClock { micros: 0 };
    let mut pipeline = Pipeline::<512, 2>::new(FilterConfig::allow_all());

    for seq in 0..5u32 {
        pipeline.ingest(&valid(seq), &clock);
    }

    let s = pipeline.stats();
    assert_eq!(s.ok, 2, "only 2 fit in the queue");
    assert_eq!(s.dropped, 3, "3 frames dropped due to ring-buffer overflow");
}

#[test]
fn test_drain_write_fail() {
    let clock = SimClock { micros: 0 };
    let mut pipeline = Pipeline::<512, 4>::new(FilterConfig::allow_all());
    pipeline.ingest(&valid(0), &clock);
    assert_eq!(pipeline.stats().ok, 1);

    let mut fail = FailStorage;
    let result = pipeline.drain(&mut fail);
    assert!(
        matches!(result, Err(Error::Storage)),
        "expected Storage error"
    );
    assert_eq!(pipeline.stats().write_fail, 1);
}

#[test]
fn test_drain_empty_queue() {
    let mut pipeline = DefaultPipeline::new(FilterConfig::allow_all());
    let mut storage = CapturingStorage::new();
    let n = pipeline.drain(&mut storage).expect("drain empty queue");
    assert_eq!(n, 0);
    assert_eq!(storage.flush_count, 1);
    assert_eq!(storage.written().len(), 0);
}

#[test]
fn test_severity_filter() {
    let clock = SimClock { micros: 0 };
    let cfg = FilterConfig {
        min_severity: 0x02,
        type_allowlist: None,
    };
    let mut pipeline = DefaultPipeline::new(cfg);

    pipeline.ingest(&make_cobs(0, 0x01, 0x01, b""), &clock);
    pipeline.ingest(&make_cobs(1, 0x01, 0x02, b""), &clock);

    assert_eq!(pipeline.stats().filtered, 1);
    assert_eq!(pipeline.stats().ok, 1);
}

#[test]
fn test_stats_reset() {
    let clock = SimClock { micros: 0 };
    let mut pipeline = DefaultPipeline::new(FilterConfig::allow_all());
    pipeline.ingest(&valid(0), &clock);
    assert_eq!(pipeline.stats().ok, 1);

    *pipeline.stats_mut() = Default::default();
    assert_eq!(pipeline.stats().ok, 0);
}

#[test]
fn test_multi_drain() {
    let clock = SimClock { micros: 0 };
    let mut pipeline = Pipeline::<512, 4>::new(FilterConfig::allow_all());
    pipeline.ingest(&valid(0), &clock);
    pipeline.ingest(&valid(1), &clock);

    let mut s = CapturingStorage::new();
    assert_eq!(pipeline.drain(&mut s).unwrap(), 2);
    assert_eq!(pipeline.drain(&mut s).unwrap(), 0);
}

#[test]
fn write_failure_loses_only_the_failed_record() {
    struct FailSecond {
        writes: usize,
    }
    impl Storage for FailSecond {
        type Error = ();
        fn write(&mut self, _data: &[u8]) -> Result<(), ()> {
            self.writes += 1;
            if self.writes == 2 { Err(()) } else { Ok(()) }
        }
        fn flush(&mut self) -> Result<(), ()> {
            Ok(())
        }
    }
    let clock = SimClock { micros: 0 };
    let mut pipeline = Pipeline::<512, 4>::new(FilterConfig::allow_all());
    for seq in 0..3u32 {
        pipeline.ingest(&valid(seq), &clock);
    }
    let mut storage = FailSecond { writes: 0 };
    assert!(matches!(pipeline.drain(&mut storage), Err(Error::Storage)));
    let mut capture = CapturingStorage::new();
    assert_eq!(pipeline.drain(&mut capture).unwrap(), 1);
    let records = decode_all(capture.written());
    let StoredRecord::V1(v1) = &records[0] else { panic!("expected V1") };
    assert_eq!(v1.sequence, 2);
}

#[test]
fn clock_only_stamps_records() {
    let mut a = Pipeline::<512, 4>::new(FilterConfig::allow_all());
    let mut b = Pipeline::<512, 4>::new(FilterConfig::allow_all());
    let mut bytes = valid(0);
    bytes.extend_from_slice(&valid(1));
    a.ingest(&bytes, &SimClock { micros: 5 });
    b.ingest(&bytes, &SimClock { micros: 123_456 });
    assert_eq!(a.stats(), b.stats());
    let mut sa = CapturingStorage::new();
    let mut sb = CapturingStorage::new();
    a.drain(&mut sa).unwrap();
    b.drain(&mut sb).unwrap();
    let ra = decode_all(sa.written());
    let rb = decode_all(sb.written());
    assert_eq!(ra.len(), 2);
    for (x, y) in ra.iter().zip(rb.iter()) {
        let (StoredRecord::V1(x), StoredRecord::V1(y)) = (x, y) else { panic!("expected V1") };
        assert_eq!(x.sequence, y.sequence);
        assert_eq!(x.payload, y.payload);
        assert_eq!(x.timestamp_us, 5);
        assert_eq!(y.timestamp_us, 123_456);
    }
}
