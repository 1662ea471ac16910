use telemetry_core::record::{RecordV1, StoredRecord};
use telemetry_core::ringbuf::RingBuf;

fn make_record(seq: u32) -> StoredRecord {
    StoredRecord::V1(RecordV1 {
        timestamp_us: u64::from(seq),
        sequence: seq,
        packet_type: 0x01,
        severity: 0x01,
        payload: heapless::Vec::new(),
    })
}

#[test]
fn fifo_order() {
    let mut rb: RingBuf<4> = RingBuf::new();
    rb.push(make_record(10)).unwrap();
    rb.push(make_record(20)).unwrap();
    rb.push(make_record(30)).unwrap();

    let Some(StoredRecord::V1(r)) = rb.pop() else { panic!("expected V1") };
    assert_eq!(r.sequence, 10);
    let Some(StoredRecord::V1(r)) = rb.pop() else { panic!("expected V1") };
    assert_eq!(r.sequence, 20);
    let Some(StoredRecord::V1(r)) = rb.pop() else { panic!("expected V1") };
    assert_eq!(r.sequence, 30);
    assert!(rb.pop().is_none());
}

#[test]
fn full_returns_err_and_increments_overflow() {
    let mut rb: RingBuf<2> = RingBuf::new();
    assert!(rb.push(make_record(0)).is_ok());
    assert!(rb.push(make_record(1)).is_ok());
    assert!(rb.push(make_record(2)).is_err());
    assert_eq!(rb.overflow_count(), 1);
    assert_eq!(rb.len(), 2);
}

#[test]
fn high_water_tracks_peak() {
    let mut rb: RingBuf<8> = RingBuf::new();
    for i in 0..3 {
        rb.push(make_record(i)).unwrap();
    }
    assert_eq!(rb.high_water(), 3);
    while rb.pop().is_some() {}
    assert_eq!(rb.high_water(), 3);
    for i in 0..5 {
        rb.push(make_record(i)).unwrap();
    }
    assert_eq!(rb.high_water(), 5);
}

#[test]
fn len_and_is_empty() {
    let mut rb: RingBuf<4> = RingBuf::new();
    assert!(rb.is_empty());
    rb.push(make_record(0)).unwrap();
    assert_eq!(rb.len(), 1);
    assert!(!rb.is_empty());
    rb.pop();
    assert!(rb.is_empty());
}

#[test]
fn multiple_overflows_counted() {
    let mut rb: RingBuf<1> = RingBuf::new();
    rb.push(make_record(0)).unwrap();
    rb.push(make_record(1)).unwrap_err();
    rb.push(make_record(2)).unwrap_err();
    assert_eq!(rb.overflow_count(), 2);
}

#[test]
fn full_queue_keeps_oldest() {
    let mut rb: RingBuf<2> = RingBuf::default();
    rb.push(make_record(1)).unwrap();
    rb.push(make_record(2)).unwrap();
    rb.push(make_record(3)).unwrap_err();
    let Some(StoredRecord::V1(r)) = rb.pop() else { panic!("expected V1") };
    assert_eq!(r.sequence, 1);
    let Some(StoredRecord::V1(r)) = rb.pop() else { panic!("expected V1") };
    assert_eq!(r.sequence, 2);
    assert!(rb.pop().is_none());
}
