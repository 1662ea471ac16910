use telemetry_core::stats::{report_due, Stats};

#[test]
fn default_is_all_zeros() {
    let s = Stats::default();
    assert_eq!(s.ok, 0);
    assert_eq!(s.dropped, 0);
    assert_eq!(s.crc_fail, 0);
    assert_eq!(s.seq_gap, 0);
    assert_eq!(s.filtered, 0);
    assert_eq!(s.write_fail, 0);
    assert_eq!(s.queue_high_water, 0);
}

#[test]
fn total_frames_seen_sums_correctly() {
    let s = Stats {
        ok: 3,
        dropped: 1,
        crc_fail: 2,
        seq_gap: 1,
        filtered: 4,
        write_fail: 2,
        queue_high_water: 3,
    };
    assert_eq!(s.total_frames_seen(), 3 + 1 + 2 + 1 + 4);
}

#[test]
fn reason_to_counter_mapping_exhaustive() {
    let mut s = Stats::default();
    s.crc_fail += 1;
    assert_eq!(s.crc_fail, 1);

    s.seq_gap += 1;
    assert_eq!(s.seq_gap, 1);

    s.filtered += 1;
    assert_eq!(s.filtered, 1);

    s.crc_fail += 1;
    assert_eq!(s.crc_fail, 2);

    s.dropped += 1;
    assert_eq!(s.dropped, 1);
}

#[test]
fn clone_produces_equal_value() {
    let mut s = Stats::default();
    s.ok = 42;
    assert_eq!(s.clone(), s);
}

#[test]
fn total_frames_seen_saturates() {
    let s = Stats {
        ok: u64::MAX - 1,
        dropped: 5,
        crc_fail: 0,
        seq_gap: 0,
        filtered: 0,
        write_fail: 0,
        queue_high_water: 0,
    };
    assert_eq!(s.total_frames_seen(), u64::MAX);
}

#[test]
fn report_due_every_interval() {
    assert!(!report_due(10, 0, 0));
    assert!(!report_due(49, 0, 50));
    assert!(report_due(50, 0, 50));
    assert!(!report_due(99, 50, 50));
    assert!(report_due(100, 50, 50));
    assert!(!report_due(5, u64::MAX, 1));
}
