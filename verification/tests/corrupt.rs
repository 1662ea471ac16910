use telemetry_core::corrupt::{
    corrupt, corruption_draw_range, skip_sequence, CorruptMode, CorruptResult, GenStats,
};
use telemetry_core::frame::{Frame, MAX_COBS_FRAME_BYTES};
use telemetry_core::framer::{FrameOutput, Framer};

fn encoded_frame() -> Vec<u8> {
    let frame = Frame::new(0x02, 0x01, 7, b"abc").unwrap();
    let mut buf = [0u8; MAX_COBS_FRAME_BYTES];
    let n = frame.encode_cobs(&mut buf).unwrap();
    buf[..n].to_vec()
}

fn feed_all(bytes: &[u8]) -> Vec<FrameOutput> {
    let mut fr = Framer::<512>::new();
    bytes.iter().map(|&b| fr.feed(b)).filter(|o| *o != FrameOutput::Incomplete).collect()
}

#[test]
fn draw_ranges_match_each_mode() {
    assert_eq!(corruption_draw_range(CorruptMode::BadCrc, 10), Some((0, 9)));
    assert_eq!(corruption_draw_range(CorruptMode::BadCrc, 1), None);
    assert_eq!(corruption_draw_range(CorruptMode::Truncate, 10), Some((1, 9)));
    assert_eq!(corruption_draw_range(CorruptMode::Truncate, 2), None);
    assert_eq!(corruption_draw_range(CorruptMode::SeqGap, 10), None);
    assert_eq!(corruption_draw_range(CorruptMode::Burst, 10), None);
}

#[test]
fn bad_crc_flips_one_byte_and_is_rejected() {
    let enc = encoded_frame();
    let mut stats = GenStats::default();
    let r = corrupt(&enc, CorruptMode::BadCrc, 4, 5, &mut stats);
    let CorruptResult::Bytes(v) = r else { panic!("expected bytes") };
    let mut expected = enc.clone();
    expected[4] ^= 0xAA;
    assert_eq!(v, expected);
    assert_eq!(stats.bad_crc, 1);
    assert_eq!(stats.truncated + stats.burst_extra + stats.seq_gap + stats.valid, 0);
    let outs = feed_all(&v);
    assert_eq!(outs.len(), 1);
}

#[test]
fn truncate_keeps_a_prefix_then_delimiter() {
    let enc = encoded_frame();
    let mut stats = GenStats::default();
    let r = corrupt(&enc, CorruptMode::Truncate, 3, 5, &mut stats);
    let CorruptResult::Bytes(v) = r else { panic!("expected bytes") };
    let mut expected = enc[..3].to_vec();
    expected.push(0x00);
    assert_eq!(v, expected);
    assert_eq!(stats.truncated, 1);
    let outs = feed_all(&v);
    assert_eq!(outs.len(), 1);
    assert!(!matches!(outs[0], FrameOutput::Complete(_)));
}

#[test]
fn burst_emits_copies() {
    let enc = encoded_frame();
    let mut stats = GenStats::default();
    let r = corrupt(&enc, CorruptMode::Burst, 0, 3, &mut stats);
    let CorruptResult::BurstFrames(fs) = r else { panic!("expected burst") };
    assert_eq!(fs.len(), 4);
    assert!(fs.iter().all(|f| *f == enc));
    assert_eq!(stats.burst_extra, 3);
}

#[test]
fn seq_gap_and_short_frames_stay_original() {
    let enc = encoded_frame();
    let mut stats = GenStats::default();
    assert_eq!(corrupt(&enc, CorruptMode::SeqGap, 0, 3, &mut stats), CorruptResult::Original);
    assert_eq!(corrupt(&[0x00], CorruptMode::BadCrc, 0, 3, &mut stats), CorruptResult::Original);
    assert_eq!(corrupt(&[0x01, 0x00], CorruptMode::Truncate, 0, 3, &mut stats), CorruptResult::Original);
    assert_eq!(stats, GenStats::default());
}

#[test]
fn skip_sequence_wraps_and_counts() {
    let mut stats = GenStats::default();
    assert_eq!(skip_sequence(10, 3, &mut stats), 13);
    assert_eq!(skip_sequence(u32::MAX, 2, &mut stats), 1);
    assert_eq!(stats.seq_gap, 2);
    stats.count_valid();
    assert_eq!(stats.valid, 1);
}
