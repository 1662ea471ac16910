//! Pipeline statistics counters.
//!
//! Counters are `u64` and saturate at `u64::MAX` rather than wrap.
//! `queue_high_water` is the peak ring-buffer depth, not a counter.
use vstd::prelude::*;

verus! {

/// Pipeline statistics snapshot.
///
/// | Field | Incremented when |
/// |---|---|
/// | `ok` | a frame was accepted, passed the filter and was queued |
/// | `dropped` | a frame passed validation and filter but the queue was full |
/// | `crc_fail` | CRC-16 mismatch, COBS error, parse error, overflow, or `BadLength` |
/// | `seq_gap` | a sequence-number gap was detected |
/// | `filtered` | a frame was dropped by type / severity policy |
/// | `write_fail` | storage `write` or `flush` failed during `drain` |
#[derive(Debug, Clone, Copy, PartialEq, Eq, Structural)]
pub struct Stats {
    /// Frames accepted, filtered-in and enqueued.
    pub ok: u64,
    /// Frames lost because the ring buffer was full.
    pub dropped: u64,
    /// Frames dropped for CRC, COBS, structure or length errors.
    pub crc_fail: u64,
    /// Frames dropped because of a sequence-number gap.
    pub seq_gap: u64,
    /// Frames dropped by the type / severity policy.
    pub filtered: u64,
    /// Storage write / flush failures during `drain`.
    pub write_fail: u64,
    /// Peak ring-buffer occupancy since the pipeline was created.
    pub queue_high_water: u32,
}

/// `a + b`, capped at `u64::MAX`.
pub open spec fn sat_add(a: u64, b: u64) -> u64 {
    if a + b > u64::MAX {
        u64::MAX
    } else {
        (a + b) as u64
    }
}

/// `a + 1`, capped at `u64::MAX`.
pub open spec fn sat_inc(a: u64) -> u64 {
    sat_add(a, 1)
}

impl Stats {
    /// All counters at zero.
    pub open spec fn zeroed() -> Stats {
        Stats {
            ok: 0,
            dropped: 0,
            crc_fail: 0,
            seq_gap: 0,
            filtered: 0,
            write_fail: 0,
            queue_high_water: 0,
        }
    }

    /// `ok + dropped + crc_fail + seq_gap + filtered`, each addition capped at `u64::MAX`.
    pub open spec fn spec_total_frames_seen(self) -> u64 {
        sat_add(sat_add(sat_add(sat_add(self.ok, self.dropped), self.crc_fail), self.seq_gap), self.filtered)
    }

    /// Total frames that entered the pipeline, whatever became of them.
    ///
    /// Sums `ok + dropped + crc_fail + seq_gap + filtered` with saturating
    /// additions; `write_fail` is a storage event and is not counted.
    pub fn total_frames_seen(&self) -> (n: u64)
        ensures
            n == self.spec_total_frames_seen(),
    {
        self.ok.saturating_add(self.dropped).saturating_add(self.crc_fail).saturating_add(
            self.seq_gap,
        ).saturating_add(self.filtered)
    }
}

impl Default for Stats {
    fn default() -> (s: Stats)
        ensures
            s == Stats::zeroed(),
    {
        Stats {
            ok: 0,
            dropped: 0,
            crc_fail: 0,
            seq_gap: 0,
            filtered: 0,
            write_fail: 0,
            queue_high_water: 0,
        }
    }
}

/// Whether a host loop that last reported statistics at `last_reported_ok`
/// accepted frames and reports every `interval` of them (never when `0`)
/// should report now, with `ok` frames accepted.
pub fn report_due(ok: u64, last_reported_ok: u64, interval: u64) -> (b: bool)
    ensures
        b == (interval > 0 && ok >= last_reported_ok + interval),
{
    interval > 0 && ok >= last_reported_ok && ok - last_reported_ok >= interval
}

/// With no counter near `u64::MAX`, the total is the plain sum of the five
/// frame counters.
pub proof fn lemma_total_is_plain_sum(s: Stats)
    requires
        s.ok + s.dropped + s.crc_fail + s.seq_gap + s.filtered <= u64::MAX,
    ensures
        s.spec_total_frames_seen() == s.ok + s.dropped + s.crc_fail + s.seq_gap + s.filtered,
{
}

} // verus!
