//! Corruption that the test frame generator injects into encoded frames.
//!
//! | Mode       | Effect on the wire                                        |
//! |------------|-----------------------------------------------------------|
//! | `BadCrc`   | one byte of the COBS payload flipped (`^ 0xAA`)           |
//! | `Truncate` | a prefix of the frame, then `0x00`                        |
//! | `SeqGap`   | sequence numbers skipped before the frame is built        |
//! | `Burst`    | the frame followed by `burst_size` copies of itself       |
//!
//! The random draws (whether a mode fires, and where) are made by the
//! caller; this module turns a draw into bytes and counts what it did.
use vstd::prelude::*;

verus! {

/// A kind of corruption the generator can inject.
#[derive(Debug, Clone, Copy, PartialEq, Eq, Structural)]
pub enum CorruptMode {
    /// Flip one byte of the COBS payload, so the CRC-16 check fails.
    BadCrc,
    /// Emit a partial frame followed by `0x00`, so COBS or parsing fails.
    Truncate,
    /// Skip sequence numbers, so the next valid frame shows a gap.
    SeqGap,
    /// Emit extra copies of the frame.
    Burst,
}

/// What the generator emits for one encoded frame.
#[derive(Debug, Clone, PartialEq, Eq)]
pub enum CorruptResult {
    /// The encoded frame, unchanged.
    Original,
    /// These bytes in place of the frame.
    Bytes(Vec<u8>),
    /// These frames in place of the frame: the original, then the copies.
    BurstFrames(Vec<Vec<u8>>),
}

/// Counts of what the generator emitted.
#[derive(Debug, Clone, Copy, PartialEq, Eq)]
pub struct GenStats {
    /// Frames emitted intact (bursts count once).
    pub valid: u32,
    /// Frames emitted with a flipped byte.
    pub bad_crc: u32,
    /// Frames emitted truncated.
    pub truncated: u32,
    /// Sequence gaps introduced.
    pub seq_gap: u32,
    /// Extra frame copies emitted by bursts.
    pub burst_extra: u32,
}

impl Default for GenStats {
    fn default() -> (s: Self)
        ensures
            s == (GenStats { valid: 0, bad_crc: 0, truncated: 0, seq_gap: 0, burst_extra: 0 }),
    {
        GenStats { valid: 0, bad_crc: 0, truncated: 0, seq_gap: 0, burst_extra: 0 }
    }
}

impl GenStats {
    /// Counts one frame emitted intact.
    pub fn count_valid(&mut self)
        requires
            old(self).valid < u32::MAX,
        ensures
            *final(self) == (GenStats { valid: (old(self).valid + 1) as u32, ..*old(self) }),
    {
        self.valid = self.valid + 1;
    }
}

/// The half-open range `[lo, hi)` from which the position of a corruption of
/// `mode` is drawn, for an encoded frame of `len` bytes (delimiter
/// included); `None` when the mode draws no position or the frame is too
/// short for it.
pub open spec fn draw_range_spec(mode: CorruptMode, len: nat) -> Option<(nat, nat)> {
    match mode {
        CorruptMode::BadCrc => if len >= 2 {
            Some((0nat, (len - 1) as nat))
        } else {
            None
        },
        CorruptMode::Truncate => if len >= 3 {
            Some((1nat, (len - 1) as nat))
        } else {
            None
        },
        _ => None,
    }
}

/// The range to draw a corruption position from: for `BadCrc` any byte but
/// the trailing delimiter, for `Truncate` a prefix length that keeps at
/// least one byte and drops at least the delimiter and one more.
pub fn corruption_draw_range(mode: CorruptMode, len: usize) -> (r: Option<(usize, usize)>)
    ensures
        r is Some <==> draw_range_spec(mode, len as nat) is Some,
        r matches Some((lo, hi)) ==> draw_range_spec(mode, len as nat) == Some((lo as nat, hi as nat)),
{
    match mode {
        CorruptMode::BadCrc => if len >= 2 {
            Some((0, len - 1))
        } else {
            None
        },
        CorruptMode::Truncate => if len >= 3 {
            Some((1, len - 1))
        } else {
            None
        },
        _ => None,
    }
}

/// Applies corruption `mode` to the encoded frame `encoded`, at position
/// `draw` where the mode uses one, and counts it in `stats`.
///
/// - `BadCrc` on at least 2 bytes: the frame with byte `draw` xor `0xAA`.
/// - `Truncate` on at least 3 bytes: the first `draw` bytes, then `0x00`.
/// - `Burst`: `burst_size + 1` copies of the frame.
/// - Otherwise (`SeqGap`, or a frame too short): the frame unchanged.
pub fn corrupt(
    encoded: &[u8],
    mode: CorruptMode,
    draw: usize,
    burst_size: u32,
    stats: &mut GenStats,
) -> (r: CorruptResult)
    requires
        draw_range_spec(mode, encoded@.len()) matches Some((lo, hi)) ==> lo <= draw < hi,
        mode is BadCrc ==> old(stats).bad_crc < u32::MAX,
        mode is Truncate ==> old(stats).truncated < u32::MAX,
        mode is Burst ==> old(stats).burst_extra + burst_size <= u32::MAX,
    ensures
        mode is BadCrc && encoded@.len() >= 2 ==> {
            &&& r matches CorruptResult::Bytes(v) && v@ == encoded@.update(
                draw as int,
                encoded@[draw as int] ^ 0xAAu8,
            )
            &&& *final(stats) == (GenStats { bad_crc: (old(stats).bad_crc + 1) as u32, ..*old(stats) })
        },
        mode is Truncate && encoded@.len() >= 3 ==> {
            &&& r matches CorruptResult::Bytes(v) && v@ == encoded@.take(draw as int).push(0u8)
            &&& *final(stats) == (GenStats {
                truncated: (old(stats).truncated + 1) as u32,
                ..*old(stats)
            })
        },
        mode is Burst ==> {
            &&& r matches CorruptResult::BurstFrames(fs) && fs@.len() == burst_size + 1 && (forall|
                i: int,
            | 0 <= i < fs@.len() ==> (#[trigger] fs@[i])@ == encoded@)
            &&& *final(stats) == (GenStats {
                burst_extra: (old(stats).burst_extra + burst_size) as u32,
                ..*old(stats)
            })
        },
        (mode is SeqGap || (mode is BadCrc && encoded@.len() < 2) || (mode is Truncate
            && encoded@.len() < 3)) ==> r is Original && *final(stats) == *old(stats),
{
    match mode {
        CorruptMode::BadCrc => {
            if encoded.len() < 2 {
                return CorruptResult::Original;
            }
            let mut v: Vec<u8> = Vec::new();
            v.extend_from_slice(encoded);
            let flipped = v[draw] ^ 0xAA;
            v.set(draw, flipped);
            stats.bad_crc = stats.bad_crc + 1;
            CorruptResult::Bytes(v)
        },
        CorruptMode::Truncate => {
            if encoded.len() < 3 {
                return CorruptResult::Original;
            }
            let mut v: Vec<u8> = Vec::new();
            v.extend_from_slice(&encoded[0..draw]);
            v.push(0x00);
            assert(v@ =~= encoded@.take(draw as int).push(0u8));
            stats.truncated = stats.truncated + 1;
            CorruptResult::Bytes(v)
        },
        CorruptMode::SeqGap => CorruptResult::Original,
        CorruptMode::Burst => {
            let mut frames: Vec<Vec<u8>> = Vec::new();
            let mut first: Vec<u8> = Vec::new();
            first.extend_from_slice(encoded);
            frames.push(first);
            let mut i: u32 = 0;
            while i < burst_size
                invariant
                    i <= burst_size,
                    frames@.len() == i + 1,
                    forall|j: int| 0 <= j < frames@.len() ==> (#[trigger] frames@[j])@ == encoded@,
                decreases burst_size - i,
            {
                let mut copy: Vec<u8> = Vec::new();
                copy.extend_from_slice(encoded);
                frames.push(copy);
                i = i + 1;
            }
            stats.burst_extra = stats.burst_extra + burst_size;
            CorruptResult::BurstFrames(frames)
        },
    }
}

/// The sequence number after a gap of `skip`: `seq + skip`, wrapping at
/// `u32::MAX`; the gap is counted in `stats`.
pub fn skip_sequence(seq: u32, skip: u32, stats: &mut GenStats) -> (next: u32)
    requires
        old(stats).seq_gap < u32::MAX,
    ensures
        next == (seq + skip) % 0x1_0000_0000,
        *final(stats) == (GenStats { seq_gap: (old(stats).seq_gap + 1) as u32, ..*old(stats) }),
{
    stats.seq_gap = stats.seq_gap + 1;
    seq.wrapping_add(skip)
}

} // verus!
