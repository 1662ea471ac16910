//! Stateful validator: CRC-16 check, known type and severity, length sanity,
//! and sequence-gap detection.
//!
//! Checks run in this order; the first failure decides the rejection:
//! 1. CRC-16/IBM-SDLC over header and payload vs. the trailing CRC bytes;
//! 2. known packet type, else `Filtered`;
//! 3. known severity, else `Filtered`;
//! 4. `payload_len` vs. the payload's length, else `BadLength`;
//! 5. sequence number vs. the last one seen plus one (wrapping), else
//!    `SequenceGap`.
use vstd::prelude::*;
use crate::error::{Outcome, Reason};
use crate::frame::{fields_bytes, fields_crc, header_bytes, Frame, FrameView};
use crate::protocol::{packet_type_of, severity_of, PacketType, Severity};
use crate::shim_crc::crc16_checksum;
use crate::shim_heapless::{payload_as_slice, payload_len};
use crate::wire::{le16_bytes, le16_value, u16_from_le, u16_to_le, u32_to_le};

verus! {

/// Stateful frame validator; one per source stream.
///
/// It remembers the sequence number of the last frame that reached the
/// sequence check, to detect gaps.
#[derive(Debug, Clone, Copy)]
pub struct Validator {
    last_seq: Option<u32>,
}

impl View for Validator {
    type V = Option<u32>;

    closed spec fn view(&self) -> Option<u32> {
        self.last_seq
    }
}

/// The mathematical content of an `Outcome<Frame>`.
pub enum OutcomeView {
    Accepted(FrameView),
    Rejected(Reason),
}

/// The view of a validation outcome.
pub open spec fn outcome_view(o: Outcome<Frame>) -> OutcomeView {
    match o {
        Outcome::Accepted(f) => OutcomeView::Accepted(f@),
        Outcome::Rejected(r) => OutcomeView::Rejected(r),
    }
}

/// The sequence number that must follow `last` (wrapping at `u32::MAX`).
pub open spec fn next_sequence(last: u32) -> u32 {
    if last == u32::MAX {
        0
    } else {
        (last + 1) as u32
    }
}

/// The CRC-16 a frame carries in its trailing bytes (little-endian).
pub open spec fn stored_crc(f: FrameView) -> u16 {
    le16_value(f.crc_bytes[0], f.crc_bytes[1])
}

/// Validation of frame `f` by a validator that last saw `last`: the new
/// remembered sequence number and the outcome.
pub open spec fn check_spec(last: Option<u32>, f: FrameView) -> (Option<u32>, OutcomeView) {
    let computed = fields_crc(f.header, f.payload);
    let stored = stored_crc(f);
    let seq = f.header.sequence;
    if computed != stored {
        (last, OutcomeView::Rejected(Reason::Crc { expected: computed, actual: stored }))
    } else if packet_type_of(f.header.packet_type) is None {
        (last, OutcomeView::Rejected(Reason::Filtered))
    } else if severity_of(f.header.severity) is None {
        (last, OutcomeView::Rejected(Reason::Filtered))
    } else if f.header.payload_len != f.payload.len() {
        (last, OutcomeView::Rejected(Reason::BadLength))
    } else {
        match last {
            Some(l) => if seq != next_sequence(l) {
                (
                    Some(seq),
                    OutcomeView::Rejected(Reason::SequenceGap { expected: next_sequence(l), got: seq }),
                )
            } else {
                (Some(seq), OutcomeView::Accepted(f))
            },
            None => (Some(seq), OutcomeView::Accepted(f)),
        }
    }
}

impl Validator {
    /// A validator that has seen nothing: its first well-formed frame is
    /// accepted whatever its sequence number.
    pub fn new() -> (v: Self)
        ensures
            v@ == None::<u32>,
    {
        Validator { last_seq: None }
    }

    /// Validates `frame`.
    ///
    /// An accepted frame is handed back unchanged. Both an acceptance and a
    /// sequence-gap rejection make the frame's sequence number the one the
    /// next frame is compared against (re-synchronisation); other
    /// rejections leave the state as it was.
    pub fn check(&mut self, frame: Frame) -> (r: Outcome<Frame>)
        ensures
            (final(self)@, outcome_view(r)) == check_spec(old(self)@, frame@),
    {
        // The wire bytes are serialised here independently of
        // `Frame::compute_crc`; both are proved against `fields_bytes`.
        let p = payload_as_slice(&frame.payload);
        let mut bytes: Vec<u8> = Vec::new();
        bytes.push(frame.header.version);
        bytes.push(frame.header.packet_type);
        bytes.push(frame.header.severity);
        let s = u32_to_le(frame.header.sequence);
        bytes.push(s[0]);
        bytes.push(s[1]);
        bytes.push(s[2]);
        bytes.push(s[3]);
        let l = u16_to_le(frame.header.payload_len);
        bytes.push(l[0]);
        bytes.push(l[1]);
        let ghost head = bytes@;
        assert(head =~= header_bytes(frame.header));
        bytes.extend_from_slice(p);
        assert(bytes@ =~= fields_bytes(frame@.header, frame@.payload));
        let computed_crc = crc16_checksum(bytes.as_slice());
        let stored_crc = u16_from_le(frame.crc_bytes[0], frame.crc_bytes[1]);
        if computed_crc != stored_crc {
            return Outcome::Rejected(Reason::Crc { expected: computed_crc, actual: stored_crc });
        }
        if PacketType::try_from(frame.header.packet_type).is_err() {
            return Outcome::Rejected(Reason::Filtered);
        }
        if Severity::try_from(frame.header.severity).is_err() {
            return Outcome::Rejected(Reason::Filtered);
        }
        if frame.header.payload_len as usize != payload_len(&frame.payload) {
            return Outcome::Rejected(Reason::BadLength);
        }
        let seq = frame.header.sequence;
        if let Some(last) = self.last_seq {
            let expected = last.wrapping_add(1);
            if seq != expected {
                self.last_seq = Some(seq);
                return Outcome::Rejected(Reason::SequenceGap { expected, got: seq });
            }
        }
        self.last_seq = Some(seq);
        Outcome::Accepted(frame)
    }
}

impl Default for Validator {
    fn default() -> (v: Self)
        ensures
            v@ == None::<u32>,
    {
        Self::new()
    }
}

/// A frame whose CRC bytes are the CRC-16 of its header and payload in
/// little-endian, as [`Frame::compute_crc`] and the encoder produce them,
/// passes the validator's CRC check.
pub proof fn lemma_computed_crc_is_stored(h: crate::frame::Header, payload: Seq<u8>)
    ensures
        stored_crc(
            FrameView { header: h, payload, crc_bytes: le16_bytes(fields_crc(h, payload)) },
        ) == fields_crc(h, payload),
{
    crate::wire::lemma_le16_round_trip(fields_crc(h, payload));
}

/// A rejection for a CRC mismatch, an unknown type or severity, or a bad
/// length leaves the validator as it was: whatever frames come next are
/// judged as if the rejected frame had never arrived.
pub proof fn lemma_non_gap_rejection_keeps_state(last: Option<u32>, f: FrameView, g: FrameView)
    requires
        check_spec(last, f).1 matches OutcomeView::Rejected(r) && !(r is SequenceGap),
    ensures
        check_spec(last, f).0 == last,
        check_spec(check_spec(last, f).0, g) == check_spec(last, g),
{
}

/// After a sequence-gap rejection, the next frame in order after the
/// rejected one is accepted, when it is otherwise well-formed.
pub proof fn lemma_gap_resyncs(last: Option<u32>, gap: FrameView, next: FrameView)
    requires
        check_spec(last, gap).1 matches OutcomeView::Rejected(Reason::SequenceGap { .. }),
        next.header.sequence == next_sequence(gap.header.sequence),
        fields_crc(next.header, next.payload) == stored_crc(next),
        packet_type_of(next.header.packet_type) is Some,
        severity_of(next.header.severity) is Some,
        next.header.payload_len == next.payload.len(),
    ensures
        check_spec(check_spec(last, gap).0, next).1 == OutcomeView::Accepted(next),
{
}

/// A frame the validator finds well-formed: its CRC bytes hold the CRC-16
/// of its header and payload, its type byte is `0x01..=0x05`, its severity
/// byte `0x00..=0x04`, and its `payload_len` is its payload's length.
pub open spec fn well_formed_frame(f: FrameView) -> bool {
    &&& fields_crc(f.header, f.payload) == le16_value(f.crc_bytes[0], f.crc_bytes[1])
    &&& 0x01 <= f.header.packet_type <= 0x05
    &&& f.header.severity <= 0x04
    &&& f.header.payload_len == f.payload.len()
}

/// Sequence continuity. A well-formed frame is accepted exactly when the
/// validator has seen no sequence yet, or the frame's sequence number is
/// one more (wrapping at `u32::MAX`) than the last one seen. Any other
/// number, forward, backward or repeated, is a `SequenceGap` naming the
/// expected and the received number. Either way the frame's number becomes
/// the last one seen.
pub proof fn lemma_sequence_continuity(last: Option<u32>, f: FrameView)
    requires
        well_formed_frame(f),
    ensures
        ({
            let seq = f.header.sequence;
            let (next, out) = check_spec(last, f);
            &&& next == Some(seq)
            &&& last is None ==> out == OutcomeView::Accepted(f)
            &&& last matches Some(l) ==> {
                let expected = ((l + 1) % 0x1_0000_0000) as u32;
                &&& seq == expected ==> out == OutcomeView::Accepted(f)
                &&& seq != expected ==> out == OutcomeView::Rejected(
                    Reason::SequenceGap { expected, got: seq },
                )
            }
        }),
{
}

/// A well-formed frame seen twice in a row is accepted (or flagged) the
/// first time and flagged as a gap the second time: a repeated sequence
/// number never passes.
pub proof fn lemma_repeat_is_gap(last: Option<u32>, f: FrameView)
    requires
        well_formed_frame(f),
    ensures
        check_spec(check_spec(last, f).0, f).1 == OutcomeView::Rejected(
            Reason::SequenceGap {
                expected: ((f.header.sequence + 1) % 0x1_0000_0000) as u32,
                got: f.header.sequence,
            },
        ),
{
    lemma_sequence_continuity(last, f);
    lemma_sequence_continuity(Some(f.header.sequence), f);
}

} // verus!
