//! COBS framer: turns a raw byte stream into [`Frame`]s, one byte at a time.
//!
//! ```text
//!  Collecting ──(byte)──► Collecting  (accumulate)
//!  Collecting ──(full)──► Discarding  (overflow)
//!  Collecting ──(0x00)──► Collecting  (process + reset)
//!  Discarding ──(any) ──► Discarding  (skip)
//!  Discarding ──(0x00)──► Collecting  (resync)
//! ```
//!
//! The CRC-16 is not checked here; that is the validator's job.
use vstd::prelude::*;
use crate::frame::{
    fields_crc,
    header_bytes,
    is_wire_frame,
    raw_frame_bytes,
    fields_bytes,
    Frame,
    FrameView,
    Header,
};
use crate::protocol::{CRC16_LEN, HEADER_LEN, MAX_PAYLOAD, MIN_FRAME_LEN};
use crate::shim_cobs::{cobs_decode_in_place, cobs_decoding};
use crate::shim_heapless::{payload_contents, payload_extend, payload_new};
use crate::wire::{
    le16_bytes,
    le16_value,
    le32_bytes,
    le32_value,
    lemma_le16_round_trip,
    lemma_le32_round_trip,
    u16_from_le,
    u32_from_le,
};

verus! {

/// Whether the framer is collecting a frame or skipping to the next `0x00`.
#[derive(Debug, Clone, Copy, PartialEq, Eq, Structural)]
pub enum FramerState {
    /// Accumulating bytes between `0x00` delimiters.
    Collecting,
    /// The buffer overflowed; bytes are skipped until the next `0x00`.
    Discarding,
}

/// What [`Framer::feed`] reports for one input byte.
#[must_use]
#[derive(Debug, Clone, PartialEq, Eq)]
pub enum FrameOutput {
    /// No complete frame yet; keep feeding bytes.
    Incomplete,
    /// A complete frame was decoded (its CRC-16 is not yet verified).
    Complete(Frame),
    /// The frame exceeded the framer's buffer capacity and was dropped.
    Overflow,
    /// COBS decoding failed (stream corruption); the frame was dropped.
    CobsError,
    /// The decoded bytes do not have the frame structure; the frame was dropped.
    ParseError,
}

/// The mathematical content of a [`FrameOutput`].
pub enum FrameOutputView {
    Incomplete,
    Complete(FrameView),
    Overflow,
    CobsError,
    ParseError,
}

impl View for FrameOutput {
    type V = FrameOutputView;

    open spec fn view(&self) -> FrameOutputView {
        match self {
            FrameOutput::Incomplete => FrameOutputView::Incomplete,
            FrameOutput::Complete(f) => FrameOutputView::Complete(f@),
            FrameOutput::Overflow => FrameOutputView::Overflow,
            FrameOutput::CobsError => FrameOutputView::CobsError,
            FrameOutput::ParseError => FrameOutputView::ParseError,
        }
    }
}

/// Byte-stream framer; `N` is the capacity of its receive buffer in bytes.
///
/// `N` must hold the COBS encoding of the largest expected frame
/// ([`crate::frame::MAX_COBS_FRAME_BYTES`] minus the delimiter).
#[derive(Debug)]
pub struct Framer<const N: usize> {
    buf: Vec<u8>,
    state: FramerState,
    /// Number of times the framer dropped bytes to re-synchronise
    /// (overflows and COBS errors); saturates at `u32::MAX`.
    pub resync_count: u32,
}

/// The mathematical content of a [`Framer`].
pub struct FramerView {
    pub state: FramerState,
    pub buf: Seq<u8>,
    pub resync_count: u32,
}

impl<const N: usize> View for Framer<N> {
    type V = FramerView;

    closed spec fn view(&self) -> FramerView {
        FramerView { state: self.state, buf: self.buf@, resync_count: self.resync_count }
    }
}

/// `x + 1`, capped at `u32::MAX`.
pub open spec fn sat_inc32(x: u32) -> u32 {
    if x == u32::MAX {
        x
    } else {
        (x + 1) as u32
    }
}

/// A framer state that `feed` can be given: the buffer fits the capacity,
/// holds no `0x00`, and is empty while discarding.
pub open spec fn framer_wf(f: FramerView, cap: nat) -> bool {
    &&& f.buf.len() <= cap
    &&& f.state is Discarding ==> f.buf.len() == 0
    &&& forall|i: int| 0 <= i < f.buf.len() ==> #[trigger] f.buf[i] != 0u8
}

/// The frame that COBS-decoded bytes `d` describe, or `None` when they are
/// too short, announce more than [`MAX_PAYLOAD`] payload bytes, or their
/// length disagrees with the announced payload length.
pub open spec fn parse_decoded(d: Seq<u8>) -> Option<FrameView> {
    if d.len() < MIN_FRAME_LEN {
        None
    } else {
        let plen = le16_value(d[7], d[8]);
        if plen > MAX_PAYLOAD {
            None
        } else if d.len() != HEADER_LEN + plen + CRC16_LEN {
            None
        } else {
            Some(
                FrameView {
                    header: Header {
                        version: d[0],
                        packet_type: d[1],
                        severity: d[2],
                        sequence: le32_value(d[3], d[4], d[5], d[6]),
                        payload_len: plen,
                    },
                    payload: d.subrange(HEADER_LEN as int, HEADER_LEN + plen),
                    crc_bytes: seq![d[HEADER_LEN + plen], d[HEADER_LEN + plen + 1]],
                },
            )
        }
    }
}

/// What processing a delimited, non-empty buffer yields: the new resync
/// count and the output.
pub open spec fn process_spec(buf: Seq<u8>, resync: u32) -> (u32, FrameOutputView) {
    match cobs_decoding(buf) {
        None => (sat_inc32(resync), FrameOutputView::CobsError),
        Some(d) => match parse_decoded(d) {
            Some(f) => (resync, FrameOutputView::Complete(f)),
            None => (resync, FrameOutputView::ParseError),
        },
    }
}

/// One step of the framer state machine, with buffer capacity `cap`.
pub open spec fn framer_step(f: FramerView, byte: u8, cap: nat) -> (FramerView, FrameOutputView) {
    match f.state {
        FramerState::Discarding => if byte == 0 {
            (
                FramerView { state: FramerState::Collecting, buf: seq![], resync_count: f.resync_count },
                FrameOutputView::Incomplete,
            )
        } else {
            (f, FrameOutputView::Incomplete)
        },
        FramerState::Collecting => if byte != 0 {
            if f.buf.len() < cap {
                (
                    FramerView {
                        state: FramerState::Collecting,
                        buf: f.buf.push(byte),
                        resync_count: f.resync_count,
                    },
                    FrameOutputView::Incomplete,
                )
            } else {
                (
                    FramerView {
                        state: FramerState::Discarding,
                        buf: seq![],
                        resync_count: sat_inc32(f.resync_count),
                    },
                    FrameOutputView::Overflow,
                )
            }
        } else if f.buf.len() == 0 {
            (f, FrameOutputView::Incomplete)
        } else {
            let (r, out) = process_spec(f.buf, f.resync_count);
            (FramerView { state: FramerState::Collecting, buf: seq![], resync_count: r }, out)
        },
    }
}

/// Feeds `bytes` in order: the final state and every output, one per byte.
pub open spec fn feed_all(f: FramerView, bytes: Seq<u8>, cap: nat) -> (FramerView, Seq<FrameOutputView>)
    decreases bytes.len(),
{
    if bytes.len() == 0 {
        (f, seq![])
    } else {
        let (g, outs) = feed_all(f, bytes.drop_last(), cap);
        let (h, o) = framer_step(g, bytes.last(), cap);
        (h, outs.push(o))
    }
}

impl<const N: usize> Framer<N> {
    /// The framer's state is one `feed` can be given.
    pub open spec fn wf(&self) -> bool {
        framer_wf(self@, N as nat)
    }

    /// An empty framer, collecting.
    pub fn new() -> (f: Self)
        ensures
            f.wf(),
            f@ == (FramerView { state: FramerState::Collecting, buf: seq![], resync_count: 0 }),
    {
        let f = Framer { buf: Vec::new(), state: FramerState::Collecting, resync_count: 0 };
        assert(f@.buf =~= seq![]);
        f
    }

    /// The number of re-synchronisations so far (the `resync_count` field).
    pub fn resync_count(&self) -> (n: u32)
        ensures
            n == self@.resync_count,
    {
        self.resync_count
    }

    /// Feeds one byte and reports whether a frame is complete.
    pub fn feed(&mut self, byte: u8) -> (out: FrameOutput)
        requires
            old(self).wf(),
        ensures
            final(self).wf(),
            (final(self)@, out@) == framer_step(old(self)@, byte, N as nat),
    {
        match self.state {
            FramerState::Discarding => {
                if byte == 0x00 {
                    self.buf.clear();
                    self.state = FramerState::Collecting;
                    assert(self@.buf =~= seq![]);
                }
                FrameOutput::Incomplete
            },
            FramerState::Collecting => {
                if byte != 0x00 {
                    if self.buf.len() >= N {
                        self.state = FramerState::Discarding;
                        self.resync_count = self.resync_count.saturating_add(1);
                        self.buf.clear();
                        assert(self@.buf =~= seq![]);
                        return FrameOutput::Overflow;
                    }
                    self.buf.push(byte);
                    FrameOutput::Incomplete
                } else {
                    if self.buf.len() == 0 {
                        return FrameOutput::Incomplete;
                    }
                    let result = self.process();
                    self.buf.clear();
                    assert(self@.buf =~= seq![]);
                    result
                }
            },
        }
    }

    /// Decodes and parses the buffered bytes once a `0x00` delimiter arrives.
    fn process(&mut self) -> (out: FrameOutput)
        requires
            old(self).buf@.len() > 0,
        ensures
            final(self).state == old(self).state,
            (final(self).resync_count, out@) == process_spec(old(self).buf@, old(self).resync_count),
    {
        let ghost src = self.buf@;
        let decoded_len = match cobs_decode_in_place(&mut self.buf) {
            Some(n) => n,
            None => {
                self.resync_count = self.resync_count.saturating_add(1);
                return FrameOutput::CobsError;
            },
        };
        let ghost d = self.buf@.subrange(0, decoded_len as int);
        assert(cobs_decoding(src) == Some(d));
        if decoded_len < MIN_FRAME_LEN {
            return FrameOutput::ParseError;
        }
        assert(d[7] == self.buf@[7] && d[8] == self.buf@[8]);
        let payload_len_u16 = u16_from_le(self.buf[7], self.buf[8]);
        let payload_len = payload_len_u16 as usize;
        if payload_len > MAX_PAYLOAD {
            return FrameOutput::ParseError;
        }
        if decoded_len != HEADER_LEN + payload_len + CRC16_LEN {
            return FrameOutput::ParseError;
        }
        let sequence = u32_from_le(self.buf[3], self.buf[4], self.buf[5], self.buf[6]);
        let header = Header {
            version: self.buf[0],
            packet_type: self.buf[1],
            severity: self.buf[2],
            sequence,
            payload_len: payload_len_u16,
        };
        let mut payload = payload_new();
        if payload_extend(&mut payload, &self.buf.as_slice()[HEADER_LEN..HEADER_LEN + payload_len]).is_err() {
            return FrameOutput::ParseError;
        }
        let crc_start = HEADER_LEN + payload_len;
        let crc_bytes = [self.buf[crc_start], self.buf[crc_start + 1]];
        let frame = Frame { header, payload, crc_bytes };
        proof {
            assert(d[0] == self.buf@[0] && d[1] == self.buf@[1] && d[2] == self.buf@[2]);
            assert(d[3] == self.buf@[3] && d[4] == self.buf@[4] && d[5] == self.buf@[5] && d[6]
                == self.buf@[6]);
            assert(payload_contents(frame.payload) =~= d.subrange(
                HEADER_LEN as int,
                HEADER_LEN + payload_len,
            ));
            assert(frame@.crc_bytes =~= seq![d[HEADER_LEN + payload_len], d[HEADER_LEN + payload_len + 1]]);
        }
        FrameOutput::Complete(frame)
    }
}

impl<const N: usize> Default for Framer<N> {
    fn default() -> (f: Self)
        ensures
            f.wf(),
            f@ == (FramerView { state: FramerState::Collecting, buf: seq![], resync_count: 0 }),
    {
        Self::new()
    }
}

/// `feed` keeps a framer state valid.
pub proof fn lemma_step_keeps_wf(f: FramerView, byte: u8, cap: nat)
    requires
        framer_wf(f, cap),
    ensures
        framer_wf(framer_step(f, byte, cap).0, cap),
{
    if f.state is Collecting && byte != 0 && f.buf.len() < cap {
        let b = f.buf.push(byte);
        assert forall|i: int| 0 <= i < b.len() implies #[trigger] b[i] != 0u8 by {
            if i < f.buf.len() {
                assert(b[i] == f.buf[i]);
            }
        }
    }
}

/// The resync counter never decreases, whatever bytes are fed.
pub proof fn lemma_resync_count_never_decreases(f: FramerView, bytes: Seq<u8>, cap: nat)
    ensures
        feed_all(f, bytes, cap).0.resync_count >= f.resync_count,
    decreases bytes.len(),
{
    if bytes.len() > 0 {
        lemma_resync_count_never_decreases(f, bytes.drop_last(), cap);
    }
}

/// Parsing the raw frame of a header and payload whose `payload_len` is the
/// payload's length gives back that header and payload, with the computed
/// CRC-16 as its CRC bytes.
pub proof fn lemma_parse_raw_frame(h: Header, payload: Seq<u8>)
    requires
        h.payload_len == payload.len(),
        payload.len() <= MAX_PAYLOAD,
    ensures
        parse_decoded(raw_frame_bytes(h, payload)) == Some(
            FrameView { header: h, payload, crc_bytes: le16_bytes(fields_crc(h, payload)) },
        ),
{
    let raw = raw_frame_bytes(h, payload);
    let c = le16_bytes(fields_crc(h, payload));
    let s = le32_bytes(h.sequence);
    let l = le16_bytes(h.payload_len);
    lemma_le16_round_trip(h.payload_len);
    lemma_le32_round_trip(h.sequence);
    assert(raw.len() == HEADER_LEN + payload.len() + CRC16_LEN);
    assert(raw[0] == h.version && raw[1] == h.packet_type && raw[2] == h.severity);
    assert(raw[3] == s[0] && raw[4] == s[1] && raw[5] == s[2] && raw[6] == s[3]);
    assert(raw[7] == l[0] && raw[8] == l[1]);
    assert(raw.subrange(HEADER_LEN as int, HEADER_LEN + payload.len()) =~= payload);
    assert(raw[HEADER_LEN + payload.len()] == c[0]);
    assert(raw[HEADER_LEN + payload.len() + 1] == c[1]);
    assert(seq![raw[HEADER_LEN + payload.len()], raw[HEADER_LEN + payload.len() + 1]] =~= c);
}

/// Feeding the non-zero prefix of a wire frame into an empty collecting
/// framer only buffers it.
proof fn lemma_feed_prefix(f: FramerView, cap: nat, wire: Seq<u8>, k: nat)
    requires
        f.state is Collecting,
        f.buf.len() == 0,
        k < wire.len(),
        k <= cap,
        forall|i: int| 0 <= i < k ==> #[trigger] wire[i] != 0u8,
    ensures
        ({
            let (g, outs) = feed_all(f, wire.subrange(0, k as int), cap);
            &&& g == FramerView {
                state: FramerState::Collecting,
                buf: wire.subrange(0, k as int),
                resync_count: f.resync_count,
            }
            &&& outs.len() == k
            &&& forall|i: int| 0 <= i < k ==> #[trigger] outs[i] == FrameOutputView::Incomplete
        }),
    decreases k,
{
    let w = wire.subrange(0, k as int);
    if k == 0 {
        assert(w =~= seq![]);
        assert(f.buf =~= seq![]);
    } else {
        lemma_feed_prefix(f, cap, wire, (k - 1) as nat);
        assert(w.drop_last() =~= wire.subrange(0, k - 1));
        assert(w.last() == wire[k - 1]);
        let (g, outs) = feed_all(f, wire.subrange(0, k - 1), cap);
        assert(g.buf.push(wire[k - 1]) =~= w);
    }
}

/// A frame encoded by [`Frame::encode_cobs`] and fed byte by byte into an
/// empty collecting framer whose buffer can hold it comes out as exactly one
/// `Complete` frame, on its final `0x00`: same header, same payload, and the
/// CRC-16 computed by the encoder. Every earlier byte reports `Incomplete`.
///
/// The frame's `payload_len` must match its payload (as [`Frame::new`]
/// makes it); otherwise the framer rejects it as malformed.
pub proof fn lemma_encoded_frame_is_recovered(
    f: FramerView,
    cap: nat,
    wire: Seq<u8>,
    h: Header,
    payload: Seq<u8>,
)
    requires
        f.state is Collecting,
        f.buf.len() == 0,
        is_wire_frame(wire, h, payload),
        h.payload_len == payload.len(),
        payload.len() <= MAX_PAYLOAD,
        wire.len() - 1 <= cap,
    ensures
        ({
            let (g, outs) = feed_all(f, wire, cap);
            &&& outs.len() == wire.len()
            &&& forall|i: int| 0 <= i < wire.len() - 1 ==> #[trigger] outs[i]
                == FrameOutputView::Incomplete
            &&& outs.last() == FrameOutputView::Complete(
                FrameView { header: h, payload, crc_bytes: le16_bytes(fields_crc(h, payload)) },
            )
            &&& g == FramerView { state: FramerState::Collecting, buf: seq![], resync_count: f.resync_count }
        }),
{
    let k = (wire.len() - 1) as nat;
    lemma_feed_prefix(f, cap, wire, k);
    assert(wire.drop_last() =~= wire.subrange(0, k as int));
    lemma_parse_raw_frame(h, payload);
}

/// A `0x00` that ends a non-empty run in a collecting framer decodes and
/// parses the run, then leaves the framer collecting with an empty buffer:
/// a COBS failure is a `CobsError` (and one more resync); decoded bytes
/// that are too short, announce more than [`MAX_PAYLOAD`] payload bytes or
/// disagree with the announced length are a `ParseError`; anything else is
/// `Complete`, with the fields read from the decoded bytes whatever their
/// version, type, severity and CRC bytes.
pub proof fn lemma_delimiter_outcome(f: FramerView, cap: nat)
    requires
        f.state is Collecting,
        f.buf.len() > 0,
    ensures
        ({
            let (g, out) = framer_step(f, 0u8, cap);
            &&& g.state is Collecting
            &&& g.buf.len() == 0
            &&& cobs_decoding(f.buf) is None ==> out == FrameOutputView::CobsError && g.resync_count
                == sat_inc32(f.resync_count)
            &&& cobs_decoding(f.buf) matches Some(d) ==> {
                let plen = le16_value(d[7], d[8]);
                let malformed = d.len() < MIN_FRAME_LEN || plen > MAX_PAYLOAD || d.len() != HEADER_LEN
                    + plen + CRC16_LEN;
                &&& g.resync_count == f.resync_count
                &&& malformed ==> out == FrameOutputView::ParseError
                &&& !malformed ==> out == FrameOutputView::Complete(
                    FrameView {
                        header: Header {
                            version: d[0],
                            packet_type: d[1],
                            severity: d[2],
                            sequence: le32_value(d[3], d[4], d[5], d[6]),
                            payload_len: plen,
                        },
                        payload: d.subrange(HEADER_LEN as int, HEADER_LEN + plen),
                        crc_bytes: seq![d[HEADER_LEN + plen], d[HEADER_LEN + plen + 1]],
                    },
                )
            }
        }),
{
}

/// Two framer states that differ at most in their resync counters give the
/// same outputs for the same bytes, and end in states that again differ at
/// most in their resync counters.
pub proof fn lemma_outputs_ignore_resync_count(f1: FramerView, f2: FramerView, bytes: Seq<u8>, cap: nat)
    requires
        f1.state == f2.state,
        f1.buf == f2.buf,
    ensures
        feed_all(f1, bytes, cap).1 == feed_all(f2, bytes, cap).1,
        feed_all(f1, bytes, cap).0.state == feed_all(f2, bytes, cap).0.state,
        feed_all(f1, bytes, cap).0.buf == feed_all(f2, bytes, cap).0.buf,
    decreases bytes.len(),
{
    if bytes.len() > 0 {
        lemma_outputs_ignore_resync_count(f1, f2, bytes.drop_last(), cap);
    }
}

/// Every `0x00` re-synchronises the framer: whatever it was in and whatever
/// it was fed before, after a `0x00` it is collecting with an empty buffer,
/// and from then on it gives the same outputs as a new framer.
pub proof fn lemma_zero_resynchronises(f: FramerView, p: Seq<u8>, q: Seq<u8>, cap: nat)
    ensures
        ({
            let g = feed_all(f, p.push(0u8), cap).0;
            let fresh = FramerView { state: FramerState::Collecting, buf: seq![], resync_count: 0 };
            &&& g.state is Collecting
            &&& g.buf.len() == 0
            &&& feed_all(g, q, cap).1 == feed_all(fresh, q, cap).1
        }),
{
    assert(p.push(0u8).drop_last() =~= p);
    assert(p.push(0u8).last() == 0u8);
    let g = feed_all(f, p.push(0u8), cap).0;
    let fresh = FramerView { state: FramerState::Collecting, buf: seq![], resync_count: 0 };
    assert(g.buf =~= fresh.buf);
    lemma_outputs_ignore_resync_count(g, fresh, q, cap);
}

} // verus!
