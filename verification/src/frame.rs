//! [`Frame`] and [`Header`], the decoded wire frame, and their encodings.
//!
//! A raw frame is `version, type, severity, sequence (u32 LE), payload_len
//! (u16 LE), payload, CRC-16 (LE)`; on the wire it is COBS-encoded and
//! followed by one `0x00` delimiter.
use vstd::prelude::*;
use crate::protocol::{CRC16_LEN, HEADER_LEN, MAX_PAYLOAD, MIN_FRAME_LEN, PROTOCOL_VERSION};
use crate::shim_cobs::{
    cobs_decoding,
    cobs_encode,
    cobs_encoding,
    max_encoding_length,
    spec_max_encoding_length,
};
use crate::shim_crc::{crc16_checksum, crc16_ibm_sdlc};
use crate::shim_heapless::{payload_as_slice, payload_contents, payload_extend, payload_len, payload_new};
use crate::wire::{le16_bytes, le32_bytes, u16_to_le, u32_to_le};

verus! {

/// Largest COBS-encoded frame, trailing `0x00` included:
/// `max_encoding_length(491) + 1`.
pub const MAX_COBS_FRAME_BYTES: usize = 494;

/// The fixed-size header of a decoded wire frame.
#[derive(Debug, Clone, Copy, PartialEq, Eq, Structural)]
pub struct Header {
    /// Protocol version byte.
    pub version: u8,
    /// Raw packet-type byte.
    pub packet_type: u8,
    /// Raw severity byte.
    pub severity: u8,
    /// Per-source sequence number (wraps at `u32::MAX`).
    pub sequence: u32,
    /// Number of payload bytes that follow the header.
    pub payload_len: u16,
}

/// A decoded wire frame.
///
/// `crc_bytes` are the trailing bytes as they arrived on the wire; encoding
/// never reads them, it computes the CRC afresh.
#[derive(Debug, Clone, PartialEq, Eq)]
pub struct Frame {
    /// Parsed frame header.
    pub header: Header,
    /// Application payload (at most [`MAX_PAYLOAD`] bytes).
    pub payload: heapless::Vec<u8, MAX_PAYLOAD>,
    /// Raw CRC-16 bytes as received (little-endian).
    pub crc_bytes: [u8; 2],
}

/// The mathematical content of a [`Frame`].
pub struct FrameView {
    pub header: Header,
    pub payload: Seq<u8>,
    pub crc_bytes: Seq<u8>,
}

impl View for Frame {
    type V = FrameView;

    open spec fn view(&self) -> FrameView {
        FrameView {
            header: self.header,
            payload: payload_contents(self.payload),
            crc_bytes: self.crc_bytes@,
        }
    }
}

/// The nine header bytes.
pub open spec fn header_bytes(h: Header) -> Seq<u8> {
    seq![h.version, h.packet_type, h.severity] + le32_bytes(h.sequence) + le16_bytes(h.payload_len)
}

/// Every byte the CRC-16 covers: header then payload.
pub open spec fn fields_bytes(h: Header, payload: Seq<u8>) -> Seq<u8> {
    header_bytes(h) + payload
}

/// The CRC-16/IBM-SDLC of the header and payload.
pub open spec fn fields_crc(h: Header, payload: Seq<u8>) -> u16 {
    crc16_ibm_sdlc(fields_bytes(h, payload))
}

/// The raw (pre-COBS) frame: header, payload, then the CRC-16 in little-endian.
pub open spec fn raw_frame_bytes(h: Header, payload: Seq<u8>) -> Seq<u8> {
    fields_bytes(h, payload) + le16_bytes(fields_crc(h, payload))
}

/// The bytes sent on the wire: the COBS encoding of the raw frame, then `0x00`.
pub open spec fn wire_frame_bytes(h: Header, payload: Seq<u8>) -> Seq<u8> {
    cobs_encoding(raw_frame_bytes(h, payload)).push(0u8)
}

/// `wire` is a delimited COBS envelope around the raw frame of `h` and
/// `payload`: one trailing `0x00`, no other `0x00`, and COBS decoding of the
/// rest gives back the raw frame.
pub open spec fn is_wire_frame(wire: Seq<u8>, h: Header, payload: Seq<u8>) -> bool {
    &&& wire.len() >= 2
    &&& wire.last() == 0u8
    &&& forall|i: int| 0 <= i < wire.len() - 1 ==> #[trigger] wire[i] != 0u8
    &&& cobs_decoding(wire.drop_last()) == Some(raw_frame_bytes(h, payload))
    &&& wire.len() - 1 <= spec_max_encoding_length(MIN_FRAME_LEN + payload.len())
}

/// Builds the header and payload bytes the CRC-16 covers.
fn fields_vec(h: &Header, payload: &[u8]) -> (v: Vec<u8>)
    ensures
        v@ == fields_bytes(*h, payload@),
{
    let mut v: Vec<u8> = Vec::new();
    v.push(h.version);
    v.push(h.packet_type);
    v.push(h.severity);
    let s = u32_to_le(h.sequence);
    v.push(s[0]);
    v.push(s[1]);
    v.push(s[2]);
    v.push(s[3]);
    let l = u16_to_le(h.payload_len);
    v.push(l[0]);
    v.push(l[1]);
    let ghost head = v@;
    assert(head =~= header_bytes(*h));
    v.extend_from_slice(payload);
    v
}

impl Frame {
    /// Builds a frame with `version` = [`PROTOCOL_VERSION`] and `payload_len`
    /// set from the payload; `crc_bytes` are zero.
    ///
    /// Returns `None` when `payload` is longer than [`MAX_PAYLOAD`].
    pub fn new(packet_type: u8, severity: u8, sequence: u32, payload: &[u8]) -> (r: Option<Self>)
        ensures
            r is None <==> payload@.len() > MAX_PAYLOAD,
            r matches Some(f) ==> f@ == (FrameView {
                header: Header {
                    version: PROTOCOL_VERSION,
                    packet_type,
                    severity,
                    sequence,
                    payload_len: payload@.len() as u16,
                },
                payload: payload@,
                crc_bytes: seq![0u8, 0u8],
            }),
    {
        if payload.len() > MAX_PAYLOAD {
            return None;
        }
        let mut p = payload_new();
        if payload_extend(&mut p, payload).is_err() {
            return None;
        }
        assert(payload_contents(p) =~= payload@);
        let f = Frame {
            header: Header {
                version: PROTOCOL_VERSION,
                packet_type,
                severity,
                sequence,
                payload_len: payload.len() as u16,
            },
            payload: p,
            crc_bytes: [0; 2],
        };
        assert(f@.crc_bytes =~= seq![0u8, 0u8]);
        Some(f)
    }

    /// Raw (pre-COBS) length: `HEADER_LEN + payload.len() + CRC16_LEN`.
    pub fn raw_len(&self) -> (n: usize)
        ensures
            n == MIN_FRAME_LEN + self@.payload.len(),
            n <= MIN_FRAME_LEN + MAX_PAYLOAD,
    {
        MIN_FRAME_LEN + payload_len(&self.payload)
    }

    /// CRC-16/IBM-SDLC over the header fields and payload, little-endian.
    /// The stored `crc_bytes` are not read.
    pub fn compute_crc(&self) -> (c: [u8; 2])
        ensures
            c@ == le16_bytes(fields_crc(self@.header, self@.payload)),
    {
        let fields = fields_vec(&self.header, payload_as_slice(&self.payload));
        let crc = crc16_checksum(fields.as_slice());
        u16_to_le(crc)
    }

    /// Writes the raw (pre-COBS) frame at the start of `buf`, with a CRC-16
    /// computed from the current fields.
    ///
    /// Returns the number of bytes written, or `None` when `buf` is shorter
    /// than [`Frame::raw_len`] (and then `buf` is untouched).
    pub fn encode_raw(&self, buf: &mut [u8]) -> (r: Option<usize>)
        ensures
            final(buf)@.len() == old(buf)@.len(),
            r is None <==> old(buf)@.len() < MIN_FRAME_LEN + self@.payload.len(),
            r is None ==> final(buf)@ == old(buf)@,
            r matches Some(n) ==> {
                &&& n == MIN_FRAME_LEN + self@.payload.len()
                &&& final(buf)@.subrange(0, n as int) == raw_frame_bytes(self@.header, self@.payload)
                &&& final(buf)@.subrange(n as int, final(buf)@.len() as int) == old(buf)@.subrange(
                    n as int,
                    old(buf)@.len() as int,
                )
            },
    {
        let n = self.raw_len();
        if buf.len() < n {
            return None;
        }
        let p = payload_as_slice(&self.payload);
        let fields = fields_vec(&self.header, p);
        let crc = self.compute_crc();
        let ghost raw = raw_frame_bytes(self@.header, self@.payload);
        assert(raw =~= fields@ + crc@);
        let mut i: usize = 0;
        while i < HEADER_LEN + p.len()
            invariant
                fields@.len() == HEADER_LEN + p@.len(),
                n == HEADER_LEN + p@.len() + CRC16_LEN,
                n <= buf@.len(),
                buf@.len() == old(buf)@.len(),
                i <= HEADER_LEN + p@.len(),
                forall|j: int| 0 <= j < i ==> #[trigger] buf@[j] == fields@[j],
                forall|j: int| n <= j < buf@.len() ==> #[trigger] buf@[j] == old(buf)@[j],
            decreases HEADER_LEN + p@.len() - i,
        {
            buf[i] = fields[i];
            i += 1;
        }
        buf[i] = crc[0];
        buf[i + 1] = crc[1];
        assert(buf@.subrange(0, n as int) =~= raw);
        assert(buf@.subrange(n as int, buf@.len() as int) =~= old(buf)@.subrange(
            n as int,
            old(buf)@.len() as int,
        ));
        Some(n)
    }

    /// Writes the COBS-encoded wire frame, trailing `0x00` included, at the
    /// start of `buf`.
    ///
    /// Returns the number of bytes written, or `None` when `buf` is shorter
    /// than `max_encoding_length(raw_len) + 1` ([`MAX_COBS_FRAME_BYTES`]
    /// always suffices).
    pub fn encode_cobs(&self, buf: &mut [u8]) -> (r: Option<usize>)
        ensures
            final(buf)@.len() == old(buf)@.len(),
            r is None <==> old(buf)@.len() < spec_max_encoding_length(
                MIN_FRAME_LEN + self@.payload.len(),
            ) + 1,
            r is None ==> final(buf)@ == old(buf)@,
            r matches Some(n) ==> {
                &&& n <= old(buf)@.len()
                &&& final(buf)@.subrange(0, n as int) == wire_frame_bytes(self@.header, self@.payload)
                &&& is_wire_frame(final(buf)@.subrange(0, n as int), self@.header, self@.payload)
            },
    {
        let mut raw: Vec<u8> = vec![0u8; self.raw_len()];
        let raw_len = match self.encode_raw(raw.as_mut_slice()) {
            Some(n) => n,
            None => {
                return None;
            },
        };
        let ghost raw_spec = raw_frame_bytes(self@.header, self@.payload);
        raw.truncate(raw_len);
        assert(raw@ =~= raw_spec);
        let max_cobs = max_encoding_length(raw_len);
        if buf.len() < max_cobs + 1 {
            return None;
        }
        let written = cobs_encode(raw.as_slice(), buf);
        buf[written] = 0x00;
        let n = written + 1;
        assert(buf@.subrange(0, written as int) == cobs_encoding(raw_spec));
        proof {
            let w = buf@.subrange(0, n as int);
            assert(w.drop_last() =~= buf@.subrange(0, written as int));
            assert(w =~= cobs_encoding(raw_spec).push(0u8));
            assert(w.len() >= 2);
            assert(w.last() == 0u8);
            assert(cobs_decoding(w.drop_last()) == Some(raw_frame_bytes(self@.header, self@.payload)));
            assert forall|i: int| 0 <= i < w.len() - 1 implies #[trigger] w[i] != 0u8 by {
                assert(w[i] == buf@.subrange(0, written as int)[i]);
            }
        }
        Some(n)
    }
}

} // verus!
