//! [`StoredRecord`]: versioned storage records and their on-disk framing.
//!
//! ```text
//! COBS( postcard_bytes(StoredRecord) ++ CRC-32/ISO-HDLC (LE) ) 0x00
//! ```
//!
//! The postcard bytes start with the enum variant index, which is the record
//! version (`0x00` for `V1`); the CRC-32 covers all of them. A decoder that
//! meets an unknown version reports [`Error::Codec`] and does not panic.
use vstd::prelude::*;
use crate::error::Error;
use crate::protocol::MAX_PAYLOAD;
use crate::shim_cobs::{
    cobs_decode_in_place,
    cobs_decoding,
    cobs_encode,
    cobs_encoding,
    max_encoding_length,
    spec_max_encoding_length,
};
use crate::shim_crc::{crc32_checksum, crc32_iso_hdlc};
use crate::shim_heapless::{payload_as_slice, payload_contents, payload_extend, payload_new};
use crate::shim_postcard::{
    postcard_record_bytes,
    postcard_record_from_bytes,
    postcard_record_parse,
    postcard_record_to_slice,
    varint,
};
use crate::wire::{le32_bytes, le32_value, lemma_le32_round_trip, u32_from_le, u32_to_le};

verus! {

/// Largest encoded record written to storage, delimiter included.
pub const MAX_STORED_RECORD_BYTES: usize = 512;

/// Version-1 storage record: one validated, filtered wire frame plus metadata.
#[derive(Debug, Clone, PartialEq, Eq)]
pub struct RecordV1 {
    /// Monotonic source timestamp in microseconds.
    pub timestamp_us: u64,
    /// Wire frame sequence number.
    pub sequence: u32,
    /// Raw packet-type byte.
    pub packet_type: u8,
    /// Raw severity byte.
    pub severity: u8,
    /// Application payload bytes.
    pub payload: heapless::Vec<u8, MAX_PAYLOAD>,
}

/// Versioned envelope for storage records; the variant index is the version.
#[derive(Debug, Clone, PartialEq, Eq)]
#[non_exhaustive]
pub enum StoredRecord {
    /// Version-1 record.
    V1(RecordV1),
}

/// The mathematical content of a version-1 record.
pub struct RecordView {
    pub timestamp_us: u64,
    pub sequence: u32,
    pub packet_type: u8,
    pub severity: u8,
    pub payload: Seq<u8>,
}

impl View for RecordV1 {
    type V = RecordView;

    open spec fn view(&self) -> RecordView {
        RecordView {
            timestamp_us: self.timestamp_us,
            sequence: self.sequence,
            packet_type: self.packet_type,
            severity: self.severity,
            payload: payload_contents(self.payload),
        }
    }
}

impl View for StoredRecord {
    type V = RecordView;

    open spec fn view(&self) -> RecordView {
        match self {
            StoredRecord::V1(r) => r@,
        }
    }
}

/// The postcard bytes of a version-1 record (variant index 0).
pub open spec fn record_body(r: RecordView) -> Seq<u8> {
    postcard_record_bytes(0, r.timestamp_us, r.sequence, r.packet_type, r.severity, r.payload)
}

/// The bytes COBS encodes: the body, then its CRC-32 in little-endian.
pub open spec fn record_frame(body: Seq<u8>) -> Seq<u8> {
    body + le32_bytes(crc32_iso_hdlc(body))
}

/// The encoded record as written to storage.
pub open spec fn encoded_record(r: RecordView) -> Seq<u8> {
    cobs_encoding(record_frame(record_body(r))).push(0u8)
}

/// `wire` is a delimited COBS envelope around the CRC-protected postcard body
/// of `r`, from which postcard reads `r`'s fields back.
pub open spec fn is_record_wire(wire: Seq<u8>, r: RecordView) -> bool {
    let body = record_body(r);
    &&& wire.len() >= 2
    &&& wire.last() == 0u8
    &&& forall|i: int| 0 <= i < wire.len() - 1 ==> #[trigger] wire[i] != 0u8
    &&& cobs_decoding(wire.drop_last()) == Some(record_frame(body))
    &&& postcard_record_parse(body) == Some(
        (0u32, r.timestamp_us, r.sequence, r.packet_type, r.severity, r.payload),
    )
    &&& wire.len() - 1 <= spec_max_encoding_length(body.len() + 4int)
}

/// What [`decode`] makes of `buf`.
pub open spec fn decode_spec(buf: Seq<u8>) -> Result<RecordView, Error> {
    let c = if buf.len() > 0 && buf.last() == 0u8 {
        buf.drop_last()
    } else {
        buf
    };
    if c.len() == 0 || c.len() > MAX_STORED_RECORD_BYTES {
        Err(Error::Codec)
    } else {
        match cobs_decoding(c) {
            None => Err(Error::Codec),
            Some(d) => if d.len() < 4 {
                Err(Error::Codec)
            } else {
                let end = d.len() - 4;
                let body = d.subrange(0, end);
                if crc32_iso_hdlc(body) != le32_value(d[end], d[end + 1], d[end + 2], d[end + 3]) {
                    Err(Error::Codec)
                } else {
                    match postcard_record_parse(body) {
                        None => Err(Error::Codec),
                        Some((index, ts, seq, pt, sev, p)) => if index != 0 || p.len()
                            > MAX_PAYLOAD {
                            Err(Error::Codec)
                        } else {
                            Ok(
                                RecordView {
                                    timestamp_us: ts,
                                    sequence: seq,
                                    packet_type: pt,
                                    severity: sev,
                                    payload: p,
                                },
                            )
                        },
                    }
                }
            },
        }
    }
}

/// `128^k`.
pub open spec fn pow128(k: nat) -> nat
    decreases k,
{
    if k == 0 {
        1
    } else {
        128 * pow128((k - 1) as nat)
    }
}

/// A value below `128^k` has a varint of at most `k` bytes.
pub proof fn lemma_varint_len(v: nat, k: nat)
    requires
        k >= 1,
        v < pow128(k),
    ensures
        varint(v).len() <= k,
    decreases k,
{
    if v >= 128 {
        assert(k >= 2) by {
            if k == 1 {
                assert(pow128(1) == 128 * pow128(0));
            }
        }
        let q = pow128((k - 1) as nat);
        assert(v / 128 < q) by (nonlinear_arith)
            requires
                v < 128 * q,
        ;
        lemma_varint_len(v / 128, (k - 1) as nat);
    }
}

/// A version-1 body is at most 500 bytes: a 1-byte index, at most 10 bytes of
/// timestamp, 5 of sequence, the two raw bytes, 2 of length and the payload.
pub proof fn lemma_record_body_len(r: RecordView)
    requires
        r.payload.len() <= MAX_PAYLOAD,
    ensures
        record_body(r).len() <= 20 + r.payload.len(),
{
    reveal_with_fuel(pow128, 11);
    lemma_varint_len(r.timestamp_us as nat, 10);
    lemma_varint_len(r.sequence as nat, 5);
    lemma_varint_len(r.payload.len(), 2);
}

/// Encodes `record` at the start of `buf`: `COBS(postcard ++ CRC-32) 0x00`.
///
/// Fails with [`Error::Codec`] exactly when `buf` is shorter than
/// `max_encoding_length(postcard_len + 4) + 1` bytes
/// ([`MAX_STORED_RECORD_BYTES`] always suffices).
pub fn encode(record: &StoredRecord, buf: &mut [u8]) -> (r: Result<usize, Error>)
    ensures
        final(buf)@.len() == old(buf)@.len(),
        r is Ok <==> old(buf)@.len() >= spec_max_encoding_length(record_body(record@).len() + 4int) + 1,
        r is Err ==> r == Err::<usize, Error>(Error::Codec),
        r is Err ==> final(buf)@ == old(buf)@,
        old(buf)@.len() >= MAX_STORED_RECORD_BYTES ==> r is Ok,
        r matches Ok(n) ==> n <= old(buf)@.len(),
        r matches Ok(n) ==> {
            &&& final(buf)@.subrange(0, n as int) == encoded_record(record@)
            &&& is_record_wire(final(buf)@.subrange(0, n as int), record@)
        },
{
    let v = match record {
        StoredRecord::V1(v) => v,
    };
    let payload = payload_as_slice(&v.payload);
    let ghost body = record_body(record@);
    proof {
        lemma_record_body_len(record@);
    }
    let mut pre: Vec<u8> = vec![0u8; MAX_STORED_RECORD_BYTES];
    let postcard_len = match postcard_record_to_slice(
        0,
        v.timestamp_us,
        v.sequence,
        v.packet_type,
        v.severity,
        payload,
        pre.as_mut_slice(),
    ) {
        Some(n) => n,
        None => {
            return Err(Error::Codec);
        },
    };
    assert(pre@.subrange(0, postcard_len as int) == body);
    assert(postcard_record_parse(body) == Some(
        (0u32, record@.timestamp_us, record@.sequence, record@.packet_type, record@.severity, record@.payload),
    ));
    let crc_value = crc32_checksum(&pre.as_slice()[0..postcard_len]);
    let crc_bytes = u32_to_le(crc_value);
    let pre_end = postcard_len + 4;
    if pre_end > pre.len() {
        return Err(Error::Codec);
    }
    pre.set(postcard_len, crc_bytes[0]);
    pre.set(postcard_len + 1, crc_bytes[1]);
    pre.set(postcard_len + 2, crc_bytes[2]);
    pre.set(postcard_len + 3, crc_bytes[3]);
    pre.truncate(pre_end);
    assert(pre@ =~= record_frame(body));
    let max_cobs = max_encoding_length(pre_end);
    if buf.len() < max_cobs + 1 {
        return Err(Error::Codec);
    }
    let cobs_len = cobs_encode(pre.as_slice(), buf);
    let ghost enc = buf@.subrange(0, cobs_len as int);
    assert(cobs_decoding(enc) == Some(record_frame(body)));
    buf[cobs_len] = 0x00;
    assert(buf@.subrange(0, cobs_len as int) =~= enc);
    let n = cobs_len + 1;
    proof {
        let w = buf@.subrange(0, n as int);
        assert(w.drop_last() =~= buf@.subrange(0, cobs_len as int));
        assert(w =~= cobs_encoding(record_frame(body)).push(0u8));
        assert forall|i: int| 0 <= i < w.len() - 1 implies #[trigger] w[i] != 0u8 by {
            assert(w[i] == buf@.subrange(0, cobs_len as int)[i]);
        }
        assert(w.len() >= 2);
        assert(cobs_decoding(w.drop_last()) == Some(record_frame(body)));
        assert(w.len() - 1 <= spec_max_encoding_length(body.len() + 4int));
    }
    Ok(n)
}

/// Decodes a record from `buf`, with or without its trailing `0x00`.
///
/// Fails with [`Error::Codec`] when the COBS envelope is empty, longer than
/// [`MAX_STORED_RECORD_BYTES`] or malformed, when fewer than four bytes
/// decode, when the CRC-32 does not match, when postcard cannot read the
/// body, when the version is not `V1`, or when the payload is longer than
/// [`MAX_PAYLOAD`].
pub fn decode(buf: &[u8]) -> (r: Result<StoredRecord, Error>)
    ensures
        match decode_spec(buf@) {
            Ok(v) => r matches Ok(x) && x@ == v,
            Err(e) => r == Err::<StoredRecord, Error>(e),
        },
{
    let cobs_len = if buf.len() > 0 && buf[buf.len() - 1] == 0x00 {
        buf.len() - 1
    } else {
        buf.len()
    };
    let ghost c = if buf@.len() > 0 && buf@.last() == 0u8 {
        buf@.drop_last()
    } else {
        buf@
    };
    assert(c =~= buf@.subrange(0, cobs_len as int));
    if cobs_len == 0 {
        return Err(Error::Codec);
    }
    if cobs_len > MAX_STORED_RECORD_BYTES {
        return Err(Error::Codec);
    }
    let mut decode_buf: Vec<u8> = Vec::new();
    decode_buf.extend_from_slice(&buf[0..cobs_len]);
    assert(decode_buf@ =~= c);
    let decoded_len = match cobs_decode_in_place(&mut decode_buf) {
        Some(n) => n,
        None => {
            return Err(Error::Codec);
        },
    };
    let ghost d = decode_buf@.subrange(0, decoded_len as int);
    if decoded_len < 4 {
        return Err(Error::Codec);
    }
    let postcard_end = decoded_len - 4;
    assert(d[postcard_end as int] == decode_buf@[postcard_end as int]);
    assert(d[postcard_end + 1] == decode_buf@[postcard_end + 1]);
    assert(d[postcard_end + 2] == decode_buf@[postcard_end + 2]);
    assert(d[postcard_end + 3] == decode_buf@[postcard_end + 3]);
    let stored_crc = u32_from_le(
        decode_buf[postcard_end],
        decode_buf[postcard_end + 1],
        decode_buf[postcard_end + 2],
        decode_buf[postcard_end + 3],
    );
    let body = &decode_buf.as_slice()[0..postcard_end];
    assert(body@ =~= d.subrange(0, postcard_end as int));
    let computed_crc = crc32_checksum(body);
    if computed_crc != stored_crc {
        return Err(Error::Codec);
    }
    match postcard_record_from_bytes(body) {
        None => Err(Error::Codec),
        Some((index, timestamp_us, sequence, packet_type, severity, p)) => {
            if index != 0 {
                return Err(Error::Codec);
            }
            if p.len() > MAX_PAYLOAD {
                return Err(Error::Codec);
            }
            let mut payload = payload_new();
            if payload_extend(&mut payload, p.as_slice()).is_err() {
                return Err(Error::Codec);
            }
            assert(payload_contents(payload) =~= p@);
            Ok(
                StoredRecord::V1(
                    RecordV1 { timestamp_us, sequence, packet_type, severity, payload },
                ),
            )
        },
    }
}

/// Decoding what [`encode`] wrote gives back the record it encoded, with or
/// without the trailing `0x00`.
pub proof fn lemma_record_round_trip(wire: Seq<u8>, r: RecordView)
    requires
        is_record_wire(wire, r),
        r.payload.len() <= MAX_PAYLOAD,
    ensures
        decode_spec(wire) == Ok::<RecordView, Error>(r),
        decode_spec(wire.drop_last()) == Ok::<RecordView, Error>(r),
{
    let body = record_body(r);
    let frame = record_frame(body);
    lemma_record_body_len(r);
    lemma_le32_round_trip(crc32_iso_hdlc(body));
    let end = frame.len() - 4;
    assert(frame.subrange(0, end) =~= body);
    let b = le32_bytes(crc32_iso_hdlc(body));
    assert(frame[end] == b[0] && frame[end + 1] == b[1] && frame[end + 2] == b[2] && frame[end + 3]
        == b[3]);
    let c = wire.drop_last();
    assert(c.len() > 0 ==> c.last() != 0u8) by {
        if c.len() > 0 {
            assert(c.last() == wire[c.len() - 1]);
        }
    }
    assert(c.drop_last() =~= c.subrange(0, c.len() - 1));
}

} // verus!
