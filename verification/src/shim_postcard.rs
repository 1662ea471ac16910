//! Calls into the `postcard` crate for the stored-record body.
//!
//! A version-1 record is serialised as the tuple
//! `(version_index: u32, timestamp_us: u64, sequence: u32, packet_type: u8,
//! severity: u8, payload: &[u8])`, which postcard lays out byte for byte as
//! it lays out the enum variant `StoredRecord::V1(RecordV1 { .. })`: a
//! varint variant index, then the fields in order.
use vstd::prelude::*;

verus! {

/// postcard's unsigned varint: 7 bits per byte, least significant group
/// first, high bit set on every byte but the last.
pub open spec fn varint(v: nat) -> Seq<u8>
    decreases v,
{
    if v < 128 {
        seq![v as u8]
    } else {
        seq![((v % 128) + 128) as u8] + varint(v / 128)
    }
}

/// The postcard bytes of a record body: varint index, varint timestamp,
/// varint sequence, the two raw type / severity bytes, then the payload as a
/// varint length followed by the bytes.
pub open spec fn postcard_record_bytes(
    index: u32,
    timestamp_us: u64,
    sequence: u32,
    packet_type: u8,
    severity: u8,
    payload: Seq<u8>,
) -> Seq<u8> {
    varint(index as nat) + varint(timestamp_us as nat) + varint(sequence as nat) + seq![
        packet_type,
        severity,
    ] + varint(payload.len()) + payload
}

/// What `postcard::from_bytes` reads from `bytes` as a record-body tuple,
/// or `None` when it reports an error.
pub uninterp spec fn postcard_record_parse(bytes: Seq<u8>) -> Option<(u32, u64, u32, u8, u8, Seq<u8>)>;

/// Calls `postcard::to_slice` on the record-body tuple.
///
/// Claimed of it: it succeeds exactly when the serialised bytes fit in
/// `out`, and then they fill the start of `out`; postcard's varint and
/// sequence encodings give those bytes exactly; and `postcard::from_bytes`
/// reads the same tuple back from them. The error value is reduced to `None`.
#[verifier::external_body]
pub fn postcard_record_to_slice(
    index: u32,
    timestamp_us: u64,
    sequence: u32,
    packet_type: u8,
    severity: u8,
    payload: &[u8],
    out: &mut [u8],
) -> (r: Option<usize>)
    ensures
        final(out)@.len() == old(out)@.len(),
        r is Some <==> postcard_record_bytes(
            index,
            timestamp_us,
            sequence,
            packet_type,
            severity,
            payload@,
        ).len() <= old(out)@.len(),
        r matches Some(n) ==> n <= old(out)@.len(),
        r matches Some(n) ==> final(out)@.subrange(0, n as int) == postcard_record_bytes(
            index,
            timestamp_us,
            sequence,
            packet_type,
            severity,
            payload@,
        ),
        r matches Some(n) ==> postcard_record_parse(final(out)@.subrange(0, n as int)) == Some(
            (index, timestamp_us, sequence, packet_type, severity, payload@),
        ),
{
    match postcard::to_slice(&(index, timestamp_us, sequence, packet_type, severity, payload), out) {
        Ok(used) => Some(used.len()),
        Err(_) => None,
    }
}

/// Calls `postcard::from_bytes` for the record-body tuple; trailing bytes
/// after the tuple are ignored by postcard. The error value is reduced to
/// `None`; the borrowed payload is copied into a `Vec`.
#[verifier::external_body]
pub fn postcard_record_from_bytes(bytes: &[u8]) -> (r: Option<(u32, u64, u32, u8, u8, Vec<u8>)>)
    ensures
        r is None <==> postcard_record_parse(bytes@) is None,
        r matches Some(t) ==> postcard_record_parse(bytes@) == Some((t.0, t.1, t.2, t.3, t.4, t.5@)),
{
    match postcard::from_bytes::<(u32, u64, u32, u8, u8, &[u8])>(bytes) {
        Ok((index, timestamp_us, sequence, packet_type, severity, payload)) => Some(
            (index, timestamp_us, sequence, packet_type, severity, payload.to_vec()),
        ),
        Err(_) => None,
    }
}

} // verus!
