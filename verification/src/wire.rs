//! Little-endian integer encodings used by the wire format.
use vstd::prelude::*;

verus! {

/// The two little-endian bytes of `v`.
pub open spec fn le16_bytes(v: u16) -> Seq<u8> {
    seq![(v % 256) as u8, (v / 256) as u8]
}

/// The `u16` whose little-endian bytes are `b0, b1`.
pub open spec fn le16_value(b0: u8, b1: u8) -> u16 {
    (b0 + 256 * b1) as u16
}

/// The four little-endian bytes of `v`.
pub open spec fn le32_bytes(v: u32) -> Seq<u8> {
    seq![
        (v % 256) as u8,
        ((v / 256) % 256) as u8,
        ((v / 65536) % 256) as u8,
        (v / 16777216) as u8,
    ]
}

/// The `u32` whose little-endian bytes are `b0..b3`.
pub open spec fn le32_value(b0: u8, b1: u8, b2: u8, b3: u8) -> u32 {
    (b0 + 256 * b1 + 65536 * b2 + 16777216 * b3) as u32
}

/// `u16::to_le_bytes`.
pub fn u16_to_le(v: u16) -> (b: [u8; 2])
    ensures
        b@ == le16_bytes(v),
{
    let b: [u8; 2] = [(v % 256) as u8, (v / 256) as u8];
    assert(b@ =~= le16_bytes(v));
    b
}

/// `u32::to_le_bytes`.
pub fn u32_to_le(v: u32) -> (b: [u8; 4])
    ensures
        b@ == le32_bytes(v),
{
    let b: [u8; 4] = [
        (v % 256) as u8,
        ((v / 256) % 256) as u8,
        ((v / 65536) % 256) as u8,
        (v / 16777216) as u8,
    ];
    assert(b@ =~= le32_bytes(v));
    b
}

/// `u16::from_le_bytes([b0, b1])`.
pub fn u16_from_le(b0: u8, b1: u8) -> (v: u16)
    ensures
        v == le16_value(b0, b1),
{
    b0 as u16 + 256 * (b1 as u16)
}

/// `u32::from_le_bytes([b0, b1, b2, b3])`.
pub fn u32_from_le(b0: u8, b1: u8, b2: u8, b3: u8) -> (v: u32)
    ensures
        v == le32_value(b0, b1, b2, b3),
{
    b0 as u32 + 256 * (b1 as u32) + 65536 * (b2 as u32) + 16777216 * (b3 as u32)
}

/// Reading back the little-endian bytes of a `u16` gives the `u16`.
pub proof fn lemma_le16_round_trip(v: u16)
    ensures
        le16_value(le16_bytes(v)[0], le16_bytes(v)[1]) == v,
{
}

/// Reading back the little-endian bytes of a `u32` gives the `u32`.
pub proof fn lemma_le32_round_trip(v: u32)
    ensures
        ({
            let b = le32_bytes(v);
            le32_value(b[0], b[1], b[2], b[3]) == v
        }),
{
}

} // verus!
