//! Calls into the `crc` crate.
use vstd::prelude::*;

verus! {

/// The CRC-16/IBM-SDLC (X.25) checksum of `data`: polynomial `0x1021`,
/// init `0xFFFF`, reflected in and out, xor-out `0xFFFF`.
pub uninterp spec fn crc16_ibm_sdlc(data: Seq<u8>) -> u16;

/// The CRC-32/ISO-HDLC checksum of `data` (the Ethernet / zlib CRC-32).
pub uninterp spec fn crc32_iso_hdlc(data: Seq<u8>) -> u32;

/// Calls `Crc::<u16>::new(&CRC_16_IBM_SDLC).checksum(data)`.
#[verifier::external_body]
pub fn crc16_checksum(data: &[u8]) -> (c: u16)
    ensures
        c == crc16_ibm_sdlc(data@),
{
    crc::Crc::<u16>::new(&crc::CRC_16_IBM_SDLC).checksum(data)
}

/// Calls `Crc::<u32>::new(&CRC_32_ISO_HDLC).checksum(data)`.
#[verifier::external_body]
pub fn crc32_checksum(data: &[u8]) -> (c: u32)
    ensures
        c == crc32_iso_hdlc(data@),
{
    crc::Crc::<u32>::new(&crc::CRC_32_ISO_HDLC).checksum(data)
}

} // verus!
