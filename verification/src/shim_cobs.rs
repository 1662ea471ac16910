//! Calls into the `cobs` crate (Consistent Overhead Byte Stuffing).
//!
//! COBS rewrites a message so that the byte `0x00` never occurs in it; `0x00`
//! can then delimit messages on a byte stream.
use vstd::prelude::*;

verus! {

/// The bytes `cobs::encode` writes for `src`.
pub uninterp spec fn cobs_encoding(src: Seq<u8>) -> Seq<u8>;

/// The message `cobs::decode_in_place` recovers from `src`, or `None` when it
/// reports a decoding error.
pub uninterp spec fn cobs_decoding(src: Seq<u8>) -> Option<Seq<u8>>;

/// `cobs::max_encoding_length`: `n` plus one overhead byte per started run
/// of 254 bytes.
pub open spec fn spec_max_encoding_length(n: int) -> int {
    n + (n + 253) / 254
}

/// Calls `cobs::max_encoding_length`, which returns
/// `source_len + source_len.div_ceil(254)`: the largest size an encoding of
/// `source_len` bytes can have.
#[verifier::external_body]
pub fn max_encoding_length(source_len: usize) -> (n: usize)
    requires
        spec_max_encoding_length(source_len as int) <= usize::MAX,
    ensures
        n == spec_max_encoding_length(source_len as int),
{
    cobs::max_encoding_length(source_len)
}

/// Calls `cobs::encode(source, dest)`, which writes the COBS encoding of
/// `source` at the start of `dest` and returns its length, without a
/// trailing `0x00`.
///
/// Claimed of it: `dest` keeps its length; its first `n` bytes are the
/// encoding; the encoding holds no `0x00`; it is no longer than
/// `max_encoding_length(source.len())` and empty exactly when `source` is;
/// and `cobs::decode_in_place` recovers `source` from it when `source` is not
/// empty. Bytes of `dest` after the first `n` may change (the encoder may
/// write one placeholder byte there); nothing is said of them. `cobs::encode`
/// panics when `dest` is shorter than the encoding, which `requires` rules
/// out through the documented bound.
#[verifier::external_body]
pub fn cobs_encode(source: &[u8], dest: &mut [u8]) -> (n: usize)
    requires
        old(dest)@.len() >= spec_max_encoding_length(source@.len() as int),
    ensures
        final(dest)@.len() == old(dest)@.len(),
        n == cobs_encoding(source@).len(),
        final(dest)@.subrange(0, n as int) == cobs_encoding(source@),
        n <= spec_max_encoding_length(source@.len() as int),
        n == 0 <==> source@.len() == 0,
        forall|i: int| 0 <= i < n ==> #[trigger] final(dest)@[i] != 0u8,
        source@.len() > 0 ==> cobs_decoding(final(dest)@.subrange(0, n as int)) == Some(source@),
{
    cobs::encode(source, dest)
}

/// Calls `cobs::decode_in_place` on the whole of `buf`.
///
/// Claimed of it: `buf` keeps its length; on success the decoded message,
/// which is never longer than the input, fills the start of `buf`; an empty
/// input fails. The decoding error is reduced to `None`.
#[verifier::external_body]
pub fn cobs_decode_in_place(buf: &mut Vec<u8>) -> (r: Option<usize>)
    ensures
        final(buf)@.len() == old(buf)@.len(),
        r is Some <==> cobs_decoding(old(buf)@) is Some,
        r matches Some(n) ==> n <= old(buf)@.len() && cobs_decoding(old(buf)@) == Some(
            final(buf)@.subrange(0, n as int),
        ),
        old(buf)@.len() == 0 ==> r is None,
{
    cobs::decode_in_place(buf.as_mut_slice()).ok()
}

} // verus!
