//! Rejection reasons, the accepted/rejected outcome, and pipeline faults.
//!
//! [`Outcome`] separates accepted frames from rejected ones; a rejection is a
//! data-quality event counted in [`crate::stats::Stats`], never an error.
//! [`Error`] is what the pipeline itself cannot recover from.
use vstd::prelude::*;

verus! {

/// Why a frame was rejected during validation or filtering.
///
/// Each variant is counted by exactly one counter of [`crate::stats::Stats`].
#[derive(Debug, Clone, Copy, PartialEq, Eq, Structural)]
#[non_exhaustive]
pub enum Reason {
    /// CRC-16/IBM-SDLC mismatch on the wire frame.
    Crc {
        /// CRC value computed from the frame fields.
        expected: u16,
        /// CRC value carried in the frame's trailing bytes.
        actual: u16,
    },
    /// Sequence number gap: one or more frames were lost upstream.
    SequenceGap {
        /// Sequence number that was expected next.
        expected: u32,
        /// Sequence number the frame carried.
        got: u32,
    },
    /// Dropped by the filter policy, or an unrecognised type / severity byte.
    Filtered,
    /// The `payload_len` field disagrees with the number of payload bytes.
    BadLength,
}

/// The outcome of one frame going through validation.
#[must_use]
#[derive(Debug, Clone, PartialEq, Eq)]
pub enum Outcome<T> {
    /// The frame passed every check; the validated value is carried here.
    Accepted(T),
    /// The frame failed a check; the reason is carried here.
    Rejected(Reason),
}

/// Faults the pipeline cannot recover from by itself.
#[derive(Debug, Clone, Copy, PartialEq, Eq, Structural)]
#[non_exhaustive]
pub enum Error {
    /// The ring buffer was full; the record could not be enqueued.
    BufferFull,
    /// The storage backend failed a `write` or `flush`.
    Storage,
    /// A record could not be encoded or decoded.
    Codec,
}

impl Error {
    /// The human-readable description of the fault.
    pub open spec fn spec_message(self) -> Seq<char> {
        match self {
            Error::BufferFull => "ring buffer full"@,
            Error::Storage => "storage write/flush failed"@,
            Error::Codec => "record encode/decode failed"@,
        }
    }

    /// The human-readable description of the fault.
    pub fn message(&self) -> (s: &'static str)
        ensures
            s@ == self.spec_message(),
    {
        match self {
            Error::BufferFull => "ring buffer full",
            Error::Storage => "storage write/flush failed",
            Error::Codec => "record encode/decode failed",
        }
    }
}

} // verus!
