//! Backend-facing traits that decouple the portable pipeline from hardware.
//!
//! - [`PacketSource`]: produces raw bytes (UART, SPI, file, TCP, ...).
//! - [`Storage`]: persists encoded records (SD card, file, ...).
//! - [`Clock`]: a monotonic timestamp in microseconds.
//!
//! Nothing is assumed of what an implementation returns: the pipeline's
//! contracts hold for every result these methods may give. An
//! implementation may also declare that it keeps a model (the requests a
//! storage received, the value a clock reads); the pipeline then states its
//! effect on that model, and the implementation is held to the model where
//! it is verified.
use vstd::prelude::*;

verus! {

/// A source of raw input bytes.
pub trait PacketSource {
    /// The source's error type.
    type Error;

    /// Reads up to `buf.len()` bytes into `buf`; `Ok(0)` means end of input.
    fn read(&mut self, buf: &mut [u8]) -> Result<usize, Self::Error>;
}

/// A request made of a [`Storage`], and whether it succeeded.
pub enum StorageEvent {
    /// `write` with these bytes; `true` when it returned `Ok`.
    Write(Seq<u8>, bool),
    /// `flush`; `true` when it returned `Ok`.
    Flush(bool),
}

/// A sink for encoded records.
///
/// An implementation may keep a model of what it has been asked to do: when
/// [`Storage::obeys_storage_model`] is `true` for it, [`Storage::events`] is
/// every request made of it so far, oldest first, each with whether it
/// succeeded.
/// An implementation without a model leaves both at their defaults and
/// promises nothing.
pub trait Storage {
    /// The sink's error type.
    type Error;

    /// Whether this sink keeps the request model.
    closed spec fn obeys_storage_model() -> bool {
        false
    }

    /// Every request made of this sink so far, oldest first.
    closed spec fn events(&self) -> Seq<StorageEvent> {
        Seq::empty()
    }

    /// Persists one encoded record.
    fn write(&mut self, data: &[u8]) -> (r: Result<(), Self::Error>)
        ensures
            Self::obeys_storage_model() ==> final(self).events() == old(self).events().push(
                StorageEvent::Write(data@, r is Ok),
            ),
    ;

    /// Makes every written record durable.
    fn flush(&mut self) -> (r: Result<(), Self::Error>)
        ensures
            Self::obeys_storage_model() ==> final(self).events() == old(self).events().push(
                StorageEvent::Flush(r is Ok),
            ),
    ;
}

/// A monotonic clock.
///
/// A clock that reads the same value until it is changed (such as a
/// simulated clock) can say so: when [`Clock::obeys_clock_model`] is `true`
/// for it, `now` returns [`Clock::reading`]. A real clock leaves both at
/// their defaults and promises nothing.
pub trait Clock {
    /// Whether `now` always returns [`Clock::reading`].
    closed spec fn obeys_clock_model() -> bool {
        false
    }

    /// The value this clock reads.
    closed spec fn reading(&self) -> u64 {
        0
    }

    /// Microseconds since an arbitrary, fixed epoch.
    fn now(&self) -> (t: u64)
        ensures
            Self::obeys_clock_model() ==> t == self.reading(),
    ;
}

} // verus!
