//! Pre-sized [`Pipeline`] configurations.
use vstd::prelude::*;
use crate::pipeline::Pipeline;

verus! {

/// Framer buffer capacity (bytes) for host and MCU targets: room for the
/// largest COBS-encoded frame (493 bytes) with margin.
pub const DEFAULT_MAX_FRAME: usize = 512;

/// Ring-buffer depth for host / embedded-Linux targets.
pub const HOST_QUEUE_DEPTH: usize = 64;

/// Ring-buffer depth for bare-metal MCU targets.
pub const MCU_QUEUE_DEPTH: usize = 8;

/// Pipeline for host simulation and embedded Linux: 512-byte framer buffer,
/// 64-record queue.
pub type DefaultPipeline = Pipeline<DEFAULT_MAX_FRAME, HOST_QUEUE_DEPTH>;

/// Pipeline for bare-metal MCU targets: 512-byte framer buffer, 8-record queue.
pub type McuPipeline = Pipeline<DEFAULT_MAX_FRAME, MCU_QUEUE_DEPTH>;

} // verus!
