pub mod error;
pub mod filter;
pub mod frame;
pub mod framer;
pub mod pipeline;
pub mod protocol;
pub mod record;
pub mod ringbuf;
pub mod shim_cobs;
pub mod shim_crc;
pub mod shim_heapless;
pub mod shim_postcard;
pub mod stats;
pub mod traits;
pub mod validator;
pub mod wire;
pub mod clock;
pub mod config;
pub mod shim_time;
pub mod segment;
pub mod report;
pub mod corrupt;
