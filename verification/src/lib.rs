//! Telemetry frame decoding and device/alarm state engine for remote
//! aquaculture-feeding hardware.
//!
//! Inbound frames arrive as space-delimited hexadecimal tokens whose first
//! token selects an operation.  The library decodes per-field variable
//! encodings (fixed-point numbers, geo-coordinates, ASCII, bit-coded dates),
//! dispatches each frame to its handler, and projects the decoded values into
//! an in-memory directory of device, variable and alarm state.  The process
//! boundary (broker client, connection pool, persistent store) stays outside;
//! it hands the library plain values and applies the directory's state back
//! to the store.

pub mod alarm;
pub mod codec;
pub mod ftime;
pub mod model;
pub mod nums;
pub mod protocol;
pub mod status;
pub mod strutil;
