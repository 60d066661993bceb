//! Device resolution and status aggregation for paired Bluetooth peripherals.
//!
//! The crate turns the raw output of the system's Bluetooth tools into
//! [`device::DeviceRecord`] values and picks the one device a free-text query
//! refers to. Every function is a pure function of its arguments: nothing
//! here spawns a process, reads a file or keeps state between calls.

pub mod aggregate;
pub mod device;
pub mod display;
pub mod json;
pub mod number;
pub mod profiler_json;
pub mod profiler_text;
pub mod registry;
pub mod resolve;
pub mod system;
pub mod text;
