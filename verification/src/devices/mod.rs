//! Devices that a hart reaches through memory.

pub mod sysinfo;
