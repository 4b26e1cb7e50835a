//! A bare RV64 machine: memory, a serial port and one hart.

pub mod bus;
pub mod cpu;
pub mod dram;
pub mod encoding;
pub mod isa;
pub mod loader;
pub mod machine;
pub mod meaning;
pub mod short;
pub mod uart;
