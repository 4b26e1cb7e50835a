//! A RISC-V system emulator: a small RV64 machine, the block compiler that
//! turns pre-decoded RISC-V code into WebAssembly, and the devices around them.

pub mod arith;
pub mod bus;
pub mod bytes;
pub mod cpu;
pub mod devices;
pub mod engine;
pub mod jit;
pub mod meaning;
pub mod mmu;
pub mod net;
pub mod text;
pub mod vm;
