//! A hart with virtual memory and compiled blocks.

pub mod accesses;
pub mod alu;
pub mod blocks;
pub mod csr;
pub mod decoder;
pub mod execution;
pub mod hart;
pub mod meaning;
pub mod memory;
pub mod stepping;
pub mod types;
