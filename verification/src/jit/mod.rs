//! The block compiler and what surrounds it.

pub mod cache;
pub mod codegen;
pub mod compiler;
pub mod disasm;
pub mod encoder;
pub mod helpers;
pub mod listing;
pub mod notation;
pub mod runtime;
pub mod semantics;
pub mod state;
pub mod trace;
pub mod types;
pub mod wasm;
pub mod wasm_exports;
pub mod worker;
