//! The types of the host functions that compiled code calls.

use crate::jit::wasm::ValType;
use vstd::prelude::*;

verus! {

pub const READ_U64_PARAMS: [ValType; 1] = [ValType::I64];

pub const READ_U64_RESULTS: [ValType; 1] = [ValType::I64];

pub const READ_U32_PARAMS: [ValType; 1] = [ValType::I64];

pub const READ_U32_RESULTS: [ValType; 1] = [ValType::I32];

pub const READ_U16_PARAMS: [ValType; 1] = [ValType::I64];

pub const READ_U16_RESULTS: [ValType; 1] = [ValType::I32];

pub const READ_U8_PARAMS: [ValType; 1] = [ValType::I64];

pub const READ_U8_RESULTS: [ValType; 1] = [ValType::I32];

pub const WRITE_U64_PARAMS: [ValType; 2] = [ValType::I64, ValType::I64];

pub const WRITE_U64_RESULTS: [ValType; 1] = [ValType::I32];

pub const WRITE_U32_PARAMS: [ValType; 2] = [ValType::I64, ValType::I32];

pub const WRITE_U32_RESULTS: [ValType; 1] = [ValType::I32];

pub const WRITE_U16_PARAMS: [ValType; 2] = [ValType::I64, ValType::I32];

pub const WRITE_U16_RESULTS: [ValType; 1] = [ValType::I32];

pub const WRITE_U8_PARAMS: [ValType; 2] = [ValType::I64, ValType::I32];

pub const WRITE_U8_RESULTS: [ValType; 1] = [ValType::I32];

} // verus!
