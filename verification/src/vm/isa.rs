//! What each instruction does to the machine.

use crate::arith;
use crate::text;
use crate::vm::bus;
use crate::vm::bus::BusState;
use crate::vm::dram;
use vstd::prelude::*;

verus! {

/// What the hart and the devices hold.
#[verifier::ext_equal]
pub struct CpuState {
    pub regs: Seq<u64>,
    pub pc: u64,
    pub bus: BusState,
    pub csrs: Seq<u64>,
    pub last_pc: u64,
    pub last_inst: u32,
}

/// A machine after an instruction, and the complaint where it failed.
pub type Outcome = (CpuState, Result<(), Seq<char>>);

/// A result with its error message taken as text.
pub open spec fn as_text<T>(r: Result<T, String>) -> Result<T, Seq<char>> {
    match r {
        Ok(v) => Ok(v),
        Err(e) => Err(e@),
    }
}

/// What register `i` reads as: register 0 reads as zero.
pub open spec fn reg(s: CpuState, i: int) -> u64 {
    if i == 0 {
        0
    } else {
        s.regs[i]
    }
}

/// The machine after writing register `i`: a write to register 0 is lost.
pub open spec fn set_reg(s: CpuState, i: int, v: u64) -> CpuState {
    if i == 0 {
        s
    } else {
        CpuState { regs: s.regs.update(i, v), ..s }
    }
}

/// The machine with `n` added to its program counter.
pub open spec fn advance(s: CpuState, n: u64) -> CpuState {
    CpuState { pc: s.pc.wrapping_add(n), ..s }
}

pub open spec fn done(s: CpuState) -> Outcome {
    (s, Ok(()))
}

pub open spec fn fail(s: CpuState, message: Seq<char>) -> Outcome {
    (s, Err(message))
}

// Fields of a 32-bit instruction.

pub open spec fn rd(inst: u32) -> int {
    ((inst >> 7) & 0x1f) as int
}

pub open spec fn rs1(inst: u32) -> int {
    ((inst >> 15) & 0x1f) as int
}

pub open spec fn rs2(inst: u32) -> int {
    ((inst >> 20) & 0x1f) as int
}

pub open spec fn funct3(inst: u32) -> u32 {
    (inst >> 12) & 0x7
}

pub open spec fn funct7(inst: u32) -> u32 {
    (inst >> 25) & 0x7f
}

pub open spec fn imm_i(inst: u32) -> u64 {
    arith::sext((inst >> 20) as u64, 0x800)
}

pub open spec fn imm_s(inst: u32) -> u64 {
    arith::sext((((inst >> 25) & 0x7f) << 5 | (inst >> 7) & 0x1f) as u64, 0x800)
}

pub open spec fn imm_b(inst: u32) -> u64 {
    arith::sext(
        (((inst >> 31) & 0x1) << 12 | ((inst >> 7) & 0x1) << 11 | ((inst >> 25) & 0x3f) << 5 | ((
        inst >> 8) & 0xf) << 1) as u64,
        0x1000,
    )
}

pub open spec fn imm_u(inst: u32) -> u64 {
    arith::sext((inst & 0xffff_f000) as u64, 0x8000_0000)
}

pub open spec fn imm_j(inst: u32) -> u64 {
    arith::sext(
        (((inst >> 31) & 0x1) << 20 | ((inst >> 12) & 0xff) << 12 | ((inst >> 20) & 0x1) << 11 | ((
        inst >> 21) & 0x3ff) << 1) as u64,
        0x10_0000,
    )
}

/// Whether a conditional branch is taken, where `f3` names a condition.
pub open spec fn branch_taken(f3: u32, a: u64, b: u64) -> Option<bool> {
    match f3 {
        0 => Some(a == b),
        1 => Some(a != b),
        4 => Some((a as i64) < (b as i64)),
        5 => Some((a as i64) >= (b as i64)),
        6 => Some(a < b),
        7 => Some(a >= b),
        _ => None,
    }
}

pub open spec fn branch(s: CpuState, inst: u32) -> Outcome {
    match branch_taken(funct3(inst), reg(s, rs1(inst)), reg(s, rs2(inst))) {
        Some(true) => done(advance(s, imm_b(inst))),
        Some(false) => done(advance(s, 4)),
        None => fail(s, "Unimplemented branch funct3: "@ + text::hex(funct3(inst) as nat)),
    }
}

/// The machine after `width` bytes at `addr` went to register `dest`, widened by
/// `widen`, and `len` was added to the program counter. `complaint` comes before
/// the memory error where the load fails.
pub open spec fn load_to(
    s: CpuState,
    addr: u64,
    width: u64,
    dest: int,
    widen: spec_fn(u64) -> u64,
    len: u64,
    complaint: Seq<char>,
) -> Outcome {
    let (after, r) = bus::bus_load(s.bus, addr, width);
    let t = CpuState { bus: after, ..s };
    match r {
        Ok(v) => done(advance(set_reg(t, dest, widen(v)), len)),
        Err(e) => fail(t, complaint + dram::memory_error_text(e)),
    }
}

/// The machine after the `width` low-order bytes of `value` went to `addr` and
/// `len` was added to the program counter.
pub open spec fn store_from(
    s: CpuState,
    addr: u64,
    width: u64,
    value: u64,
    len: u64,
    complaint: Seq<char>,
) -> Outcome {
    let (after, r) = bus::bus_store(s.bus, addr, width, value);
    let t = CpuState { bus: after, ..s };
    match r {
        Ok(_) => done(advance(t, len)),
        Err(e) => fail(t, complaint + dram::memory_error_text(e)),
    }
}

/// The width in bytes of a load, where `f3` names one.
pub open spec fn load_width(f3: u32) -> Option<u64> {
    match f3 {
        0 | 4 => Some(1),
        1 | 5 => Some(2),
        2 | 6 => Some(4),
        3 => Some(8),
        _ => None,
    }
}

/// What a load puts in its register: `f3` 0, 1 and 2 sign-extend.
pub open spec fn load_widen(f3: u32, v: u64) -> u64 {
    match f3 {
        0 => arith::sext8(v),
        1 => arith::sext16(v),
        2 => arith::sext32(v),
        _ => v,
    }
}

pub open spec fn load(s: CpuState, inst: u32) -> Outcome {
    let f3 = funct3(inst);
    let addr = reg(s, rs1(inst)).wrapping_add(imm_i(inst));
    match load_width(f3) {
        Some(width) => load_to(
            s,
            addr,
            width,
            rd(inst),
            |v: u64| load_widen(f3, v),
            4,
            "Load fault: "@,
        ),
        None => fail(s, "Unimplemented load funct3: "@ + text::hex(f3 as nat)),
    }
}

pub open spec fn store(s: CpuState, inst: u32) -> Outcome {
    let f3 = funct3(inst);
    let addr = reg(s, rs1(inst)).wrapping_add(imm_s(inst));
    let value = reg(s, rs2(inst));
    match f3 {
        0 => store_from(s, addr, 1, value, 4, "Store fault: "@),
        1 => store_from(s, addr, 2, value, 4, "Store fault: "@),
        2 => store_from(s, addr, 4, value, 4, "Store fault: "@),
        3 => store_from(s, addr, 8, value, 4, "Store fault: "@),
        _ => fail(s, "Unimplemented store funct3: "@ + text::hex(f3 as nat)),
    }
}

/// A truth value as a register holds it.
pub open spec fn flag(b: bool) -> u64 {
    if b {
        1
    } else {
        0
    }
}

pub open spec fn op_imm_result(inst: u32, a: u64) -> u64 {
    let imm = imm_i(inst);
    match funct3(inst) {
        0 => a.wrapping_add(imm),
        1 => a << (imm & 0x3f),
        2 => flag((a as i64) < (imm as i64)),
        3 => flag(a < imm),
        4 => a ^ imm,
        5 => if (inst >> 30) & 1 == 0 {
            a >> (imm & 0x3f)
        } else {
            ((a as i64) >> (imm & 0x3f)) as u64
        },
        6 => a | imm,
        _ => a & imm,
    }
}

/// The machine after `v` went to the destination and the program counter moved on.
pub open spec fn result_to(s: CpuState, inst: u32, v: u64) -> Outcome {
    done(advance(set_reg(s, rd(inst), v), 4))
}

pub open spec fn op_imm(s: CpuState, inst: u32) -> Outcome {
    result_to(s, inst, op_imm_result(inst, reg(s, rs1(inst))))
}

pub open spec fn op_imm_32_result(inst: u32, a: u64) -> Option<i32> {
    let shamt = (inst >> 20) & 0x1f;
    match funct3(inst) {
        0 => Some((a as i32).wrapping_add(imm_i(inst) as i32)),
        1 => Some((a as i32).wrapping_shl(shamt)),
        5 => if (inst >> 30) & 1 == 0 {
            Some(((a as u32) >> shamt) as i32)
        } else {
            Some((a as i32).wrapping_shr(shamt))
        },
        _ => None,
    }
}

pub open spec fn op_imm_32(s: CpuState, inst: u32) -> Outcome {
    match op_imm_32_result(inst, reg(s, rs1(inst))) {
        Some(v) => result_to(s, inst, v as i64 as u64),
        None => fail(s, "Unimplemented OP-IMM-32 funct3: "@ + text::hex(funct3(inst) as nat)),
    }
}

/// The register-register operations.
pub open spec fn op_result(f3: u32, f7: u32, a: u64, b: u64) -> Option<u64> {
    match (f3, f7) {
        (0, 0x00) => Some(a.wrapping_add(b)),
        (0, 0x20) => Some(a.wrapping_sub(b)),
        (1, 0x00) => Some(a << (b & 0x3f)),
        (2, 0x00) => Some(flag((a as i64) < (b as i64))),
        (3, 0x00) => Some(flag(a < b)),
        (4, 0x00) => Some(a ^ b),
        (5, 0x00) => Some(a >> (b & 0x3f)),
        (5, 0x20) => Some(((a as i64) >> (b & 0x3f)) as u64),
        (6, 0x00) => Some(a | b),
        (7, 0x00) => Some(a & b),
        (0, 0x01) => Some(a.wrapping_mul(b)),
        (1, 0x01) => Some(arith::mulh_result(a as i64, b as i64) as u64),
        (2, 0x01) => Some(arith::mulhsu_result(a as i64, b) as u64),
        (3, 0x01) => Some(arith::mulhu_result(a, b)),
        (4, 0x01) => Some(arith::div_result(a as i64, b as i64) as u64),
        (5, 0x01) => Some(arith::divu_result(a, b)),
        (6, 0x01) => Some(arith::rem_result(a as i64, b as i64) as u64),
        (7, 0x01) => Some(arith::remu_result(a, b)),
        _ => None,
    }
}

pub open spec fn op(s: CpuState, inst: u32) -> Outcome {
    match op_result(funct3(inst), funct7(inst), reg(s, rs1(inst)), reg(s, rs2(inst))) {
        Some(v) => result_to(s, inst, v),
        None => fail(
            s,
            "Unimplemented OP funct3: "@ + text::hex(funct3(inst) as nat) + " funct7: "@
                + text::hex(funct7(inst) as nat),
        ),
    }
}

pub open spec fn op_32_result(f3: u32, f7: u32, a: u64, b: u64) -> Option<i32> {
    let shamt = (b & 0x1f) as u32;
    match (f3, f7) {
        (0, 0x00) => Some((a as i32).wrapping_add(b as i32)),
        (0, 0x20) => Some((a as i32).wrapping_sub(b as i32)),
        (1, 0x00) => Some((a as i32).wrapping_shl(shamt)),
        (5, 0x00) => Some(((a as u32) >> shamt) as i32),
        (5, 0x20) => Some((a as i32).wrapping_shr(shamt)),
        _ => None,
    }
}

pub open spec fn op_32(s: CpuState, inst: u32) -> Outcome {
    match op_32_result(funct3(inst), funct7(inst), reg(s, rs1(inst)), reg(s, rs2(inst))) {
        Some(v) => result_to(s, inst, v as i64 as u64),
        None => fail(
            s,
            "Unimplemented OP-32 funct3: "@ + text::hex(funct3(inst) as nat) + " funct7: "@
                + text::hex(funct7(inst) as nat),
        ),
    }
}

/// What a control-register instruction writes back, from the old value, the
/// source register and the immediate.
pub open spec fn csr_next(f3: u32, old: u64, source: u64, uimm: u64) -> Option<u64> {
    match f3 {
        1 => Some(source),
        2 => Some(old | source),
        3 => Some(old & !source),
        5 => Some(uimm),
        6 => Some(old | uimm),
        7 => Some(old & !uimm),
        _ => None,
    }
}

/// The number of the control register that a system instruction names, which is
/// also the code of a privileged instruction.
pub open spec fn csr_number(inst: u32) -> int {
    (inst >> 20) as int
}

pub open spec fn system(s: CpuState, inst: u32) -> Outcome {
    let n = csr_number(inst);
    if funct3(inst) == 0 {
        if n == 0x302 {
            done(CpuState { pc: s.csrs[0x341], ..s })
        } else if n == 0 {
            fail(s, "ECALL encountered"@)
        } else if n == 1 {
            fail(s, "EBREAK encountered"@)
        } else if n == 0x105 {
            done(advance(s, 4))
        } else {
            fail(s, "Unimplemented PRIV instruction: "@ + text::hex0x(inst as nat))
        }
    } else {
        match csr_next(funct3(inst), s.csrs[n], reg(s, rs1(inst)), rs1(inst) as u64) {
            Some(v) => result_to(CpuState { csrs: s.csrs.update(n, v), ..s }, inst, s.csrs[n]),
            None => fail(s, "Unimplemented SYSTEM funct3: "@ + text::hex(funct3(inst) as nat)),
        }
    }
}

/// A 32-bit instruction.
pub open spec fn execute_wide(s: CpuState, inst: u32) -> Outcome {
    match inst & 0x7f {
        0x37 => result_to(s, inst, imm_u(inst)),
        0x17 => result_to(s, inst, s.pc.wrapping_add(imm_u(inst))),
        0x6f => done(
            CpuState {
                pc: s.pc.wrapping_add(imm_j(inst)),
                ..set_reg(s, rd(inst), s.pc.wrapping_add(4))
            },
        ),
        0x67 => done(
            CpuState {
                pc: reg(s, rs1(inst)).wrapping_add(imm_i(inst)) & !1,
                ..set_reg(s, rd(inst), s.pc.wrapping_add(4))
            },
        ),
        0x63 => branch(s, inst),
        0x03 => load(s, inst),
        0x23 => store(s, inst),
        0x13 => op_imm(s, inst),
        0x1b => op_imm_32(s, inst),
        0x33 => op(s, inst),
        0x3b => op_32(s, inst),
        0x73 => system(s, inst),
        _ => fail(s, "Unimplemented opcode: "@ + text::hex0x((inst & 0x7f) as nat)),
    }
}

// Fields of a 16-bit instruction.

pub open spec fn c_funct3(inst: u16) -> u16 {
    (inst >> 13) & 0x7
}

/// The full-width register field, which is both destination and first source.
pub open spec fn c_rd(inst: u16) -> int {
    ((inst >> 7) & 0x1f) as int
}

pub open spec fn c_rs2(inst: u16) -> int {
    ((inst >> 2) & 0x1f) as int
}

/// The short register fields name registers 8 to 15.
pub open spec fn c_low(inst: u16) -> int {
    8 + ((inst >> 2) & 0x7) as int
}

pub open spec fn c_high(inst: u16) -> int {
    8 + ((inst >> 7) & 0x7) as int
}

pub open spec fn c_imm_addi4spn(inst: u16) -> u16 {
    ((inst >> 6) & 1) << 2 | ((inst >> 5) & 1) << 3 | ((inst >> 11) & 0x3) << 4 | ((inst >> 7)
        & 0xf) << 6
}

pub open spec fn c_imm_word(inst: u16) -> u64 {
    (((inst >> 10) & 0x7) << 3 | ((inst >> 6) & 1) << 2 | ((inst >> 5) & 1) << 6) as u64
}

pub open spec fn c_imm_double(inst: u16) -> u64 {
    (((inst >> 10) & 0x7) << 3 | ((inst >> 5) & 0x3) << 6) as u64
}

pub open spec fn c_imm6(inst: u16) -> u64 {
    arith::sext((((inst >> 12) & 1) << 5 | (inst >> 2) & 0x1f) as u64, 0x20)
}

pub open spec fn c_imm_addi16sp(inst: u16) -> u64 {
    arith::sext(
        (((inst >> 12) & 1) << 9 | ((inst >> 3) & 0x3) << 7 | ((inst >> 5) & 1) << 6 | ((inst >> 2)
            & 1) << 5 | ((inst >> 6) & 1) << 4) as u64,
        0x200,
    )
}

pub open spec fn c_imm_jump(inst: u16) -> u64 {
    arith::sext(
        (((inst >> 12) & 1) << 11 | ((inst >> 11) & 1) << 4 | ((inst >> 9) & 0x3) << 8 | ((inst
            >> 8) & 1) << 10 | ((inst >> 7) & 1) << 6 | ((inst >> 6) & 1) << 7 | ((inst >> 3) & 0x7)
            << 1 | ((inst >> 2) & 1) << 5) as u64,
        0x800,
    )
}

pub open spec fn c_imm_branch(inst: u16) -> u64 {
    arith::sext(
        (((inst >> 12) & 1) << 8 | ((inst >> 5) & 0x3) << 6 | ((inst >> 2) & 1) << 5 | ((inst >> 10)
            & 0x3) << 3 | ((inst >> 3) & 0x3) << 1) as u64,
        0x100,
    )
}

pub open spec fn c_shamt(inst: u16) -> u16 {
    (inst >> 2) & 0x1f | ((inst >> 12) & 1) << 5
}

pub open spec fn c_imm_lwsp(inst: u16) -> u64 {
    (((inst >> 2) & 0x3) << 6 | ((inst >> 12) & 1) << 5 | ((inst >> 4) & 0x7) << 2) as u64
}

pub open spec fn c_imm_ldsp(inst: u16) -> u64 {
    (((inst >> 2) & 0x7) << 6 | ((inst >> 12) & 1) << 5 | ((inst >> 5) & 0x3) << 3) as u64
}

pub open spec fn c_imm_swsp(inst: u16) -> u64 {
    (((inst >> 7) & 0x3) << 6 | ((inst >> 9) & 0xf) << 2) as u64
}

pub open spec fn c_imm_sdsp(inst: u16) -> u64 {
    (((inst >> 7) & 0x7) << 6 | ((inst >> 10) & 0x7) << 3) as u64
}

/// What an instruction that has no meaning here does: the machine steps over it.
pub open spec fn c_nop(s: CpuState) -> Outcome {
    done(advance(s, 2))
}

pub open spec fn c_result_to(s: CpuState, dest: int, v: u64) -> Outcome {
    done(advance(set_reg(s, dest, v), 2))
}

pub open spec fn quadrant0(s: CpuState, inst: u16) -> Outcome {
    let base = reg(s, c_high(inst));
    match c_funct3(inst) {
        0 => if c_imm_addi4spn(inst) == 0 {
            c_nop(s)
        } else {
            c_result_to(s, c_low(inst), reg(s, 2).wrapping_add(c_imm_addi4spn(inst) as u64))
        },
        2 => load_to(
            s,
            base.wrapping_add(c_imm_word(inst)),
            4,
            c_low(inst),
            |v: u64| arith::sext32(v),
            2,
            "C.LW load fault: "@,
        ),
        3 => load_to(
            s,
            base.wrapping_add(c_imm_double(inst)),
            8,
            c_low(inst),
            |v: u64| v,
            2,
            "C.LD load fault: "@,
        ),
        6 => store_from(
            s,
            base.wrapping_add(c_imm_word(inst)),
            4,
            reg(s, c_low(inst)),
            2,
            "C.SW store fault: "@,
        ),
        7 => store_from(
            s,
            base.wrapping_add(c_imm_double(inst)),
            8,
            reg(s, c_low(inst)),
            2,
            "C.SD store fault: "@,
        ),
        _ => c_nop(s),
    }
}

pub open spec fn quadrant1(s: CpuState, inst: u16) -> Outcome {
    let d = c_rd(inst);
    match c_funct3(inst) {
        0 => c_result_to(s, d, reg(s, d).wrapping_add(c_imm6(inst))),
        1 => if d == 0 {
            fail(s, "Reserved C.ADDIW with rd=0: "@ + text::hex0x(inst as nat))
        } else {
            c_result_to(s, d, arith::sext32(reg(s, d).wrapping_add(c_imm6(inst))))
        },
        2 => c_result_to(s, d, c_imm6(inst)),
        3 => if d == 2 {
            c_result_to(s, 2, reg(s, 2).wrapping_add(c_imm_addi16sp(inst)))
        } else {
            c_result_to(s, d, c_imm6(inst) << 12)
        },
        5 => done(advance(s, c_imm_jump(inst))),
        6 => if reg(s, c_high(inst)) == 0 {
            done(advance(s, c_imm_branch(inst)))
        } else {
            c_nop(s)
        },
        7 => if reg(s, c_high(inst)) != 0 {
            done(advance(s, c_imm_branch(inst)))
        } else {
            c_nop(s)
        },
        _ => c_nop(s),
    }
}

pub open spec fn quadrant2(s: CpuState, inst: u16) -> Outcome {
    let d = c_rd(inst);
    let src = c_rs2(inst);
    match c_funct3(inst) {
        0 => if d == 0 || c_shamt(inst) == 0 {
            c_nop(s)
        } else {
            c_result_to(s, d, reg(s, d) << c_shamt(inst))
        },
        2 => if d == 0 {
            c_nop(s)
        } else {
            load_to(
                s,
                reg(s, 2).wrapping_add(c_imm_lwsp(inst)),
                4,
                d,
                |v: u64| arith::sext32(v),
                2,
                "C.LWSP load fault: "@,
            )
        },
        3 => if d == 0 {
            c_nop(s)
        } else {
            load_to(
                s,
                reg(s, 2).wrapping_add(c_imm_ldsp(inst)),
                8,
                d,
                |v: u64| v,
                2,
                "C.LDSP load fault: "@,
            )
        },
        4 => if (inst >> 12) & 1 == 0 {
            if src != 0 {
                c_result_to(s, d, reg(s, src))
            } else if d == 0 {
                fail(s, "Reserved instruction C.JR with rs1=0: "@ + text::hex0x(inst as nat))
            } else {
                done(CpuState { pc: reg(s, d), ..s })
            }
        } else {
            if src != 0 {
                c_result_to(s, d, reg(s, d).wrapping_add(reg(s, src)))
            } else if d == 0 {
                fail(s, "C.EBREAK encountered: "@ + text::hex0x(inst as nat))
            } else {
                done(CpuState { pc: reg(s, d), ..set_reg(s, 1, s.pc.wrapping_add(2)) })
            }
        },
        6 => store_from(
            s,
            reg(s, 2).wrapping_add(c_imm_swsp(inst)),
            4,
            reg(s, src),
            2,
            "C.SWSP store fault: "@,
        ),
        7 => store_from(
            s,
            reg(s, 2).wrapping_add(c_imm_sdsp(inst)),
            8,
            reg(s, src),
            2,
            "C.SDSP store fault: "@,
        ),
        _ => c_nop(s),
    }
}

/// A 16-bit instruction. The three quadrants hold the compressed set; what they
/// leave open is stepped over.
pub open spec fn execute_compressed(s: CpuState, inst: u16) -> Outcome {
    match inst & 0x3 {
        0 => quadrant0(s, inst),
        1 => quadrant1(s, inst),
        2 => quadrant2(s, inst),
        _ => c_nop(s),
    }
}

/// An instruction of either width: the two low bits of a 32-bit one are set.
pub open spec fn execute(s: CpuState, inst: u32) -> Outcome {
    if inst & 0x3 != 0x3 {
        execute_compressed(s, inst as u16)
    } else {
        execute_wide(s, inst)
    }
}

/// The machine after an instruction fetch, and the fetched word. Where a whole
/// word cannot be loaded, a half-word will do for a 16-bit instruction.
pub open spec fn fetch(s: CpuState) -> (CpuState, Result<u32, Seq<char>>) {
    let (b1, r1) = bus::bus_load(s.bus, s.pc, 4);
    match r1 {
        Ok(word) => (CpuState { bus: b1, ..s }, Ok(word as u32)),
        Err(_) => {
            let (b2, r2) = bus::bus_load(b1, s.pc, 2);
            let t = CpuState { bus: b2, ..s };
            match r2 {
                Err(e) => (
                    t,
                    Err(
                        "Instruction access fault at "@ + text::hex0x(s.pc as nat) + ": "@
                            + dram::memory_error_text(e),
                    ),
                ),
                Ok(half) => if half as u32 & 0x3 == 0x3 {
                    (
                        t,
                        Err(
                            "Instruction access fault (32-bit instruction at end of memory) at "@
                                + text::hex0x(s.pc as nat),
                        ),
                    )
                } else {
                    (t, Ok(half as u32))
                },
            }
        },
    }
}

/// One step: fetch, execute, and count the instruction in the cycle register
/// where it succeeded.
pub open spec fn step(s: CpuState) -> Outcome {
    let (t, fetched) = fetch(s);
    match fetched {
        Err(e) => (t, Err(e)),
        Ok(inst) => {
            let (u, r) = execute(CpuState { last_pc: t.pc, last_inst: inst, ..t }, inst);
            match r {
                Ok(_) => (
                    CpuState { csrs: u.csrs.update(0xc00, u.csrs[0xc00].wrapping_add(1)), ..u },
                    r,
                ),
                Err(_) => (u, r),
            }
        },
    }
}

/// The program counter and the first `n` registers as lines of text.
pub open spec fn dump(s: CpuState, n: nat) -> Seq<char>
    decreases n,
{
    if n == 0 {
        "PC: "@ + text::hex0x(s.pc as nat) + "\n"@
    } else {
        let i = (n - 1) as nat;
        dump(s, i) + ("x"@ + text::dec(i) + ": "@ + text::hex0x(s.regs[i as int] as nat) + "\n"@)
    }
}

/// The register and function fields of a 32-bit instruction are in range.
pub proof fn lemma_fields(inst: u32)
    by (bit_vector)
    ensures
        (inst >> 7) & 0x1f < 32,
        (inst >> 15) & 0x1f < 32,
        (inst >> 20) & 0x1f < 32,
        (inst >> 12) & 0x7 < 8,
        inst >> 20 < 4096,
{
}

/// The register fields of a 16-bit instruction are in range.
pub proof fn lemma_compressed_fields(inst: u16)
    by (bit_vector)
    ensures
        (inst >> 7) & 0x1f < 32,
        (inst >> 2) & 0x1f < 32,
        (inst >> 7) & 0x7 < 8,
        (inst >> 2) & 0x7 < 8,
        (inst >> 2) & 0x1f | ((inst >> 12) & 1) << 5 < 64,
{
}

} // verus!
