//! The hart: registers, program counter, and the instruction interpreter.

use crate::arith;
use crate::text;
use crate::vm::bus::{Bus, DRAM_BASE};
use crate::vm::dram;
use crate::vm::dram::MemoryError;
use crate::vm::isa;
use crate::vm::isa::CpuState;
use vstd::prelude::*;
use vstd::string::StringExecFns;

verus! {

use crate::meaning;

/// One hart and the bus that it drives.
pub struct Cpu {
    pub regs: [u64; 32],
    pub pc: u64,
    pub bus: Bus,
    pub csrs: [u64; 4096],
    pub last_pc: u64,
    pub last_inst: u32,
}

impl View for Cpu {
    type V = CpuState;

    open spec fn view(&self) -> CpuState {
        CpuState {
            regs: self.regs@,
            pc: self.pc,
            bus: self.bus@,
            csrs: self.csrs@,
            last_pc: self.last_pc,
            last_inst: self.last_inst,
        }
    }
}

/// `prefix` and then the memory error as a sentence.
fn fault(prefix: &str, e: MemoryError) -> (s: String)
    ensures
        s@ == prefix@ + dram::memory_error_text(e),
{
    let mut out = String::new();
    out.append(prefix);
    out.append(e.message().as_str());
    assert(out@ =~= prefix@ + dram::memory_error_text(e));
    out
}

/// `prefix` and then `n` in hexadecimal.
fn with_hex(prefix: &str, n: u32) -> (s: String)
    ensures
        s@ == prefix@ + text::hex(n as nat),
{
    let mut out = String::new();
    out.append(prefix);
    text::push_hex(&mut out, n as u64);
    assert(out@ =~= prefix@ + text::hex(n as nat));
    out
}

/// `prefix` and then `n` in hexadecimal after `0x`.
fn with_hex0x(prefix: &str, n: u64) -> (s: String)
    ensures
        s@ == prefix@ + text::hex0x(n as nat),
{
    let mut out = String::new();
    out.append(prefix);
    text::push_hex0x(&mut out, n);
    assert(out@ =~= prefix@ + text::hex0x(n as nat));
    out
}

/// `prefix` and then both function codes of a register-register instruction.
fn with_functs(prefix: &str, funct3: u32, funct7: u32) -> (s: String)
    ensures
        s@ == prefix@ + text::hex(funct3 as nat) + " funct7: "@ + text::hex(funct7 as nat),
{
    let mut out = with_hex(prefix, funct3);
    out.append(" funct7: ");
    text::push_hex(&mut out, funct7 as u64);
    out
}

impl Cpu {
    /// A hart at the start of main memory with all registers zero.
    pub fn new(bus: Bus) -> (cpu: Self)
        ensures
            cpu@ == (CpuState {
                regs: Seq::new(32, |i: int| 0u64),
                pc: DRAM_BASE,
                bus: bus@,
                csrs: Seq::new(4096, |i: int| 0u64),
                last_pc: DRAM_BASE,
                last_inst: 0,
            }),
    {
        let cpu = Self {
            regs: [0; 32],
            pc: DRAM_BASE,
            bus,
            csrs: [0; 4096],
            last_pc: DRAM_BASE,
            last_inst: 0,
        };
        assert(cpu.regs@ =~= Seq::new(32, |i: int| 0u64));
        assert(cpu.csrs@ =~= Seq::new(4096, |i: int| 0u64));
        cpu
    }

    /// Fetches the instruction at the program counter.
    pub fn fetch(&mut self) -> (r: Result<u32, String>)
        ensures
            (final(self)@, isa::as_text(r)) == isa::fetch(old(self)@),
    {
        match self.bus.load(self.pc, 4) {
            Ok(val) => Ok(val as u32),
            Err(_) => {
                match self.bus.load(self.pc, 2) {
                    Ok(val) => {
                        let val: u32 = val as u32;
                        if val & 0x3 == 0x3 {
                            return Err(
                                with_hex0x(
                                    "Instruction access fault (32-bit instruction at end of memory) at ",
                                    self.pc,
                                ),
                            );
                        }
                        Ok(val)
                    },
                    Err(e) => {
                        let mut out = with_hex0x("Instruction access fault at ", self.pc);
                        out.append(": ");
                        out.append(e.message().as_str());
                        Err(out)
                    },
                }
            },
        }
    }

    /// Executes one instruction of either width.
    pub fn execute(&mut self, inst: u32) -> (r: Result<(), String>)
        ensures
            (final(self)@, isa::as_text(r)) == isa::execute(old(self)@, inst),
    {
        if inst & 0x3 != 0x3 {
            return self.execute_compressed(inst as u16);
        }
        proof {
            isa::lemma_fields(inst);
        }
        let opcode: u32 = inst & 0x7f;
        let rd: usize = ((inst >> 7) & 0x1f) as usize;
        let rs1: usize = ((inst >> 15) & 0x1f) as usize;
        match opcode {
            0x37 => {
                let imm: u64 = Self::imm_u(inst);
                self.write_reg(rd, imm);
                self.pc = self.pc.wrapping_add(4);
                Ok(())
            },
            0x17 => {
                let imm: u64 = Self::imm_u(inst);
                self.write_reg(rd, self.pc.wrapping_add(imm));
                self.pc = self.pc.wrapping_add(4);
                Ok(())
            },
            0x6f => {
                let imm: u64 = Self::imm_j(inst);
                self.write_reg(rd, self.pc.wrapping_add(4));
                self.pc = self.pc.wrapping_add(imm);
                Ok(())
            },
            0x67 => {
                let imm: u64 = Self::imm_i(inst);
                let link: u64 = self.pc.wrapping_add(4);
                let target: u64 = self.read_reg(rs1).wrapping_add(imm) & !1;
                self.write_reg(rd, link);
                self.pc = target;
                Ok(())
            },
            0x63 => self.execute_branch(inst),
            0x03 => self.execute_load(inst),
            0x23 => self.execute_store(inst),
            0x13 => self.execute_op_imm(inst),
            0x1b => self.execute_op_imm_32(inst),
            0x33 => self.execute_op(inst),
            0x3b => self.execute_op_32(inst),
            0x73 => self.execute_system(inst),
            _ => Err(with_hex0x("Unimplemented opcode: ", opcode as u64)),
        }
    }

    fn imm_i(inst: u32) -> (imm: u64)
        ensures
            imm == isa::imm_i(inst),
    {
        arith::sign_extend((inst >> 20) as u64, 0x800)
    }

    fn imm_s(inst: u32) -> (imm: u64)
        ensures
            imm == isa::imm_s(inst),
    {
        let bits: u32 = ((inst >> 25) & 0x7f) << 5 | (inst >> 7) & 0x1f;
        arith::sign_extend(bits as u64, 0x800)
    }

    fn imm_u(inst: u32) -> (imm: u64)
        ensures
            imm == isa::imm_u(inst),
    {
        arith::sign_extend((inst & 0xffff_f000) as u64, 0x8000_0000)
    }

    fn imm_j(inst: u32) -> (imm: u64)
        ensures
            imm == isa::imm_j(inst),
    {
        let bits: u32 = ((inst >> 31) & 0x1) << 20 | ((inst >> 12) & 0xff) << 12 | ((inst >> 20)
            & 0x1) << 11 | ((inst >> 21) & 0x3ff) << 1;
        arith::sign_extend(bits as u64, 0x10_0000)
    }

    /// The offset of a conditional branch, relative to the branch itself.
    fn decode_branch_offset(inst: u32) -> (offset: i64)
        ensures
            offset == isa::imm_b(inst) as i64,
    {
        let bits: u32 = ((inst >> 31) & 0x1) << 12 | ((inst >> 7) & 0x1) << 11 | ((inst >> 25)
            & 0x3f) << 5 | ((inst >> 8) & 0xf) << 1;
        arith::sign_extend(bits as u64, 0x1000) as i64
    }

    fn execute_branch(&mut self, inst: u32) -> (r: Result<(), String>)
        ensures
            (final(self)@, isa::as_text(r)) == isa::branch(old(self)@, inst),
    {
        proof {
            isa::lemma_fields(inst);
            let offset = isa::imm_b(inst);
            meaning::lemma_casts(offset, 0);
        }
        let offset: i64 = Self::decode_branch_offset(inst);
        let a: u64 = self.read_reg(((inst >> 15) & 0x1f) as usize);
        let b: u64 = self.read_reg(((inst >> 20) & 0x1f) as usize);
        let funct3: u32 = (inst >> 12) & 0x7;
        let taken: bool = match funct3 {
            0x0 => a == b,
            0x1 => a != b,
            0x4 => (a as i64) < (b as i64),
            0x5 => (a as i64) >= (b as i64),
            0x6 => a < b,
            0x7 => a >= b,
            _ => {
                return Err(with_hex("Unimplemented branch funct3: ", funct3));
            },
        };
        if taken {
            self.pc = self.pc.wrapping_add(offset as u64);
        } else {
            self.pc = self.pc.wrapping_add(4);
        }
        Ok(())
    }

    fn execute_load(&mut self, inst: u32) -> (r: Result<(), String>)
        ensures
            (final(self)@, isa::as_text(r)) == isa::load(old(self)@, inst),
    {
        proof {
            isa::lemma_fields(inst);
        }
        let rd: usize = ((inst >> 7) & 0x1f) as usize;
        let base: u64 = self.read_reg(((inst >> 15) & 0x1f) as usize);
        let addr: u64 = base.wrapping_add(Self::imm_i(inst));
        let funct3: u32 = (inst >> 12) & 0x7;
        let width: u64 = match funct3 {
            0x0 | 0x4 => 1,
            0x1 | 0x5 => 2,
            0x2 | 0x6 => 4,
            0x3 => 8,
            _ => {
                return Err(with_hex("Unimplemented load funct3: ", funct3));
            },
        };
        match self.bus.load(addr, width) {
            Ok(val) => {
                let val: u64 = match funct3 {
                    0x0 => (val as i8) as i64 as u64,
                    0x1 => (val as i16) as i64 as u64,
                    0x2 => (val as i32) as i64 as u64,
                    _ => val,
                };
                self.write_reg(rd, val);
                self.pc = self.pc.wrapping_add(4);
                Ok(())
            },
            Err(e) => Err(fault("Load fault: ", e)),
        }
    }

    fn execute_store(&mut self, inst: u32) -> (r: Result<(), String>)
        ensures
            (final(self)@, isa::as_text(r)) == isa::store(old(self)@, inst),
    {
        proof {
            isa::lemma_fields(inst);
        }
        let base: u64 = self.read_reg(((inst >> 15) & 0x1f) as usize);
        let addr: u64 = base.wrapping_add(Self::imm_s(inst));
        let val: u64 = self.read_reg(((inst >> 20) & 0x1f) as usize);
        let funct3: u32 = (inst >> 12) & 0x7;
        let width: u64 = match funct3 {
            0x0 => 1,
            0x1 => 2,
            0x2 => 4,
            0x3 => 8,
            _ => {
                return Err(with_hex("Unimplemented store funct3: ", funct3));
            },
        };
        match self.bus.store(addr, width, val) {
            Ok(_) => {
                self.pc = self.pc.wrapping_add(4);
                Ok(())
            },
            Err(e) => Err(fault("Store fault: ", e)),
        }
    }

    fn execute_op_imm(&mut self, inst: u32) -> (r: Result<(), String>)
        ensures
            (final(self)@, isa::as_text(r)) == isa::op_imm(old(self)@, inst),
    {
        proof {
            isa::lemma_fields(inst);
        }
        let imm: u64 = Self::imm_i(inst);
        let rd: usize = ((inst >> 7) & 0x1f) as usize;
        let a: u64 = self.read_reg(((inst >> 15) & 0x1f) as usize);
        let shamt: u64 = imm & 0x3f;
        proof {
            meaning::lemma_casts(imm, 0);
        }
        let funct3: u32 = (inst >> 12) & 0x7;
        let val: u64 = match funct3 {
            0x0 => a.wrapping_add(imm),
            0x1 => a << shamt,
            0x2 => if (a as i64) < (imm as i64) {
                1
            } else {
                0
            },
            0x3 => if a < imm {
                1
            } else {
                0
            },
            0x4 => a ^ imm,
            0x5 => if (inst >> 30) & 1 == 0 {
                a >> shamt
            } else {
                ((a as i64) >> shamt) as u64
            },
            0x6 => a | imm,
            _ => a & imm,
        };
        self.write_reg(rd, val);
        self.pc = self.pc.wrapping_add(4);
        Ok(())
    }

    fn execute_op_imm_32(&mut self, inst: u32) -> (r: Result<(), String>)
        ensures
            (final(self)@, isa::as_text(r)) == isa::op_imm_32(old(self)@, inst),
    {
        proof {
            isa::lemma_fields(inst);
        }
        let imm: i32 = Self::imm_i(inst) as i32;
        let rd: usize = ((inst >> 7) & 0x1f) as usize;
        let source: u64 = self.read_reg(((inst >> 15) & 0x1f) as usize);
        let a: i32 = source as i32;
        let shamt: u32 = (inst >> 20) & 0x1f;
        let funct3: u32 = (inst >> 12) & 0x7;
        let result: i32 = match funct3 {
            0x0 => a.wrapping_add(imm),
            0x1 => a.wrapping_shl(shamt),
            0x5 => if (inst >> 30) & 1 == 0 {
                ((source as u32) >> shamt) as i32
            } else {
                a.wrapping_shr(shamt)
            },
            _ => {
                return Err(with_hex("Unimplemented OP-IMM-32 funct3: ", funct3));
            },
        };
        self.write_reg(rd, result as i64 as u64);
        self.pc = self.pc.wrapping_add(4);
        Ok(())
    }

    fn execute_op(&mut self, inst: u32) -> (r: Result<(), String>)
        ensures
            (final(self)@, isa::as_text(r)) == isa::op(old(self)@, inst),
    {
        proof {
            isa::lemma_fields(inst);
        }
        let rd: usize = ((inst >> 7) & 0x1f) as usize;
        let a: u64 = self.read_reg(((inst >> 15) & 0x1f) as usize);
        let b: u64 = self.read_reg(((inst >> 20) & 0x1f) as usize);
        let funct3: u32 = (inst >> 12) & 0x7;
        let funct7: u32 = (inst >> 25) & 0x7f;
        let shamt: u64 = b & 0x3f;
        proof {
            meaning::lemma_casts(b, 0);
        }
        let val: u64 = match (funct3, funct7) {
            (0x0, 0x00) => a.wrapping_add(b),
            (0x0, 0x20) => a.wrapping_sub(b),
            (0x1, 0x00) => a << shamt,
            (0x2, 0x00) => if (a as i64) < (b as i64) {
                1
            } else {
                0
            },
            (0x3, 0x00) => if a < b {
                1
            } else {
                0
            },
            (0x4, 0x00) => a ^ b,
            (0x5, 0x00) => a >> shamt,
            (0x5, 0x20) => ((a as i64) >> shamt) as u64,
            (0x6, 0x00) => a | b,
            (0x7, 0x00) => a & b,
            (0x0, 0x01) => a.wrapping_mul(b),
            (0x1, 0x01) => arith::mulh(a as i64, b as i64) as u64,
            (0x2, 0x01) => arith::mulhsu(a as i64, b) as u64,
            (0x3, 0x01) => arith::mulhu(a, b),
            (0x4, 0x01) => arith::div(a as i64, b as i64) as u64,
            (0x5, 0x01) => arith::divu(a, b),
            (0x6, 0x01) => arith::rem(a as i64, b as i64) as u64,
            (0x7, 0x01) => arith::remu(a, b),
            _ => {
                return Err(with_functs("Unimplemented OP funct3: ", funct3, funct7));
            },
        };
        self.write_reg(rd, val);
        self.pc = self.pc.wrapping_add(4);
        Ok(())
    }

    fn execute_op_32(&mut self, inst: u32) -> (r: Result<(), String>)
        ensures
            (final(self)@, isa::as_text(r)) == isa::op_32(old(self)@, inst),
    {
        proof {
            isa::lemma_fields(inst);
        }
        let rd: usize = ((inst >> 7) & 0x1f) as usize;
        let a: u64 = self.read_reg(((inst >> 15) & 0x1f) as usize);
        let b: u64 = self.read_reg(((inst >> 20) & 0x1f) as usize);
        let funct3: u32 = (inst >> 12) & 0x7;
        let funct7: u32 = (inst >> 25) & 0x7f;
        let shamt: u32 = (b & 0x1f) as u32;
        proof {
            meaning::lemma_casts(b, 0);
        }
        let result: i32 = match (funct3, funct7) {
            (0x0, 0x00) => (a as i32).wrapping_add(b as i32),
            (0x0, 0x20) => (a as i32).wrapping_sub(b as i32),
            (0x1, 0x00) => (a as i32).wrapping_shl(shamt),
            (0x5, 0x00) => ((a as u32) >> shamt) as i32,
            (0x5, 0x20) => (a as i32).wrapping_shr(shamt),
            _ => {
                return Err(with_functs("Unimplemented OP-32 funct3: ", funct3, funct7));
            },
        };
        self.write_reg(rd, result as i64 as u64);
        self.pc = self.pc.wrapping_add(4);
        Ok(())
    }

    fn execute_system(&mut self, inst: u32) -> (r: Result<(), String>)
        ensures
            (final(self)@, isa::as_text(r)) == isa::system(old(self)@, inst),
    {
        proof {
            isa::lemma_fields(inst);
        }
        let csr: usize = (inst >> 20) as usize;
        let rd: usize = ((inst >> 7) & 0x1f) as usize;
        let rs1: usize = ((inst >> 15) & 0x1f) as usize;
        let funct3: u32 = (inst >> 12) & 0x7;
        if funct3 == 0 {
            if csr == 0x302 {
                self.pc = self.read_csr(0x341);
                return Ok(());
            }
            if csr == 0x000 {
                return Err(String::from_str("ECALL encountered"));
            }
            if csr == 0x001 {
                return Err(String::from_str("EBREAK encountered"));
            }
            if csr == 0x105 {
                self.pc = self.pc.wrapping_add(4);
                return Ok(());
            }
            return Err(with_hex0x("Unimplemented PRIV instruction: ", inst as u64));
        }
        let previous: u64 = self.read_csr(csr);
        let source: u64 = self.read_reg(rs1);
        let uimm: u64 = rs1 as u64;
        let next: u64 = match funct3 {
            0x1 => source,
            0x2 => previous | source,
            0x3 => previous & !source,
            0x5 => uimm,
            0x6 => previous | uimm,
            0x7 => previous & !uimm,
            _ => {
                return Err(with_hex("Unimplemented SYSTEM funct3: ", funct3));
            },
        };
        self.write_csr(csr, next);
        self.write_reg(rd, previous);
        self.pc = self.pc.wrapping_add(4);
        Ok(())
    }

    /// Executes a 16-bit instruction.
    fn execute_compressed(&mut self, inst: u16) -> (r: Result<(), String>)
        ensures
            (final(self)@, isa::as_text(r)) == isa::execute_compressed(old(self)@, inst),
    {
        match inst & 0x3 {
            0 => self.execute_quadrant0(inst),
            1 => self.execute_quadrant1(inst),
            2 => self.execute_quadrant2(inst),
            _ => {
                self.pc = self.pc.wrapping_add(2);
                Ok(())
            },
        }
    }

    /// Loads into `rd` and moves on by a half-word instruction.
    fn load_compressed(
        &mut self,
        addr: u64,
        width: u64,
        rd: usize,
        complaint: &str,
    ) -> (r: Result<(), String>)
        requires
            width == 4 || width == 8,
            rd < 32,
        ensures
            width == 4 ==> (final(self)@, isa::as_text(r)) == isa::load_to(
                old(self)@,
                addr,
                4,
                rd as int,
                |v: u64| arith::sext32(v),
                2,
                complaint@,
            ),
            width == 8 ==> (final(self)@, isa::as_text(r)) == isa::load_to(
                old(self)@,
                addr,
                8,
                rd as int,
                |v: u64| v,
                2,
                complaint@,
            ),
    {
        match self.bus.load(addr, width) {
            Ok(val) => {
                let val: u64 = if width == 4 {
                    (val as i32) as i64 as u64
                } else {
                    val
                };
                self.write_reg(rd, val);
                self.pc = self.pc.wrapping_add(2);
                Ok(())
            },
            Err(e) => Err(fault(complaint, e)),
        }
    }

    /// Stores `value` and moves on by a half-word instruction.
    fn store_compressed(
        &mut self,
        addr: u64,
        width: u64,
        value: u64,
        complaint: &str,
    ) -> (r: Result<(), String>)
        requires
            width <= 8,
        ensures
            (final(self)@, isa::as_text(r)) == isa::store_from(
                old(self)@,
                addr,
                width,
                value,
                2,
                complaint@,
            ),
    {
        match self.bus.store(addr, width, value) {
            Ok(_) => {
                self.pc = self.pc.wrapping_add(2);
                Ok(())
            },
            Err(e) => Err(fault(complaint, e)),
        }
    }

    fn execute_quadrant0(&mut self, inst: u16) -> (r: Result<(), String>)
        ensures
            (final(self)@, isa::as_text(r)) == isa::quadrant0(old(self)@, inst),
    {
        proof {
            isa::lemma_compressed_fields(inst);
        }
        let low: usize = 8 + ((inst >> 2) & 0x7) as usize;
        let high: usize = 8 + ((inst >> 7) & 0x7) as usize;
        let base: u64 = self.read_reg(high);
        let word: u16 = ((inst >> 10) & 0x7) << 3 | ((inst >> 6) & 1) << 2 | ((inst >> 5) & 1) << 6;
        let double: u16 = ((inst >> 10) & 0x7) << 3 | ((inst >> 5) & 0x3) << 6;
        let funct3: u16 = (inst >> 13) & 0x7;
        match funct3 {
            0x0 => {
                // C.ADDI4SPN
                let imm: u16 = ((inst >> 6) & 1) << 2 | ((inst >> 5) & 1) << 3 | ((inst >> 11)
                    & 0x3) << 4 | ((inst >> 7) & 0xf) << 6;
                if imm != 0 {
                    let sp: u64 = self.read_reg(2);
                    self.write_reg(low, sp.wrapping_add(imm as u64));
                }
                self.pc = self.pc.wrapping_add(2);
                Ok(())
            },
            // C.LW
            0x2 => self.load_compressed(
                base.wrapping_add(word as u64),
                4,
                low,
                "C.LW load fault: ",
            ),
            // C.LD
            0x3 => self.load_compressed(
                base.wrapping_add(double as u64),
                8,
                low,
                "C.LD load fault: ",
            ),
            0x6 => {
                // C.SW
                let val: u64 = self.read_reg(low);
                self.store_compressed(
                    base.wrapping_add(word as u64),
                    4,
                    val,
                    "C.SW store fault: ",
                )
            },
            0x7 => {
                // C.SD
                let val: u64 = self.read_reg(low);
                self.store_compressed(
                    base.wrapping_add(double as u64),
                    8,
                    val,
                    "C.SD store fault: ",
                )
            },
            _ => {
                self.pc = self.pc.wrapping_add(2);
                Ok(())
            },
        }
    }

    fn execute_quadrant1(&mut self, inst: u16) -> (r: Result<(), String>)
        ensures
            (final(self)@, isa::as_text(r)) == isa::quadrant1(old(self)@, inst),
    {
        proof {
            isa::lemma_compressed_fields(inst);
        }
        let rd: usize = ((inst >> 7) & 0x1f) as usize;
        let high: usize = 8 + ((inst >> 7) & 0x7) as usize;
        let bits: u16 = ((inst >> 12) & 1) << 5 | (inst >> 2) & 0x1f;
        let imm: u64 = arith::sign_extend(bits as u64, 0x20);
        let funct3: u16 = (inst >> 13) & 0x7;
        match funct3 {
            0x0 => {
                // C.ADDI, C.NOP
                let val: u64 = self.read_reg(rd).wrapping_add(imm);
                self.write_reg(rd, val);
                self.pc = self.pc.wrapping_add(2);
            },
            0x1 => {
                // C.ADDIW
                if rd == 0 {
                    return Err(with_hex0x("Reserved C.ADDIW with rd=0: ", inst as u64));
                }
                let val: u64 = self.read_reg(rd).wrapping_add(imm);
                self.write_reg(rd, (val as i32) as i64 as u64);
                self.pc = self.pc.wrapping_add(2);
            },
            0x2 => {
                // C.LI
                self.write_reg(rd, imm);
                self.pc = self.pc.wrapping_add(2);
            },
            0x3 => {
                if rd == 2 {
                    // C.ADDI16SP
                    let bits: u16 = ((inst >> 12) & 1) << 9 | ((inst >> 3) & 0x3) << 7 | ((inst
                        >> 5) & 1) << 6 | ((inst >> 2) & 1) << 5 | ((inst >> 6) & 1) << 4;
                    let step: u64 = arith::sign_extend(bits as u64, 0x200);
                    let val: u64 = self.read_reg(2).wrapping_add(step);
                    self.write_reg(2, val);
                } else {
                    // C.LUI
                    self.write_reg(rd, imm << 12);
                }
                self.pc = self.pc.wrapping_add(2);
            },
            0x5 => {
                // C.J
                let bits: u16 = ((inst >> 12) & 1) << 11 | ((inst >> 11) & 1) << 4 | ((inst >> 9)
                    & 0x3) << 8 | ((inst >> 8) & 1) << 10 | ((inst >> 7) & 1) << 6 | ((inst >> 6)
                    & 1) << 7 | ((inst >> 3) & 0x7) << 1 | ((inst >> 2) & 1) << 5;
                self.pc = self.pc.wrapping_add(arith::sign_extend(bits as u64, 0x800));
            },
            0x6 | 0x7 => {
                // C.BEQZ, C.BNEZ
                let bits: u16 = ((inst >> 12) & 1) << 8 | ((inst >> 5) & 0x3) << 6 | ((inst >> 2)
                    & 1) << 5 | ((inst >> 10) & 0x3) << 3 | ((inst >> 3) & 0x3) << 1;
                let offset: u64 = arith::sign_extend(bits as u64, 0x100);
                let zero: bool = self.read_reg(high) == 0;
                if zero == (funct3 == 0x6) {
                    self.pc = self.pc.wrapping_add(offset);
                } else {
                    self.pc = self.pc.wrapping_add(2);
                }
            },
            _ => {
                self.pc = self.pc.wrapping_add(2);
            },
        }
        Ok(())
    }

    fn execute_quadrant2(&mut self, inst: u16) -> (r: Result<(), String>)
        ensures
            (final(self)@, isa::as_text(r)) == isa::quadrant2(old(self)@, inst),
    {
        proof {
            isa::lemma_compressed_fields(inst);
        }
        let rd: usize = ((inst >> 7) & 0x1f) as usize;
        let rs2: usize = ((inst >> 2) & 0x1f) as usize;
        let sp: u64 = self.read_reg(2);
        let funct3: u16 = (inst >> 13) & 0x7;
        match funct3 {
            0x0 => {
                // C.SLLI
                let shamt: u16 = (inst >> 2) & 0x1f | ((inst >> 12) & 1) << 5;
                if rd != 0 && shamt != 0 {
                    let val: u64 = self.read_reg(rd) << shamt;
                    self.write_reg(rd, val);
                }
                self.pc = self.pc.wrapping_add(2);
                Ok(())
            },
            0x2 => {
                // C.LWSP
                if rd == 0 {
                    self.pc = self.pc.wrapping_add(2);
                    return Ok(());
                }
                let offset: u16 = ((inst >> 2) & 0x3) << 6 | ((inst >> 12) & 1) << 5 | ((inst >> 4)
                    & 0x7) << 2;
                self.load_compressed(sp.wrapping_add(offset as u64), 4, rd, "C.LWSP load fault: ")
            },
            0x3 => {
                // C.LDSP
                if rd == 0 {
                    self.pc = self.pc.wrapping_add(2);
                    return Ok(());
                }
                let offset: u16 = ((inst >> 2) & 0x7) << 6 | ((inst >> 12) & 1) << 5 | ((inst >> 5)
                    & 0x3) << 3;
                self.load_compressed(sp.wrapping_add(offset as u64), 8, rd, "C.LDSP load fault: ")
            },
            0x4 => {
                let link: bool = (inst >> 12) & 1 != 0;
                if rs2 != 0 {
                    // C.MV, C.ADD
                    let mut val: u64 = self.read_reg(rs2);
                    if link {
                        val = self.read_reg(rd).wrapping_add(val);
                    }
                    self.write_reg(rd, val);
                    self.pc = self.pc.wrapping_add(2);
                    return Ok(());
                }
                if rd == 0 {
                    if link {
                        return Err(with_hex0x("C.EBREAK encountered: ", inst as u64));
                    }
                    return Err(
                        with_hex0x("Reserved instruction C.JR with rs1=0: ", inst as u64),
                    );
                }
                // C.JR, C.JALR
                let target: u64 = self.read_reg(rd);
                if link {
                    self.write_reg(1, self.pc.wrapping_add(2));
                }
                self.pc = target;
                Ok(())
            },
            0x6 => {
                // C.SWSP
                let offset: u16 = ((inst >> 7) & 0x3) << 6 | ((inst >> 9) & 0xf) << 2;
                let val: u64 = self.read_reg(rs2);
                self.store_compressed(sp.wrapping_add(offset as u64), 4, val, "C.SWSP store fault: ")
            },
            0x7 => {
                // C.SDSP
                let offset: u16 = ((inst >> 7) & 0x7) << 6 | ((inst >> 10) & 0x7) << 3;
                let val: u64 = self.read_reg(rs2);
                self.store_compressed(sp.wrapping_add(offset as u64), 8, val, "C.SDSP store fault: ")
            },
            _ => {
                self.pc = self.pc.wrapping_add(2);
                Ok(())
            },
        }
    }

    /// Fetches and executes one instruction, and counts it where it succeeded.
    pub fn step(&mut self) -> (r: Result<(), String>)
        ensures
            (final(self)@, isa::as_text(r)) == isa::step(old(self)@),
    {
        let inst: u32 = match self.fetch() {
            Ok(inst) => inst,
            Err(e) => {
                return Err(e);
            },
        };
        self.last_pc = self.pc;
        self.last_inst = inst;
        let res = self.execute(inst);
        if res.is_ok() {
            self.csrs[0xc00] = self.csrs[0xc00].wrapping_add(1);
        }
        res
    }

    /// Register 0 reads as zero.
    pub fn read_reg(&self, reg: usize) -> (v: u64)
        requires
            reg < 32,
        ensures
            v == isa::reg(self@, reg as int),
    {
        if reg == 0 {
            0
        } else {
            self.regs[reg]
        }
    }

    /// The program counter and the registers as lines of text.
    pub fn dump_regs(&self) -> (lines: String)
        ensures
            lines@ == isa::dump(self@, 32),
    {
        let mut lines = String::new();
        lines.append("PC: ");
        text::push_hex0x(&mut lines, self.pc);
        lines.append("\n");
        assert(lines@ =~= isa::dump(self@, 0));
        let mut i: usize = 0;
        while i < 32
            invariant
                i <= 32,
                lines@ == isa::dump(self@, i as nat),
            decreases 32 - i,
        {
            lines.append("x");
            text::push_dec(&mut lines, i as u64);
            lines.append(": ");
            text::push_hex0x(&mut lines, self.regs[i]);
            lines.append("\n");
            i = i + 1;
            assert(lines@ =~= isa::dump(self@, i as nat));
        }
        lines
    }

    fn write_reg(&mut self, reg: usize, val: u64)
        requires
            reg < 32,
        ensures
            final(self)@ == isa::set_reg(old(self)@, reg as int, val),
            final(self).bus == old(self).bus,
    {
        if reg != 0 {
            self.regs[reg] = val;
        }
    }

    fn read_csr(&self, addr: usize) -> (v: u64)
        requires
            addr < 4096,
        ensures
            v == self@.csrs[addr as int],
    {
        self.csrs[addr]
    }

    fn write_csr(&mut self, addr: usize, val: u64)
        requires
            addr < 4096,
        ensures
            final(self)@ == (CpuState {
                csrs: old(self)@.csrs.update(addr as int, val),
                ..old(self)@
            }),
    {
        self.csrs[addr] = val;
    }
}

} // verus!
