//! The state of a hart.

use crate::cpu::csr::CSR_MHARTID;
use crate::cpu::types::Mode;
use crate::jit::cache::JitCache;
use crate::jit::compiler::JitCompiler;
use crate::jit::types::JitConfig;
use crate::mmu::Tlb;
use vstd::prelude::*;

verus! {

use crate::jit::types::same_config;
use crate::mmu::{empty_entry, TlbEntry};

/// What a program can see of a hart.
#[verifier::ext_equal]
pub struct HartState {
    pub regs: Seq<u64>,
    pub pc: u64,
    pub mode: Mode,
    pub csrs: Seq<u64>,
    pub tlb: Seq<TlbEntry>,
    /// The memory that the last load with a reservation marked.
    pub reservation: Option<u64>,
}

impl HartState {
    /// The state has all registers, the first of them zero.
    pub open spec fn wf(self) -> bool {
        &&& self.regs.len() == 32
        &&& self.csrs.len() == 4096
        &&& self.tlb.len() == 64
        &&& self.regs[0] == 0
    }
}

/// A hart, with the blocks compiled for it.
pub struct Cpu {
    pub regs: [u64; 32],
    pub pc: u64,
    pub csrs: [u64; 4096],
    pub mode: Mode,
    pub tlb: Tlb,
    pub reservation: Option<u64>,
    /// The bits of an address that tell one reservation granule from another.
    pub reservation_mask: u64,
    /// Counts instructions between looks at the interrupt lines.
    pub poll_counter: u8,
    pub use_blocks: bool,
    pub use_jit: bool,
    pub jit_config: JitConfig,
    pub jit_cache: JitCache,
    pub jit_compiler: JitCompiler,
}

impl View for Cpu {
    type V = HartState;

    open spec fn view(&self) -> HartState {
        HartState {
            regs: self.regs@,
            pc: self.pc,
            mode: self.mode,
            csrs: self.csrs@,
            tlb: self.tlb@,
            reservation: self.reservation,
        }
    }
}

/// That nothing but what a program sees differs between two harts.
pub open spec fn same_setup(a: Cpu, b: Cpu) -> bool {
    &&& a.reservation_mask == b.reservation_mask
    &&& a.poll_counter == b.poll_counter
    &&& a.use_blocks == b.use_blocks
    &&& a.use_jit == b.use_jit
    &&& a.jit_config == b.jit_config
    &&& a.jit_cache == b.jit_cache
    &&& a.jit_compiler == b.jit_compiler
}

impl Cpu {
    /// A hart in machine mode at `pc`, its registers zero.
    pub fn new(pc: u64, hart_id: u64, reservation_mask: u64, config: JitConfig) -> (cpu: Self)
        requires
            config.max_cache_size <= usize::MAX / 128,
        ensures
            cpu@.wf(),
            cpu@ == (HartState {
                regs: Seq::new(32, |i: int| 0u64),
                pc,
                mode: Mode::Machine,
                csrs: Seq::new(4096, |i: int| 0u64).update(CSR_MHARTID as int, hart_id),
                tlb: Seq::new(64, |i: int| empty_entry()),
                reservation: None,
            }),
            cpu.reservation_mask == reservation_mask,
            cpu.poll_counter == 0,
            cpu.use_blocks,
            cpu.use_jit == config.enabled,
            same_config(cpu.jit_config, config),
            cpu.jit_compiler.settings() == config,
            cpu.jit_cache@.wf(),
            cpu.jit_cache@.entries.len() == 0,
            cpu.jit_cache@.bytes == 0,
    {
        let mut csrs: [u64; 4096] = [0; 4096];
        csrs[CSR_MHARTID as usize] = hart_id;
        let jit_config = config.clone();
        let cpu = Self {
            regs: [0; 32],
            pc,
            csrs,
            mode: Mode::Machine,
            tlb: Tlb::new(),
            reservation: None,
            reservation_mask,
            poll_counter: 0,
            use_blocks: true,
            use_jit: config.enabled,
            jit_cache: JitCache::new(config.max_cache_size, config.cache_max_bytes),
            jit_compiler: JitCompiler::new(config),
            jit_config,
        };
        assert(cpu.regs@ =~= Seq::new(32, |i: int| 0u64));
        assert(cpu.csrs@ =~= Seq::new(4096, |i: int| 0u64).update(CSR_MHARTID as int, hart_id));
        cpu
    }

    pub fn read_reg(&self, reg: u8) -> (value: u64)
        requires
            reg < 32,
        ensures
            value == self@.regs[reg as int],
    {
        self.regs[reg as usize]
    }

    /// Writes a register; `x0` keeps its zero.
    pub fn write_reg(&mut self, reg: u8, value: u64)
        requires
            reg < 32,
        ensures
            final(self)@ == with_reg(old(self)@, reg, value),
            same_setup(*final(self), *old(self)),
    {
        if reg != 0 {
            self.regs[reg as usize] = value;
        }
        assert(self@.regs =~= with_reg(old(self)@, reg, value).regs);
    }

    /// The granule that holds an address.
    pub fn reservation_granule(&self, addr: u64) -> (granule: u64)
        ensures
            granule == addr & self.reservation_mask,
    {
        addr & self.reservation_mask
    }

    /// Drops the reservation where a store to `addr` touches it.
    pub fn clear_reservation_if_conflict(&mut self, addr: u64)
        ensures
            final(self)@ == without_reservation(old(self)@, old(self).reservation_mask, addr),
            same_setup(*final(self), *old(self)),
    {
        match self.reservation {
            Some(granule) => {
                if granule == addr & self.reservation_mask {
                    self.reservation = None;
                }
            },
            None => {},
        }
    }
}

/// The state after a write to a register.
pub open spec fn with_reg(s: HartState, reg: u8, value: u64) -> HartState {
    if reg == 0 {
        s
    } else {
        HartState { regs: s.regs.update(reg as int, value), ..s }
    }
}

/// The state after a store to `addr`, as far as reservations go.
pub open spec fn without_reservation(s: HartState, mask: u64, addr: u64) -> HartState {
    if s.reservation == Some(addr & mask) {
        HartState { reservation: None, ..s }
    } else {
        s
    }
}

} // verus!
