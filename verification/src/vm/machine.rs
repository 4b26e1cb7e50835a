//! The machine as its host drives it.

use crate::text;
use crate::vm::bus;
use crate::vm::bus::{Bus, BusState, DRAM_BASE, DRAM_SIZE};
use crate::vm::cpu::Cpu;
use crate::vm::dram;
use crate::vm::isa;
use crate::vm::isa::CpuState;
use crate::vm::loader;
use vstd::prelude::*;
use vstd::string::StringExecFns;

verus! {

/// A machine with a program in its memory.
pub struct WasmVm {
    cpu: Cpu,
}

impl View for WasmVm {
    type V = CpuState;

    closed spec fn view(&self) -> CpuState {
        self.cpu@
    }
}

/// The devices of a machine that was just switched on.
pub open spec fn fresh_bus() -> BusState {
    BusState {
        dram: dram::run_of(0, DRAM_SIZE as nat),
        input: Seq::empty(),
        output: Seq::empty(),
        used_memory: 0,
    }
}

/// A hart that has not run yet, over the given devices.
pub open spec fn fresh_cpu(devices: BusState) -> CpuState {
    CpuState {
        regs: Seq::new(32, |i: int| 0u64),
        pc: DRAM_BASE,
        bus: devices,
        csrs: Seq::new(4096, |i: int| 0u64),
        last_pc: DRAM_BASE,
        last_inst: 0,
    }
}

/// The machine after the steps from number `from` on, up to `cycles` of them or to
/// the first that fails. The message names the number of the step that failed.
pub open spec fn run(s: CpuState, from: nat, cycles: nat) -> isa::Outcome
    decreases cycles - from,
{
    if from >= cycles {
        (s, Ok(()))
    } else {
        let (t, r) = isa::step(s);
        match r {
            Ok(_) => run(t, from + 1, cycles),
            Err(e) => (t, Err("CPU error at step "@ + text::dec(from) + ": "@ + e)),
        }
    }
}

impl WasmVm {
    /// A machine with the image in its memory. The message of a refused ELF file is
    /// the one that the `elf` crate writes.
    pub fn new(binary: &[u8]) -> (r: Result<WasmVm, String>)
        requires
            loader::image_fits(fresh_bus(), binary@),
        ensures
            match loader::image_loaded(fresh_bus(), binary@) {
                (devices, Ok(_)) => r is Ok && r->Ok_0@ == fresh_cpu(devices),
                (_, Err(e)) => r is Err && (loader::load_failure_text(e) is Some ==> r->Err_0@
                    == loader::load_failure_text(e)->0),
            },
    {
        let mut bus = Bus::new();
        match loader::load_image(&mut bus, binary) {
            Ok(_) => Ok(WasmVm { cpu: Cpu::new(bus) }),
            Err(e) => Err(e.message()),
        }
    }

    /// A machine with the image in its memory, or `None` where a segment of the image
    /// reaches past its end.
    pub fn try_new(binary: &[u8]) -> (r: Option<Result<WasmVm, String>>)
        ensures
            match r {
                None => !loader::image_fits(fresh_bus(), binary@),
                Some(made) => loader::image_fits(fresh_bus(), binary@)
                    && match loader::image_loaded(fresh_bus(), binary@) {
                    (devices, Ok(_)) => made is Ok && made->Ok_0@ == fresh_cpu(devices),
                    (_, Err(e)) => made is Err && (loader::load_failure_text(e) is Some
                        ==> made->Err_0@ == loader::load_failure_text(e)->0),
                },
            },
    {
        let bus = Bus::new();
        if loader::image_is_loadable(&bus, binary) {
            Some(WasmVm::new(binary))
        } else {
            None
        }
    }

    /// Executes one instruction.
    pub fn step(&mut self) -> (r: Result<(), String>)
        ensures
            (final(self)@, isa::as_text(r)) == isa::step(old(self)@),
    {
        self.cpu.step()
    }

    /// Executes up to `cycles` instructions, and gives their number where none fails.
    pub fn run(&mut self, cycles: usize) -> (r: Result<usize, String>)
        ensures
            final(self)@ == run(old(self)@, 0, cycles as nat).0,
            match run(old(self)@, 0, cycles as nat).1 {
                Ok(_) => r == Ok::<usize, String>(cycles),
                Err(e) => r is Err && r->Err_0@ == e,
            },
    {
        let mut i: usize = 0;
        let ghost whole = run(self@, 0, cycles as nat);
        while i < cycles
            invariant
                i <= cycles,
                run(self@, i as nat, cycles as nat) == whole,
                whole == run(old(self)@, 0, cycles as nat),
            decreases cycles - i,
        {
            if let Err(e) = self.cpu.step() {
                let mut out = String::new();
                out.append("CPU error at step ");
                text::push_dec(&mut out, i as u64);
                out.append(": ");
                out.append(e.as_str());
                assert(out@ =~= "CPU error at step "@ + text::dec(i as nat) + ": "@ + e@);
                return Err(out);
            }
            i = i + 1;
        }
        Ok(cycles)
    }

    /// Hands a byte to the serial port.
    pub fn input(&mut self, byte: u8)
        ensures
            final(self)@ == (CpuState {
                bus: BusState { input: old(self)@.bus.input.push(byte), ..old(self)@.bus },
                ..old(self)@
            }),
    {
        self.cpu.bus.uart.push_input(byte);
    }

    /// Takes the oldest byte that the machine wrote to the serial port.
    pub fn get_output(&mut self) -> (r: Option<u8>)
        ensures
            old(self)@.bus.output.len() == 0 ==> r is None && final(self)@ == old(self)@,
            old(self)@.bus.output.len() > 0 ==> r == Some(old(self)@.bus.output[0]) && final(self)@
                == (CpuState {
                bus: bus::output_taken(old(self)@.bus),
                ..old(self)@
            }),
    {
        self.cpu.bus.uart.pop_output()
    }

    pub fn get_pc(&self) -> (pc: u64)
        ensures
            pc == self@.pc,
    {
        self.cpu.pc
    }

    /// The register as it is stored, or 0 where there is no such register.
    pub fn get_reg(&self, reg: usize) -> (v: u64)
        ensures
            v == if reg < 32 {
                self@.regs[reg as int]
            } else {
                0
            },
    {
        if reg < 32 {
            self.cpu.regs[reg]
        } else {
            0
        }
    }

    /// What the program last reported of its memory use.
    pub fn get_memory_usage(&self) -> (v: u64)
        ensures
            v == self@.bus.used_memory,
    {
        self.cpu.bus.used_memory
    }

    pub fn get_total_memory(&self) -> (v: u64)
        ensures
            v == DRAM_SIZE,
    {
        DRAM_SIZE
    }

    /// The cycle register: how many instructions succeeded, where the program left
    /// the register alone.
    pub fn get_cpu_cycles(&self) -> (v: u64)
        ensures
            v == self@.csrs[0xc00],
    {
        self.cpu.csrs[0xc00]
    }
}

/// An instruction keeps the number of registers and control registers, and leaves
/// register 0 as it is.
pub proof fn law_register_zero(s: CpuState, inst: u32)
    requires
        s.regs.len() == 32,
        s.csrs.len() == 4096,
    ensures
        isa::execute(s, inst).0.regs.len() == 32,
        isa::execute(s, inst).0.csrs.len() == 4096,
        isa::execute(s, inst).0.regs[0] == s.regs[0],
{
    isa::lemma_fields(inst);
    isa::lemma_compressed_fields(inst as u16);
}

/// An instruction that fails changes nothing.
pub proof fn law_failure_changes_nothing(s: CpuState, inst: u32)
    ensures
        isa::execute(s, inst).1 is Err ==> isa::execute(s, inst).0 == s,
{
    assert forall|addr: u64, width: u64| (#[trigger] bus::bus_load(s.bus, addr, width)).1 is Err implies
        bus::bus_load(s.bus, addr, width).0 == s.bus by {}
    assert forall|addr: u64, width: u64, v: u64|
        (#[trigger] bus::bus_store(s.bus, addr, width, v)).1 is Err implies bus::bus_store(
        s.bus,
        addr,
        width,
        v,
    ).0 == s.bus by {
        assert(bus::bus_store(s.bus, addr, width, v).0 =~= s.bus);
    }
}

/// Register 0 keeps its value however long the machine runs, and the machine keeps its
/// registers.
pub proof fn law_runs_keep_register_zero(s: CpuState, from: nat, cycles: nat)
    requires
        s.regs.len() == 32,
        s.csrs.len() == 4096,
    ensures
        run(s, from, cycles).0.regs.len() == 32,
        run(s, from, cycles).0.csrs.len() == 4096,
        run(s, from, cycles).0.regs[0] == s.regs[0],
    decreases cycles - from,
{
    if from < cycles {
        let (t, fetched) = isa::fetch(s);
        if let Ok(inst) = fetched {
            law_register_zero(CpuState { last_pc: t.pc, last_inst: inst, ..t }, inst);
        }
        law_runs_keep_register_zero(isa::step(s).0, from + 1, cycles);
    }
}

/// Running `a` steps and then `b` more, numbered on, is running `a + b` steps.
pub proof fn law_run_composes(s: CpuState, from: nat, a: nat, b: nat)
    ensures
        run(s, from, from + a).1 is Ok ==> run(s, from, from + a + b) == run(
            run(s, from, from + a).0,
            from + a,
            from + a + b,
        ),
        run(s, from, from + a).1 is Err ==> run(s, from, from + a + b) == run(s, from, from + a),
    decreases a,
{
    if a > 0 {
        let (t, r) = isa::step(s);
        if r is Ok {
            law_run_composes(t, from + 1, (a - 1) as nat, b);
        }
    }
}

} // verus!
