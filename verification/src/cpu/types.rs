//! Privilege modes and traps.

use vstd::prelude::*;

verus! {

/// The privilege mode of a hart.
#[derive(Debug, Clone, Copy, PartialEq, Eq, Structural)]
pub enum Mode {
    User,
    Supervisor,
    Machine,
}

impl Mode {
    /// The number that stands for the mode in control registers.
    pub open spec fn number(self) -> u8 {
        match self {
            Mode::User => 0,
            Mode::Supervisor => 1,
            Mode::Machine => 3,
        }
    }

    /// The number that stands for the mode in control registers.
    pub fn to_number(self) -> (n: u8)
        ensures
            n == self.number(),
    {
        match self {
            Mode::User => 0,
            Mode::Supervisor => 1,
            Mode::Machine => 3,
        }
    }

    /// The mode that a field of two bits names; the reserved value counts as machine mode.
    pub open spec fn of_mpp(bits: u64) -> Mode {
        match bits {
            0 => Mode::User,
            1 => Mode::Supervisor,
            _ => Mode::Machine,
        }
    }

    /// The mode that a field of two bits names.
    pub fn from_mpp(bits: u64) -> (mode: Mode)
        ensures
            mode == Mode::of_mpp(bits),
    {
        match bits {
            0 => Mode::User,
            1 => Mode::Supervisor,
            _ => Mode::Machine,
        }
    }
}

/// Why a hart leaves the program.
#[derive(Debug, Clone, Copy, PartialEq, Eq, Structural)]
pub enum Trap {
    InstructionAddressMisaligned(u64),
    InstructionAccessFault(u64),
    IllegalInstruction(u64),
    Breakpoint,
    LoadAddressMisaligned(u64),
    LoadAccessFault(u64),
    StoreAddressMisaligned(u64),
    StoreAccessFault(u64),
    EnvironmentCallFromU,
    EnvironmentCallFromS,
    EnvironmentCallFromM,
    InstructionPageFault(u64),
    LoadPageFault(u64),
    StorePageFault(u64),
}

/// What an address is used for.
#[derive(Debug, Clone, Copy, PartialEq, Eq, Structural)]
pub enum AccessType {
    Instruction,
    Load,
    Store,
}

/// The trap of an environment call from `mode`.
pub open spec fn environment_call(mode: Mode) -> Trap {
    match mode {
        Mode::User => Trap::EnvironmentCallFromU,
        Mode::Supervisor => Trap::EnvironmentCallFromS,
        Mode::Machine => Trap::EnvironmentCallFromM,
    }
}

/// The trap of an environment call from `mode`.
pub fn environment_call_trap(mode: Mode) -> (trap: Trap)
    ensures
        trap == environment_call(mode),
{
    match mode {
        Mode::User => Trap::EnvironmentCallFromU,
        Mode::Supervisor => Trap::EnvironmentCallFromS,
        Mode::Machine => Trap::EnvironmentCallFromM,
    }
}

} // verus!
