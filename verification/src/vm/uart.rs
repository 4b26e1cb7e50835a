//! A serial port with one byte-wide register.

use crate::vm::dram::MemoryError;
use std::collections::VecDeque;
use vstd::prelude::*;

verus! {

/// Bytes on their way to and from the machine, oldest first.
pub struct Uart {
    pub input: VecDeque<u8>,
    pub output: VecDeque<u8>,
}

impl Uart {
    pub fn new() -> (uart: Self)
        ensures
            uart.input@ == Seq::<u8>::empty(),
            uart.output@ == Seq::<u8>::empty(),
    {
        Self { input: VecDeque::new(), output: VecDeque::new() }
    }

    /// Takes the oldest input byte, or gives 0 where there is none. Only
    /// single-byte loads are taken.
    pub fn load(&mut self, offset: u64, size: u64) -> (r: Result<u64, MemoryError>)
        ensures
            final(self).output@ == old(self).output@,
            size != 1 ==> r == Err::<u64, MemoryError>(MemoryError::InvalidAlignment(offset))
                && final(self).input@ == old(self).input@,
            size == 1 && old(self).input@.len() == 0 ==> r == Ok::<u64, MemoryError>(0)
                && final(self).input@ == old(self).input@,
            size == 1 && old(self).input@.len() > 0 ==> r == Ok::<u64, MemoryError>(
                old(self).input@[0] as u64,
            ) && final(self).input@ == old(self).input@.skip(1),
    {
        if size != 1 {
            return Err(MemoryError::InvalidAlignment(offset));
        }
        match self.input.pop_front() {
            Some(byte) => {
                assert(self.input@ =~= old(self).input@.skip(1));
                Ok(byte as u64)
            },
            None => Ok(0),
        }
    }

    /// Appends the low-order byte of `value` to the output. Only single-byte
    /// stores are taken.
    pub fn store(&mut self, offset: u64, size: u64, value: u64) -> (r: Result<(), MemoryError>)
        ensures
            final(self).input@ == old(self).input@,
            size != 1 ==> r == Err::<(), MemoryError>(MemoryError::InvalidAlignment(offset))
                && final(self).output@ == old(self).output@,
            size == 1 ==> r == Ok::<(), MemoryError>(()) && final(self).output@
                == old(self).output@.push((value % 256) as u8),
    {
        if size != 1 {
            return Err(MemoryError::InvalidAlignment(offset));
        }
        self.output.push_back((value % 256) as u8);
        Ok(())
    }

    /// Hands a byte to the machine.
    pub fn push_input(&mut self, byte: u8)
        ensures
            final(self).input@ == old(self).input@.push(byte),
            final(self).output@ == old(self).output@,
    {
        self.input.push_back(byte);
    }

    /// Takes the oldest byte that the machine wrote.
    pub fn pop_output(&mut self) -> (r: Option<u8>)
        ensures
            final(self).input@ == old(self).input@,
            old(self).output@.len() == 0 ==> r is None && final(self).output@ == old(self).output@,
            old(self).output@.len() > 0 ==> r == Some(old(self).output@[0])
                && final(self).output@ == old(self).output@.skip(1),
    {
        let r = self.output.pop_front();
        assert(old(self).output@.len() > 0 ==> self.output@ =~= old(self).output@.skip(1));
        r
    }
}

} // verus!
