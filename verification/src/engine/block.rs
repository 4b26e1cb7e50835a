//! Basic blocks of pre-decoded instructions.

use crate::engine::microop::MicroOp;
use vstd::prelude::*;

verus! {

/// How many instructions a block holds at most.
pub const MAX_BLOCK_SIZE: usize = 64;

/// A straight run of instructions. The first `len` of `ops` belong to it.
#[derive(Clone)]
pub struct Block {
    pub start_pc: u64,
    pub start_pa: u64,
    pub len: u8,
    pub byte_len: u16,
    pub ops: [MicroOp; 64],
    pub exec_count: u32,
    pub generation: u32,
}

impl Block {
    /// The number of instructions does not exceed the room for them.
    pub open spec fn wf(&self) -> bool {
        self.len <= MAX_BLOCK_SIZE
    }

    /// The instructions of the block.
    pub open spec fn code(&self) -> Seq<MicroOp> {
        self.ops@.take(self.len as int)
    }

    /// A block without instructions.
    pub fn new(start_pc: u64, start_pa: u64, generation: u32) -> (block: Self)
        ensures
            block.wf(),
            block.start_pc == start_pc,
            block.start_pa == start_pa,
            block.generation == generation,
            block.byte_len == 0,
            block.exec_count == 0,
            block.code() == Seq::<MicroOp>::empty(),
    {
        let block = Self {
            start_pc,
            start_pa,
            len: 0,
            byte_len: 0,
            ops: [MicroOp::Fence; 64],
            exec_count: 0,
            generation,
        };
        assert(block.code() =~= Seq::<MicroOp>::empty());
        block
    }

    /// Appends an instruction of `insn_len` bytes where there is room for it, and says
    /// whether there was. The byte length is kept modulo 2^16.
    pub fn push(&mut self, op: MicroOp, insn_len: u8) -> (pushed: bool)
        requires
            old(self).wf(),
        ensures
            final(self).wf(),
            pushed == (old(self).len < MAX_BLOCK_SIZE),
            final(self).start_pc == old(self).start_pc,
            final(self).start_pa == old(self).start_pa,
            final(self).exec_count == old(self).exec_count,
            final(self).generation == old(self).generation,
            pushed ==> final(self).code() == old(self).code().push(op) && final(self).len
                == old(self).len + 1 && final(self).byte_len == old(self).byte_len.wrapping_add(
                insn_len as u16,
            ),
            !pushed ==> *final(self) == *old(self),
    {
        if self.len as usize >= MAX_BLOCK_SIZE {
            return false;
        }
        self.ops[self.len as usize] = op;
        self.len = self.len + 1;
        self.byte_len = self.byte_len.wrapping_add(insn_len as u16);
        assert(self.code() =~= old(self).code().push(op));
        true
    }

    /// The instructions of the block.
    pub fn ops(&self) -> (code: &[MicroOp])
        requires
            self.wf(),
        ensures
            code@ == self.code(),
    {
        vstd::slice::slice_subrange(self.ops.as_slice(), 0, self.len as usize)
    }
}

} // verus!
