//! Memory model: the 4096-byte address space, the sixteen 8-bit
//! general-purpose registers, the index register, the program counter and
//! the call stack, with bounds-checked reads and writes.

use vstd::pervasive::VecAdditionalExecFns;
use vstd::prelude::*;

verus! {

/// Number of general-purpose registers.
pub const REG_SIZE: usize = 0x10;

/// Size of the address space in bytes.
pub const MEM_SIZE: usize = 0x1000;

/// Width of one instruction in bytes.
pub const INSTRUCTION_SIZE: usize = 2;

/// The mathematical content of a `Memory`: the byte sequence of the
/// address space, the register file, the call stack, the program counter
/// and the index register.
pub ghost struct MemView {
    pub mem: Seq<u8>,
    pub reg: Seq<u8>,
    pub stack: Seq<u16>,
    pub pc: int,
    pub index: int,
}

/// The addressable state of the machine.
pub struct Memory {
    index: usize,
    pc: usize,
    stack: Vec<u16>,
    mem: Vec<u8>,
    reg: Vec<u8>,
}

impl View for Memory {
    type V = MemView;

    closed spec fn view(&self) -> MemView {
        MemView {
            mem: self.mem@,
            reg: self.reg@,
            stack: self.stack@,
            pc: self.pc as int,
            index: self.index as int,
        }
    }
}

/// The big-endian 16-bit word formed by two consecutive bytes.
pub open spec fn spec_word_be(b0: u8, b1: u8) -> u16 {
    (b0 * 256 + b1) as u16
}

/// What fetching at the program counter yields: the big-endian word at
/// `pc`, or nothing when the counter would read past the last valid
/// two-byte boundary (the normal program-end signal).
pub open spec fn spec_fetch(m: MemView) -> Option<u16> {
    if m.pc + INSTRUCTION_SIZE <= MEM_SIZE {
        Some(spec_word_be(m.mem[m.pc], m.mem[m.pc + 1]))
    } else {
        None
    }
}

/// Writing a two-byte instruction at an in-range program counter and then
/// fetching there returns exactly the big-endian word of those bytes.
pub proof fn lemma_load_fetch_roundtrip(m: MemView, b0: u8, b1: u8)
    requires
        m.mem.len() == MEM_SIZE,
        0 <= m.pc,
        m.pc + INSTRUCTION_SIZE <= MEM_SIZE,
    ensures
        spec_fetch(MemView { mem: m.mem.update(m.pc, b0).update(m.pc + 1, b1), ..m })
            == Some(spec_word_be(b0, b1)),
{
}

impl Memory {
    /// The structural invariant: the address space and the register file
    /// have their fixed sizes.
    pub open spec fn wf(&self) -> bool {
        &&& self@.mem.len() == MEM_SIZE
        &&& self@.reg.len() == REG_SIZE
    }

    /// A fresh machine: memory and registers all zero, empty call stack,
    /// index register zero, program counter at `program_start`.
    pub fn new(program_start: usize) -> (r: Self)
        ensures
            r.wf(),
            forall|i: int| 0 <= i < MEM_SIZE ==> r@.mem[i] == 0,
            forall|i: int| 0 <= i < REG_SIZE ==> r@.reg[i] == 0,
            r@.stack.len() == 0,
            r@.pc == program_start,
            r@.index == 0,
    {
        let mem: Vec<u8> = vec![0; MEM_SIZE];
        let reg: Vec<u8> = vec![0; REG_SIZE];
        let stack: Vec<u16> = Vec::new();
        Self { index: 0, mem, reg, stack, pc: program_start }
    }

    /// Fetch the big-endian instruction word at the program counter;
    /// `None` signals program end (the counter is past the last two-byte
    /// boundary), never an error.
    pub fn inst(&self) -> (r: Option<u16>)
        requires
            self.wf(),
        ensures
            r == spec_fetch(self@),
    {
        if self.pc > MEM_SIZE - INSTRUCTION_SIZE {
            return None;
        }
        let b0 = self.mem[self.pc];
        let b1 = self.mem[self.pc + 1];
        Some(b0 as u16 * 256 + b1 as u16)
    }

    /// Advance the program counter by one instruction width.
    pub fn move_to_next_inst(&mut self)
        requires
            old(self)@.pc + INSTRUCTION_SIZE <= usize::MAX,
        ensures
            final(self)@ == (MemView { pc: old(self)@.pc + INSTRUCTION_SIZE, ..old(self)@ }),
    {
        self.pc += INSTRUCTION_SIZE;
    }

    /// Rewind the program counter by one instruction width.
    pub fn move_to_last_inst(&mut self)
        requires
            old(self)@.pc >= INSTRUCTION_SIZE,
        ensures
            final(self)@ == (MemView { pc: old(self)@.pc - INSTRUCTION_SIZE, ..old(self)@ }),
    {
        self.pc -= INSTRUCTION_SIZE;
    }

    /// Redirect the program counter.
    pub fn set_pc(&mut self, new_pc: usize)
        ensures
            final(self)@ == (MemView { pc: new_pc as int, ..old(self)@ }),
    {
        self.pc = new_pc;
    }

    /// Push a return address onto the call stack.
    pub fn push_to_stack(&mut self, n: u16)
        ensures
            final(self)@ == (MemView { stack: old(self)@.stack.push(n), ..old(self)@ }),
    {
        self.stack.push(n)
    }

    /// Pop the most recently pushed return address; `None` when the stack
    /// is empty, in which case nothing changes.
    pub fn pop_from_stack(&mut self) -> (r: Option<u16>)
        ensures
            old(self)@.stack.len() == 0 ==> r is None && final(self)@ == old(self)@,
            old(self)@.stack.len() > 0 ==> {
                &&& r == Some(old(self)@.stack.last())
                &&& final(self)@ == (MemView {
                    stack: old(self)@.stack.drop_last(),
                    ..old(self)@
                })
            },
    {
        self.pop_from_stack_inner()
    }

    /// `Vec::pop`, with the view rebuilt for the contract above.
    fn pop_from_stack_inner(&mut self) -> (r: Option<u16>)
        ensures
            old(self)@.stack.len() == 0 ==> r is None && final(self)@ == old(self)@,
            old(self)@.stack.len() > 0 ==> {
                &&& r == Some(old(self)@.stack.last())
                &&& final(self)@ == (MemView {
                    stack: old(self)@.stack.drop_last(),
                    ..old(self)@
                })
            },
    {
        let r = self.stack.pop();
        proof {
            if old(self)@.stack.len() == 0 {
                assert(self@.stack =~= old(self)@.stack);
                assert(self@ =~= old(self)@);
            } else {
                assert(self@ =~= (MemView { stack: old(self)@.stack.drop_last(), ..old(self)@ }));
            }
        }
        r
    }

    /// Borrow the bytes of the half-open address range `r`.
    pub fn slice_from_mem(&self, r: core::ops::Range<usize>) -> (out: &[u8])
        requires
            self.wf(),
            r.start <= r.end,
            r.end <= MEM_SIZE,
        ensures
            out@ == self@.mem.subrange(r.start as int, r.end as int),
    {
        vstd::slice::slice_subrange(self.mem.as_slice(), r.start, r.end)
    }

    /// Overwrite the half-open address range `r` with the given bytes,
    /// which must fill it exactly; the rest of the space is untouched.
    pub fn set_mem_from_slice(&mut self, r: core::ops::Range<usize>, new_slice: &[u8])
        requires
            old(self).wf(),
            r.start <= r.end,
            r.end <= MEM_SIZE,
            new_slice@.len() == r.end - r.start,
        ensures
            final(self).wf(),
            final(self)@ == (MemView {
                mem: old(self)@.mem.subrange(0, r.start as int) + new_slice@
                    + old(self)@.mem.subrange(r.end as int, MEM_SIZE as int),
                ..old(self)@
            }),
    {
        let mut i: usize = r.start;
        while i < r.end
            invariant
                old(self).wf(),
                r.start <= i <= r.end,
                r.end <= MEM_SIZE,
                new_slice@.len() == r.end - r.start,
                self@.mem.len() == MEM_SIZE,
                self@.reg == old(self)@.reg,
                self@.stack == old(self)@.stack,
                self@.pc == old(self)@.pc,
                self@.index == old(self)@.index,
                forall|j: int| 0 <= j < r.start ==> self@.mem[j] == old(self)@.mem[j],
                forall|j: int| r.start <= j < i ==> self@.mem[j] == new_slice@[j - r.start],
                forall|j: int| i <= j < MEM_SIZE ==> self@.mem[j] == old(self)@.mem[j],
            decreases r.end - i,
        {
            let b = *vstd::slice::slice_index_get(new_slice, i - r.start);
            self.mem.set(i, b);
            i += 1;
        }
        proof {
            let expect = old(self)@.mem.subrange(0, r.start as int) + new_slice@
                + old(self)@.mem.subrange(r.end as int, MEM_SIZE as int);
            assert(self@.mem =~= expect);
            assert(self@ =~= (MemView { mem: expect, ..old(self)@ }));
        }
    }

    /// Point the index register at a new address.
    pub fn set_index(&mut self, new_index: usize)
        ensures
            final(self)@ == (MemView { index: new_index as int, ..old(self)@ }),
    {
        self.index = new_index;
    }

    /// The current value of the program counter.
    pub fn pc(&self) -> (r: usize)
        ensures
            r == self@.pc,
    {
        self.pc
    }

    /// The current value of the index register.
    pub fn index(&self) -> (r: usize)
        ensures
            r == self@.index,
    {
        self.index
    }

    /// A copy of the bytes from the index register to the end of the
    /// address space, in order: the source bytes a sprite draw reads.
    pub fn index_iter(&self) -> (r: Vec<u8>)
        requires
            self.wf(),
            self@.index <= MEM_SIZE,
        ensures
            r@ == self@.mem.skip(self@.index),
    {
        let mut out: Vec<u8> = Vec::new();
        let mut i: usize = self.index;
        while i < MEM_SIZE
            invariant
                self.wf(),
                self@.index <= i <= MEM_SIZE,
                out@ == self@.mem.subrange(self@.index, i as int),
            decreases MEM_SIZE - i,
        {
            let b = self.mem[i];
            out.push(b);
            proof {
                assert(out@ =~= self@.mem.subrange(self@.index, i + 1));
            }
            i += 1;
        }
        proof {
            assert(out@ =~= self@.mem.skip(self@.index));
        }
        out
    }

    /// Set register `i`.
    pub fn set_reg(&mut self, i: usize, new_val: u8)
        requires
            old(self).wf(),
            i < REG_SIZE,
        ensures
            final(self)@ == (MemView { reg: old(self)@.reg.update(i as int, new_val), ..old(self)@ }),
    {
        self.reg.set(i, new_val);
    }

    /// Read register `i`.
    pub fn reg(&self, i: usize) -> (r: u8)
        requires
            self.wf(),
            i < REG_SIZE,
        ensures
            r == self@.reg[i as int],
    {
        self.reg[i]
    }

    /// Borrow the whole address space.
    pub fn mem(&self) -> (r: &[u8])
        ensures
            r@ == self@.mem,
    {
        self.mem.as_slice()
    }
}

/// Read a big-endian 16-bit word from a two-byte slice.
pub fn u8_slice_to_u16_be(s: &[u8]) -> (r: u16)
    requires
        s@.len() == 2,
    ensures
        r == spec_word_be(s@[0], s@[1]),
{
    let b0 = *vstd::slice::slice_index_get(s, 0);
    let b1 = *vstd::slice::slice_index_get(s, 1);
    b0 as u16 * 256 + b1 as u16
}

} // verus!
