//! Execution engine: fetch at the program counter, decode, dispatch,
//! advance. One `step` performs one instruction and reports what
//! happened, so the embedder can render and decide when to stop.
//!
//! The engine's transition is stated once as a spec-level function on
//! views (`spec_dispatch`, `spec_outcome`) and `step` is proved to
//! implement it exactly.

use crate::decoder;
use crate::decoder::Instruction;
use crate::display;
use crate::display::{DisplayView, MonochromeDisplay};
use crate::mem;
use crate::mem::{MemView, Memory};
use crate::util::LimitedBitIter;
use vstd::prelude::*;
use vstd::string::StringExecFns;

verus! {

/// Address at which a program image is loaded and execution begins.
pub const PROGRAM_START: usize = 0x200;

/// Width of the pixel grid in cells.
pub const DISPLAY_WIDTH: u16 = 64;

/// Height of the pixel grid in cells.
pub const DISPLAY_HEIGHT: u16 = 32;

/// Pixels per sprite row: one byte, one bit per pixel.
pub const BYTE_LEN: usize = 8;

/// The mathematical content of an `Interpreter`: its memory and its
/// pixel grid.
pub ghost struct InterpView {
    pub mem: MemView,
    pub disp: DisplayView,
}

/// What one `step` of the engine did.
#[derive(Debug, Clone, Copy, PartialEq, Eq, Structural)]
pub enum StepOutcome {
    /// An instruction ran; the grid is untouched.
    Ran,
    /// A clear-screen instruction ran: every grid cell is now off and
    /// the embedder should clear its display sink.
    Cleared,
    /// A draw instruction ran: up to `rows` sprite rows were blitted at
    /// anchor column `x`, row `y`; the embedder should flush that
    /// rectangle to its display sink.
    Drew { x: usize, y: usize, rows: usize },
    /// Terminal: the program counter walked past the last fetchable
    /// instruction.
    ProgramEnd,
    /// Terminal: the fetched word decodes to no supported instruction.
    HaltedUnsupported { word: u16 },
    /// Terminal: a subroutine return found the call stack empty.
    StackUnderflow,
}

/// Why a program image could not be loaded.
#[derive(Debug, Clone, Copy, PartialEq, Eq, Structural)]
pub enum LoadError {
    /// The image does not fit between the load address and the end of
    /// the address space.
    ProgramTooLarge,
}

/// The interpreter: a memory and a pixel grid driven by the
/// fetch-decode-execute loop.
pub struct Interpreter {
    display: MonochromeDisplay,
    mem: Memory,
}

impl View for Interpreter {
    type V = InterpView;

    closed spec fn view(&self) -> InterpView {
        InterpView { mem: self.mem@, disp: self.display@ }
    }
}

/// The engine's invariant between instructions: fixed memory and
/// register sizes, the fixed grid dimensions, and an index register that
/// stays inside the address space (only 12-bit addresses can be written
/// to it).
pub open spec fn spec_inv(s: InterpView) -> bool {
    &&& s.mem.mem.len() == mem::MEM_SIZE
    &&& s.mem.reg.len() == mem::REG_SIZE
    &&& 0 <= s.mem.index <= 0xFFF
    &&& s.disp.width == DISPLAY_WIDTH
    &&& s.disp.height == DISPLAY_HEIGHT
    &&& s.disp.img.len() == s.disp.width * s.disp.height
}

/// The column a draw instruction anchors at: register `x`, wrapped to
/// the grid width.
pub open spec fn spec_anchor_x(s: InterpView, x: usize) -> int {
    s.mem.reg[x as int] as int % (DISPLAY_WIDTH as int)
}

/// The row a draw instruction anchors at: register `y`, wrapped to the
/// grid height.
pub open spec fn spec_anchor_y(s: InterpView, y: usize) -> int {
    s.mem.reg[y as int] as int % (DISPLAY_HEIGHT as int)
}

/// How many sprite bytes are actually available: `n`, cut to what lies
/// between the index register and the end of the address space.
pub open spec fn spec_sprite_avail(s: InterpView, n: int) -> int {
    if n <= mem::MEM_SIZE - s.mem.index {
        n
    } else {
        mem::MEM_SIZE - s.mem.index
    }
}

/// The sprite bytes a draw instruction reads: up to `n` consecutive
/// bytes starting at the index register.
pub open spec fn spec_sprite(s: InterpView, n: int) -> Seq<u8> {
    s.mem.mem.subrange(s.mem.index, s.mem.index + spec_sprite_avail(s, n))
}

/// The effect of a draw instruction: blit the sprite at the wrapped
/// anchor, clipped at the edges, and set register 15 to 1 exactly when
/// some cell flipped from on to off.
pub open spec fn spec_display_inst(s: InterpView, x: usize, y: usize, n: usize) -> InterpView {
    let ax = spec_anchor_x(s, x);
    let ay = spec_anchor_y(s, y);
    let sprite = spec_sprite(s, n as int);
    let ew = display::spec_clip(DISPLAY_WIDTH as int - ax, BYTE_LEN as int);
    let eh = display::spec_clip(
        DISPLAY_HEIGHT as int - ay,
        if sprite.len() < n {
            sprite.len() as int
        } else {
            n as int
        },
    );
    let collision = display::spec_collision(
        s.disp.img,
        DISPLAY_WIDTH as int,
        sprite,
        ax,
        ay,
        ew,
        eh,
    );
    InterpView {
        mem: MemView {
            reg: s.mem.reg.update(
                0xF,
                if collision {
                    1u8
                } else {
                    0u8
                },
            ),
            ..s.mem
        },
        disp: DisplayView {
            img: display::spec_blit(s.disp.img, DISPLAY_WIDTH as int, sprite, ax, ay, ew, eh),
            ..s.disp
        },
    }
}

/// The state after dispatching the word `w` from state `s`, where `s`
/// already has the program counter advanced past the fetched word.
pub open spec fn spec_dispatch(s: InterpView, w: u16) -> InterpView {
    match decoder::spec_decode(w) {
        Instruction::ClearScreen => InterpView {
            disp: DisplayView {
                img: Seq::new(s.disp.img.len(), |i: int| false),
                ..s.disp
            },
            ..s
        },
        Instruction::Jump { nnn } => InterpView {
            mem: MemView { pc: nnn as int, ..s.mem },
            ..s
        },
        Instruction::SetReg { x, nn } => InterpView {
            mem: MemView { reg: s.mem.reg.update(x as int, nn as u8), ..s.mem },
            ..s
        },
        Instruction::AddToReg { x, nn } => InterpView {
            mem: MemView {
                reg: s.mem.reg.update(x as int, ((s.mem.reg[x as int] + nn) % 256) as u8),
                ..s.mem
            },
            ..s
        },
        Instruction::AddNNToX { x, nn } => InterpView {
            mem: MemView {
                reg: s.mem.reg.update(x as int, ((s.mem.reg[x as int] + nn) % 256) as u8),
                ..s.mem
            },
            ..s
        },
        Instruction::SetIndex { nnn } => InterpView {
            mem: MemView { index: nnn as int, ..s.mem },
            ..s
        },
        Instruction::Display { x, y, n } => spec_display_inst(s, x, y, n),
        Instruction::LeaveSubr => if s.mem.stack.len() == 0 {
            s
        } else {
            InterpView {
                mem: MemView {
                    pc: s.mem.stack.last() as int,
                    stack: s.mem.stack.drop_last(),
                    ..s.mem
                },
                ..s
            }
        },
        Instruction::EnterSubr { nnn } => InterpView {
            mem: MemView {
                pc: nnn as int,
                stack: s.mem.stack.push(s.mem.pc as u16),
                ..s.mem
            },
            ..s
        },
        Instruction::SkipIfEq { x, nn } => if s.mem.reg[x as int] as int == nn as int {
            InterpView { mem: MemView { pc: s.mem.pc + 2, ..s.mem }, ..s }
        } else {
            s
        },
        Instruction::SkipIfNEq { x, nn } => if s.mem.reg[x as int] as int != nn as int {
            InterpView { mem: MemView { pc: s.mem.pc + 2, ..s.mem }, ..s }
        } else {
            s
        },
        Instruction::SkipIfEqXY { x, y } => if s.mem.reg[x as int] == s.mem.reg[y as int] {
            InterpView { mem: MemView { pc: s.mem.pc + 2, ..s.mem }, ..s }
        } else {
            s
        },
        Instruction::SkipIfNEqXY { x, y } => if s.mem.reg[x as int] != s.mem.reg[y as int] {
            InterpView { mem: MemView { pc: s.mem.pc + 2, ..s.mem }, ..s }
        } else {
            s
        },
        Instruction::Unsupported => s,
    }
}

/// What `step` reports after dispatching the word `w` from state `s`.
pub open spec fn spec_outcome(s: InterpView, w: u16) -> StepOutcome {
    match decoder::spec_decode(w) {
        Instruction::ClearScreen => StepOutcome::Cleared,
        Instruction::Display { x, y, n } => StepOutcome::Drew {
            x: spec_anchor_x(s, x) as usize,
            y: spec_anchor_y(s, y) as usize,
            rows: n,
        },
        Instruction::LeaveSubr => if s.mem.stack.len() == 0 {
            StepOutcome::StackUnderflow
        } else {
            StepOutcome::Ran
        },
        Instruction::Unsupported => StepOutcome::HaltedUnsupported { word: w },
        _ => StepOutcome::Ran,
    }
}

impl Interpreter {
    /// The engine's invariant, carried between steps.
    pub open spec fn wf(&self) -> bool {
        spec_inv(self@)
    }

    /// Build a machine with the program image loaded at the load
    /// address, the program counter there, registers, index register and
    /// call stack cleared, and an all-off grid. Fails exactly when the
    /// image does not fit in the remaining address space.
    pub fn try_new(program: &[u8]) -> (r: Result<Interpreter, LoadError>)
        ensures
            program@.len() <= mem::MEM_SIZE - PROGRAM_START ==> (r matches Ok(it) && {
                &&& it.wf()
                &&& it@.mem.pc == PROGRAM_START
                &&& it@.mem.index == 0
                &&& it@.mem.stack.len() == 0
                &&& forall|i: int| 0 <= i < mem::REG_SIZE ==> it@.mem.reg[i] == 0
                &&& forall|i: int|
                    0 <= i < program@.len() ==> it@.mem.mem[PROGRAM_START + i] == program@[i]
                &&& forall|i: int|
                    0 <= i < PROGRAM_START ==> it@.mem.mem[i] == 0
                &&& forall|i: int|
                    PROGRAM_START + program@.len() <= i < mem::MEM_SIZE ==> it@.mem.mem[i] == 0
                &&& forall|i: int| 0 <= i < it@.disp.img.len() ==> !it@.disp.img[i]
                &&& it@.disp.title == "CHIP8"@
            }),
            program@.len() > mem::MEM_SIZE - PROGRAM_START ==> (r matches Err(e) && e
                == LoadError::ProgramTooLarge),
    {
        if program.len() > mem::MEM_SIZE - PROGRAM_START {
            return Err(LoadError::ProgramTooLarge);
        }
        let mut m = Memory::new(PROGRAM_START);
        m.set_mem_from_slice(PROGRAM_START..PROGRAM_START + program.len(), program);
        let d = MonochromeDisplay::new(DISPLAY_WIDTH, DISPLAY_HEIGHT, String::from_str("CHIP8"));
        Ok(Self { display: d, mem: m })
    }

    /// Borrow the pixel grid compositor, e.g. to read cells or compute
    /// flush commands.
    pub fn screen(&self) -> (r: &MonochromeDisplay)
        ensures
            r@ == self@.disp,
    {
        &self.display
    }

    /// Borrow the memory, e.g. to read registers.
    pub fn memory(&self) -> (r: &Memory)
        ensures
            r@ == self@.mem,
    {
        &self.mem
    }

    /// Run the draw instruction `Display { x: vx, y: vy, n }`: anchor at
    /// registers `vx`, `vy` wrapped to the grid, blit up to `n` sprite
    /// rows read from the index register with XOR and edge clipping, and
    /// set register 15 to 1 exactly when a cell flipped from on to off
    /// (0 otherwise).
    pub fn display(&mut self, vx: usize, vy: usize, n: usize)
        requires
            old(self).wf(),
            vx < mem::REG_SIZE,
            vy < mem::REG_SIZE,
        ensures
            final(self).wf(),
            final(self)@ == spec_display_inst(old(self)@, vx, vy, n),
    {
        let ghost s0 = self@;
        let x = (self.mem.reg(vx) as usize) % (DISPLAY_WIDTH as usize);
        let y = (self.mem.reg(vy) as usize) % (DISPLAY_HEIGHT as usize);
        self.mem.set_reg(0xF, 0);
        let mut sprite_row_iter = LimitedBitIter::new(&self.mem, n);
        let mut sprite: Vec<u8> = Vec::new();
        loop
            invariant
                spec_inv(s0),
                sprite_row_iter@.bytes == s0.mem.mem.skip(s0.mem.index),
                sprite_row_iter@.n == n,
                0 <= sprite_row_iter@.curr <= n,
                sprite_row_iter@.curr <= sprite_row_iter@.bytes.len(),
                sprite@ == sprite_row_iter@.bytes.take(sprite_row_iter@.curr),
            ensures
                sprite_row_iter@.bytes == s0.mem.mem.skip(s0.mem.index),
                sprite@ == sprite_row_iter@.bytes.take(sprite_row_iter@.curr),
                sprite_row_iter@.curr == spec_sprite_avail(s0, n as int),
            decreases n - sprite_row_iter@.curr,
        {
            match sprite_row_iter.next() {
                Some(b) => {
                    sprite.push(b);
                    proof {
                        assert(sprite@ =~= sprite_row_iter@.bytes.take(sprite_row_iter@.curr));
                    }
                },
                None => {
                    proof {
                        assert(sprite_row_iter@.curr == n
                            || sprite_row_iter@.curr == sprite_row_iter@.bytes.len());
                        assert(sprite_row_iter@.bytes.len() == mem::MEM_SIZE - s0.mem.index);
                    }
                    break ;
                },
            }
        }
        proof {
            assert(sprite@ =~= spec_sprite(s0, n as int));
        }
        let collision = self.display.blit_sprite(x, y, &sprite, n);
        if collision {
            self.mem.set_reg(0xF, 1);
        }
        proof {
            let target = spec_display_inst(s0, vx, vy, n);
            assert(self@.mem.reg =~= target.mem.reg);
            assert(self@.mem == target.mem);
            assert(self@.disp == target.disp);
        }
    }

    /// One step of the engine: fetch the word at the program counter
    /// (report `ProgramEnd` if none is left), advance the counter, then
    /// decode and dispatch. The state afterwards is exactly
    /// `spec_dispatch` of the advanced state, and the report exactly
    /// `spec_outcome` of it.
    pub fn step(&mut self) -> (r: StepOutcome)
        requires
            old(self).wf(),
        ensures
            final(self).wf(),
            ({
                let s0 = old(self)@;
                match mem::spec_fetch(s0.mem) {
                    None => final(self)@ == s0 && r == StepOutcome::ProgramEnd,
                    Some(w) => {
                        let s1 = InterpView {
                            mem: MemView { pc: s0.mem.pc + mem::INSTRUCTION_SIZE, ..s0.mem },
                            ..s0
                        };
                        final(self)@ == spec_dispatch(s1, w) && r == spec_outcome(s1, w)
                    },
                }
            }),
    {
        let inst = match self.mem.inst() {
            Some(i) => i,
            None => {
                return StepOutcome::ProgramEnd;
            },
        };
        self.mem.move_to_next_inst();
        let ghost s1 = self@;
        proof {
            decoder::lemma_operand_bounds(inst);
        }
        match decoder::decode_chip8_instruction(inst) {
            Instruction::ClearScreen => {
                self.display.clear();
                proof {
                    assert(self@.disp.img =~= Seq::new(s1.disp.img.len(), |i: int| false));
                    assert(self@ == spec_dispatch(s1, inst));
                }
                StepOutcome::Cleared
            },
            Instruction::Jump { nnn } => {
                self.mem.set_pc(nnn);
                StepOutcome::Ran
            },
            Instruction::SetReg { x, nn } => {
                self.mem.set_reg(x, nn as u8);
                StepOutcome::Ran
            },
            Instruction::AddToReg { x, nn } => {
                let t = self.mem.reg(x);
                self.mem.set_reg(x, ((t as usize + nn) % 256) as u8);
                StepOutcome::Ran
            },
            Instruction::AddNNToX { x, nn } => {
                let t = self.mem.reg(x);
                self.mem.set_reg(x, ((t as usize + nn) % 256) as u8);
                StepOutcome::Ran
            },
            Instruction::SetIndex { nnn } => {
                self.mem.set_index(nnn);
                StepOutcome::Ran
            },
            Instruction::Display { x, y, n } => {
                let ax = (self.mem.reg(x) as usize) % (DISPLAY_WIDTH as usize);
                let ay = (self.mem.reg(y) as usize) % (DISPLAY_HEIGHT as usize);
                self.display(x, y, n);
                StepOutcome::Drew { x: ax, y: ay, rows: n }
            },
            Instruction::LeaveSubr => {
                match self.mem.pop_from_stack() {
                    None => StepOutcome::StackUnderflow,
                    Some(addr) => {
                        self.mem.set_pc(addr as usize);
                        StepOutcome::Ran
                    },
                }
            },
            Instruction::EnterSubr { nnn } => {
                let ret = self.mem.pc();
                self.mem.push_to_stack(ret as u16);
                self.mem.set_pc(nnn);
                StepOutcome::Ran
            },
            Instruction::SkipIfEq { x, nn } => {
                if self.mem.reg(x) as usize == nn {
                    self.mem.move_to_next_inst();
                }
                StepOutcome::Ran
            },
            Instruction::SkipIfNEq { x, nn } => {
                if self.mem.reg(x) as usize != nn {
                    self.mem.move_to_next_inst();
                }
                StepOutcome::Ran
            },
            Instruction::SkipIfEqXY { x, y } => {
                if self.mem.reg(x) == self.mem.reg(y) {
                    self.mem.move_to_next_inst();
                }
                StepOutcome::Ran
            },
            Instruction::SkipIfNEqXY { x, y } => {
                if self.mem.reg(x) != self.mem.reg(y) {
                    self.mem.move_to_next_inst();
                }
                StepOutcome::Ran
            },
            Instruction::Unsupported => StepOutcome::HaltedUnsupported { word: inst },
        }
    }
}

} // verus!
