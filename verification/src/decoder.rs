//! Instruction decoder: a total, pure map from a 16-bit instruction word
//! to a tagged instruction variant.
//!
//! Dispatch is on the top 4 bits (the family nibble); within a family the
//! operand fields are extracted by fixed bit masking. Every word that
//! matches no known pattern decodes to `Unsupported`.

use vstd::prelude::*;

verus! {

/// One decoded instruction, carrying only the operand fields relevant to
/// its opcode family: register indices (`x`, `y`, always below 16),
/// 12-bit addresses (`nnn`), 8-bit immediates (`nn`) and nibble-sized row
/// counts (`n`).
#[derive(Debug, Clone, Copy, PartialEq, Eq, Structural)]
#[non_exhaustive]
pub enum Instruction {
    ClearScreen,
    Jump { nnn: usize },
    SetReg { x: usize, nn: usize },
    AddToReg { x: usize, nn: usize },
    SetIndex { nnn: usize },
    Display { x: usize, y: usize, n: usize },
    LeaveSubr,
    EnterSubr { nnn: usize },
    SkipIfEq { x: usize, nn: usize },
    SkipIfNEq { x: usize, nn: usize },
    SkipIfEqXY { x: usize, y: usize },
    SkipIfNEqXY { x: usize, y: usize },
    AddNNToX { x: usize, nn: usize },
    Unsupported,
}

/// The family nibble: bits 12..16 of the word.
pub open spec fn spec_family(w: u16) -> u16 {
    (w >> 12) & 0xF
}

/// The second nibble, bits 8..12: a register index `x`.
pub open spec fn spec_x(w: u16) -> u16 {
    (w >> 8) & 0xF
}

/// The third nibble, bits 4..8: a register index `y`.
pub open spec fn spec_y(w: u16) -> u16 {
    (w >> 4) & 0xF
}

/// The low nibble, bits 0..4: a row count `n`.
pub open spec fn spec_n(w: u16) -> u16 {
    w & 0xF
}

/// The low byte, bits 0..8: an 8-bit immediate `nn`.
pub open spec fn spec_nn(w: u16) -> u16 {
    w & 0xFF
}

/// The low three nibbles, bits 0..12: a 12-bit address `nnn`.
pub open spec fn spec_nnn(w: u16) -> u16 {
    w & 0xFFF
}

/// What `decode_chip8_instruction` returns for each word: the mathematical
/// statement of the decoding table.
pub open spec fn spec_decode(w: u16) -> Instruction {
    let x = spec_x(w) as usize;
    let y = spec_y(w) as usize;
    let n = spec_n(w) as usize;
    let nn = spec_nn(w) as usize;
    let nnn = spec_nnn(w) as usize;
    if spec_family(w) == 0x0 {
        if spec_nn(w) == 0xE0 {
            Instruction::ClearScreen
        } else if spec_nn(w) == 0xEE {
            Instruction::LeaveSubr
        } else {
            Instruction::Unsupported
        }
    } else if spec_family(w) == 0x1 {
        Instruction::Jump { nnn }
    } else if spec_family(w) == 0x2 {
        Instruction::EnterSubr { nnn }
    } else if spec_family(w) == 0x3 {
        Instruction::SkipIfEq { x, nn }
    } else if spec_family(w) == 0x4 {
        Instruction::SkipIfNEq { x, nn }
    } else if spec_family(w) == 0x5 {
        Instruction::SkipIfEqXY { x, y }
    } else if spec_family(w) == 0x6 {
        Instruction::SetReg { x, nn }
    } else if spec_family(w) == 0x7 {
        Instruction::AddToReg { x, nn }
    } else if spec_family(w) == 0x9 {
        Instruction::SkipIfNEqXY { x, y }
    } else if spec_family(w) == 0xA {
        Instruction::SetIndex { nnn }
    } else if spec_family(w) == 0xD {
        Instruction::Display { x, y, n }
    } else {
        Instruction::Unsupported
    }
}

/// Whether the word matches a known opcode pattern, i.e. decodes to
/// something other than `Unsupported`.
pub open spec fn spec_recognized(w: u16) -> bool {
    ||| (spec_family(w) == 0x0 && (spec_nn(w) == 0xE0 || spec_nn(w) == 0xEE))
    ||| spec_family(w) == 0x1
    ||| spec_family(w) == 0x2
    ||| spec_family(w) == 0x3
    ||| spec_family(w) == 0x4
    ||| spec_family(w) == 0x5
    ||| spec_family(w) == 0x6
    ||| spec_family(w) == 0x7
    ||| spec_family(w) == 0x9
    ||| spec_family(w) == 0xA
    ||| spec_family(w) == 0xD
}

/// Decoding is total: every 16-bit word maps to exactly one variant, and
/// the result is `Unsupported` exactly on the words that match no known
/// opcode pattern.
pub proof fn lemma_decode_total(w: u16)
    ensures
        spec_decode(w) is Unsupported <==> !spec_recognized(w),
{
}

/// The operand fields of any word are bounded by their widths: register
/// indices fit in a nibble, immediates in a byte, addresses in twelve
/// bits.
pub proof fn lemma_operand_bounds(w: u16)
    ensures
        spec_x(w) <= 0xF,
        spec_y(w) <= 0xF,
        spec_n(w) <= 0xF,
        spec_nn(w) <= 0xFF,
        spec_nnn(w) <= 0xFFF,
{
    assert((w >> 8) & 0xF <= 0xF && (w >> 4) & 0xF <= 0xF && w & 0xF <= 0xF && w & 0xFF <= 0xFF
        && w & 0xFFF <= 0xFFF) by (bit_vector);
}

/// Nibble `i` of the word, counted from the most significant end:
/// `nibble(0, w)` is the family nibble, `nibble(3, w)` the low nibble.
pub fn nibble(i: usize, w: u16) -> (r: u16)
    requires
        i <= 3,
    ensures
        i == 0 ==> r == spec_family(w),
        i == 1 ==> r == spec_x(w),
        i == 2 ==> r == spec_y(w),
        i == 3 ==> r == spec_n(w),
        r <= 0xF,
{
    let r = match i {
        0 => (w & 0xF000) >> 12,
        1 => (w & 0x0F00) >> 8,
        2 => (w & 0x00F0) >> 4,
        _ => w & 0x000F,
    };
    proof {
        assert((w & 0xF000) >> 12 == (w >> 12) & 0xF) by (bit_vector);
        assert((w & 0x0F00) >> 8 == (w >> 8) & 0xF) by (bit_vector);
        assert((w & 0x00F0) >> 4 == (w >> 4) & 0xF) by (bit_vector);
        assert((w >> 12) & 0xF <= 0xF && (w >> 8) & 0xF <= 0xF && (w >> 4) & 0xF <= 0xF
            && w & 0xF <= 0xF) by (bit_vector);
    }
    r
}

/// Byte `i` of the word, counted from the most significant end:
/// `byte(0, w)` is the high byte, `byte(1, w)` the low byte.
pub fn byte(i: usize, w: u16) -> (r: u16)
    requires
        i <= 1,
    ensures
        i == 0 ==> r == (w >> 8) & 0xFF,
        i == 1 ==> r == spec_nn(w),
        r <= 0xFF,
{
    let r = match i {
        0 => (w & 0xFF00) >> 8,
        _ => w & 0xFF,
    };
    proof {
        assert((w & 0xFF00) >> 8 == (w >> 8) & 0xFF) by (bit_vector);
        assert((w >> 8) & 0xFF <= 0xFF && w & 0xFF <= 0xFF) by (bit_vector);
    }
    r
}

/// The low three nibbles of the word: a 12-bit address.
pub fn three_nibbles(w: u16) -> (r: u16)
    ensures
        r == spec_nnn(w),
        r <= 0xFFF,
{
    proof {
        assert(w & 0xFFF <= 0xFFF) by (bit_vector);
    }
    w & 0xFFF
}

/// Decode one 16-bit instruction word. Total and pure: every input maps
/// to exactly one variant, with `Unsupported` as the catch-all.
pub fn decode_chip8_instruction(inst: u16) -> (r: Instruction)
    ensures
        r == spec_decode(inst),
{
    match nibble(0, inst) {
        0x0 => match byte(1, inst) {
            0xE0 => Instruction::ClearScreen,
            0xEE => Instruction::LeaveSubr,
            _ => Instruction::Unsupported,
        },
        0x1 => {
            let nnn = three_nibbles(inst) as usize;
            Instruction::Jump { nnn }
        }
        0x2 => {
            let nnn = three_nibbles(inst) as usize;
            Instruction::EnterSubr { nnn }
        }
        0x3 => {
            let x = nibble(1, inst) as usize;
            let nn = byte(1, inst) as usize;
            Instruction::SkipIfEq { x, nn }
        }
        0x4 => {
            let x = nibble(1, inst) as usize;
            let nn = byte(1, inst) as usize;
            Instruction::SkipIfNEq { x, nn }
        }
        0x5 => {
            let x = nibble(1, inst) as usize;
            let y = nibble(2, inst) as usize;
            Instruction::SkipIfEqXY { x, y }
        }
        0x6 => {
            let x = nibble(1, inst) as usize;
            let nn = byte(1, inst) as usize;
            Instruction::SetReg { x, nn }
        }
        0x7 => {
            let x = nibble(1, inst) as usize;
            let nn = byte(1, inst) as usize;
            Instruction::AddToReg { x, nn }
        }
        0x9 => {
            let x = nibble(1, inst) as usize;
            let y = nibble(2, inst) as usize;
            Instruction::SkipIfNEqXY { x, y }
        }
        0xA => {
            let nnn = three_nibbles(inst) as usize;
            Instruction::SetIndex { nnn }
        }
        0xD => {
            let x = nibble(1, inst) as usize;
            let y = nibble(2, inst) as usize;
            let n = nibble(3, inst) as usize;
            Instruction::Display { x, y, n }
        }
        _ => Instruction::Unsupported,
    }
}

} // verus!
