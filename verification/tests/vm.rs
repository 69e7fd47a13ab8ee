//! Tests for the decoder, the memory model, the compositor and the
//! execution engine, run against the compiled library.

use chip8::decoder::{decode_chip8_instruction, nibble, byte, three_nibbles, Instruction};
use chip8::display::MonochromeDisplay;
use chip8::interpreter::{Interpreter, LoadError, StepOutcome};
use chip8::mem::{u8_slice_to_u16_be, Memory};
use chip8::util::{LimitedBitIter, RowIter};

const W: usize = 64;
const H: usize = 32;

fn grid() -> MonochromeDisplay {
    MonochromeDisplay::new(64, 32, String::from("test"))
}

// ---- decoder ----

#[test]
fn decode_is_total_and_unsupported_is_exact() {
    for w in 0u32..=0xFFFF {
        let w = w as u16;
        let got = decode_chip8_instruction(w);
        let family = w >> 12;
        let low_byte = w & 0xFF;
        let recognized = match family {
            0x0 => low_byte == 0xE0 || low_byte == 0xEE,
            0x1 | 0x2 | 0x3 | 0x4 | 0x5 | 0x6 | 0x7 | 0x9 | 0xA | 0xD => true,
            _ => false,
        };
        assert_eq!(
            !matches!(got, Instruction::Unsupported),
            recognized,
            "word {w:#06x}"
        );
    }
}

#[test]
fn decode_literal_cases() {
    assert_eq!(decode_chip8_instruction(0x00E0), Instruction::ClearScreen);
    assert_eq!(decode_chip8_instruction(0x00EE), Instruction::LeaveSubr);
    assert_eq!(
        decode_chip8_instruction(0x1ABC),
        Instruction::Jump { nnn: 0xABC }
    );
    assert_eq!(
        decode_chip8_instruction(0x63FF),
        Instruction::SetReg { x: 3, nn: 0xFF }
    );
    assert_eq!(
        decode_chip8_instruction(0xA123),
        Instruction::SetIndex { nnn: 0x123 }
    );
    assert_eq!(
        decode_chip8_instruction(0xD015),
        Instruction::Display { x: 0, y: 1, n: 5 }
    );
}

#[test]
fn decode_more_families() {
    assert_eq!(
        decode_chip8_instruction(0x2345),
        Instruction::EnterSubr { nnn: 0x345 }
    );
    assert_eq!(
        decode_chip8_instruction(0x3A7F),
        Instruction::SkipIfEq { x: 0xA, nn: 0x7F }
    );
    assert_eq!(
        decode_chip8_instruction(0x4A7F),
        Instruction::SkipIfNEq { x: 0xA, nn: 0x7F }
    );
    assert_eq!(
        decode_chip8_instruction(0x5120),
        Instruction::SkipIfEqXY { x: 1, y: 2 }
    );
    assert_eq!(
        decode_chip8_instruction(0x9120),
        Instruction::SkipIfNEqXY { x: 1, y: 2 }
    );
    assert_eq!(
        decode_chip8_instruction(0x7102),
        Instruction::AddToReg { x: 1, nn: 2 }
    );
    assert!(matches!(
        decode_chip8_instruction(0x8123),
        Instruction::Unsupported
    ));
    assert!(matches!(
        decode_chip8_instruction(0x00FF),
        Instruction::Unsupported
    ));
}

#[test]
fn nibble_and_byte_helpers() {
    let w = 0xD2A7u16;
    assert_eq!(nibble(0, w), 0xD);
    assert_eq!(nibble(1, w), 0x2);
    assert_eq!(nibble(2, w), 0xA);
    assert_eq!(nibble(3, w), 0x7);
    assert_eq!(byte(0, w), 0xD2);
    assert_eq!(byte(1, w), 0xA7);
    assert_eq!(three_nibbles(w), 0x2A7);
}

// ---- memory ----

#[test]
fn load_fetch_roundtrip() {
    let mut m = Memory::new(0x200);
    m.set_mem_from_slice(0x200..0x202, &[0x61, 0x02]);
    assert_eq!(m.inst(), Some(0x6102));
}

#[test]
fn fetch_past_end_is_none() {
    let mut m = Memory::new(0x200);
    m.set_pc(0xFFF);
    assert_eq!(m.inst(), None);
    m.set_pc(0xFFE);
    assert_eq!(m.inst(), Some(0));
}

#[test]
fn pc_moves() {
    let mut m = Memory::new(0x200);
    m.move_to_next_inst();
    assert_eq!(m.pc(), 0x202);
    m.move_to_last_inst();
    assert_eq!(m.pc(), 0x200);
}

#[test]
fn stack_push_pop() {
    let mut m = Memory::new(0x200);
    assert_eq!(m.pop_from_stack(), None);
    m.push_to_stack(0x204);
    m.push_to_stack(0x300);
    assert_eq!(m.pop_from_stack(), Some(0x300));
    assert_eq!(m.pop_from_stack(), Some(0x204));
    assert_eq!(m.pop_from_stack(), None);
}

#[test]
fn registers_read_write() {
    let mut m = Memory::new(0x200);
    for i in 0..16 {
        assert_eq!(m.reg(i), 0);
    }
    m.set_reg(3, 0xAB);
    assert_eq!(m.reg(3), 0xAB);
    assert_eq!(m.reg(4), 0);
}

#[test]
fn mem_slices() {
    let mut m = Memory::new(0x200);
    m.set_mem_from_slice(0x10..0x14, &[1, 2, 3, 4]);
    assert_eq!(m.slice_from_mem(0x10..0x14), &[1, 2, 3, 4]);
    assert_eq!(m.slice_from_mem(0x0F..0x11), &[0, 1]);
    assert_eq!(m.mem().len(), 0x1000);
    assert_eq!(m.mem()[0x12], 3);
}

#[test]
fn index_register_and_iter() {
    let mut m = Memory::new(0x200);
    m.set_mem_from_slice(0xFFC..0x1000, &[9, 8, 7, 6]);
    m.set_index(0xFFC);
    assert_eq!(m.index(), 0xFFC);
    assert_eq!(m.index_iter(), vec![9, 8, 7, 6]);
}

#[test]
fn be_word_from_slice() {
    assert_eq!(u8_slice_to_u16_be(&[0x12, 0x34]), 0x1234);
    assert_eq!(u8_slice_to_u16_be(&[0x00, 0xFF]), 0x00FF);
}

// ---- iteration utilities ----

#[test]
fn row_iter_yields_row_ranges() {
    let mut it = RowIter::new(4, 64, 60, 2, 3);
    assert_eq!(it.next(), Some(2 * 64 + 60..2 * 64 + 64));
    assert_eq!(it.next(), Some(3 * 64 + 60..3 * 64 + 64));
    assert_eq!(it.next(), Some(4 * 64 + 60..4 * 64 + 64));
    assert_eq!(it.next(), None);
    assert_eq!(it.next(), None);
}

#[test]
fn limited_bit_iter_stops_at_bound() {
    let mut m = Memory::new(0x200);
    m.set_mem_from_slice(0x300..0x303, &[0xAA, 0xBB, 0xCC]);
    m.set_index(0x300);
    let mut it = LimitedBitIter::new(&m, 2);
    assert_eq!(it.next(), Some(0xAA));
    assert_eq!(it.next(), Some(0xBB));
    assert_eq!(it.next(), None);
}

#[test]
fn limited_bit_iter_short_when_source_exhausted() {
    let mut m = Memory::new(0x200);
    m.set_mem_from_slice(0xFFE..0x1000, &[0x11, 0x22]);
    m.set_index(0xFFE);
    let mut it = LimitedBitIter::new(&m, 5);
    assert_eq!(it.next(), Some(0x11));
    assert_eq!(it.next(), Some(0x22));
    assert_eq!(it.next(), None);
}

// ---- compositor ----

#[test]
fn display_basics() {
    let d = grid();
    assert_eq!(d.dimensions(), (64, 32));
    assert_eq!(d.title().as_str(), "test");
    assert_eq!(d.img().len(), W * H);
    assert!(d.img().iter().all(|p| !p));
}

#[test]
fn blit_draws_msb_first() {
    let mut d = grid();
    // One row: 0b1010_0000 at the origin.
    let coll = d.blit_sprite(0, 0, &vec![0xA0], 1);
    assert!(!coll);
    let img = d.img();
    assert!(img[0]);
    assert!(!img[1]);
    assert!(img[2]);
    for c in 3..W {
        assert!(!img[c]);
    }
    for c in 0..W {
        assert!(!img[W + c]);
    }
}

#[test]
fn blit_clips_at_right_edge() {
    let mut d = grid();
    let sprite = vec![0xFF; 8];
    d.blit_sprite(60, 0, &sprite, 8);
    let img = d.img();
    for r in 0..8 {
        // Exactly the four columns before the edge are set...
        for c in 60..64 {
            assert!(img[r * W + c], "row {r} col {c}");
        }
        // ...and nothing wrapped to the left side of the row.
        for c in 0..60 {
            assert!(!img[r * W + c], "row {r} col {c}");
        }
    }
    for c in 0..W {
        assert!(!img[8 * W + c]);
    }
}

#[test]
fn blit_clips_at_bottom_edge() {
    let mut d = grid();
    let sprite = vec![0xFF; 8];
    d.blit_sprite(0, 30, &sprite, 8);
    let img = d.img();
    for r in 30..32 {
        for c in 0..8 {
            assert!(img[r * W + c]);
        }
    }
    // Nothing wrapped to the top rows.
    for r in 0..30 {
        for c in 0..W {
            assert!(!img[r * W + c]);
        }
    }
}

#[test]
fn double_blit_restores_grid() {
    let mut d = grid();
    // Start from a non-trivial grid.
    d.blit_sprite(5, 5, &vec![0x3C, 0x42, 0x81], 3);
    let before: Vec<bool> = d.img().to_vec();
    let sprite = vec![0x18, 0x24, 0x42, 0x81];
    let first = d.blit_sprite(4, 4, &sprite, 4);
    let second = d.blit_sprite(4, 4, &sprite, 4);
    assert_eq!(d.img(), &before[..]);
    // The first draw turned cells on; the second finds them on and must
    // report the collision.
    assert!(!first || second);
    assert!(second);
}

#[test]
fn collision_independent_of_overlap_position() {
    // The overlap is a single already-on cell; wherever it lies in the
    // sprite rectangle, the flag must come out set.
    for (r, c) in [(0usize, 0usize), (0, 7), (1, 3), (7, 0), (7, 7)] {
        let mut d = grid();
        let point = vec![0x80u8]; // one pixel
        d.blit_sprite(10 + c, 10 + r, &point, 1);
        let sprite = vec![0xFF; 8];
        let coll = d.blit_sprite(10, 10, &sprite, 8);
        assert!(coll, "overlap at row {r} col {c} lost");
    }
}

#[test]
fn no_collision_when_nothing_turns_off() {
    let mut d = grid();
    d.blit_sprite(0, 0, &vec![0xF0], 1);
    // Disjoint bits in the same row: no cell flips off.
    let coll = d.blit_sprite(0, 0, &vec![0x0F], 1);
    assert!(!coll);
    for c in 0..8 {
        assert!(d.img()[c]);
    }
}

#[test]
fn clear_turns_everything_off() {
    let mut d = grid();
    d.blit_sprite(12, 3, &vec![0xFF, 0xFF], 2);
    d.clear();
    assert!(d.img().iter().all(|p| !p));
    assert_eq!(d.dimensions(), (64, 32));
}

#[test]
fn draw_commands_cover_clipped_rectangle() {
    let mut d = grid();
    d.blit_sprite(60, 30, &vec![0xFF, 0xFF], 2);
    let cmds = d.draw(60, 30, 8, 2);
    assert_eq!(cmds.len(), 2 * 4);
    let mut k = 0;
    for r in 0..2 {
        for c in 0..4 {
            assert_eq!(cmds[k], (30 + r, 60 + c, true));
            k += 1;
        }
    }
    // A rectangle over untouched cells reports them off.
    let cmds = d.draw(0, 0, 2, 2);
    assert_eq!(
        cmds,
        vec![(0, 0, false), (0, 1, false), (1, 0, false), (1, 1, false)]
    );
}

// ---- engine ----

#[test]
fn program_too_large_is_rejected() {
    let image = vec![0u8; 0xE01];
    assert!(matches!(
        Interpreter::try_new(&image),
        Err(LoadError::ProgramTooLarge)
    ));
    let image = vec![0u8; 0xE00];
    assert!(Interpreter::try_new(&image).is_ok());
}

#[test]
fn two_sets_then_halt_on_unsupported() {
    let program = [0x60, 0x05, 0x61, 0x03, 0xFF, 0xFF];
    let mut it = Interpreter::try_new(&program).unwrap();
    assert_eq!(it.step(), StepOutcome::Ran);
    assert_eq!(it.memory().reg(0), 5);
    assert_eq!(it.step(), StepOutcome::Ran);
    assert_eq!(it.memory().reg(1), 3);
    assert_eq!(
        it.step(),
        StepOutcome::HaltedUnsupported { word: 0xFFFF }
    );
    // No further mutation beyond the advanced counter.
    assert_eq!(it.memory().reg(0), 5);
    assert_eq!(it.memory().reg(1), 3);
    assert_eq!(it.memory().pc(), 0x206);
}

#[test]
fn clear_screen_empties_grid_and_keeps_registers() {
    // Point the index at a sprite byte inside the image, draw one row,
    // then clear.
    let program = [0xA2, 0x06, 0xD0, 0x01, 0x00, 0xE0, 0xFF, 0xFF];
    let mut it = Interpreter::try_new(&program).unwrap();
    assert_eq!(it.step(), StepOutcome::Ran);
    assert_eq!(it.step(), StepOutcome::Drew { x: 0, y: 0, rows: 1 });
    assert!(it.screen().img().iter().any(|p| *p));
    let regs_before: Vec<u8> = (0..16).map(|i| it.memory().reg(i)).collect();
    assert_eq!(it.step(), StepOutcome::Cleared);
    assert!(it.screen().img().iter().all(|p| !p));
    let regs_after: Vec<u8> = (0..16).map(|i| it.memory().reg(i)).collect();
    assert_eq!(regs_before, regs_after);
    assert_eq!(it.step(), StepOutcome::HaltedUnsupported { word: 0xFFFF });
}

#[test]
fn program_end_when_counter_runs_out() {
    let mut it = Interpreter::try_new(&[]).unwrap();
    // 0x0000 decodes to Unsupported, so jump to the very end instead.
    // An empty image leaves memory all zero: force the counter past the
    // last boundary with a jump.
    let program = [0x1F, 0xFF];
    let mut it2 = Interpreter::try_new(&program).unwrap();
    assert_eq!(it2.step(), StepOutcome::Ran);
    assert_eq!(it2.memory().pc(), 0xFFF);
    assert_eq!(it2.step(), StepOutcome::ProgramEnd);
    assert_eq!(it2.memory().pc(), 0xFFF);
    // And an untouched zero image halts on the unsupported word 0x0000.
    assert_eq!(it.step(), StepOutcome::HaltedUnsupported { word: 0 });
}

#[test]
fn jump_sets_counter() {
    let program = [0x12, 0x34];
    let mut it = Interpreter::try_new(&program).unwrap();
    assert_eq!(it.step(), StepOutcome::Ran);
    assert_eq!(it.memory().pc(), 0x234);
}

#[test]
fn add_to_reg_wraps() {
    let program = [0x60, 0xFF, 0x70, 0x02];
    let mut it = Interpreter::try_new(&program).unwrap();
    it.step();
    it.step();
    assert_eq!(it.memory().reg(0), 1);
}

#[test]
fn subroutine_enter_and_leave() {
    let program = [0x22, 0x08, 0xFF, 0xFF, 0xFF, 0xFF, 0xFF, 0xFF, 0x00, 0xEE];
    let mut it = Interpreter::try_new(&program).unwrap();
    assert_eq!(it.step(), StepOutcome::Ran);
    assert_eq!(it.memory().pc(), 0x208);
    assert_eq!(it.step(), StepOutcome::Ran);
    assert_eq!(it.memory().pc(), 0x202);
}

#[test]
fn leave_with_empty_stack_underflows() {
    let program = [0x00, 0xEE];
    let mut it = Interpreter::try_new(&program).unwrap();
    assert_eq!(it.step(), StepOutcome::StackUnderflow);
    assert_eq!(it.memory().pc(), 0x202);
}

#[test]
fn skip_instructions() {
    // SkipIfEq taken: reg0 == 0.
    let mut it = Interpreter::try_new(&[0x30, 0x00]).unwrap();
    it.step();
    assert_eq!(it.memory().pc(), 0x204);
    // SkipIfEq not taken.
    let mut it = Interpreter::try_new(&[0x30, 0x01]).unwrap();
    it.step();
    assert_eq!(it.memory().pc(), 0x202);
    // SkipIfNEq taken.
    let mut it = Interpreter::try_new(&[0x40, 0x01]).unwrap();
    it.step();
    assert_eq!(it.memory().pc(), 0x204);
    // SkipIfEqXY taken (both registers zero).
    let mut it = Interpreter::try_new(&[0x51, 0x20]).unwrap();
    it.step();
    assert_eq!(it.memory().pc(), 0x204);
    // SkipIfNEqXY not taken.
    let mut it = Interpreter::try_new(&[0x91, 0x20]).unwrap();
    it.step();
    assert_eq!(it.memory().pc(), 0x202);
}

#[test]
fn draw_collision_sets_and_resets_flag() {
    // Draw the same sprite twice at the same anchor: the first draw
    // cannot collide, the second must; a third leaves an empty overlap
    // and resets the flag.
    let program = [
        0xA2, 0x0A, // index at 0x20A
        0x60, 0x3C, // reg0 = 60: anchor column near the edge
        0xD0, 0x12, // draw 2 rows at (60, 0)
        0xD0, 0x12, // draw again: every drawn cell collides
        0xD0, 0x12, // draw a third time onto an empty rectangle
        0xFF, 0xC3, // sprite rows (also the halt word)
    ];
    let mut it = Interpreter::try_new(&program).unwrap();
    assert_eq!(it.step(), StepOutcome::Ran);
    assert_eq!(it.step(), StepOutcome::Ran);
    assert_eq!(it.step(), StepOutcome::Drew { x: 60, y: 0, rows: 2 });
    assert_eq!(it.memory().reg(0xF), 0);
    // Clipping: columns 60..64 of rows 0 and 1 only.
    assert!(it.screen().img()[60] && it.screen().img()[63]);
    assert!(it.screen().img()[W + 60] && it.screen().img()[W + 61]);
    assert!(!it.screen().img()[W + 62] && !it.screen().img()[W + 63]);
    assert!(!it.screen().img()[0]);
    assert_eq!(it.step(), StepOutcome::Drew { x: 60, y: 0, rows: 2 });
    assert_eq!(it.memory().reg(0xF), 1);
    assert!(it.screen().img().iter().all(|p| !p));
    assert_eq!(it.step(), StepOutcome::Drew { x: 60, y: 0, rows: 2 });
    assert_eq!(it.memory().reg(0xF), 0);
}

#[test]
fn draw_reads_sprite_short_when_memory_ends() {
    // Index near the end of the address space: only two bytes remain,
    // so a five-row draw paints two rows.
    let program = [0xAF, 0xFE, 0xD0, 0x05, 0xFF, 0xFF];
    let mut it = Interpreter::try_new(&program).unwrap();
    assert_eq!(it.step(), StepOutcome::Ran);
    assert_eq!(it.step(), StepOutcome::Drew { x: 0, y: 0, rows: 5 });
    // Memory at 0xFFE..0x1000 is zero, so nothing lit; the draw still
    // terminates cleanly and the flag is clear.
    assert!(it.screen().img().iter().all(|p| !p));
    assert_eq!(it.memory().reg(0xF), 0);
}

#[test]
fn display_method_uses_registers_mod_grid() {
    // Registers beyond the grid wrap: 70 % 64 = 6, 35 % 32 = 3.
    let program = [
        0x60, 0x46, // reg0 = 70
        0x61, 0x23, // reg1 = 35
        0xA2, 0x08, // index at the sprite byte
        0xD0, 0x11, // draw 1 row anchored at (reg0, reg1)
        0x80, 0x00, // sprite row 0x80 (also an unsupported word)
    ];
    let mut it = Interpreter::try_new(&program).unwrap();
    it.step();
    it.step();
    it.step();
    assert_eq!(it.step(), StepOutcome::Drew { x: 6, y: 3, rows: 1 });
    assert!(it.screen().img()[3 * W + 6]);
    assert_eq!(it.screen().img().iter().filter(|p| **p).count(), 1);
}
