//! Sprite drawing, clearing and the framebuffer-changed flag.

use chip8::cycle::Fault;
use chip8::state::Cpu;

fn boot(program: Vec<u8>) -> Cpu {
    let mut cpu = Cpu::new();
    cpu.load(&program);
    cpu
}

fn run(cpu: &mut Cpu, cycles: usize) {
    for _ in 0..cycles {
        assert_eq!(cpu.emulate_cycle(), Ok(()));
    }
}

fn cell(cpu: &Cpu, row: usize, col: usize) -> u8 {
    cpu.frame_buffer[row * 64 + col]
}

#[test]
fn draw_glyph_zero_then_redraw_erases() {
    // point I at the font glyph for digit 0, draw it at (0, 0) twice
    let mut cpu = boot(vec![
        0x60, 0x00, // V0 = 0
        0xF0, 0x29, // I = glyph address for digit V0
        0xD0, 0x05, // draw 5 rows at (V0, V0)
        0xD0, 0x05, // draw the same sprite again
    ]);
    run(&mut cpu, 3);
    // no collision on a blank screen
    assert_eq!(cpu.v[15], 0);
    assert!(cpu.frame_buffer_updated);
    // the glyph bitmap: 0xF0, 0x90, 0x90, 0x90, 0xF0
    let glyph: [u8; 5] = [0xF0, 0x90, 0x90, 0x90, 0xF0];
    for (row, bits) in glyph.iter().enumerate() {
        for col in 0..8 {
            let expected = (bits >> (7 - col)) & 1;
            assert_eq!(cell(&cpu, row, col), expected);
        }
    }
    // every other cell stays unlit
    for p in 0..2048 {
        let row = p / 64;
        let col = p % 64;
        if row >= 5 || col >= 8 {
            assert_eq!(cpu.frame_buffer[p], 0);
        }
    }
    // the identical sprite erases itself: full collision, blank screen
    run(&mut cpu, 1);
    assert_eq!(cpu.v[15], 1);
    assert!(cpu.frame_buffer_updated);
    assert!(cpu.frame_buffer.iter().all(|&c| c == 0));
}

#[test]
fn sprite_wraps_around_the_right_edge() {
    let mut cpu = boot(vec![
        0x60, 63, // V0 = 63 (column)
        0x61, 0, // V1 = 0 (row)
        0xA3, 0x00, // I = 0x300
        0xD0, 0x11, // draw 1 row at (V0, V1)
    ]);
    cpu.memory[0x300] = 0xFF;
    run(&mut cpu, 4);
    assert_eq!(cell(&cpu, 0, 63), 1);
    for col in 0..7 {
        assert_eq!(cell(&cpu, 0, col), 1);
    }
    for col in 7..63 {
        assert_eq!(cell(&cpu, 0, col), 0);
    }
}

#[test]
fn sprite_wraps_around_the_bottom_edge() {
    let mut cpu = boot(vec![
        0x60, 0, // V0 = 0 (column)
        0x61, 31, // V1 = 31 (row)
        0xA3, 0x00, // I = 0x300
        0xD0, 0x12, // draw 2 rows at (V0, V1)
    ]);
    cpu.memory[0x300] = 0x80;
    cpu.memory[0x301] = 0x80;
    run(&mut cpu, 4);
    assert_eq!(cell(&cpu, 31, 0), 1);
    assert_eq!(cell(&cpu, 0, 0), 1);
    assert_eq!(cell(&cpu, 1, 0), 0);
}

#[test]
fn coordinates_reduce_modulo_grid_size() {
    // (64 + 3, 32 + 2) lands on (3, 2)
    let mut cpu = boot(vec![0x60, 67, 0x61, 34, 0xA3, 0x00, 0xD0, 0x11]);
    cpu.memory[0x300] = 0x80;
    run(&mut cpu, 4);
    assert_eq!(cell(&cpu, 2, 3), 1);
}

#[test]
fn partial_overlap_collides_and_toggles() {
    let mut cpu = boot(vec![
        0x60, 0, 0xA3, 0x00, 0xD0, 0x01, // draw 0b11000000 at (0, 0)
        0xA3, 0x01, 0xD0, 0x01, // draw 0b01100000 at (0, 0)
    ]);
    cpu.memory[0x300] = 0b1100_0000;
    cpu.memory[0x301] = 0b0110_0000;
    run(&mut cpu, 3);
    assert_eq!(cpu.v[15], 0);
    run(&mut cpu, 2);
    // cell 1 toggled off (collision), cells 0 and 2 lit
    assert_eq!(cpu.v[15], 1);
    assert_eq!(cell(&cpu, 0, 0), 1);
    assert_eq!(cell(&cpu, 0, 1), 0);
    assert_eq!(cell(&cpu, 0, 2), 1);
}

#[test]
fn clear_screen_blanks_and_flags_once() {
    let mut cpu = boot(vec![
        0x60, 0, 0xA3, 0x00, 0xD0, 0x01, // light something
        0x00, 0xE0, // clear
        0x61, 0x07, // an ordinary instruction
    ]);
    cpu.memory[0x300] = 0xFF;
    run(&mut cpu, 3);
    assert!(cpu.frame_buffer.iter().any(|&c| c == 1));
    run(&mut cpu, 1);
    assert!(cpu.frame_buffer.iter().all(|&c| c == 0));
    assert!(cpu.frame_buffer_updated);
    // changed only for the cycle that cleared: the next cycle resets it
    run(&mut cpu, 1);
    assert!(!cpu.frame_buffer_updated);
}

#[test]
fn zero_row_sprite_draws_nothing_but_flags_change() {
    let mut cpu = boot(vec![0x60, 0, 0xD0, 0x00]);
    cpu.v[15] = 1;
    run(&mut cpu, 2);
    assert!(cpu.frame_buffer.iter().all(|&c| c == 0));
    assert_eq!(cpu.v[15], 0);
    assert!(cpu.frame_buffer_updated);
}

#[test]
fn draw_reading_past_memory_faults() {
    let mut cpu = boot(vec![0x60, 0, 0xD0, 0x02]);
    cpu.i = 4095;
    run(&mut cpu, 1);
    assert_eq!(cpu.emulate_cycle(), Err(Fault::AddressOutOfRange));
    assert!(!cpu.frame_buffer_updated);
}
