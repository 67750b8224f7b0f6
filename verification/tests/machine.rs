//! Machine lifecycle: creation, program loading as a full reset, and
//! the keypad mapping.

use chip8::state::Cpu;

#[test]
fn new_machine_is_blank_with_font_installed() {
    let cpu = Cpu::new();
    assert_eq!(cpu.memory.len(), 4096);
    assert_eq!(cpu.pc, 0x200);
    assert_eq!(cpu.sp, 0);
    assert_eq!(cpu.i, 0);
    assert_eq!(cpu.dt, 0);
    assert_eq!(cpu.st, 0);
    assert!(!cpu.frame_buffer_updated);
    // first glyph row and last glyph row of the font table
    assert_eq!(cpu.memory[0], 0xF0);
    assert_eq!(cpu.memory[79], 0x80);
    assert!(cpu.memory[80..].iter().all(|&b| b == 0));
    assert!(cpu.v.iter().all(|&b| b == 0));
    assert!(cpu.stack.iter().all(|&w| w == 0));
    assert!(cpu.keypad.iter().all(|&k| !k));
    assert_eq!(cpu.frame_buffer.len(), 2048);
    assert!(cpu.frame_buffer.iter().all(|&c| c == 0));
}

#[test]
fn load_installs_program_at_program_start() {
    let mut cpu = Cpu::new();
    cpu.load(&vec![0xAB, 0xCD, 0xEF]);
    assert_eq!(cpu.memory[0x200], 0xAB);
    assert_eq!(cpu.memory[0x201], 0xCD);
    assert_eq!(cpu.memory[0x202], 0xEF);
    assert!(cpu.memory[0x203..].iter().all(|&b| b == 0));
}

#[test]
fn load_resets_everything_but_the_font() {
    let mut cpu = Cpu::new();
    // scramble the whole machine
    cpu.load(&vec![0x60, 0x42]);
    assert_eq!(cpu.emulate_cycle(), Ok(()));
    cpu.v[3] = 9;
    cpu.i = 0x345;
    cpu.pc = 0x999;
    cpu.sp = 7;
    cpu.stack[2] = 0x777;
    cpu.dt = 11;
    cpu.st = 12;
    cpu.keypad[5] = true;
    cpu.memory[0x100] = 0x55;
    cpu.frame_buffer[100] = 1;
    cpu.load(&vec![0x11, 0x22]);
    // every register, the stack pointer, both timers and PC are reset
    assert!(cpu.v.iter().all(|&b| b == 0));
    assert_eq!(cpu.i, 0);
    assert_eq!(cpu.pc, 0x200);
    assert_eq!(cpu.sp, 0);
    assert_eq!(cpu.dt, 0);
    assert_eq!(cpu.st, 0);
    assert!(cpu.stack.iter().all(|&w| w == 0));
    assert!(cpu.keypad.iter().all(|&k| !k));
    assert!(cpu.frame_buffer.iter().all(|&c| c == 0));
    assert!(!cpu.frame_buffer_updated);
    // the reserved region is back to its initial zeros
    assert_eq!(cpu.memory[0x100], 0);
    // the new image is in place and the old one is gone
    assert_eq!(cpu.memory[0x200], 0x11);
    assert_eq!(cpu.memory[0x201], 0x22);
    assert_eq!(cpu.memory[0x202], 0);
    // the font table survives
    let fresh = Cpu::new();
    assert_eq!(cpu.memory[..80], fresh.memory[..80]);
}

#[test]
fn load_accepts_a_full_program_region() {
    let mut cpu = Cpu::new();
    cpu.load(&vec![0x77; 3584]);
    assert_eq!(cpu.memory[0x200], 0x77);
    assert_eq!(cpu.memory[0xFFF], 0x77);
}

#[test]
fn keypad_mapping_covers_all_sixteen_keys() {
    let mut cpu = Cpu::new();
    let layout = [
        ('X', 0), ('1', 1), ('2', 2), ('3', 3), ('Q', 4), ('W', 5), ('E', 6), ('A', 7),
        ('S', 8), ('D', 9), ('Z', 10), ('C', 11), ('4', 12), ('R', 13), ('F', 14), ('V', 15),
    ];
    for &(c, slot) in layout.iter() {
        cpu.update_keypad(c, true);
        assert!(cpu.keypad[slot]);
        cpu.update_keypad(c, false);
        assert!(!cpu.keypad[slot]);
    }
}

#[test]
fn unknown_key_symbol_changes_nothing() {
    let mut cpu = Cpu::new();
    cpu.update_keypad('S', true);
    cpu.update_keypad('?', true);
    cpu.update_keypad('x', true); // lower case is not in the table
    let pressed: Vec<usize> = (0..16).filter(|&k| cpu.keypad[k]).collect();
    assert_eq!(pressed, vec![8]);
}
