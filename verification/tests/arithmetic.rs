//! Arithmetic, logic and shift instructions, exercised through whole
//! cycles on a freshly loaded machine.

use chip8::cycle::Fault;
use chip8::state::Cpu;

fn boot(program: Vec<u8>) -> Cpu {
    let mut cpu = Cpu::new();
    cpu.load(&program);
    cpu
}

fn run(cpu: &mut Cpu, cycles: usize) {
    for _ in 0..cycles {
        assert_eq!(cpu.emulate_cycle(), Ok(()));
    }
}

#[test]
fn load_immediate_reads_back() {
    let mut cpu = boot(vec![0x6A, 0x42]);
    run(&mut cpu, 1);
    assert_eq!(cpu.v[10], 0x42);
    assert_eq!(cpu.pc, 0x202);
}

#[test]
fn add_immediate_wraps() {
    let mut cpu = boot(vec![0x60, 0xFF, 0x70, 0x03]);
    run(&mut cpu, 2);
    assert_eq!(cpu.v[0], 0x02);
}

#[test]
fn add_with_carry_sets_flag() {
    let mut cpu = boot(vec![0x60, 200, 0x61, 100, 0x80, 0x14]);
    run(&mut cpu, 3);
    assert_eq!(cpu.v[0], 44);
    assert_eq!(cpu.v[15], 1);
}

#[test]
fn add_without_carry_clears_flag() {
    let mut cpu = boot(vec![0x60, 3, 0x61, 4, 0x80, 0x14]);
    cpu.v[15] = 1;
    run(&mut cpu, 3);
    assert_eq!(cpu.v[0], 7);
    assert_eq!(cpu.v[15], 0);
}

#[test]
fn sub_with_not_borrow_flag() {
    let mut cpu = boot(vec![0x60, 5, 0x61, 3, 0x80, 0x15]);
    run(&mut cpu, 3);
    assert_eq!(cpu.v[0], 2);
    assert_eq!(cpu.v[15], 1);
}

#[test]
fn sub_with_borrow_wraps_and_clears_flag() {
    let mut cpu = boot(vec![0x60, 3, 0x61, 5, 0x80, 0x15]);
    run(&mut cpu, 3);
    assert_eq!(cpu.v[0], 254);
    assert_eq!(cpu.v[15], 0);
}

#[test]
fn sub_equal_values_clears_flag() {
    let mut cpu = boot(vec![0x60, 9, 0x61, 9, 0x80, 0x15]);
    run(&mut cpu, 3);
    assert_eq!(cpu.v[0], 0);
    assert_eq!(cpu.v[15], 0);
}

#[test]
fn sub_reversed_not_borrow_flag() {
    let mut cpu = boot(vec![0x60, 3, 0x61, 5, 0x80, 0x17]);
    run(&mut cpu, 3);
    assert_eq!(cpu.v[0], 2);
    assert_eq!(cpu.v[15], 1);
}

#[test]
fn bitwise_or_and_xor() {
    let mut cpu = boot(vec![
        0x60, 0b1100, 0x61, 0b1010, 0x80, 0x11, 0x62, 0b1100, 0x82, 0x12, 0x63, 0b1100, 0x83,
        0x13,
    ]);
    run(&mut cpu, 7);
    assert_eq!(cpu.v[0], 0b1110);
    assert_eq!(cpu.v[2], 0b1000);
    assert_eq!(cpu.v[3], 0b0110);
}

#[test]
fn shift_right_keeps_low_bit_in_flag() {
    let mut cpu = boot(vec![0x60, 0x05, 0x80, 0x06]);
    run(&mut cpu, 2);
    assert_eq!(cpu.v[0], 0x02);
    assert_eq!(cpu.v[15], 1);
}

#[test]
fn shift_left_keeps_high_bit_in_flag() {
    let mut cpu = boot(vec![0x60, 0x81, 0x80, 0x0E]);
    run(&mut cpu, 2);
    assert_eq!(cpu.v[0], 0x02);
    assert_eq!(cpu.v[15], 1);
}

#[test]
fn assign_register() {
    let mut cpu = boot(vec![0x61, 0x7B, 0x80, 0x10]);
    run(&mut cpu, 2);
    assert_eq!(cpu.v[0], 0x7B);
}

#[test]
fn random_masked_with_zero_is_zero() {
    let mut cpu = boot(vec![0x60, 0xAB, 0xC0, 0x00]);
    run(&mut cpu, 2);
    assert_eq!(cpu.v[0], 0);
}

#[test]
fn random_runs_without_fault() {
    let mut cpu = boot(vec![0xC1, 0xFF]);
    assert_eq!(cpu.emulate_cycle(), Ok(()));
    assert_eq!(cpu.pc, 0x202);
}

#[test]
fn bcd_writes_three_digits() {
    let mut cpu = boot(vec![0x60, 234, 0xA3, 0x00, 0xF0, 0x33]);
    run(&mut cpu, 3);
    assert_eq!(cpu.memory[0x300], 2);
    assert_eq!(cpu.memory[0x301], 3);
    assert_eq!(cpu.memory[0x302], 4);
}

#[test]
fn add_to_index_flags_high_result() {
    let mut cpu = boot(vec![0xAF, 0xFF, 0x60, 0x02, 0xF0, 0x1E]);
    run(&mut cpu, 3);
    assert_eq!(cpu.i, 0x1001);
    assert_eq!(cpu.v[15], 1);
}

#[test]
fn add_to_index_low_result_clears_flag() {
    let mut cpu = boot(vec![0xA1, 0x00, 0x60, 0x02, 0xF0, 0x1E]);
    cpu.v[15] = 1;
    run(&mut cpu, 3);
    assert_eq!(cpu.i, 0x102);
    assert_eq!(cpu.v[15], 0);
}

#[test]
fn font_index_is_five_bytes_per_glyph() {
    let mut cpu = boot(vec![0x61, 0x0A, 0xF1, 0x29]);
    run(&mut cpu, 2);
    assert_eq!(cpu.i, 50);
}

#[test]
fn store_and_load_register_ranges() {
    let mut cpu = boot(vec![
        0x60, 11, 0x61, 22, 0x62, 33, 0xA3, 0x00, 0xF2, 0x55, 0x63, 0x00, 0xF3, 0x65,
    ]);
    run(&mut cpu, 5);
    assert_eq!(cpu.memory[0x300], 11);
    assert_eq!(cpu.memory[0x301], 22);
    assert_eq!(cpu.memory[0x302], 33);
    assert_eq!(cpu.memory[0x303], 0);
    cpu.v[0] = 0;
    cpu.v[1] = 0;
    cpu.v[2] = 0;
    run(&mut cpu, 2);
    assert_eq!(cpu.v[0], 11);
    assert_eq!(cpu.v[1], 22);
    assert_eq!(cpu.v[2], 33);
    assert_eq!(cpu.v[3], 0);
}

#[test]
fn bcd_beyond_memory_faults() {
    let mut cpu = boot(vec![0xF0, 0x33]);
    cpu.i = 4094;
    assert_eq!(cpu.emulate_cycle(), Err(Fault::AddressOutOfRange));
}

#[test]
fn store_range_beyond_memory_faults() {
    let mut cpu = boot(vec![0xF1, 0x55]);
    cpu.i = 4095;
    assert_eq!(cpu.emulate_cycle(), Err(Fault::AddressOutOfRange));
}
