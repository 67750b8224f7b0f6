//! Control flow: jumps, calls, skips, key waits, timers and faults.

use chip8::cycle::Fault;
use chip8::state::Cpu;

fn boot(program: Vec<u8>) -> Cpu {
    let mut cpu = Cpu::new();
    cpu.load(&program);
    cpu
}

fn run(cpu: &mut Cpu, cycles: usize) {
    for _ in 0..cycles {
        assert_eq!(cpu.emulate_cycle(), Ok(()));
    }
}

#[test]
fn jump_sets_pc() {
    let mut cpu = boot(vec![0x13, 0x45]);
    run(&mut cpu, 1);
    assert_eq!(cpu.pc, 0x345);
}

#[test]
fn jump_indexed_adds_v0() {
    let mut cpu = boot(vec![0x60, 0x10, 0xB3, 0x00]);
    run(&mut cpu, 2);
    assert_eq!(cpu.pc, 0x310);
}

#[test]
fn call_then_return_restores_pc_and_stack() {
    let mut rom = vec![0u8; 0x102];
    rom[0] = 0x23; // CALL 0x300
    rom[1] = 0x00;
    rom[0x100] = 0x00; // RET at 0x300
    rom[0x101] = 0xEE;
    let mut cpu = boot(rom);
    run(&mut cpu, 1);
    assert_eq!(cpu.pc, 0x300);
    assert_eq!(cpu.sp, 1);
    assert_eq!(cpu.stack[0], 0x202);
    run(&mut cpu, 1);
    assert_eq!(cpu.pc, 0x202);
    assert_eq!(cpu.sp, 0);
}

#[test]
fn skip_equal_immediate_taken_and_not_taken() {
    let mut cpu = boot(vec![0x60, 0x07, 0x30, 0x07]);
    run(&mut cpu, 2);
    assert_eq!(cpu.pc, 0x206);
    let mut cpu = boot(vec![0x60, 0x07, 0x30, 0x08]);
    run(&mut cpu, 2);
    assert_eq!(cpu.pc, 0x204);
}

#[test]
fn skip_not_equal_immediate() {
    let mut cpu = boot(vec![0x60, 0x07, 0x40, 0x08]);
    run(&mut cpu, 2);
    assert_eq!(cpu.pc, 0x206);
}

#[test]
fn skip_on_register_comparison() {
    let mut cpu = boot(vec![0x60, 0x07, 0x61, 0x07, 0x50, 0x10]);
    run(&mut cpu, 3);
    assert_eq!(cpu.pc, 0x208);
    let mut cpu = boot(vec![0x60, 0x07, 0x61, 0x08, 0x90, 0x10]);
    run(&mut cpu, 3);
    assert_eq!(cpu.pc, 0x208);
}

#[test]
fn skip_if_key_pressed() {
    let mut cpu = boot(vec![0x60, 0x04, 0xE0, 0x9E]);
    cpu.update_keypad('Q', true); // key 4
    run(&mut cpu, 2);
    assert_eq!(cpu.pc, 0x206);
}

#[test]
fn skip_if_key_not_pressed() {
    let mut cpu = boot(vec![0x60, 0x04, 0xE0, 0xA1]);
    run(&mut cpu, 2);
    assert_eq!(cpu.pc, 0x206);
}

#[test]
fn block_on_key_waits_then_takes_lowest() {
    let mut cpu = boot(vec![0xF2, 0x0A]);
    for _ in 0..3 {
        assert_eq!(cpu.emulate_cycle(), Ok(()));
        assert_eq!(cpu.pc, 0x200);
    }
    cpu.update_keypad('D', true); // key 9
    cpu.update_keypad('S', true); // key 8
    run(&mut cpu, 1);
    assert_eq!(cpu.pc, 0x202);
    assert_eq!(cpu.v[2], 8);
}

#[test]
fn timers_tick_down_once_per_cycle() {
    let mut cpu = boot(vec![0x60, 0x05, 0xF0, 0x15, 0xF0, 0x18, 0xF1, 0x07]);
    run(&mut cpu, 2);
    // the set itself is followed by this cycle's tick
    assert_eq!(cpu.dt, 4);
    run(&mut cpu, 1);
    assert_eq!(cpu.dt, 3);
    assert_eq!(cpu.st, 4);
    run(&mut cpu, 1);
    // read-delta-timer sees the value before this cycle's tick
    assert_eq!(cpu.v[1], 3);
    assert_eq!(cpu.dt, 2);
}

#[test]
fn timers_stop_at_zero() {
    let mut cpu = boot(vec![0x60, 0x00, 0x60, 0x00, 0x60, 0x00]);
    cpu.dt = 1;
    cpu.st = 0;
    run(&mut cpu, 2);
    assert_eq!(cpu.dt, 0);
    assert_eq!(cpu.st, 0);
}

#[test]
fn illegal_opcode_faults_and_leaves_state() {
    let mut cpu = boot(vec![0xFF, 0xFF]);
    let pc = cpu.pc;
    assert_eq!(cpu.emulate_cycle(), Err(Fault::IllegalInstruction));
    assert_eq!(cpu.pc, pc);
    assert!(!cpu.frame_buffer_updated);
}

#[test]
fn machine_code_family_is_illegal() {
    let mut cpu = boot(vec![0x01, 0x23]);
    assert_eq!(cpu.emulate_cycle(), Err(Fault::IllegalInstruction));
}

#[test]
fn return_with_empty_stack_faults() {
    let mut cpu = boot(vec![0x00, 0xEE]);
    assert_eq!(cpu.emulate_cycle(), Err(Fault::StackUnderflow));
}

#[test]
fn call_with_full_stack_faults() {
    let mut cpu = boot(vec![0x23, 0x00]);
    cpu.sp = 16;
    assert_eq!(cpu.emulate_cycle(), Err(Fault::StackOverflow));
    assert_eq!(cpu.sp, 16);
}

#[test]
fn fetch_beyond_memory_faults() {
    let mut cpu = boot(vec![]);
    cpu.pc = 4095;
    assert_eq!(cpu.emulate_cycle(), Err(Fault::AddressOutOfRange));
}

#[test]
fn key_test_with_wild_register_faults() {
    let mut cpu = boot(vec![0xE0, 0x9E]);
    cpu.v[0] = 200;
    assert_eq!(cpu.emulate_cycle(), Err(Fault::KeyOutOfRange));
}
