//! A verified interpreter for the classic CHIP-8 virtual machine.
//!
//! The machine state (memory, registers, call stack, timers, keypad and
//! a monochrome framebuffer) lives in [`state::Cpu`]; one call of
//! [`state::Cpu::emulate_cycle`] performs a single fetch-decode-execute
//! step whose effect is pinned down, instruction by instruction, by the
//! specification-level transition function in [`cycle`].

pub mod cycle;
pub mod isa;
pub mod laws;
pub mod screen;
pub mod state;
