//! One fetch-decode-execute cycle: the specification-level transition
//! function [`spec_cycle`] and the executor that is proved to implement
//! it, instruction by instruction.
//!
//! Conditions that the classic machine left undefined (illegal opcodes,
//! call-stack misuse, memory or keypad accesses out of range) are
//! surfaced as a typed [`Fault`]; a faulting cycle leaves the whole
//! machine state as it was, apart from the framebuffer-changed flag,
//! which every cycle clears first.

use crate::isa::{decode, instr_wf, lemma_decode_wf, spec_decode, Instr};
use crate::screen::{draw_collision, draw_fb, draw_sprite};
use crate::state::{zeroed_bytes, Cpu, St, HEIGHT, WIDTH};
use vstd::arithmetic::div_mod::lemma_mod_multiples_vanish;
use vstd::pervasive::unreached;
use vstd::prelude::*;

verus! {

/// A condition that the classic machine leaves undefined, reported
/// instead of corrupting state or aborting the process.
#[derive(Clone, Copy, PartialEq, Eq, Structural, Debug)]
pub enum Fault {
    /// The fetched opcode matches no defined operation.
    IllegalInstruction,
    /// A call was made with all 16 stack slots in use.
    StackOverflow,
    /// A return was made with an empty call stack.
    StackUnderflow,
    /// An instruction addressed memory beyond `0xFFF`, or fetched from it.
    AddressOutOfRange,
    /// A keypad test was made with a register value of 16 or more.
    KeyOutOfRange,
}

/// The lowest pressed key index at or above `j`, or 16 if none is
/// pressed in `j..16`.
pub open spec fn first_pressed_from(keys: Seq<bool>, j: int) -> int
    decreases 16 - j,
{
    if j < 0 || j >= 16 {
        16
    } else if keys[j] {
        j
    } else {
        first_pressed_from(keys, j + 1)
    }
}

/// The state after one timer tick: each timer decrements by exactly one
/// when nonzero and never wraps below zero.
pub open spec fn tick_timers(s: St) -> St {
    St {
        dt: if s.dt > 0 {
            (s.dt - 1) as u8
        } else {
            0u8
        },
        st: if s.st > 0 {
            (s.st - 1) as u8
        } else {
            0u8
        },
        ..s
    }
}

/// The state transition of a single decoded instruction, or the fault it
/// raises. `rnd` is the byte the random-and operation masks; every other
/// instruction ignores it. Register writes are sequential, exactly as
/// the machine performs them, so an instruction that writes both the
/// flag register and `Vx` aliases them when `x` is 15. Memory writes
/// through the index register (store-BCD, store-registers) may target
/// any in-range address, the font span below `0x50` included: only
/// addresses beyond `0xFFF` fault, so a program can overwrite its own
/// font table, and a later load keeps the overwrite.
pub open spec fn spec_exec(s: St, instr: Instr, rnd: u8) -> Result<St, Fault> {
    let pc2 = (s.pc + 2) as u16;
    let pc4 = (s.pc + 4) as u16;
    match instr {
        Instr::Cls => Ok(
            St {
                fb: Seq::new((WIDTH * HEIGHT) as nat, |p: int| 0u8),
                fb_up: true,
                pc: pc2,
                ..s
            },
        ),
        Instr::Ret => if s.sp == 0 {
            Err(Fault::StackUnderflow)
        } else {
            Ok(St { pc: s.stack[s.sp - 1], sp: s.sp - 1, ..s })
        },
        Instr::Jp(nnn) => Ok(St { pc: nnn, ..s }),
        Instr::Call(nnn) => if s.sp >= 16 {
            Err(Fault::StackOverflow)
        } else {
            Ok(St { stack: s.stack.update(s.sp, pc2), sp: s.sp + 1, pc: nnn, ..s })
        },
        Instr::SeImm(x, kk) => Ok(
            St {
                pc: if s.v[x as int] == kk {
                    pc4
                } else {
                    pc2
                },
                ..s
            },
        ),
        Instr::SneImm(x, kk) => Ok(
            St {
                pc: if s.v[x as int] != kk {
                    pc4
                } else {
                    pc2
                },
                ..s
            },
        ),
        Instr::SeReg(x, y) => Ok(
            St {
                pc: if s.v[x as int] == s.v[y as int] {
                    pc4
                } else {
                    pc2
                },
                ..s
            },
        ),
        Instr::LdImm(x, kk) => Ok(St { v: s.v.update(x as int, kk), pc: pc2, ..s }),
        Instr::AddImm(x, kk) => Ok(
            St { v: s.v.update(x as int, ((s.v[x as int] + kk) % 256) as u8), pc: pc2, ..s },
        ),
        Instr::LdReg(x, y) => Ok(St { v: s.v.update(x as int, s.v[y as int]), pc: pc2, ..s }),
        Instr::Or(x, y) => Ok(
            St { v: s.v.update(x as int, s.v[x as int] | s.v[y as int]), pc: pc2, ..s },
        ),
        Instr::And(x, y) => Ok(
            St { v: s.v.update(x as int, s.v[x as int] & s.v[y as int]), pc: pc2, ..s },
        ),
        Instr::Xor(x, y) => Ok(
            St { v: s.v.update(x as int, s.v[x as int] ^ s.v[y as int]), pc: pc2, ..s },
        ),
        Instr::AddCarry(x, y) => {
            let flag: u8 = if s.v[x as int] + s.v[y as int] > 255 {
                1
            } else {
                0
            };
            let v1 = s.v.update(15, flag);
            let v2 = v1.update(x as int, ((v1[x as int] + v1[y as int]) % 256) as u8);
            Ok(St { v: v2, pc: pc2, ..s })
        },
        Instr::SubBorrow(x, y) => {
            let flag: u8 = if s.v[x as int] > s.v[y as int] {
                1
            } else {
                0
            };
            let v1 = s.v.update(15, flag);
            let v2 = v1.update(x as int, ((v1[x as int] - v1[y as int]) % 256) as u8);
            Ok(St { v: v2, pc: pc2, ..s })
        },
        Instr::Shr(x) => {
            let v1 = s.v.update(15, (s.v[x as int] % 2) as u8);
            let v2 = v1.update(x as int, (v1[x as int] / 2) as u8);
            Ok(St { v: v2, pc: pc2, ..s })
        },
        Instr::SubN(x, y) => {
            let flag: u8 = if s.v[y as int] > s.v[x as int] {
                1
            } else {
                0
            };
            let v1 = s.v.update(15, flag);
            let v2 = v1.update(x as int, ((v1[y as int] - v1[x as int]) % 256) as u8);
            Ok(St { v: v2, pc: pc2, ..s })
        },
        Instr::Shl(x) => {
            let v1 = s.v.update(15, (s.v[x as int] / 128) as u8);
            let v2 = v1.update(x as int, ((v1[x as int] * 2) % 256) as u8);
            Ok(St { v: v2, pc: pc2, ..s })
        },
        Instr::SneReg(x, y) => Ok(
            St {
                pc: if s.v[x as int] != s.v[y as int] {
                    pc4
                } else {
                    pc2
                },
                ..s
            },
        ),
        Instr::LdI(nnn) => Ok(St { i: nnn, pc: pc2, ..s }),
        Instr::JpV0(nnn) => Ok(St { pc: (nnn + s.v[0]) as u16, ..s }),
        Instr::Rnd(x, kk) => Ok(St { v: s.v.update(x as int, rnd & kk), pc: pc2, ..s }),
        Instr::Drw(x, y, n) => {
            let vx = s.v[x as int];
            let vy = s.v[y as int];
            if n > 0 && s.i + n > 4096 {
                Err(Fault::AddressOutOfRange)
            } else {
                let cf: u8 = if draw_collision(
                    s.fb,
                    s.mem,
                    s.i as int,
                    vx as int,
                    vy as int,
                    n as int,
                ) {
                    1
                } else {
                    0
                };
                Ok(
                    St {
                        fb: draw_fb(s.fb, s.mem, s.i as int, vx as int, vy as int, n as int),
                        v: s.v.update(15, cf),
                        fb_up: true,
                        pc: pc2,
                        ..s
                    },
                )
            }
        },
        Instr::Skp(x) => {
            let key = s.v[x as int];
            if key >= 16 {
                Err(Fault::KeyOutOfRange)
            } else {
                Ok(
                    St {
                        pc: if s.keypad[key as int] {
                            pc4
                        } else {
                            pc2
                        },
                        ..s
                    },
                )
            }
        },
        Instr::Sknp(x) => {
            let key = s.v[x as int];
            if key >= 16 {
                Err(Fault::KeyOutOfRange)
            } else {
                Ok(
                    St {
                        pc: if !s.keypad[key as int] {
                            pc4
                        } else {
                            pc2
                        },
                        ..s
                    },
                )
            }
        },
        Instr::LdDt(x) => Ok(St { v: s.v.update(x as int, s.dt), pc: pc2, ..s }),
        Instr::LdKey(x) => {
            let k = first_pressed_from(s.keypad, 0);
            if k == 16 {
                Ok(s)
            } else {
                Ok(St { v: s.v.update(x as int, k as u8), pc: pc2, ..s })
            }
        },
        Instr::SetDt(x) => Ok(St { dt: s.v[x as int], pc: pc2, ..s }),
        Instr::SetSt(x) => Ok(St { st: s.v[x as int], pc: pc2, ..s }),
        Instr::AddI(x) => {
            let ni = ((s.i + s.v[x as int]) % 65536) as u16;
            let flag: u8 = if ni > 0x0F00 {
                1
            } else {
                0
            };
            Ok(St { i: ni, v: s.v.update(15, flag), pc: pc2, ..s })
        },
        Instr::LdFont(x) => Ok(St { i: (s.v[x as int] * 5) as u16, pc: pc2, ..s }),
        Instr::Bcd(x) => {
            if s.i + 2 >= 4096 {
                Err(Fault::AddressOutOfRange)
            } else {
                let vx = s.v[x as int];
                let m1 = s.mem.update(s.i as int, (vx / 100) as u8);
                let m2 = m1.update(s.i as int + 1, ((vx % 100) / 10) as u8);
                let m3 = m2.update(s.i as int + 2, (vx % 10) as u8);
                Ok(St { mem: m3, pc: pc2, ..s })
            }
        },
        Instr::StoreRegs(x) => {
            if s.i + x >= 4096 {
                Err(Fault::AddressOutOfRange)
            } else {
                let m = Seq::new(
                    s.mem.len(),
                    |a: int|
                        if s.i <= a <= s.i + x {
                            s.v[a - s.i]
                        } else {
                            s.mem[a]
                        },
                );
                Ok(St { mem: m, pc: pc2, ..s })
            }
        },
        Instr::LoadRegs(x) => {
            if s.i + x >= 4096 {
                Err(Fault::AddressOutOfRange)
            } else {
                let v = Seq::new(
                    s.v.len(),
                    |j: int|
                        if 0 <= j <= x {
                            s.mem[s.i + j]
                        } else {
                            s.v[j]
                        },
                );
                Ok(St { v: v, pc: pc2, ..s })
            }
        },
    }
}

/// Relates the states around one executed instruction: on success the
/// machine moves to exactly the state [`spec_exec`] gives; on a fault it
/// is left unchanged.
pub open spec fn exec_matches(
    pre: St,
    post: St,
    res: Result<(), Fault>,
    instr: Instr,
    rnd: u8,
) -> bool {
    match spec_exec(pre, instr, rnd) {
        Ok(s1) => res == Ok::<(), Fault>(()) && post == s1,
        Err(f) => res == Err::<(), Fault>(f) && post == pre,
    }
}

/// Relates the states around decoding and executing one opcode.
pub open spec fn opcode_matches(
    pre: St,
    post: St,
    res: Result<(), Fault>,
    op: u16,
    rnd: u8,
) -> bool {
    match spec_decode(op) {
        None => res == Err::<(), Fault>(Fault::IllegalInstruction) && post == pre,
        Some(instr) => exec_matches(pre, post, res, instr, rnd),
    }
}

/// The 16-bit opcode at `PC`, the two bytes there combined big-endian.
pub open spec fn fetched(s: St) -> u16 {
    (s.mem[s.pc as int] * 256 + s.mem[s.pc as int + 1]) as u16
}

/// One full cycle as mathematics: clear the changed flag, fetch the two
/// bytes at `PC` big-endian, decode, execute, and tick both timers.
/// On a fault the state is the pre-state with only the changed flag
/// cleared, and the timers do not tick.
pub open spec fn spec_cycle(s: St, rnd: u8) -> (St, Result<(), Fault>) {
    let s0 = St { fb_up: false, ..s };
    if s.pc + 1 >= 4096 {
        (s0, Err(Fault::AddressOutOfRange))
    } else {
        let op = fetched(s);
        match spec_decode(op) {
            None => (s0, Err(Fault::IllegalInstruction)),
            Some(instr) => match spec_exec(s0, instr, rnd) {
                Err(f) => (s0, Err(f)),
                Ok(s1) => (tick_timers(s1), Ok(())),
            },
        }
    }
}

/// Relates the states around one whole cycle, for the random byte `rnd`.
pub open spec fn cycle_matches(pre: St, post: St, res: Result<(), Fault>, rnd: u8) -> bool {
    post == spec_cycle(pre, rnd).0 && res == spec_cycle(pre, rnd).1
}

/// Relies on rand::random: one byte from the thread-local generator.
/// Nothing is promised of the value; callers state what holds of every
/// outcome.
#[verifier::external_body]
fn random_byte() -> u8 {
    rand::random::<u8>()
}

impl Cpu {
    /// Executes one control-flow instruction, as [`exec_matches`] describes.
    #[verifier::rlimit(60)]
    #[verifier::spinoff_prover]
    fn exec_control(&mut self, instr: Instr) -> (res: Result<(), Fault>)
        requires
            old(self).wf(),
            old(self)@.pc + 1 < 4096,
            instr_wf(instr),
            instr is Cls || instr is Ret || instr is Jp || instr is Call || instr is JpV0,
        ensures
            final(self).wf(),
            exists|rnd: u8| #[trigger] exec_matches(old(self)@, final(self)@, res, instr, rnd),
    {
        match instr {
            Instr::Cls => {
                self.frame_buffer = zeroed_bytes(WIDTH * HEIGHT);
                self.frame_buffer_updated = true;
                self.pc = self.pc + 2;
                proof {
                    assert(self@ =~= spec_exec(old(self)@, instr, 0u8)->Ok_0);
                    assert(exec_matches(old(self)@, self@, Ok(()), instr, 0u8));
                }
                Ok(())
            },
            Instr::Ret => {
                if self.sp == 0 {
                    proof {
                        assert(exec_matches(old(self)@, self@, Err(Fault::StackUnderflow), instr, 0u8));
                    }
                    Err(Fault::StackUnderflow)
                } else {
                    self.sp = self.sp - 1;
                    self.pc = self.stack[self.sp];
                    proof {
                        assert(self@ =~= spec_exec(old(self)@, instr, 0u8)->Ok_0);
                        assert(exec_matches(old(self)@, self@, Ok(()), instr, 0u8));
                    }
                    Ok(())
                }
            },
            Instr::Jp(nnn) => {
                self.pc = nnn;
                proof {
                    assert(self@ =~= spec_exec(old(self)@, instr, 0u8)->Ok_0);
                    assert(exec_matches(old(self)@, self@, Ok(()), instr, 0u8));
                }
                Ok(())
            },
            Instr::Call(nnn) => {
                if self.sp >= 16 {
                    proof {
                        assert(exec_matches(old(self)@, self@, Err(Fault::StackOverflow), instr, 0u8));
                    }
                    Err(Fault::StackOverflow)
                } else {
                    self.stack[self.sp] = self.pc + 2;
                    self.sp = self.sp + 1;
                    self.pc = nnn;
                    proof {
                        assert(self@ =~= spec_exec(old(self)@, instr, 0u8)->Ok_0);
                        assert(exec_matches(old(self)@, self@, Ok(()), instr, 0u8));
                    }
                    Ok(())
                }
            },
            Instr::JpV0(nnn) => {
                self.pc = nnn + self.v[0] as u16;
                proof {
                    assert(self@ =~= spec_exec(old(self)@, instr, 0u8)->Ok_0);
                    assert(exec_matches(old(self)@, self@, Ok(()), instr, 0u8));
                }
                Ok(())
            },
            _ => unreached(),
        }
    }

    /// Executes one conditional-skip instruction, as [`exec_matches`] describes.
    #[verifier::rlimit(60)]
    #[verifier::spinoff_prover]
    fn exec_skip(&mut self, instr: Instr) -> (res: Result<(), Fault>)
        requires
            old(self).wf(),
            old(self)@.pc + 1 < 4096,
            instr_wf(instr),
            instr is SeImm || instr is SneImm || instr is SeReg || instr is SneReg || instr is Skp || instr is Sknp,
        ensures
            final(self).wf(),
            exists|rnd: u8| #[trigger] exec_matches(old(self)@, final(self)@, res, instr, rnd),
    {
        match instr {
            Instr::SeImm(x, kk) => {
                if self.v[x as usize] == kk {
                    self.pc = self.pc + 4;
                } else {
                    self.pc = self.pc + 2;
                }
                proof {
                    assert(self@ =~= spec_exec(old(self)@, instr, 0u8)->Ok_0);
                    assert(exec_matches(old(self)@, self@, Ok(()), instr, 0u8));
                }
                Ok(())
            },
            Instr::SneImm(x, kk) => {
                if self.v[x as usize] != kk {
                    self.pc = self.pc + 4;
                } else {
                    self.pc = self.pc + 2;
                }
                proof {
                    assert(self@ =~= spec_exec(old(self)@, instr, 0u8)->Ok_0);
                    assert(exec_matches(old(self)@, self@, Ok(()), instr, 0u8));
                }
                Ok(())
            },
            Instr::SeReg(x, y) => {
                if self.v[x as usize] == self.v[y as usize] {
                    self.pc = self.pc + 4;
                } else {
                    self.pc = self.pc + 2;
                }
                proof {
                    assert(self@ =~= spec_exec(old(self)@, instr, 0u8)->Ok_0);
                    assert(exec_matches(old(self)@, self@, Ok(()), instr, 0u8));
                }
                Ok(())
            },
            Instr::SneReg(x, y) => {
                if self.v[x as usize] != self.v[y as usize] {
                    self.pc = self.pc + 4;
                } else {
                    self.pc = self.pc + 2;
                }
                proof {
                    assert(self@ =~= spec_exec(old(self)@, instr, 0u8)->Ok_0);
                    assert(exec_matches(old(self)@, self@, Ok(()), instr, 0u8));
                }
                Ok(())
            },
            Instr::Skp(x) => {
                let key = self.v[x as usize];
                if key >= 16 {
                    proof {
                        assert(exec_matches(old(self)@, self@, Err(Fault::KeyOutOfRange), instr, 0u8));
                    }
                    Err(Fault::KeyOutOfRange)
                } else {
                    if self.keypad[key as usize] {
                        self.pc = self.pc + 4;
                    } else {
                        self.pc = self.pc + 2;
                    }
                    proof {
                        assert(self@ =~= spec_exec(old(self)@, instr, 0u8)->Ok_0);
                        assert(exec_matches(old(self)@, self@, Ok(()), instr, 0u8));
                    }
                    Ok(())
                }
            },
            Instr::Sknp(x) => {
                let key = self.v[x as usize];
                if key >= 16 {
                    proof {
                        assert(exec_matches(old(self)@, self@, Err(Fault::KeyOutOfRange), instr, 0u8));
                    }
                    Err(Fault::KeyOutOfRange)
                } else {
                    if !self.keypad[key as usize] {
                        self.pc = self.pc + 4;
                    } else {
                        self.pc = self.pc + 2;
                    }
                    proof {
                        assert(self@ =~= spec_exec(old(self)@, instr, 0u8)->Ok_0);
                        assert(exec_matches(old(self)@, self@, Ok(()), instr, 0u8));
                    }
                    Ok(())
                }
            },
            _ => unreached(),
        }
    }

    /// Executes one register- and timer-move instruction, as [`exec_matches`] describes.
    #[verifier::rlimit(60)]
    #[verifier::spinoff_prover]
    fn exec_moves(&mut self, instr: Instr) -> (res: Result<(), Fault>)
        requires
            old(self).wf(),
            old(self)@.pc + 1 < 4096,
            instr_wf(instr),
            instr is LdImm || instr is LdReg || instr is Or || instr is And || instr is Xor || instr is LdDt || instr is SetDt || instr is SetSt,
        ensures
            final(self).wf(),
            exists|rnd: u8| #[trigger] exec_matches(old(self)@, final(self)@, res, instr, rnd),
    {
        match instr {
            Instr::LdImm(x, kk) => {
                self.v[x as usize] = kk;
                self.pc = self.pc + 2;
                proof {
                    assert(self@ =~= spec_exec(old(self)@, instr, 0u8)->Ok_0);
                    assert(exec_matches(old(self)@, self@, Ok(()), instr, 0u8));
                }
                Ok(())
            },
            Instr::LdReg(x, y) => {
                self.v[x as usize] = self.v[y as usize];
                self.pc = self.pc + 2;
                proof {
                    assert(self@ =~= spec_exec(old(self)@, instr, 0u8)->Ok_0);
                    assert(exec_matches(old(self)@, self@, Ok(()), instr, 0u8));
                }
                Ok(())
            },
            Instr::Or(x, y) => {
                self.v[x as usize] = self.v[x as usize] | self.v[y as usize];
                self.pc = self.pc + 2;
                proof {
                    assert(self@ =~= spec_exec(old(self)@, instr, 0u8)->Ok_0);
                    assert(exec_matches(old(self)@, self@, Ok(()), instr, 0u8));
                }
                Ok(())
            },
            Instr::And(x, y) => {
                self.v[x as usize] = self.v[x as usize] & self.v[y as usize];
                self.pc = self.pc + 2;
                proof {
                    assert(self@ =~= spec_exec(old(self)@, instr, 0u8)->Ok_0);
                    assert(exec_matches(old(self)@, self@, Ok(()), instr, 0u8));
                }
                Ok(())
            },
            Instr::Xor(x, y) => {
                self.v[x as usize] = self.v[x as usize] ^ self.v[y as usize];
                self.pc = self.pc + 2;
                proof {
                    assert(self@ =~= spec_exec(old(self)@, instr, 0u8)->Ok_0);
                    assert(exec_matches(old(self)@, self@, Ok(()), instr, 0u8));
                }
                Ok(())
            },
            Instr::LdDt(x) => {
                self.v[x as usize] = self.dt;
                self.pc = self.pc + 2;
                proof {
                    assert(self@ =~= spec_exec(old(self)@, instr, 0u8)->Ok_0);
                    assert(exec_matches(old(self)@, self@, Ok(()), instr, 0u8));
                }
                Ok(())
            },
            Instr::SetDt(x) => {
                self.dt = self.v[x as usize];
                self.pc = self.pc + 2;
                proof {
                    assert(self@ =~= spec_exec(old(self)@, instr, 0u8)->Ok_0);
                    assert(exec_matches(old(self)@, self@, Ok(()), instr, 0u8));
                }
                Ok(())
            },
            Instr::SetSt(x) => {
                self.st = self.v[x as usize];
                self.pc = self.pc + 2;
                proof {
                    assert(self@ =~= spec_exec(old(self)@, instr, 0u8)->Ok_0);
                    assert(exec_matches(old(self)@, self@, Ok(()), instr, 0u8));
                }
                Ok(())
            },
            _ => unreached(),
        }
    }

    /// Executes one arithmetic and shift instruction, as [`exec_matches`] describes.
    #[verifier::rlimit(60)]
    #[verifier::spinoff_prover]
    fn exec_arith(&mut self, instr: Instr) -> (res: Result<(), Fault>)
        requires
            old(self).wf(),
            old(self)@.pc + 1 < 4096,
            instr_wf(instr),
            instr is AddImm || instr is AddCarry || instr is SubBorrow || instr is Shr || instr is SubN || instr is Shl,
        ensures
            final(self).wf(),
            exists|rnd: u8| #[trigger] exec_matches(old(self)@, final(self)@, res, instr, rnd),
    {
        match instr {
            Instr::AddImm(x, kk) => {
                let a = self.v[x as usize];
                self.v[x as usize] = ((a as u16 + kk as u16) % 256) as u8;
                self.pc = self.pc + 2;
                proof {
                    assert(self@ =~= spec_exec(old(self)@, instr, 0u8)->Ok_0);
                    assert(exec_matches(old(self)@, self@, Ok(()), instr, 0u8));
                }
                Ok(())
            },
            Instr::AddCarry(x, y) => {
                let a = self.v[x as usize];
                let b = self.v[y as usize];
                let flag: u8 = if a as u16 + b as u16 > 255 {
                    1
                } else {
                    0
                };
                self.v[15] = flag;
                let a1 = self.v[x as usize];
                let b1 = self.v[y as usize];
                self.v[x as usize] = ((a1 as u16 + b1 as u16) % 256) as u8;
                self.pc = self.pc + 2;
                proof {
                    assert(self@ =~= spec_exec(old(self)@, instr, 0u8)->Ok_0);
                    assert(exec_matches(old(self)@, self@, Ok(()), instr, 0u8));
                }
                Ok(())
            },
            Instr::SubBorrow(x, y) => {
                let a = self.v[x as usize];
                let b = self.v[y as usize];
                let flag: u8 = if a > b {
                    1
                } else {
                    0
                };
                self.v[15] = flag;
                let a1 = self.v[x as usize];
                let b1 = self.v[y as usize];
                self.v[x as usize] = ((a1 as u16 + 256 - b1 as u16) % 256) as u8;
                self.pc = self.pc + 2;
                proof {
                    lemma_mod_multiples_vanish(1, a1 as int - b1 as int, 256);
                    assert(self@ =~= spec_exec(old(self)@, instr, 0u8)->Ok_0);
                    assert(exec_matches(old(self)@, self@, Ok(()), instr, 0u8));
                }
                Ok(())
            },
            Instr::Shr(x) => {
                let a = self.v[x as usize];
                self.v[15] = a % 2;
                let a1 = self.v[x as usize];
                self.v[x as usize] = a1 / 2;
                self.pc = self.pc + 2;
                proof {
                    assert(self@ =~= spec_exec(old(self)@, instr, 0u8)->Ok_0);
                    assert(exec_matches(old(self)@, self@, Ok(()), instr, 0u8));
                }
                Ok(())
            },
            Instr::SubN(x, y) => {
                let a = self.v[x as usize];
                let b = self.v[y as usize];
                let flag: u8 = if b > a {
                    1
                } else {
                    0
                };
                self.v[15] = flag;
                let a1 = self.v[x as usize];
                let b1 = self.v[y as usize];
                self.v[x as usize] = ((b1 as u16 + 256 - a1 as u16) % 256) as u8;
                self.pc = self.pc + 2;
                proof {
                    lemma_mod_multiples_vanish(1, b1 as int - a1 as int, 256);
                    assert(self@ =~= spec_exec(old(self)@, instr, 0u8)->Ok_0);
                    assert(exec_matches(old(self)@, self@, Ok(()), instr, 0u8));
                }
                Ok(())
            },
            Instr::Shl(x) => {
                let a = self.v[x as usize];
                self.v[15] = a / 128;
                let a1 = self.v[x as usize];
                self.v[x as usize] = ((a1 as u16 * 2) % 256) as u8;
                self.pc = self.pc + 2;
                proof {
                    assert(self@ =~= spec_exec(old(self)@, instr, 0u8)->Ok_0);
                    assert(exec_matches(old(self)@, self@, Ok(()), instr, 0u8));
                }
                Ok(())
            },
            _ => unreached(),
        }
    }

    /// Executes one index-register and memory instruction, as [`exec_matches`] describes.
    #[verifier::rlimit(60)]
    #[verifier::spinoff_prover]
    fn exec_index(&mut self, instr: Instr) -> (res: Result<(), Fault>)
        requires
            old(self).wf(),
            old(self)@.pc + 1 < 4096,
            instr_wf(instr),
            instr is LdI || instr is AddI || instr is LdFont || instr is Bcd || instr is StoreRegs || instr is LoadRegs,
        ensures
            final(self).wf(),
            exists|rnd: u8| #[trigger] exec_matches(old(self)@, final(self)@, res, instr, rnd),
    {
        match instr {
            Instr::LdI(nnn) => {
                self.i = nnn;
                self.pc = self.pc + 2;
                proof {
                    assert(self@ =~= spec_exec(old(self)@, instr, 0u8)->Ok_0);
                    assert(exec_matches(old(self)@, self@, Ok(()), instr, 0u8));
                }
                Ok(())
            },
            Instr::AddI(x) => {
                let sum: u32 = self.i as u32 + self.v[x as usize] as u32;
                self.i = (sum % 65536) as u16;
                let flag: u8 = if self.i > 0x0F00 {
                    1
                } else {
                    0
                };
                self.v[15] = flag;
                self.pc = self.pc + 2;
                proof {
                    assert(self@ =~= spec_exec(old(self)@, instr, 0u8)->Ok_0);
                    assert(exec_matches(old(self)@, self@, Ok(()), instr, 0u8));
                }
                Ok(())
            },
            Instr::LdFont(x) => {
                self.i = self.v[x as usize] as u16 * 5;
                self.pc = self.pc + 2;
                proof {
                    assert(self@ =~= spec_exec(old(self)@, instr, 0u8)->Ok_0);
                    assert(exec_matches(old(self)@, self@, Ok(()), instr, 0u8));
                }
                Ok(())
            },
            Instr::Bcd(x) => {
                if self.i as usize + 2 >= 4096 {
                    proof {
                        assert(exec_matches(old(self)@, self@, Err(Fault::AddressOutOfRange), instr, 0u8));
                    }
                    Err(Fault::AddressOutOfRange)
                } else {
                    let i = self.i as usize;
                    let vx = self.v[x as usize];
                    self.memory[i] = vx / 100;
                    self.memory[i + 1] = (vx % 100) / 10;
                    self.memory[i + 2] = vx % 10;
                    self.pc = self.pc + 2;
                    proof {
                        assert(self@ =~= spec_exec(old(self)@, instr, 0u8)->Ok_0);
                        assert(exec_matches(old(self)@, self@, Ok(()), instr, 0u8));
                    }
                    Ok(())
                }
            },
            Instr::StoreRegs(x) => {
                if self.i as usize + x as usize >= 4096 {
                    proof {
                        assert(exec_matches(old(self)@, self@, Err(Fault::AddressOutOfRange), instr, 0u8));
                    }
                    Err(Fault::AddressOutOfRange)
                } else {
                    let i = self.i as usize;
                    let mut k: usize = 0;
                    while k <= x as usize
                        invariant
                            k <= x as usize + 1,
                            x < 16,
                            i + (x as usize) < 4096,
                            i == old(self)@.i,
                            self.memory@.len() == 4096,
                            self.stack == old(self).stack,
                            self.v == old(self).v,
                            self.keypad == old(self).keypad,
                            self.frame_buffer == old(self).frame_buffer,
                            self.i == old(self).i,
                            self.pc == old(self).pc,
                            self.sp == old(self).sp,
                            self.dt == old(self).dt,
                            self.st == old(self).st,
                            self.frame_buffer_updated == old(self).frame_buffer_updated,
                            self@.v.len() == 16,
                            forall|a: int|
                                0 <= a < 4096 && !(i <= a < i + k) ==> self.memory@[a]
                                    == old(self)@.mem[a],
                            forall|a: int|
                                i <= a < i + k ==> self.memory@[a] == old(self)@.v[a - i],
                        decreases x as usize + 1 - k,
                    {
                        self.memory[i + k] = self.v[k];
                        k = k + 1;
                    }
                    self.pc = self.pc + 2;
                    proof {
                        assert(self@.mem =~= spec_exec(old(self)@, instr, 0u8)->Ok_0.mem);
                        assert(self@ =~= spec_exec(old(self)@, instr, 0u8)->Ok_0);
                        assert(exec_matches(old(self)@, self@, Ok(()), instr, 0u8));
                    }
                    Ok(())
                }
            },
            Instr::LoadRegs(x) => {
                if self.i as usize + x as usize >= 4096 {
                    proof {
                        assert(exec_matches(old(self)@, self@, Err(Fault::AddressOutOfRange), instr, 0u8));
                    }
                    Err(Fault::AddressOutOfRange)
                } else {
                    let i = self.i as usize;
                    let mut k: usize = 0;
                    while k <= x as usize
                        invariant
                            k <= x as usize + 1,
                            x < 16,
                            i + (x as usize) < 4096,
                            i == old(self)@.i,
                            self.memory == old(self).memory,
                            self.stack == old(self).stack,
                            self.keypad == old(self).keypad,
                            self.frame_buffer == old(self).frame_buffer,
                            self.i == old(self).i,
                            self.pc == old(self).pc,
                            self.sp == old(self).sp,
                            self.dt == old(self).dt,
                            self.st == old(self).st,
                            self.frame_buffer_updated == old(self).frame_buffer_updated,
                            self.memory@.len() == 4096,
                            self.v@.len() == 16,
                            forall|j: int| k <= j < 16 ==> self.v@[j] == old(self)@.v[j],
                            forall|j: int| 0 <= j < k ==> self.v@[j] == old(self)@.mem[i + j],
                        decreases x as usize + 1 - k,
                    {
                        self.v[k] = self.memory[i + k];
                        k = k + 1;
                    }
                    self.pc = self.pc + 2;
                    proof {
                        assert(self@.v =~= spec_exec(old(self)@, instr, 0u8)->Ok_0.v);
                        assert(self@ =~= spec_exec(old(self)@, instr, 0u8)->Ok_0);
                        assert(exec_matches(old(self)@, self@, Ok(()), instr, 0u8));
                    }
                    Ok(())
                }
            },
            _ => unreached(),
        }
    }

    /// Executes one random, drawing and key-wait instruction, as [`exec_matches`] describes.
    #[verifier::rlimit(60)]
    #[verifier::spinoff_prover]
    fn exec_events(&mut self, instr: Instr) -> (res: Result<(), Fault>)
        requires
            old(self).wf(),
            old(self)@.pc + 1 < 4096,
            instr_wf(instr),
            instr is Rnd || instr is Drw || instr is LdKey,
        ensures
            final(self).wf(),
            exists|rnd: u8| #[trigger] exec_matches(old(self)@, final(self)@, res, instr, rnd),
    {
        match instr {
            Instr::Rnd(x, kk) => {
                let r = random_byte();
                self.v[x as usize] = r & kk;
                self.pc = self.pc + 2;
                proof {
                    assert(self@ =~= spec_exec(old(self)@, instr, r)->Ok_0);
                    assert(exec_matches(old(self)@, self@, Ok(()), instr, r));
                }
                Ok(())
            },
            Instr::Drw(x, y, n) => {
                let vx = self.v[x as usize];
                let vy = self.v[y as usize];
                if n > 0 && self.i as usize + n as usize > 4096 {
                    proof {
                        assert(exec_matches(old(self)@, self@, Err(Fault::AddressOutOfRange), instr, 0u8));
                    }
                    Err(Fault::AddressOutOfRange)
                } else {
                    let collision = draw_sprite(
                        &mut self.frame_buffer,
                        &self.memory,
                        self.i as usize,
                        vx,
                        vy,
                        n,
                    );
                    if collision {
                        self.v[15] = 1;
                    } else {
                        self.v[15] = 0;
                    }
                    self.frame_buffer_updated = true;
                    self.pc = self.pc + 2;
                    proof {
                        assert(self@ =~= spec_exec(old(self)@, instr, 0u8)->Ok_0);
                        assert(exec_matches(old(self)@, self@, Ok(()), instr, 0u8));
                    }
                    Ok(())
                }
            },
            Instr::LdKey(x) => {
                let mut found: usize = 16;
                let mut k: usize = 16;
                while k > 0
                    invariant
                        k <= 16,
                        found <= 16,
                        self == old(self),
                        self.wf(),
                        found == first_pressed_from(self.keypad@, k as int),
                    decreases k,
                {
                    k = k - 1;
                    if self.keypad[k] {
                        found = k;
                    }
                }
                if found == 16 {
                    proof {
                        assert(self@ =~= spec_exec(old(self)@, instr, 0u8)->Ok_0);
                        assert(exec_matches(old(self)@, self@, Ok(()), instr, 0u8));
                    }
                    Ok(())
                } else {
                    self.v[x as usize] = found as u8;
                    self.pc = self.pc + 2;
                    proof {
                        assert(self@ =~= spec_exec(old(self)@, instr, 0u8)->Ok_0);
                        assert(exec_matches(old(self)@, self@, Ok(()), instr, 0u8));
                    }
                    Ok(())
                }
            },
            _ => unreached(),
        }
    }

    /// Decodes and executes one opcode, as [`opcode_matches`] describes:
    /// the whole state transition is pinned down for every instruction,
    /// up to the choice of the random byte.
    pub fn execute_opcode(&mut self, op: u16) -> (res: Result<(), Fault>)
        requires
            old(self).wf(),
            old(self)@.pc + 1 < 4096,
        ensures
            final(self).wf(),
            exists|rnd: u8| #[trigger] opcode_matches(old(self)@, final(self)@, res, op, rnd),
    {
        let instr = match decode(op) {
            None => {
                proof {
                    assert(opcode_matches(old(self)@, self@, Err(Fault::IllegalInstruction), op, 0u8));
                }
                return Err(Fault::IllegalInstruction);
            },
            Some(i) => i,
        };
        proof {
            lemma_decode_wf(op);
            assert(instr_wf(instr));
        }
        let res = match instr {
            Instr::Cls | Instr::Ret | Instr::Jp(_) | Instr::Call(_) | Instr::JpV0(_) => self.exec_control(
                instr,
            ),
            Instr::SeImm(..) | Instr::SneImm(..) | Instr::SeReg(..) | Instr::SneReg(..)
                | Instr::Skp(..) | Instr::Sknp(..) => self.exec_skip(instr),
            Instr::LdImm(..) | Instr::LdReg(..) | Instr::Or(..) | Instr::And(..) | Instr::Xor(..)
                | Instr::LdDt(..) | Instr::SetDt(..) | Instr::SetSt(..) => self.exec_moves(instr),
            Instr::AddImm(..) | Instr::AddCarry(..) | Instr::SubBorrow(..) | Instr::Shr(..)
                | Instr::SubN(..) | Instr::Shl(..) => self.exec_arith(instr),
            Instr::LdI(..) | Instr::AddI(..) | Instr::LdFont(..) | Instr::Bcd(..)
                | Instr::StoreRegs(..) | Instr::LoadRegs(..) => self.exec_index(instr),
            Instr::Rnd(..) | Instr::Drw(..) | Instr::LdKey(..) => self.exec_events(instr),
        };
        proof {
            let rnd = choose|rnd: u8|
                exec_matches(old(self)@, self@, res, instr, rnd);
            assert(opcode_matches(old(self)@, self@, res, op, rnd));
        }
        res
    }

    /// Runs exactly one fetch-decode-execute cycle and one timer tick,
    /// as [`cycle_matches`] describes, reporting any fault instead of
    /// mutating beyond the cleared changed flag.
    pub fn emulate_cycle(&mut self) -> (res: Result<(), Fault>)
        requires
            old(self).wf(),
        ensures
            final(self).wf(),
            exists|rnd: u8| #[trigger] cycle_matches(old(self)@, final(self)@, res, rnd),
    {
        self.frame_buffer_updated = false;
        proof {
            assert(self@ =~= (St { fb_up: false, ..old(self)@ }));
        }
        if self.pc >= 4095 {
            proof {
                assert(cycle_matches(old(self)@, self@, Err(Fault::AddressOutOfRange), 0u8));
            }
            return Err(Fault::AddressOutOfRange);
        }
        let ghost s0 = self@;
        let b1 = self.memory[self.pc as usize];
        let b2 = self.memory[self.pc as usize + 1];
        let op: u16 = (b1 as u16) * 256 + (b2 as u16);
        let res = self.execute_opcode(op);
        match res {
            Err(f) => {
                proof {
                    let rnd = choose|rnd: u8| opcode_matches(s0, self@, Err(f), op, rnd);
                    assert(cycle_matches(old(self)@, self@, Err(f), rnd));
                }
                Err(f)
            },
            Ok(()) => {
                let ghost s1 = self@;
                if self.dt > 0 {
                    self.dt = self.dt - 1;
                }
                if self.st > 0 {
                    self.st = self.st - 1;
                }
                proof {
                    let rnd = choose|rnd: u8| opcode_matches(s0, s1, Ok(()), op, rnd);
                    assert(self@ =~= tick_timers(s1));
                    assert(cycle_matches(old(self)@, self@, Ok(()), rnd));
                }
                Ok(())
            },
        }
    }
}

} // verus!
