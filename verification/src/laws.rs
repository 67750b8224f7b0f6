//! Laws of the interpreter: properties that relate whole cycles, proved
//! once and for all over the specification-level transition function
//! that [`crate::cycle`] pins the executor to.

use crate::cycle::{fetched, first_pressed_from, spec_cycle, Fault};
use crate::isa::{spec_decode, Instr};
use crate::screen::{flip, lemma_cell_index, lemma_wrap_round_trip, sprite_bit};
use crate::state::{font_seq, load_st, St};
use vstd::prelude::*;

verus! {

/// Loading an immediate reads back: after a cycle that executes
/// load-immediate of `kk` into `Vx`, register `Vx` holds exactly `kk`,
/// for every register index and every immediate.
pub proof fn lemma_load_immediate_reads_back(s: St, x: u8, kk: u8, rnd: u8)
    requires
        s.wf(),
        s.pc + 1 < 4096,
        spec_decode(fetched(s)) == Some(Instr::LdImm(x, kk)),
    ensures
        spec_cycle(s, rnd).1 == Ok::<(), Fault>(()),
        x < 16,
        spec_cycle(s, rnd).0.v[x as int] == kk,
{
}

/// Add-with-carry-flag: for registers other than the flag register
/// itself, `Vx` becomes `(Vx + Vy) mod 256` and the flag register is 1
/// exactly when the true sum exceeds 255.
pub proof fn lemma_add_with_carry(s: St, x: u8, y: u8, rnd: u8)
    requires
        s.wf(),
        s.pc + 1 < 4096,
        spec_decode(fetched(s)) == Some(Instr::AddCarry(x, y)),
        x != 15,
        y != 15,
    ensures
        spec_cycle(s, rnd).1 == Ok::<(), Fault>(()),
        spec_cycle(s, rnd).0.v[x as int] == (s.v[x as int] + s.v[y as int]) % 256,
        spec_cycle(s, rnd).0.v[15] == (if s.v[x as int] + s.v[y as int] > 255 {
            1u8
        } else {
            0u8
        }),
{
}

/// Subtract-with-not-borrow-flag: for registers other than the flag
/// register itself, `Vx` becomes `(Vx - Vy) mod 256` and the flag
/// register is 1 exactly when `Vx > Vy` (no borrow), 0 when `Vx <= Vy`.
pub proof fn lemma_sub_with_not_borrow(s: St, x: u8, y: u8, rnd: u8)
    requires
        s.wf(),
        s.pc + 1 < 4096,
        spec_decode(fetched(s)) == Some(Instr::SubBorrow(x, y)),
        x != 15,
        y != 15,
    ensures
        spec_cycle(s, rnd).1 == Ok::<(), Fault>(()),
        spec_cycle(s, rnd).0.v[x as int] == (s.v[x as int] - s.v[y as int]) % 256,
        spec_cycle(s, rnd).0.v[15] == (if s.v[x as int] > s.v[y as int] {
            1u8
        } else {
            0u8
        }),
{
}

/// Clear-screen leaves every framebuffer cell unlit and reports the
/// framebuffer as changed for that cycle.
pub proof fn lemma_clear_screen(s: St, rnd: u8)
    requires
        s.wf(),
        s.pc + 1 < 4096,
        spec_decode(fetched(s)) == Some(Instr::Cls),
    ensures
        spec_cycle(s, rnd).1 == Ok::<(), Fault>(()),
        spec_cycle(s, rnd).0.fb_up,
        forall|p: int| 0 <= p < 2048 ==> spec_cycle(s, rnd).0.fb[p] == 0,
{
}

/// The changed flag reflects only the cycle just executed: it is set
/// exactly when that cycle completed a clear-screen or a draw, and is
/// false after every other cycle, faulting ones included.
pub proof fn lemma_changed_flag_only_when_drawing(s: St, rnd: u8)
    requires
        s.wf(),
    ensures
        spec_cycle(s, rnd).0.fb_up <==> (spec_cycle(s, rnd).1 == Ok::<(), Fault>(()) && (
        spec_decode(fetched(s)) matches Some(i) && (i is Cls || i is Drw))),
{
    if s.pc + 1 < 4096 {
        match spec_decode(fetched(s)) {
            None => {},
            Some(i) => {
                match i {
                    Instr::Cls => {},
                    Instr::Ret => {},
                    Instr::Jp(nnn) => {},
                    Instr::Call(nnn) => {},
                    Instr::SeImm(x, kk) => {},
                    Instr::SneImm(x, kk) => {},
                    Instr::SeReg(x, y) => {},
                    Instr::LdImm(x, kk) => {},
                    Instr::AddImm(x, kk) => {},
                    Instr::LdReg(x, y) => {},
                    Instr::Or(x, y) => {},
                    Instr::And(x, y) => {},
                    Instr::Xor(x, y) => {},
                    Instr::AddCarry(x, y) => {},
                    Instr::SubBorrow(x, y) => {},
                    Instr::Shr(x) => {},
                    Instr::SubN(x, y) => {},
                    Instr::Shl(x) => {},
                    Instr::SneReg(x, y) => {},
                    Instr::LdI(nnn) => {},
                    Instr::JpV0(nnn) => {},
                    Instr::Rnd(x, kk) => {},
                    Instr::Drw(x, y, n) => {},
                    Instr::Skp(x) => {},
                    Instr::Sknp(x) => {},
                    Instr::LdDt(x) => {},
                    Instr::LdKey(x) => {},
                    Instr::SetDt(x) => {},
                    Instr::SetSt(x) => {},
                    Instr::AddI(x) => {},
                    Instr::LdFont(x) => {},
                    Instr::Bcd(x) => {},
                    Instr::StoreRegs(x) => {},
                    Instr::LoadRegs(x) => {},
                }
            },
        }
    }
}

/// Sprite coordinates wrap toroidally: for each lit bit of the sprite,
/// the cell at row `(Vy + row) mod 32` and column `(Vx + col) mod 64` is
/// toggled, and for an unlit bit that cell keeps its value — however far
/// `Vx + col` or `Vy + row` reach beyond the grid.
pub proof fn lemma_draw_wraps(s: St, x: u8, y: u8, n: u8, rnd: u8, row: int, col: int)
    requires
        s.wf(),
        s.pc + 1 < 4096,
        spec_decode(fetched(s)) == Some(Instr::Drw(x, y, n)),
        n == 0 || s.i + n <= 4096,
        0 <= row < n,
        0 <= col < 8,
    ensures
        spec_cycle(s, rnd).1 == Ok::<(), Fault>(()),
        ({
            let vx = s.v[x as int] as int;
            let vy = s.v[y as int] as int;
            let p = ((vy + row) % 32) * 64 + ((vx + col) % 64);
            spec_cycle(s, rnd).0.fb[p] == if sprite_bit(s.mem[s.i + row], col) {
                flip(s.fb[p])
            } else {
                s.fb[p]
            }
        }),
{
    let vx = s.v[x as int] as int;
    let vy = s.v[y as int] as int;
    let rr = (vy + row) % 32;
    let cc = (vx + col) % 64;
    lemma_wrap_round_trip(vy, row, 32, rr);
    lemma_wrap_round_trip(vx, col, 64, cc);
    lemma_cell_index(rr, cc);
}

/// No key pressed within `j..16` means no key is found from `j`.
proof fn lemma_first_pressed_none(keys: Seq<bool>, j: int)
    requires
        forall|k: int| j <= k < 16 ==> !keys[k],
    ensures
        first_pressed_from(keys, j) == 16,
    decreases 16 - j,
{
    if 0 <= j < 16 {
        lemma_first_pressed_none(keys, j + 1);
    }
}

/// What the lowest-pressed-key search returns: a value in `j..=16`; 16
/// exactly when nothing in `j..16` is pressed; otherwise the lowest
/// pressed index at or above `j`.
proof fn lemma_first_pressed_props(keys: Seq<bool>, j: int)
    requires
        0 <= j <= 16,
    ensures
        j <= first_pressed_from(keys, j) <= 16,
        first_pressed_from(keys, j) < 16 ==> keys[first_pressed_from(keys, j)],
        forall|k: int| j <= k < first_pressed_from(keys, j) ==> !keys[k],
        (exists|k: int| j <= k < 16 && keys[k]) ==> first_pressed_from(keys, j) < 16,
    decreases 16 - j,
{
    if j < 16 && !keys[j] {
        lemma_first_pressed_props(keys, j + 1);
        if exists|k: int| j <= k < 16 && keys[k] {
            let k = choose|k: int| j <= k < 16 && keys[k];
            assert(j + 1 <= k < 16 && keys[k]);
        }
    }
}

/// Block-on-key with no key pressed: the cycle completes without
/// advancing `PC`, leaving memory and registers untouched, so the same
/// instruction is fetched again on the next cycle.
pub proof fn lemma_block_on_key_waits(s: St, x: u8, rnd: u8)
    requires
        s.wf(),
        s.pc + 1 < 4096,
        spec_decode(fetched(s)) == Some(Instr::LdKey(x)),
        forall|k: int| 0 <= k < 16 ==> !s.keypad[k],
    ensures
        spec_cycle(s, rnd).1 == Ok::<(), Fault>(()),
        spec_cycle(s, rnd).0.pc == s.pc,
        spec_cycle(s, rnd).0.v == s.v,
        spec_cycle(s, rnd).0.mem == s.mem,
        spec_cycle(s, rnd).0.keypad == s.keypad,
{
    lemma_first_pressed_none(s.keypad, 0);
}

/// Block-on-key with a key pressed: the cycle completes, `Vx` receives
/// the lowest-indexed pressed key, and `PC` advances past the
/// instruction.
pub proof fn lemma_block_on_key_releases(s: St, x: u8, rnd: u8)
    requires
        s.wf(),
        s.pc + 1 < 4096,
        spec_decode(fetched(s)) == Some(Instr::LdKey(x)),
        exists|k: int| 0 <= k < 16 && s.keypad[k],
    ensures
        spec_cycle(s, rnd).1 == Ok::<(), Fault>(()),
        spec_cycle(s, rnd).0.pc == s.pc + 2,
        x < 16,
        ({
            let low = first_pressed_from(s.keypad, 0);
            &&& 0 <= low < 16
            &&& s.keypad[low]
            &&& forall|k: int| 0 <= k < low ==> !s.keypad[k]
            &&& spec_cycle(s, rnd).0.v[x as int] == low
        }),
{
    lemma_first_pressed_props(s.keypad, 0);
}

/// A faulting cycle is harmless: whatever the fault, the machine is left
/// exactly as it was, apart from the changed flag that every cycle
/// clears first, and the timers do not tick.
pub proof fn lemma_fault_leaves_state(s: St, rnd: u8)
    requires
        s.wf(),
    ensures
        spec_cycle(s, rnd).1 is Err ==> spec_cycle(s, rnd).0 == (St { fb_up: false, ..s }),
{
}

/// Loading is a full reset: the state after a load is a function of the
/// program image and the font bytes alone — nothing else of the prior
/// state survives. So with the font intact (it is written once at
/// creation; a program can clobber it only by storing through the index
/// register below `0x50`), a load lands in exactly the state a fresh
/// machine reaches after loading the same image, however many cycles
/// and key updates came before.
pub proof fn lemma_load_is_full_reset(s: St, rom: Seq<u8>)
    requires
        s.wf(),
        forall|a: int| 0 <= a < 80 ==> s.mem[a] == font_seq()[a],
    ensures
        load_st(s, rom) == load_st(St::initial(), rom),
{
    assert(load_st(s, rom).mem =~= load_st(St::initial(), rom).mem);
    assert(load_st(s, rom) =~= load_st(St::initial(), rom));
}

/// A call followed immediately by a return: after the called address
/// executes a return, `PC` is at the instruction after the call and the
/// stack pointer is back at its pre-call value.
pub proof fn lemma_call_then_return(s: St, nnn: u16, rnd1: u8, rnd2: u8)
    requires
        s.wf(),
        s.pc + 1 < 4096,
        spec_decode(fetched(s)) == Some(Instr::Call(nnn)),
        s.sp < 16,
        nnn + 1 < 4096,
        s.mem[nnn as int] == 0x00u8,
        s.mem[nnn as int + 1] == 0xEEu8,
    ensures
        spec_cycle(s, rnd1).1 == Ok::<(), Fault>(()),
        spec_cycle(spec_cycle(s, rnd1).0, rnd2).1 == Ok::<(), Fault>(()),
        spec_cycle(spec_cycle(s, rnd1).0, rnd2).0.pc == s.pc + 2,
        spec_cycle(spec_cycle(s, rnd1).0, rnd2).0.sp == s.sp,
{
    let s1 = spec_cycle(s, rnd1).0;
    assert(s1.pc == nnn);
    assert(fetched(s1) == 0x00EEu16);
    assert(spec_decode(fetched(s1)) == Some(Instr::Ret));
    assert(s1.stack[s1.sp - 1] == (s.pc + 2) as u16);
}

} // verus!
