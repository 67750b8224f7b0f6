//! The instruction set: the decoded form of a 16-bit opcode and the
//! decoder that extracts it, specified field by field.
//!
//! An opcode `hhhh` is split into fixed bit-fields: the top nibble selects
//! the family, `x` is bits 8..12, `y` is bits 4..8, `n` is bits 0..4,
//! `kk` is bits 0..8 and `nnn` is bits 0..12. Any value that matches no
//! defined operation decodes to `None` and the cycle reports an illegal
//! instruction.

use vstd::prelude::*;

verus! {

/// One decoded CHIP-8 instruction. Register indices are always below 16,
/// `n` below 16 and `nnn` below 4096 when produced by [`spec_decode`].
#[derive(Clone, Copy, PartialEq, Eq, Structural, Debug)]
pub enum Instr {
    /// `00E0`: clear the screen.
    Cls,
    /// `00EE`: return from a subroutine.
    Ret,
    /// `1nnn`: jump to `nnn`.
    Jp(u16),
    /// `2nnn`: call the subroutine at `nnn`.
    Call(u16),
    /// `3xkk`: skip the next instruction if `Vx == kk`.
    SeImm(u8, u8),
    /// `4xkk`: skip the next instruction if `Vx != kk`.
    SneImm(u8, u8),
    /// `5xy0`: skip the next instruction if `Vx == Vy`.
    SeReg(u8, u8),
    /// `6xkk`: `Vx = kk`.
    LdImm(u8, u8),
    /// `7xkk`: `Vx = Vx + kk`, wrapping.
    AddImm(u8, u8),
    /// `8xy0`: `Vx = Vy`.
    LdReg(u8, u8),
    /// `8xy1`: `Vx = Vx | Vy`.
    Or(u8, u8),
    /// `8xy2`: `Vx = Vx & Vy`.
    And(u8, u8),
    /// `8xy3`: `Vx = Vx ^ Vy`.
    Xor(u8, u8),
    /// `8xy4`: `Vx = Vx + Vy` with the carry in the flag register.
    AddCarry(u8, u8),
    /// `8xy5`: `Vx = Vx - Vy` with the not-borrow in the flag register.
    SubBorrow(u8, u8),
    /// `8xy6`: shift `Vx` right by one, its old low bit in the flag register.
    Shr(u8),
    /// `8xy7`: `Vx = Vy - Vx` with the not-borrow in the flag register.
    SubN(u8, u8),
    /// `8xyE`: shift `Vx` left by one, its old high bit in the flag register.
    Shl(u8),
    /// `9xy0`: skip the next instruction if `Vx != Vy`.
    SneReg(u8, u8),
    /// `Annn`: `I = nnn`.
    LdI(u16),
    /// `Bnnn`: jump to `nnn + V0`.
    JpV0(u16),
    /// `Cxkk`: `Vx` = a uniformly random byte masked with `kk`.
    Rnd(u8, u8),
    /// `Dxyn`: draw the `n`-byte sprite at `I` at position `(Vx, Vy)`.
    Drw(u8, u8, u8),
    /// `Ex9E`: skip the next instruction if key `Vx` is pressed.
    Skp(u8),
    /// `ExA1`: skip the next instruction if key `Vx` is not pressed.
    Sknp(u8),
    /// `Fx07`: `Vx` = delta timer.
    LdDt(u8),
    /// `Fx0A`: block until a key is pressed, then `Vx` = its index.
    LdKey(u8),
    /// `Fx15`: delta timer = `Vx`.
    SetDt(u8),
    /// `Fx18`: sound timer = `Vx`.
    SetSt(u8),
    /// `Fx1E`: `I = I + Vx`, flagging `I > 0x0F00`.
    AddI(u8),
    /// `Fx29`: `I` = address of the font glyph for digit `Vx`.
    LdFont(u8),
    /// `Fx33`: write the decimal digits of `Vx` to `memory[I..I+3]`.
    Bcd(u8),
    /// `Fx55`: copy `V0..=Vx` into `memory[I..]`.
    StoreRegs(u8),
    /// `Fx65`: copy `memory[I..]` into `V0..=Vx`.
    LoadRegs(u8),
}

/// What a fetched opcode means, or `None` for an illegal instruction.
pub open spec fn spec_decode(op: u16) -> Option<Instr> {
    let fam = op / 4096;
    let x = ((op / 256) % 16) as u8;
    let y = ((op / 16) % 16) as u8;
    let n = (op % 16) as u8;
    let kk = (op % 256) as u8;
    let nnn = op % 4096;
    if op == 0x00E0 {
        Some(Instr::Cls)
    } else if op == 0x00EE {
        Some(Instr::Ret)
    } else if fam == 0x1 {
        Some(Instr::Jp(nnn))
    } else if fam == 0x2 {
        Some(Instr::Call(nnn))
    } else if fam == 0x3 {
        Some(Instr::SeImm(x, kk))
    } else if fam == 0x4 {
        Some(Instr::SneImm(x, kk))
    } else if fam == 0x5 && n == 0 {
        Some(Instr::SeReg(x, y))
    } else if fam == 0x6 {
        Some(Instr::LdImm(x, kk))
    } else if fam == 0x7 {
        Some(Instr::AddImm(x, kk))
    } else if fam == 0x8 {
        if n == 0x0 {
            Some(Instr::LdReg(x, y))
        } else if n == 0x1 {
            Some(Instr::Or(x, y))
        } else if n == 0x2 {
            Some(Instr::And(x, y))
        } else if n == 0x3 {
            Some(Instr::Xor(x, y))
        } else if n == 0x4 {
            Some(Instr::AddCarry(x, y))
        } else if n == 0x5 {
            Some(Instr::SubBorrow(x, y))
        } else if n == 0x6 {
            Some(Instr::Shr(x))
        } else if n == 0x7 {
            Some(Instr::SubN(x, y))
        } else if n == 0xE {
            Some(Instr::Shl(x))
        } else {
            None
        }
    } else if fam == 0x9 && n == 0 {
        Some(Instr::SneReg(x, y))
    } else if fam == 0xA {
        Some(Instr::LdI(nnn))
    } else if fam == 0xB {
        Some(Instr::JpV0(nnn))
    } else if fam == 0xC {
        Some(Instr::Rnd(x, kk))
    } else if fam == 0xD {
        Some(Instr::Drw(x, y, n))
    } else if fam == 0xE && kk == 0x9E {
        Some(Instr::Skp(x))
    } else if fam == 0xE && kk == 0xA1 {
        Some(Instr::Sknp(x))
    } else if fam == 0xF {
        if kk == 0x07 {
            Some(Instr::LdDt(x))
        } else if kk == 0x0A {
            Some(Instr::LdKey(x))
        } else if kk == 0x15 {
            Some(Instr::SetDt(x))
        } else if kk == 0x18 {
            Some(Instr::SetSt(x))
        } else if kk == 0x1E {
            Some(Instr::AddI(x))
        } else if kk == 0x29 {
            Some(Instr::LdFont(x))
        } else if kk == 0x33 {
            Some(Instr::Bcd(x))
        } else if kk == 0x55 {
            Some(Instr::StoreRegs(x))
        } else if kk == 0x65 {
            Some(Instr::LoadRegs(x))
        } else {
            None
        }
    } else {
        None
    }
}

/// Bounds that every instruction produced by the decoder satisfies:
/// register indices and `n` below 16, addresses below 4096.
pub open spec fn instr_wf(instr: Instr) -> bool {
    match instr {
        Instr::Cls => true,
        Instr::Ret => true,
        Instr::Jp(nnn) => nnn < 4096,
        Instr::Call(nnn) => nnn < 4096,
        Instr::SeImm(x, kk) => x < 16,
        Instr::SneImm(x, kk) => x < 16,
        Instr::SeReg(x, y) => x < 16 && y < 16,
        Instr::LdImm(x, kk) => x < 16,
        Instr::AddImm(x, kk) => x < 16,
        Instr::LdReg(x, y) => x < 16 && y < 16,
        Instr::Or(x, y) => x < 16 && y < 16,
        Instr::And(x, y) => x < 16 && y < 16,
        Instr::Xor(x, y) => x < 16 && y < 16,
        Instr::AddCarry(x, y) => x < 16 && y < 16,
        Instr::SubBorrow(x, y) => x < 16 && y < 16,
        Instr::Shr(x) => x < 16,
        Instr::SubN(x, y) => x < 16 && y < 16,
        Instr::Shl(x) => x < 16,
        Instr::SneReg(x, y) => x < 16 && y < 16,
        Instr::LdI(nnn) => nnn < 4096,
        Instr::JpV0(nnn) => nnn < 4096,
        Instr::Rnd(x, kk) => x < 16,
        Instr::Drw(x, y, n) => x < 16 && y < 16 && n < 16,
        Instr::Skp(x) => x < 16,
        Instr::Sknp(x) => x < 16,
        Instr::LdDt(x) => x < 16,
        Instr::LdKey(x) => x < 16,
        Instr::SetDt(x) => x < 16,
        Instr::SetSt(x) => x < 16,
        Instr::AddI(x) => x < 16,
        Instr::LdFont(x) => x < 16,
        Instr::Bcd(x) => x < 16,
        Instr::StoreRegs(x) => x < 16,
        Instr::LoadRegs(x) => x < 16,
    }
}

/// Every decodable opcode decodes to an in-bounds instruction.
pub proof fn lemma_decode_wf(op: u16)
    ensures
        spec_decode(op) matches Some(instr) ==> instr_wf(instr),
{
}

/// Decodes a fetched opcode, exactly as [`spec_decode`] says.
pub fn decode(op: u16) -> (r: Option<Instr>)
    ensures
        r == spec_decode(op),
{
    let fam = op / 4096;
    let x = ((op / 256) % 16) as u8;
    let y = ((op / 16) % 16) as u8;
    let n = (op % 16) as u8;
    let kk = (op % 256) as u8;
    let nnn = op % 4096;
    if op == 0x00E0 {
        Some(Instr::Cls)
    } else if op == 0x00EE {
        Some(Instr::Ret)
    } else if fam == 0x1 {
        Some(Instr::Jp(nnn))
    } else if fam == 0x2 {
        Some(Instr::Call(nnn))
    } else if fam == 0x3 {
        Some(Instr::SeImm(x, kk))
    } else if fam == 0x4 {
        Some(Instr::SneImm(x, kk))
    } else if fam == 0x5 && n == 0 {
        Some(Instr::SeReg(x, y))
    } else if fam == 0x6 {
        Some(Instr::LdImm(x, kk))
    } else if fam == 0x7 {
        Some(Instr::AddImm(x, kk))
    } else if fam == 0x8 {
        if n == 0x0 {
            Some(Instr::LdReg(x, y))
        } else if n == 0x1 {
            Some(Instr::Or(x, y))
        } else if n == 0x2 {
            Some(Instr::And(x, y))
        } else if n == 0x3 {
            Some(Instr::Xor(x, y))
        } else if n == 0x4 {
            Some(Instr::AddCarry(x, y))
        } else if n == 0x5 {
            Some(Instr::SubBorrow(x, y))
        } else if n == 0x6 {
            Some(Instr::Shr(x))
        } else if n == 0x7 {
            Some(Instr::SubN(x, y))
        } else if n == 0xE {
            Some(Instr::Shl(x))
        } else {
            None
        }
    } else if fam == 0x9 && n == 0 {
        Some(Instr::SneReg(x, y))
    } else if fam == 0xA {
        Some(Instr::LdI(nnn))
    } else if fam == 0xB {
        Some(Instr::JpV0(nnn))
    } else if fam == 0xC {
        Some(Instr::Rnd(x, kk))
    } else if fam == 0xD {
        Some(Instr::Drw(x, y, n))
    } else if fam == 0xE && kk == 0x9E {
        Some(Instr::Skp(x))
    } else if fam == 0xE && kk == 0xA1 {
        Some(Instr::Sknp(x))
    } else if fam == 0xF {
        if kk == 0x07 {
            Some(Instr::LdDt(x))
        } else if kk == 0x0A {
            Some(Instr::LdKey(x))
        } else if kk == 0x15 {
            Some(Instr::SetDt(x))
        } else if kk == 0x18 {
            Some(Instr::SetSt(x))
        } else if kk == 0x1E {
            Some(Instr::AddI(x))
        } else if kk == 0x29 {
            Some(Instr::LdFont(x))
        } else if kk == 0x33 {
            Some(Instr::Bcd(x))
        } else if kk == 0x55 {
            Some(Instr::StoreRegs(x))
        } else if kk == 0x65 {
            Some(Instr::LoadRegs(x))
        } else {
            None
        }
    } else {
        None
    }
}

} // verus!
