//! Instruction words and their decoding.

use vstd::prelude::*;

verus! {

/// One decoded CHIP-8 instruction. Register operands are register numbers,
/// addresses are twelve-bit values.
#[derive(Clone, Copy, Debug, PartialEq, Eq)]
pub enum Instruction {
    /// `00E0`: clear the display.
    Cls,
    /// `00EE`: return from a subroutine.
    Ret,
    /// `0nnn`: jump to `nnn`.
    Sys(u16),
    /// `1nnn`: jump to `nnn`.
    Jp(u16),
    /// `2nnn`: call the subroutine at `nnn`.
    Call(u16),
    /// `3xkk`: skip the next instruction if `Vx == kk`.
    SeByte(u8, u8),
    /// `4xkk`: skip the next instruction if `Vx != kk`.
    SneByte(u8, u8),
    /// `5xy0`: skip the next instruction if `Vx == Vy`.
    SeReg(u8, u8),
    /// `6xkk`: `Vx = kk`.
    LdByte(u8, u8),
    /// `7xkk`: `Vx = Vx + kk`, wrapping, flag untouched.
    AddByte(u8, u8),
    /// `8xy0`: `Vx = Vy`.
    LdReg(u8, u8),
    /// `8xy1`: `Vx = Vx | Vy`.
    Or(u8, u8),
    /// `8xy2`: `Vx = Vx & Vy`.
    And(u8, u8),
    /// `8xy3`: `Vx = Vx ^ Vy`.
    Xor(u8, u8),
    /// `8xy4`: `Vx = Vx + Vy`, wrapping, `VF` = carry.
    AddReg(u8, u8),
    /// `8xy5`: `Vx = Vx - Vy`, wrapping, `VF` = 1 if `Vx > Vy`.
    Sub(u8, u8),
    /// `8xy6`: `Vx = Vx >> 1`, `VF` = the bit shifted out.
    Shr(u8, u8),
    /// `8xy7`: `VF` = 1 if `Vy > Vx`, and only then `Vx = Vy - Vx`; with
    /// `Vy <= Vx` the register `Vx` keeps its value.
    Subn(u8, u8),
    /// `8xyE`: `Vx = Vx << 1`, `VF` = the bit shifted out.
    Shl(u8, u8),
    /// `9xy0`: skip the next instruction if `Vx != Vy`.
    SneReg(u8, u8),
    /// `Annn`: `I = nnn`.
    LdI(u16),
    /// `Bnnn`: jump to `nnn + V0`.
    JpV0(u16),
    /// `Cxkk`: `Vx = random byte & kk`.
    Rnd(u8, u8),
    /// `Dxyn`: draw an `n`-row sprite from `I` at `(Vx, Vy)`.
    Drw(u8, u8, u8),
    /// `Ex9E`: skip the next instruction if key `Vx` is pressed.
    Skp(u8),
    /// `ExA1`: skip the next instruction if key `Vx` is not pressed.
    Sknp(u8),
    /// `Fx07`: `Vx = delay timer`.
    LdVxDt(u8),
    /// `Fx0A`: wait for a key and store it in `Vx`.
    LdVxK(u8),
    /// `Fx15`: `delay timer = Vx`.
    LdDtVx(u8),
    /// `Fx18`: `sound timer = Vx`.
    LdStVx(u8),
    /// `Fx1E`: `I = I + Vx`, without a flag; `I` may pass the end of memory.
    AddI(u8),
    /// `Fx29`: `I` = address of the glyph for `Vx`.
    LdF(u8),
    /// `Fx33`: store the decimal digits of `Vx` at `I`, `I+1`, `I+2`.
    LdB(u8),
    /// `Fx55`: store `V0..=Vx` at `I`; `I` stays.
    StoreRegs(u8),
    /// `Fx65`: load `V0..=Vx` from `I`; whether `I` then moves past them is
    /// a setting of the machine.
    LoadRegs(u8),
}

impl Instruction {
    /// Every register operand names one of the sixteen registers, every
    /// address has twelve bits, and a sprite has at most fifteen rows.
    pub open spec fn wf(self) -> bool {
        match self {
            Instruction::Cls | Instruction::Ret => true,
            Instruction::Sys(a)
            | Instruction::Jp(a)
            | Instruction::Call(a)
            | Instruction::LdI(a)
            | Instruction::JpV0(a) => a < 0x1000,
            Instruction::SeByte(x, _)
            | Instruction::SneByte(x, _)
            | Instruction::LdByte(x, _)
            | Instruction::AddByte(x, _)
            | Instruction::Rnd(x, _) => x < 16,
            Instruction::SeReg(x, y)
            | Instruction::LdReg(x, y)
            | Instruction::Or(x, y)
            | Instruction::And(x, y)
            | Instruction::Xor(x, y)
            | Instruction::AddReg(x, y)
            | Instruction::Sub(x, y)
            | Instruction::Shr(x, y)
            | Instruction::Subn(x, y)
            | Instruction::Shl(x, y)
            | Instruction::SneReg(x, y) => x < 16 && y < 16,
            Instruction::Drw(x, y, n) => x < 16 && y < 16 && n < 16,
            Instruction::Skp(x)
            | Instruction::Sknp(x)
            | Instruction::LdVxDt(x)
            | Instruction::LdVxK(x)
            | Instruction::LdDtVx(x)
            | Instruction::LdStVx(x)
            | Instruction::AddI(x)
            | Instruction::LdF(x)
            | Instruction::LdB(x)
            | Instruction::StoreRegs(x)
            | Instruction::LoadRegs(x) => x < 16,
        }
    }
}

/// The four nibbles of the instruction word `hi lo`, most significant first.
pub open spec fn spec_nibbles(hi: u8, lo: u8) -> (u8, u8, u8, u8) {
    ((hi / 16) as u8, (hi % 16) as u8, (lo / 16) as u8, (lo % 16) as u8)
}

/// The low twelve bits of the instruction word `hi lo`.
pub open spec fn spec_address(hi: u8, lo: u8) -> u16 {
    ((hi % 16) * 256 + lo) as u16
}

/// The instruction that the word `hi lo` encodes, or `None` where the word
/// matches no defined pattern.
pub open spec fn spec_decode(hi: u8, lo: u8) -> Option<Instruction> {
    let (d0, x, y, d3) = spec_nibbles(hi, lo);
    let nnn = spec_address(hi, lo);
    if d0 == 0x0 {
        if hi == 0x00 && lo == 0xE0 {
            Some(Instruction::Cls)
        } else if hi == 0x00 && lo == 0xEE {
            Some(Instruction::Ret)
        } else {
            Some(Instruction::Sys(nnn))
        }
    } else if d0 == 0x1 {
        Some(Instruction::Jp(nnn))
    } else if d0 == 0x2 {
        Some(Instruction::Call(nnn))
    } else if d0 == 0x3 {
        Some(Instruction::SeByte(x, lo))
    } else if d0 == 0x4 {
        Some(Instruction::SneByte(x, lo))
    } else if d0 == 0x5 {
        if d3 == 0x0 {
            Some(Instruction::SeReg(x, y))
        } else {
            None
        }
    } else if d0 == 0x6 {
        Some(Instruction::LdByte(x, lo))
    } else if d0 == 0x7 {
        Some(Instruction::AddByte(x, lo))
    } else if d0 == 0x8 {
        if d3 == 0x0 {
            Some(Instruction::LdReg(x, y))
        } else if d3 == 0x1 {
            Some(Instruction::Or(x, y))
        } else if d3 == 0x2 {
            Some(Instruction::And(x, y))
        } else if d3 == 0x3 {
            Some(Instruction::Xor(x, y))
        } else if d3 == 0x4 {
            Some(Instruction::AddReg(x, y))
        } else if d3 == 0x5 {
            Some(Instruction::Sub(x, y))
        } else if d3 == 0x6 {
            Some(Instruction::Shr(x, y))
        } else if d3 == 0x7 {
            Some(Instruction::Subn(x, y))
        } else if d3 == 0xE {
            Some(Instruction::Shl(x, y))
        } else {
            None
        }
    } else if d0 == 0x9 {
        if d3 == 0x0 {
            Some(Instruction::SneReg(x, y))
        } else {
            None
        }
    } else if d0 == 0xA {
        Some(Instruction::LdI(nnn))
    } else if d0 == 0xB {
        Some(Instruction::JpV0(nnn))
    } else if d0 == 0xC {
        Some(Instruction::Rnd(x, lo))
    } else if d0 == 0xD {
        Some(Instruction::Drw(x, y, d3))
    } else if d0 == 0xE {
        if lo == 0x9E {
            Some(Instruction::Skp(x))
        } else if lo == 0xA1 {
            Some(Instruction::Sknp(x))
        } else {
            None
        }
    } else {
        if lo == 0x07 {
            Some(Instruction::LdVxDt(x))
        } else if lo == 0x0A {
            Some(Instruction::LdVxK(x))
        } else if lo == 0x15 {
            Some(Instruction::LdDtVx(x))
        } else if lo == 0x18 {
            Some(Instruction::LdStVx(x))
        } else if lo == 0x1E {
            Some(Instruction::AddI(x))
        } else if lo == 0x29 {
            Some(Instruction::LdF(x))
        } else if lo == 0x33 {
            Some(Instruction::LdB(x))
        } else if lo == 0x55 {
            Some(Instruction::StoreRegs(x))
        } else if lo == 0x65 {
            Some(Instruction::LoadRegs(x))
        } else {
            None
        }
    }
}

/// Whatever a word decodes to has its operands in range.
pub proof fn lemma_decode_wf(hi: u8, lo: u8)
    ensures
        spec_decode(hi, lo) matches Some(ins) ==> ins.wf(),
{
}

/// Splits the instruction word `hi lo` into its four nibbles.
pub fn nibbles(hi: u8, lo: u8) -> (d: (u8, u8, u8, u8))
    ensures
        d == spec_nibbles(hi, lo),
        d.0 < 16 && d.1 < 16 && d.2 < 16 && d.3 < 16,
{
    (hi / 16, hi % 16, lo / 16, lo % 16)
}

/// Decodes the instruction word `hi lo`.
pub fn decode(hi: u8, lo: u8) -> (ins: Option<Instruction>)
    ensures
        ins == spec_decode(hi, lo),
        ins matches Some(i) ==> i.wf(),
{
    let (d0, x, y, d3) = nibbles(hi, lo);
    let nnn: u16 = (x as u16) * 256 + (lo as u16);
    match d0 {
        0x0 => {
            if hi == 0x00 && lo == 0xE0 {
                Some(Instruction::Cls)
            } else if hi == 0x00 && lo == 0xEE {
                Some(Instruction::Ret)
            } else {
                Some(Instruction::Sys(nnn))
            }
        },
        0x1 => Some(Instruction::Jp(nnn)),
        0x2 => Some(Instruction::Call(nnn)),
        0x3 => Some(Instruction::SeByte(x, lo)),
        0x4 => Some(Instruction::SneByte(x, lo)),
        0x5 => if d3 == 0 {
            Some(Instruction::SeReg(x, y))
        } else {
            None
        },
        0x6 => Some(Instruction::LdByte(x, lo)),
        0x7 => Some(Instruction::AddByte(x, lo)),
        0x8 => match d3 {
            0x0 => Some(Instruction::LdReg(x, y)),
            0x1 => Some(Instruction::Or(x, y)),
            0x2 => Some(Instruction::And(x, y)),
            0x3 => Some(Instruction::Xor(x, y)),
            0x4 => Some(Instruction::AddReg(x, y)),
            0x5 => Some(Instruction::Sub(x, y)),
            0x6 => Some(Instruction::Shr(x, y)),
            0x7 => Some(Instruction::Subn(x, y)),
            0xE => Some(Instruction::Shl(x, y)),
            _ => None,
        },
        0x9 => if d3 == 0 {
            Some(Instruction::SneReg(x, y))
        } else {
            None
        },
        0xA => Some(Instruction::LdI(nnn)),
        0xB => Some(Instruction::JpV0(nnn)),
        0xC => Some(Instruction::Rnd(x, lo)),
        0xD => Some(Instruction::Drw(x, y, d3)),
        0xE => match lo {
            0x9E => Some(Instruction::Skp(x)),
            0xA1 => Some(Instruction::Sknp(x)),
            _ => None,
        },
        _ => match lo {
            0x07 => Some(Instruction::LdVxDt(x)),
            0x0A => Some(Instruction::LdVxK(x)),
            0x15 => Some(Instruction::LdDtVx(x)),
            0x18 => Some(Instruction::LdStVx(x)),
            0x1E => Some(Instruction::AddI(x)),
            0x29 => Some(Instruction::LdF(x)),
            0x33 => Some(Instruction::LdB(x)),
            0x55 => Some(Instruction::StoreRegs(x)),
            0x65 => Some(Instruction::LoadRegs(x)),
            _ => None,
        },
    }
}

} // verus!
