use vstd::prelude::*;
use crate::error::Chip8Error;

verus! {

/// One decoded instruction: a tag plus the fields extracted from the opcode.
/// Register fields are always below 16 and address fields below 4096, which
/// `valid` records and `decode` guarantees.
#[derive(Clone, Copy, Debug, PartialEq, Eq, Structural)]
pub enum Instr {
    /// 00E0: clear the framebuffer.
    Cls,
    /// 00EE: return from a subroutine.
    Ret,
    /// 1nnn: jump to nnn.
    Jp(u16),
    /// 2nnn: call the subroutine at nnn.
    Call(u16),
    /// 3xkk: skip the next instruction if Vx == kk.
    SeByte(u8, u8),
    /// 4xkk: skip the next instruction if Vx != kk.
    SneByte(u8, u8),
    /// 5xy0: skip the next instruction if Vx == Vy.
    SeReg(u8, u8),
    /// 6xkk: load kk into Vx.
    LdByte(u8, u8),
    /// 7xkk: add kk into Vx, wrapping, no flag.
    AddByte(u8, u8),
    /// 8xy0: copy Vy into Vx.
    LdReg(u8, u8),
    /// 8xy1: Vx |= Vy.
    Or(u8, u8),
    /// 8xy2: Vx &= Vy.
    And(u8, u8),
    /// 8xy3: Vx ^= Vy.
    Xor(u8, u8),
    /// 8xy4: Vx += Vy wrapping; VF = 1 iff the unclamped sum exceeds 255.
    AddReg(u8, u8),
    /// 8xy5: Vx -= Vy wrapping; VF = 1 iff no borrow (Vx >= Vy).
    Sub(u8, u8),
    /// 8xy6: VF = bit 0 of Vx, then Vx >>= 1.
    Shr(u8),
    /// 8xy7: Vx = Vy - Vx wrapping; VF = 1 iff no borrow (Vy >= Vx).
    Subn(u8, u8),
    /// 8xyE: VF = bit 7 of Vx, then Vx <<= 1.
    Shl(u8),
    /// 9xy0: skip the next instruction if Vx != Vy.
    SneReg(u8, u8),
    /// Annn: load nnn into the index register.
    LdI(u16),
    /// Bnnn: jump to nnn + V0.
    JpV0(u16),
    /// Cxkk: Vx = random byte AND kk.
    Rnd(u8, u8),
    /// Dxyn: draw the n-row sprite at memory[I..] at (Vx, Vy); VF = collision.
    Drw(u8, u8, u8),
    /// Ex9E: skip the next instruction if the key numbered Vx is pressed.
    Skp(u8),
    /// ExA1: skip the next instruction if the key numbered Vx is not pressed.
    Sknp(u8),
    /// Fx07: load the delay timer into Vx.
    LdVxDt(u8),
    /// Fx0A: wait for a key: latch the lowest pressed key into Vx, or rewind
    /// the program counter so the instruction re-executes next cycle.
    LdVxK(u8),
    /// Fx15: load Vx into the delay timer.
    LdDtVx(u8),
    /// Fx18: load Vx into the sound timer.
    LdStVx(u8),
    /// Fx1E: add Vx into the index register, wrapping.
    AddIVx(u8),
    /// Fx29: point the index register at the font glyph for the digit Vx.
    LdFVx(u8),
    /// Fx33: write the BCD digits of Vx to memory[I], memory[I+1], memory[I+2].
    LdBVx(u8),
    /// Fx55: store V0..=Vx to memory starting at I; I is not changed.
    LdMemVx(u8),
    /// Fx65: load V0..=Vx from memory starting at I; I is not changed.
    LdVxMem(u8),
}

impl Instr {
    /// Bounds on the extracted fields that decoding guarantees.
    pub open spec fn valid(self) -> bool {
        match self {
            Instr::Cls => true,
            Instr::Ret => true,
            Instr::Jp(nnn) => nnn < 4096,
            Instr::Call(nnn) => nnn < 4096,
            Instr::SeByte(x, _) => x < 16,
            Instr::SneByte(x, _) => x < 16,
            Instr::SeReg(x, y) => x < 16 && y < 16,
            Instr::LdByte(x, _) => x < 16,
            Instr::AddByte(x, _) => x < 16,
            Instr::LdReg(x, y) => x < 16 && y < 16,
            Instr::Or(x, y) => x < 16 && y < 16,
            Instr::And(x, y) => x < 16 && y < 16,
            Instr::Xor(x, y) => x < 16 && y < 16,
            Instr::AddReg(x, y) => x < 16 && y < 16,
            Instr::Sub(x, y) => x < 16 && y < 16,
            Instr::Shr(x) => x < 16,
            Instr::Subn(x, y) => x < 16 && y < 16,
            Instr::Shl(x) => x < 16,
            Instr::SneReg(x, y) => x < 16 && y < 16,
            Instr::LdI(nnn) => nnn < 4096,
            Instr::JpV0(nnn) => nnn < 4096,
            Instr::Rnd(x, _) => x < 16,
            Instr::Drw(x, y, n) => x < 16 && y < 16 && n < 16,
            Instr::Skp(x) => x < 16,
            Instr::Sknp(x) => x < 16,
            Instr::LdVxDt(x) => x < 16,
            Instr::LdVxK(x) => x < 16,
            Instr::LdDtVx(x) => x < 16,
            Instr::LdStVx(x) => x < 16,
            Instr::AddIVx(x) => x < 16,
            Instr::LdFVx(x) => x < 16,
            Instr::LdBVx(x) => x < 16,
            Instr::LdMemVx(x) => x < 16,
            Instr::LdVxMem(x) => x < 16,
        }
    }
}

/// What a 16-bit word decodes to, or None where no instruction is assigned.
/// The top nibble selects the family; families 0x0, 0x8 and 0xE discriminate
/// on the low nibble, family 0xF on the low byte.
pub open spec fn spec_decode(op: u16) -> Option<Instr> {
    let x = ((op >> 8) & 0xF) as u8;
    let y = ((op >> 4) & 0xF) as u8;
    let kk = (op & 0xFF) as u8;
    let nnn = op & 0xFFF;
    let n = (op & 0xF) as u8;
    let family = (op >> 12) & 0xF;
    if family == 0x0 {
        if n == 0x0 {
            Some(Instr::Cls)
        } else if n == 0xE {
            Some(Instr::Ret)
        } else {
            None
        }
    } else if family == 0x1 {
        Some(Instr::Jp(nnn))
    } else if family == 0x2 {
        Some(Instr::Call(nnn))
    } else if family == 0x3 {
        Some(Instr::SeByte(x, kk))
    } else if family == 0x4 {
        Some(Instr::SneByte(x, kk))
    } else if family == 0x5 {
        Some(Instr::SeReg(x, y))
    } else if family == 0x6 {
        Some(Instr::LdByte(x, kk))
    } else if family == 0x7 {
        Some(Instr::AddByte(x, kk))
    } else if family == 0x8 {
        if n == 0x0 {
            Some(Instr::LdReg(x, y))
        } else if n == 0x1 {
            Some(Instr::Or(x, y))
        } else if n == 0x2 {
            Some(Instr::And(x, y))
        } else if n == 0x3 {
            Some(Instr::Xor(x, y))
        } else if n == 0x4 {
            Some(Instr::AddReg(x, y))
        } else if n == 0x5 {
            Some(Instr::Sub(x, y))
        } else if n == 0x6 {
            Some(Instr::Shr(x))
        } else if n == 0x7 {
            Some(Instr::Subn(x, y))
        } else if n == 0xE {
            Some(Instr::Shl(x))
        } else {
            None
        }
    } else if family == 0x9 {
        Some(Instr::SneReg(x, y))
    } else if family == 0xA {
        Some(Instr::LdI(nnn))
    } else if family == 0xB {
        Some(Instr::JpV0(nnn))
    } else if family == 0xC {
        Some(Instr::Rnd(x, kk))
    } else if family == 0xD {
        Some(Instr::Drw(x, y, n))
    } else if family == 0xE {
        if n == 0x1 {
            Some(Instr::Sknp(x))
        } else if n == 0xE {
            Some(Instr::Skp(x))
        } else {
            None
        }
    } else {
        if kk == 0x07 {
            Some(Instr::LdVxDt(x))
        } else if kk == 0x0A {
            Some(Instr::LdVxK(x))
        } else if kk == 0x15 {
            Some(Instr::LdDtVx(x))
        } else if kk == 0x18 {
            Some(Instr::LdStVx(x))
        } else if kk == 0x1E {
            Some(Instr::AddIVx(x))
        } else if kk == 0x29 {
            Some(Instr::LdFVx(x))
        } else if kk == 0x33 {
            Some(Instr::LdBVx(x))
        } else if kk == 0x55 {
            Some(Instr::LdMemVx(x))
        } else if kk == 0x65 {
            Some(Instr::LdVxMem(x))
        } else {
            None
        }
    }
}

/// Map a fetched word to its instruction, or report exactly the words to
/// which no instruction is assigned at either decode level.
pub fn decode(op: u16) -> (r: Result<Instr, Chip8Error>)
    ensures
        r == (match spec_decode(op) {
            Some(i) => Ok::<Instr, Chip8Error>(i),
            None => Err::<Instr, Chip8Error>(Chip8Error::UnknownOpcode(op)),
        }),
        (r matches Ok(i) ==> i.valid()),
{
    proof {
        lemma_decode_fields(op);
    }
    let x: u8 = ((op >> 8) & 0xF) as u8;
    let y: u8 = ((op >> 4) & 0xF) as u8;
    let kk: u8 = (op & 0xFF) as u8;
    let nnn: u16 = op & 0xFFF;
    let n: u8 = (op & 0xF) as u8;
    let family: u16 = (op >> 12) & 0xF;
    match family {
        0x0 => match n {
            0x0 => Ok(Instr::Cls),
            0xE => Ok(Instr::Ret),
            _ => Err(Chip8Error::UnknownOpcode(op)),
        },
        0x1 => Ok(Instr::Jp(nnn)),
        0x2 => Ok(Instr::Call(nnn)),
        0x3 => Ok(Instr::SeByte(x, kk)),
        0x4 => Ok(Instr::SneByte(x, kk)),
        0x5 => Ok(Instr::SeReg(x, y)),
        0x6 => Ok(Instr::LdByte(x, kk)),
        0x7 => Ok(Instr::AddByte(x, kk)),
        0x8 => match n {
            0x0 => Ok(Instr::LdReg(x, y)),
            0x1 => Ok(Instr::Or(x, y)),
            0x2 => Ok(Instr::And(x, y)),
            0x3 => Ok(Instr::Xor(x, y)),
            0x4 => Ok(Instr::AddReg(x, y)),
            0x5 => Ok(Instr::Sub(x, y)),
            0x6 => Ok(Instr::Shr(x)),
            0x7 => Ok(Instr::Subn(x, y)),
            0xE => Ok(Instr::Shl(x)),
            _ => Err(Chip8Error::UnknownOpcode(op)),
        },
        0x9 => Ok(Instr::SneReg(x, y)),
        0xA => Ok(Instr::LdI(nnn)),
        0xB => Ok(Instr::JpV0(nnn)),
        0xC => Ok(Instr::Rnd(x, kk)),
        0xD => Ok(Instr::Drw(x, y, n)),
        0xE => match n {
            0x1 => Ok(Instr::Sknp(x)),
            0xE => Ok(Instr::Skp(x)),
            _ => Err(Chip8Error::UnknownOpcode(op)),
        },
        _ => match kk {
            0x07 => Ok(Instr::LdVxDt(x)),
            0x0A => Ok(Instr::LdVxK(x)),
            0x15 => Ok(Instr::LdDtVx(x)),
            0x18 => Ok(Instr::LdStVx(x)),
            0x1E => Ok(Instr::AddIVx(x)),
            0x29 => Ok(Instr::LdFVx(x)),
            0x33 => Ok(Instr::LdBVx(x)),
            0x55 => Ok(Instr::LdMemVx(x)),
            0x65 => Ok(Instr::LdVxMem(x)),
            _ => Err(Chip8Error::UnknownOpcode(op)),
        },
    }
}

/// Whatever a word decodes to has its fields inside their architectural
/// bounds, without running the decoder.
pub proof fn lemma_spec_decode_valid(op: u16)
    ensures
        (spec_decode(op) matches Some(i) ==> i.valid()),
{
    lemma_decode_fields(op);
}

/// The extracted fields sit inside their architectural bounds.
proof fn lemma_decode_fields(op: u16)
    ensures
        ((op >> 8) & 0xF) < 16,
        ((op >> 4) & 0xF) < 16,
        (op & 0xFF) < 256,
        (op & 0xFFF) < 4096,
        (op & 0xF) < 16,
        ((op >> 12) & 0xF) < 16,
{
    assert(((op >> 8) & 0xF) < 16
        && ((op >> 4) & 0xF) < 16
        && (op & 0xFF) < 256
        && (op & 0xFFF) < 4096
        && (op & 0xF) < 16
        && ((op >> 12) & 0xF) < 16) by (bit_vector);
}

} // verus!
