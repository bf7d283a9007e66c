use chip8::decode::{decode, Instr};
use chip8::error::Chip8Error;

#[test]
fn decode_each_family() {
    assert_eq!(decode(0x00E0), Ok(Instr::Cls));
    assert_eq!(decode(0x00EE), Ok(Instr::Ret));
    assert_eq!(decode(0x1234), Ok(Instr::Jp(0x234)));
    assert_eq!(decode(0x2345), Ok(Instr::Call(0x345)));
    assert_eq!(decode(0x3A42), Ok(Instr::SeByte(0xA, 0x42)));
    assert_eq!(decode(0x4A42), Ok(Instr::SneByte(0xA, 0x42)));
    assert_eq!(decode(0x5AB0), Ok(Instr::SeReg(0xA, 0xB)));
    assert_eq!(decode(0x6A42), Ok(Instr::LdByte(0xA, 0x42)));
    assert_eq!(decode(0x7A42), Ok(Instr::AddByte(0xA, 0x42)));
    assert_eq!(decode(0x8AB0), Ok(Instr::LdReg(0xA, 0xB)));
    assert_eq!(decode(0x8AB1), Ok(Instr::Or(0xA, 0xB)));
    assert_eq!(decode(0x8AB2), Ok(Instr::And(0xA, 0xB)));
    assert_eq!(decode(0x8AB3), Ok(Instr::Xor(0xA, 0xB)));
    assert_eq!(decode(0x8AB4), Ok(Instr::AddReg(0xA, 0xB)));
    assert_eq!(decode(0x8AB5), Ok(Instr::Sub(0xA, 0xB)));
    assert_eq!(decode(0x8AB6), Ok(Instr::Shr(0xA)));
    assert_eq!(decode(0x8AB7), Ok(Instr::Subn(0xA, 0xB)));
    assert_eq!(decode(0x8ABE), Ok(Instr::Shl(0xA)));
    assert_eq!(decode(0x9AB0), Ok(Instr::SneReg(0xA, 0xB)));
    assert_eq!(decode(0xA123), Ok(Instr::LdI(0x123)));
    assert_eq!(decode(0xB123), Ok(Instr::JpV0(0x123)));
    assert_eq!(decode(0xCA42), Ok(Instr::Rnd(0xA, 0x42)));
    assert_eq!(decode(0xDAB5), Ok(Instr::Drw(0xA, 0xB, 5)));
    assert_eq!(decode(0xEA9E), Ok(Instr::Skp(0xA)));
    assert_eq!(decode(0xEAA1), Ok(Instr::Sknp(0xA)));
    assert_eq!(decode(0xFA07), Ok(Instr::LdVxDt(0xA)));
    assert_eq!(decode(0xFA0A), Ok(Instr::LdVxK(0xA)));
    assert_eq!(decode(0xFA15), Ok(Instr::LdDtVx(0xA)));
    assert_eq!(decode(0xFA18), Ok(Instr::LdStVx(0xA)));
    assert_eq!(decode(0xFA1E), Ok(Instr::AddIVx(0xA)));
    assert_eq!(decode(0xFA29), Ok(Instr::LdFVx(0xA)));
    assert_eq!(decode(0xFA33), Ok(Instr::LdBVx(0xA)));
    assert_eq!(decode(0xFA55), Ok(Instr::LdMemVx(0xA)));
    assert_eq!(decode(0xFA65), Ok(Instr::LdVxMem(0xA)));
}

#[test]
fn decode_rejects_unassigned_words() {
    assert_eq!(decode(0x0001), Err(Chip8Error::UnknownOpcode(0x0001)));
    assert_eq!(decode(0x8AB8), Err(Chip8Error::UnknownOpcode(0x8AB8)));
    assert_eq!(decode(0xEA00), Err(Chip8Error::UnknownOpcode(0xEA00)));
    assert_eq!(decode(0xFA00), Err(Chip8Error::UnknownOpcode(0xFA00)));
    assert_eq!(decode(0xFAFF), Err(Chip8Error::UnknownOpcode(0xFAFF)));
}
