use vstd::prelude::*;
use crate::decode::{spec_decode, Instr};
use crate::error::Chip8Error;
use crate::view::{MachineView, DISP_SIZE, FONT_START_ADDR, MEM_SIZE, NUM_REGS};

verus! {

/// An 8-bit add that wraps modulo 256.
pub open spec fn wrap_add8(a: u8, b: u8) -> u8 {
    if a + b > 255 {
        (a + b - 256) as u8
    } else {
        (a + b) as u8
    }
}

/// An 8-bit subtract that wraps modulo 256.
pub open spec fn wrap_sub8(a: u8, b: u8) -> u8 {
    if a - b < 0 {
        (a - b + 256) as u8
    } else {
        (a - b) as u8
    }
}

/// A 16-bit add that wraps modulo 65536.
pub open spec fn wrap_add16(a: u16, b: u16) -> u16 {
    if a + b > 65535 {
        (a + b - 65536) as u16
    } else {
        (a + b) as u16
    }
}

/// A 16-bit subtract that wraps modulo 65536.
pub open spec fn wrap_sub16(a: u16, b: u16) -> u16 {
    if a - b < 0 {
        (a - b + 65536) as u16
    } else {
        (a - b) as u16
    }
}

/// The fault a call reported, or None where it returned cleanly.
pub open spec fn err_opt(r: Result<(), Chip8Error>) -> Option<Chip8Error> {
    match r {
        Ok(_) => None,
        Err(e) => Some(e),
    }
}

/// The program counter after a skip instruction: advanced by one further
/// instruction when the condition holds, untouched otherwise.
pub open spec fn spec_skip(pre: MachineView, cond: bool) -> MachineView {
    if cond {
        MachineView { pc: wrap_add16(pre.pc, 2), ..pre }
    } else {
        pre
    }
}

/// 00E0: every framebuffer cell unlit.
pub open spec fn spec_cls(pre: MachineView) -> MachineView {
    MachineView { display: Seq::new(DISP_SIZE as nat, |i: int| false), ..pre }
}

/// 00EE: pop the stack into the program counter; underflow is fatal.
pub open spec fn spec_ret(pre: MachineView) -> (MachineView, Option<Chip8Error>) {
    if pre.sp == 0 {
        (pre, Some(Chip8Error::StackUnderflow(pre.pc)))
    } else {
        (
            MachineView { sp: (pre.sp - 1) as u8, pc: pre.stack[pre.sp - 1], ..pre },
            None,
        )
    }
}

/// 2nnn: push the already-advanced program counter, then jump; a call at
/// full depth is fatal.
pub open spec fn spec_call(pre: MachineView, nnn: u16) -> (MachineView, Option<Chip8Error>) {
    if pre.sp >= 16 {
        (pre, Some(Chip8Error::StackOverflow(nnn)))
    } else {
        (
            MachineView {
                stack: pre.stack.update(pre.sp as int, pre.pc),
                sp: (pre.sp + 1) as u8,
                pc: nnn,
                ..pre
            },
            None,
        )
    }
}

/// 8xy4: wrapping add; VF records the carry. VF is written first, so an
/// x of 15 ends up holding the wrapped sum.
pub open spec fn spec_add_reg(pre: MachineView, x: u8, y: u8) -> MachineView {
    let sum = pre.v[x as int] + pre.v[y as int];
    let flag: u8 = if sum > 255 { 1 } else { 0 };
    MachineView { v: pre.v.update(15, flag).update(x as int, wrap_add8(pre.v[x as int], pre.v[y as int])), ..pre }
}

/// 8xy5: wrapping subtract; VF = 1 iff no borrow (Vx >= Vy). VF is written
/// before the subtraction reads its operands again, as the machine does.
pub open spec fn spec_sub_reg(pre: MachineView, x: u8, y: u8) -> MachineView {
    let flag: u8 = if pre.v[x as int] >= pre.v[y as int] { 1 } else { 0 };
    let v1 = pre.v.update(15, flag);
    MachineView { v: v1.update(x as int, wrap_sub8(v1[x as int], v1[y as int])), ..pre }
}

/// 8xy7: wrapping reverse subtract; VF = 1 iff no borrow (Vy >= Vx).
pub open spec fn spec_subn_reg(pre: MachineView, x: u8, y: u8) -> MachineView {
    let flag: u8 = if pre.v[y as int] >= pre.v[x as int] { 1 } else { 0 };
    let v1 = pre.v.update(15, flag);
    MachineView { v: v1.update(x as int, wrap_sub8(v1[y as int], v1[x as int])), ..pre }
}

/// 8xy6: VF takes the bit shifted out at the bottom, then Vx shifts right.
pub open spec fn spec_shr(pre: MachineView, x: u8) -> MachineView {
    let v1 = pre.v.update(15, pre.v[x as int] & 1);
    MachineView { v: v1.update(x as int, v1[x as int] >> 1u8), ..pre }
}

/// 8xyE: VF takes the bit shifted out at the top, then Vx shifts left,
/// dropping that bit.
pub open spec fn spec_shl(pre: MachineView, x: u8) -> MachineView {
    let v1 = pre.v.update(15, (pre.v[x as int] & 0x80) >> 7u8);
    MachineView { v: v1.update(x as int, wrap_add8(v1[x as int], v1[x as int])), ..pre }
}

/// The lowest pressed key at or above slot `k`, if any.
pub open spec fn spec_first_key_from(keys: Seq<bool>, k: int) -> Option<u8>
    decreases 16 - k,
{
    if k < 0 || k >= 16 {
        None
    } else if keys[k] {
        Some(k as u8)
    } else {
        spec_first_key_from(keys, k + 1)
    }
}

/// The lowest pressed key, if any.
pub open spec fn spec_first_key(keys: Seq<bool>) -> Option<u8> {
    spec_first_key_from(keys, 0)
}

/// Fx0A: latch the lowest pressed key into Vx, or rewind the program counter
/// by one instruction so the same instruction re-executes next cycle.
pub open spec fn spec_wait_key(pre: MachineView, x: u8) -> MachineView {
    match spec_first_key(pre.keys) {
        Some(k) => MachineView { v: pre.v.update(x as int, k), ..pre },
        None => MachineView { pc: wrap_sub16(pre.pc, 2), ..pre },
    }
}

/// Ex9E: skip the next instruction if the key numbered Vx is pressed;
/// a register value that names no key is fatal.
pub open spec fn spec_skp(pre: MachineView, x: u8) -> (MachineView, Option<Chip8Error>) {
    if pre.v[x as int] >= 16 {
        (pre, Some(Chip8Error::KeyOutOfRange(pre.v[x as int])))
    } else {
        (spec_skip(pre, pre.keys[pre.v[x as int] as int]), None)
    }
}

/// ExA1: skip the next instruction if the key numbered Vx is not pressed;
/// a register value that names no key is fatal.
pub open spec fn spec_sknp(pre: MachineView, x: u8) -> (MachineView, Option<Chip8Error>) {
    if pre.v[x as int] >= 16 {
        (pre, Some(Chip8Error::KeyOutOfRange(pre.v[x as int])))
    } else {
        (spec_skip(pre, !pre.keys[pre.v[x as int] as int]), None)
    }
}

/// Fx33: the decimal digits of Vx written to memory at I, I+1, I+2;
/// an index within three bytes of the end of memory is fatal.
pub open spec fn spec_bcd(pre: MachineView, x: u8) -> (MachineView, Option<Chip8Error>) {
    if pre.index + 2 >= MEM_SIZE {
        (pre, Some(Chip8Error::AddressOutOfRange(pre.index)))
    } else {
        let value = pre.v[x as int];
        let mem1 = pre.mem
            .update(pre.index as int, (value / 100) as u8)
            .update(pre.index + 1, ((value / 10) % 10) as u8)
            .update(pre.index + 2, (value % 10) as u8);
        (MachineView { mem: mem1, ..pre }, None)
    }
}

/// Fx55: memory at I..=I+x overwritten by V0..=Vx; the index register is
/// not changed. A block that would run past memory is fatal.
pub open spec fn spec_store_regs(pre: MachineView, x: u8) -> (MachineView, Option<Chip8Error>) {
    if pre.index + x >= MEM_SIZE {
        (pre, Some(Chip8Error::AddressOutOfRange(pre.index)))
    } else {
        let i = pre.index as int;
        (
            MachineView {
                mem: Seq::new(MEM_SIZE as nat, |t: int| (
                    if i <= t <= i + x {
                        pre.v[t - i]
                    } else {
                        pre.mem[t]
                    }
                )),
                ..pre
            },
            None,
        )
    }
}

/// Fx65: V0..=Vx overwritten from memory at I..=I+x; the index register is
/// not changed. A block that would run past memory is fatal.
pub open spec fn spec_load_regs(pre: MachineView, x: u8) -> (MachineView, Option<Chip8Error>) {
    if pre.index + x >= MEM_SIZE {
        (pre, Some(Chip8Error::AddressOutOfRange(pre.index)))
    } else {
        let i = pre.index as int;
        (
            MachineView {
                v: Seq::new(NUM_REGS as nat, |t: int| (
                    if t <= x {
                        pre.mem[i + t]
                    } else {
                        pre.v[t]
                    }
                )),
                ..pre
            },
            None,
        )
    }
}

/// Whether column `c` of a sprite row byte is lit: bit 7 is the leftmost
/// pixel, so column c reads bit 7 - c.
pub open spec fn sprite_bit(byte: u8, c: int) -> bool {
    (byte >> ((7 - c) as u8)) & 1 == 1
}

/// The framebuffer cell a sprite pixel lands on: destination row `yr`,
/// origin column `x0`, pixel column `c`, the column wrapping at 64.
pub open spec fn cell_pos(x0: int, yr: int, c: int) -> int {
    yr * 64 + ((x0 + c) % 64)
}

/// Whether the sprite pixel at row `r`, column `c` of the sprite whose rows
/// start at memory address `i` is lit.
pub open spec fn sprite_pixel(mem: Seq<u8>, i: int, r: int, c: int) -> bool {
    sprite_bit(mem[i + r], c)
}

/// Whether an n-row sprite at memory address `i` has no lit pixel at all.
pub open spec fn sprite_blank(mem: Seq<u8>, i: int, n: int) -> bool {
    forall|r: int, c: int| 0 <= r < n && 0 <= c < 8 ==> !(#[trigger] sprite_pixel(mem, i, r, c))
}

/// The framebuffer cell that sprite row `r`, column `c` lands on when the
/// sprite origin is (x0, y0): the row wraps at 32, the column at 64.
pub open spec fn row_cell(x0: int, y0: int, r: int, c: int) -> int {
    cell_pos(x0, (y0 + r) % 32, c)
}

/// One sprite row XORed onto the framebuffer, columns 0 up to `ncols`
/// (leftmost, most significant bit first), in ascending order. `x0` is the
/// wrapped origin column and `yr` the wrapped destination row. Returns the
/// new framebuffer and whether any lit pixel was turned off.
pub open spec fn spec_draw_cols(fb: Seq<bool>, byte: u8, x0: int, yr: int, ncols: nat) -> (Seq<
    bool,
>, bool)
    decreases ncols,
{
    if ncols == 0 {
        (fb, false)
    } else {
        let c = ncols - 1;
        let step = spec_draw_cols(fb, byte, x0, yr, (ncols - 1) as nat);
        if sprite_bit(byte, c) {
            let pos = cell_pos(x0, yr, c);
            let hit = step.0[pos];
            (step.0.update(pos, !hit), step.1 || hit)
        } else {
            step
        }
    }
}

/// Sprite rows 0 up to `nrows` XORed onto the framebuffer in ascending
/// order, row r coming from memory at `i + r` and landing on wrapped row
/// `(y0 + r) % 32`. Returns the new framebuffer and whether any lit pixel
/// was turned off anywhere in the sprite.
pub open spec fn spec_draw_rows(
    fb: Seq<bool>,
    mem: Seq<u8>,
    i: int,
    x0: int,
    y0: int,
    nrows: nat,
) -> (Seq<bool>, bool)
    decreases nrows,
{
    if nrows == 0 {
        (fb, false)
    } else {
        let r = nrows - 1;
        let step = spec_draw_rows(fb, mem, i, x0, y0, (nrows - 1) as nat);
        let row = spec_draw_cols(step.0, mem[i + r], x0, (y0 + r) % 32, 8);
        (row.0, step.1 || row.1)
    }
}

/// Dxyn: the n-row sprite at memory[I..I+n] XORed onto the framebuffer with
/// origin (Vx mod 64, Vy mod 32), each pixel wrapping independently; VF = 1
/// iff some lit pixel was turned off. A sprite that would be read past the
/// end of memory is fatal.
pub open spec fn spec_draw(pre: MachineView, x: u8, y: u8, n: u8) -> (
    MachineView,
    Option<Chip8Error>,
) {
    if pre.index + n > MEM_SIZE {
        (pre, Some(Chip8Error::AddressOutOfRange(pre.index)))
    } else {
        let x0 = pre.v[x as int] % 64;
        let y0 = pre.v[y as int] % 32;
        let drawn = spec_draw_rows(
            pre.display,
            pre.mem,
            pre.index as int,
            x0 as int,
            y0 as int,
            n as nat,
        );
        (
            MachineView {
                display: drawn.0,
                v: pre.v.update(15, if drawn.1 { 1u8 } else { 0u8 }),
                ..pre
            },
            None,
        )
    }
}

/// What one instruction does to the machine: the next state, and the fatal
/// condition if one arose (in which case the state is returned unchanged).
/// `rand_byte` feeds the one instruction that consumes randomness.
pub open spec fn spec_exec(pre: MachineView, instr: Instr, rand_byte: u8) -> (
    MachineView,
    Option<Chip8Error>,
) {
    match instr {
        Instr::Cls => (spec_cls(pre), None),
        Instr::Ret => spec_ret(pre),
        Instr::Jp(nnn) => (MachineView { pc: nnn, ..pre }, None),
        Instr::Call(nnn) => spec_call(pre, nnn),
        Instr::SeByte(x, kk) => (spec_skip(pre, pre.v[x as int] == kk), None),
        Instr::SneByte(x, kk) => (spec_skip(pre, pre.v[x as int] != kk), None),
        Instr::SeReg(x, y) => (spec_skip(pre, pre.v[x as int] == pre.v[y as int]), None),
        Instr::LdByte(x, kk) => (MachineView { v: pre.v.update(x as int, kk), ..pre }, None),
        Instr::AddByte(x, kk) => (
            MachineView { v: pre.v.update(x as int, wrap_add8(pre.v[x as int], kk)), ..pre },
            None,
        ),
        Instr::LdReg(x, y) => (
            MachineView { v: pre.v.update(x as int, pre.v[y as int]), ..pre },
            None,
        ),
        Instr::Or(x, y) => (
            MachineView { v: pre.v.update(x as int, pre.v[x as int] | pre.v[y as int]), ..pre },
            None,
        ),
        Instr::And(x, y) => (
            MachineView { v: pre.v.update(x as int, pre.v[x as int] & pre.v[y as int]), ..pre },
            None,
        ),
        Instr::Xor(x, y) => (
            MachineView { v: pre.v.update(x as int, pre.v[x as int] ^ pre.v[y as int]), ..pre },
            None,
        ),
        Instr::AddReg(x, y) => (spec_add_reg(pre, x, y), None),
        Instr::Sub(x, y) => (spec_sub_reg(pre, x, y), None),
        Instr::Shr(x) => (spec_shr(pre, x), None),
        Instr::Subn(x, y) => (spec_subn_reg(pre, x, y), None),
        Instr::Shl(x) => (spec_shl(pre, x), None),
        Instr::SneReg(x, y) => (spec_skip(pre, pre.v[x as int] != pre.v[y as int]), None),
        Instr::LdI(nnn) => (MachineView { index: nnn, ..pre }, None),
        Instr::JpV0(nnn) => (
            MachineView { pc: (pre.v[0] + nnn) as u16, ..pre },
            None,
        ),
        Instr::Rnd(x, kk) => (
            MachineView { v: pre.v.update(x as int, rand_byte & kk), ..pre },
            None,
        ),
        Instr::Drw(x, y, n) => spec_draw(pre, x, y, n),
        Instr::Skp(x) => spec_skp(pre, x),
        Instr::Sknp(x) => spec_sknp(pre, x),
        Instr::LdVxDt(x) => (MachineView { v: pre.v.update(x as int, pre.delay), ..pre }, None),
        Instr::LdVxK(x) => (spec_wait_key(pre, x), None),
        Instr::LdDtVx(x) => (MachineView { delay: pre.v[x as int], ..pre }, None),
        Instr::LdStVx(x) => (MachineView { sound: pre.v[x as int], ..pre }, None),
        Instr::AddIVx(x) => (
            MachineView { index: wrap_add16(pre.index, pre.v[x as int] as u16), ..pre },
            None,
        ),
        Instr::LdFVx(x) => (
            MachineView { index: (FONT_START_ADDR + 5 * pre.v[x as int]) as u16, ..pre },
            None,
        ),
        Instr::LdBVx(x) => spec_bcd(pre, x),
        Instr::LdMemVx(x) => spec_store_regs(pre, x),
        Instr::LdVxMem(x) => spec_load_regs(pre, x),
    }
}

/// The end-of-cycle timer tick: each timer counts down by one while nonzero.
pub open spec fn spec_tick(m: MachineView) -> MachineView {
    MachineView {
        delay: if m.delay > 0 {
            (m.delay - 1) as u8
        } else {
            m.delay
        },
        sound: if m.sound > 0 {
            (m.sound - 1) as u8
        } else {
            m.sound
        },
        ..m
    }
}

/// The big-endian 16-bit word at the program counter.
pub open spec fn spec_fetch_word(m: MachineView) -> u16 {
    ((m.mem[m.pc as int] as u16) << 8u16) | (m.mem[m.pc + 1] as u16)
}

/// One whole cycle: fetch the word at the program counter, advance it by
/// two, decode, execute, and on success count both timers down. A program
/// counter that cannot address two bytes of memory, an unassigned opcode,
/// and every instruction fault stop the cycle and are reported; the state
/// shows what had happened up to the fault.
pub open spec fn spec_cycle(pre: MachineView, rand_byte: u8) -> (MachineView, Option<Chip8Error>) {
    if pre.pc + 1 >= MEM_SIZE {
        (pre, Some(Chip8Error::AddressOutOfRange(pre.pc)))
    } else {
        let op = spec_fetch_word(pre);
        let adv = MachineView { pc: (pre.pc + 2) as u16, ..pre };
        match spec_decode(op) {
            None => (adv, Some(Chip8Error::UnknownOpcode(op))),
            Some(instr) => {
                let stepped = spec_exec(adv, instr, rand_byte);
                match stepped.1 {
                    Some(e) => stepped,
                    None => (spec_tick(stepped.0), None),
                }
            },
        }
    }
}

} // verus!
