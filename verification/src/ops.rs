use vstd::prelude::*;
use crate::decode::{decode, Instr};
use crate::error::Chip8Error;
use crate::machine::{filled, random_byte, CHIP8};
use crate::sem::{
    err_opt, spec_add_reg, spec_bcd, spec_call, spec_cls, spec_cycle, spec_draw, spec_draw_cols,
    spec_draw_rows, spec_exec, spec_fetch_word, spec_first_key, spec_first_key_from,
    spec_load_regs, spec_ret, spec_shl, spec_shr, spec_skip, spec_skp, spec_sknp,
    spec_store_regs, spec_sub_reg, spec_subn_reg, spec_wait_key, wrap_add16, wrap_add8,
};
use crate::view::{MachineView, DISP_SIZE, FONT_START_ADDR, MEM_SIZE};

verus! {

impl CHIP8 {
    /// CLS: unlight every framebuffer cell.
    fn op_00e0(&mut self)
        requires
            old(self).wf(),
        ensures
            final(self).wf(),
            final(self)@ == spec_cls(old(self)@),
    {
        self.display_mem = filled(false, DISP_SIZE);
    }

    /// RET: pop the stack into the program counter; an empty stack is fatal.
    fn op_00ee(&mut self) -> (r: Result<(), Chip8Error>)
        requires
            old(self).wf(),
        ensures
            final(self).wf(),
            (final(self)@, err_opt(r)) == spec_ret(old(self)@),
    {
        if self.stack_ptr == 0 {
            return Err(Chip8Error::StackUnderflow(self.prg_counter));
        }
        self.stack_ptr = self.stack_ptr - 1;
        self.prg_counter = self.stack[self.stack_ptr as usize];
        Ok(())
    }

    /// JP addr: jump.
    fn op_1nnn(&mut self, nnn: u16)
        requires
            old(self).wf(),
        ensures
            final(self).wf(),
            final(self)@ == (MachineView { pc: nnn, ..old(self)@ }),
    {
        self.prg_counter = nnn;
    }

    /// CALL addr: push the already-advanced program counter, then jump;
    /// a call at full depth is fatal.
    fn op_2nnn(&mut self, nnn: u16) -> (r: Result<(), Chip8Error>)
        requires
            old(self).wf(),
        ensures
            final(self).wf(),
            (final(self)@, err_opt(r)) == spec_call(old(self)@, nnn),
    {
        if self.stack_ptr >= 16 {
            return Err(Chip8Error::StackOverflow(nnn));
        }
        self.stack.set(self.stack_ptr as usize, self.prg_counter);
        self.stack_ptr = self.stack_ptr + 1;
        self.prg_counter = nnn;
        Ok(())
    }

    /// SE Vx, byte: skip the next instruction if Vx == kk.
    fn op_3xkk(&mut self, x: u8, kk: u8)
        requires
            old(self).wf(),
            x < 16,
        ensures
            final(self).wf(),
            final(self)@ == spec_skip(old(self)@, old(self)@.v[x as int] == kk),
    {
        if self.v_regs[x as usize] == kk {
            self.prg_counter = self.prg_counter.wrapping_add(2);
        }
    }

    /// SNE Vx, byte: skip the next instruction if Vx != kk.
    fn op_4xkk(&mut self, x: u8, kk: u8)
        requires
            old(self).wf(),
            x < 16,
        ensures
            final(self).wf(),
            final(self)@ == spec_skip(old(self)@, old(self)@.v[x as int] != kk),
    {
        if self.v_regs[x as usize] != kk {
            self.prg_counter = self.prg_counter.wrapping_add(2);
        }
    }

    /// SE Vx, Vy: skip the next instruction if Vx == Vy.
    fn op_5xy0(&mut self, x: u8, y: u8)
        requires
            old(self).wf(),
            x < 16,
            y < 16,
        ensures
            final(self).wf(),
            final(self)@ == spec_skip(
                old(self)@,
                old(self)@.v[x as int] == old(self)@.v[y as int],
            ),
    {
        if self.v_regs[x as usize] == self.v_regs[y as usize] {
            self.prg_counter = self.prg_counter.wrapping_add(2);
        }
    }

    /// LD Vx, byte: load kk into Vx.
    fn op_6xkk(&mut self, x: u8, kk: u8)
        requires
            old(self).wf(),
            x < 16,
        ensures
            final(self).wf(),
            final(self)@ == (MachineView { v: old(self)@.v.update(x as int, kk), ..old(self)@ }),
    {
        self.v_regs.set(x as usize, kk);
    }

    /// ADD Vx, byte: add kk into Vx, wrapping; no flag is touched.
    fn op_7xkk(&mut self, x: u8, kk: u8)
        requires
            old(self).wf(),
            x < 16,
        ensures
            final(self).wf(),
            final(self)@ == (MachineView {
                v: old(self)@.v.update(x as int, wrap_add8(old(self)@.v[x as int], kk)),
                ..old(self)@
            }),
    {
        let a = self.v_regs[x as usize];
        self.v_regs.set(x as usize, a.wrapping_add(kk));
    }

    /// LD Vx, Vy: copy Vy into Vx.
    fn op_8xy0(&mut self, x: u8, y: u8)
        requires
            old(self).wf(),
            x < 16,
            y < 16,
        ensures
            final(self).wf(),
            final(self)@ == (MachineView {
                v: old(self)@.v.update(x as int, old(self)@.v[y as int]),
                ..old(self)@
            }),
    {
        let b = self.v_regs[y as usize];
        self.v_regs.set(x as usize, b);
    }

    /// OR Vx, Vy.
    fn op_8xy1(&mut self, x: u8, y: u8)
        requires
            old(self).wf(),
            x < 16,
            y < 16,
        ensures
            final(self).wf(),
            final(self)@ == (MachineView {
                v: old(self)@.v.update(x as int, old(self)@.v[x as int] | old(self)@.v[y as int]),
                ..old(self)@
            }),
    {
        let a = self.v_regs[x as usize];
        let b = self.v_regs[y as usize];
        self.v_regs.set(x as usize, a | b);
    }

    /// AND Vx, Vy.
    fn op_8xy2(&mut self, x: u8, y: u8)
        requires
            old(self).wf(),
            x < 16,
            y < 16,
        ensures
            final(self).wf(),
            final(self)@ == (MachineView {
                v: old(self)@.v.update(x as int, old(self)@.v[x as int] & old(self)@.v[y as int]),
                ..old(self)@
            }),
    {
        let a = self.v_regs[x as usize];
        let b = self.v_regs[y as usize];
        self.v_regs.set(x as usize, a & b);
    }

    /// XOR Vx, Vy.
    fn op_8xy3(&mut self, x: u8, y: u8)
        requires
            old(self).wf(),
            x < 16,
            y < 16,
        ensures
            final(self).wf(),
            final(self)@ == (MachineView {
                v: old(self)@.v.update(x as int, old(self)@.v[x as int] ^ old(self)@.v[y as int]),
                ..old(self)@
            }),
    {
        let a = self.v_regs[x as usize];
        let b = self.v_regs[y as usize];
        self.v_regs.set(x as usize, a ^ b);
    }

    /// ADD Vx, Vy: wrapping add; VF records the carry.
    fn op_8xy4(&mut self, x: u8, y: u8)
        requires
            old(self).wf(),
            x < 16,
            y < 16,
        ensures
            final(self).wf(),
            final(self)@ == spec_add_reg(old(self)@, x, y),
    {
        let a = self.v_regs[x as usize];
        let b = self.v_regs[y as usize];
        let sum: u16 = a as u16 + b as u16;
        let flag: u8 = if sum > 255 {
            1
        } else {
            0
        };
        self.v_regs.set(15, flag);
        let value: u8 = if sum > 255 {
            (sum - 256) as u8
        } else {
            sum as u8
        };
        self.v_regs.set(x as usize, value);
    }

    /// SUB Vx, Vy: wrapping subtract; VF = 1 iff no borrow was needed.
    fn op_8xy5(&mut self, x: u8, y: u8)
        requires
            old(self).wf(),
            x < 16,
            y < 16,
        ensures
            final(self).wf(),
            final(self)@ == spec_sub_reg(old(self)@, x, y),
    {
        let flag: u8 = if self.v_regs[x as usize] >= self.v_regs[y as usize] {
            1
        } else {
            0
        };
        self.v_regs.set(15, flag);
        let a = self.v_regs[x as usize];
        let b = self.v_regs[y as usize];
        self.v_regs.set(x as usize, a.wrapping_sub(b));
    }

    /// SHR Vx: VF takes bit 0, then Vx shifts right by one.
    fn op_8xy6(&mut self, x: u8)
        requires
            old(self).wf(),
            x < 16,
        ensures
            final(self).wf(),
            final(self)@ == spec_shr(old(self)@, x),
    {
        let flag: u8 = self.v_regs[x as usize] & 1;
        self.v_regs.set(15, flag);
        let a = self.v_regs[x as usize];
        self.v_regs.set(x as usize, a >> 1u8);
    }

    /// SUBN Vx, Vy: Vx = Vy - Vx wrapping; VF = 1 iff no borrow was needed.
    fn op_8xy7(&mut self, x: u8, y: u8)
        requires
            old(self).wf(),
            x < 16,
            y < 16,
        ensures
            final(self).wf(),
            final(self)@ == spec_subn_reg(old(self)@, x, y),
    {
        let flag: u8 = if self.v_regs[y as usize] >= self.v_regs[x as usize] {
            1
        } else {
            0
        };
        self.v_regs.set(15, flag);
        let a = self.v_regs[x as usize];
        let b = self.v_regs[y as usize];
        self.v_regs.set(x as usize, b.wrapping_sub(a));
    }

    /// SHL Vx: VF takes bit 7, then Vx shifts left by one, dropping it.
    fn op_8xye(&mut self, x: u8)
        requires
            old(self).wf(),
            x < 16,
        ensures
            final(self).wf(),
            final(self)@ == spec_shl(old(self)@, x),
    {
        let flag: u8 = (self.v_regs[x as usize] & 0x80) >> 7u8;
        self.v_regs.set(15, flag);
        let a = self.v_regs[x as usize];
        proof {
            assert(a << 1u8 == (if a + a > 255 {
                (a + a - 256) as u8
            } else {
                (a + a) as u8
            })) by (bit_vector);
        }
        self.v_regs.set(x as usize, a << 1u8);
    }

    /// SNE Vx, Vy: skip the next instruction if Vx != Vy.
    fn op_9xy0(&mut self, x: u8, y: u8)
        requires
            old(self).wf(),
            x < 16,
            y < 16,
        ensures
            final(self).wf(),
            final(self)@ == spec_skip(
                old(self)@,
                old(self)@.v[x as int] != old(self)@.v[y as int],
            ),
    {
        if self.v_regs[x as usize] != self.v_regs[y as usize] {
            self.prg_counter = self.prg_counter.wrapping_add(2);
        }
    }

    /// LD I, addr: load nnn into the index register.
    fn op_annn(&mut self, nnn: u16)
        requires
            old(self).wf(),
        ensures
            final(self).wf(),
            final(self)@ == (MachineView { index: nnn, ..old(self)@ }),
    {
        self.index_ptr = nnn;
    }

    /// JP V0, addr: jump to nnn + V0.
    fn op_bnnn(&mut self, nnn: u16)
        requires
            old(self).wf(),
            nnn < 4096,
        ensures
            final(self).wf(),
            final(self)@ == (MachineView {
                pc: (old(self)@.v[0] + nnn) as u16,
                ..old(self)@
            }),
    {
        self.prg_counter = self.v_regs[0] as u16 + nnn;
    }

    /// RND Vx, byte: Vx = the given random sample masked by kk.
    fn op_cxkk(&mut self, x: u8, kk: u8, rand_byte: u8)
        requires
            old(self).wf(),
            x < 16,
        ensures
            final(self).wf(),
            final(self)@ == (MachineView {
                v: old(self)@.v.update(x as int, rand_byte & kk),
                ..old(self)@
            }),
    {
        self.v_regs.set(x as usize, rand_byte & kk);
    }

    /// DRW Vx, Vy, n: XOR the n-row sprite at memory[I..] onto the
    /// framebuffer at origin (Vx mod 64, Vy mod 32), each pixel wrapping
    /// independently; VF = 1 iff a lit pixel was turned off. A sprite read
    /// that would pass the end of memory is fatal and changes nothing.
    #[verifier::loop_isolation(false)]
    fn op_dxyn(&mut self, x: u8, y: u8, n: u8) -> (r: Result<(), Chip8Error>)
        requires
            old(self).wf(),
            x < 16,
            y < 16,
            n < 16,
        ensures
            final(self).wf(),
            (final(self)@, err_opt(r)) == spec_draw(old(self)@, x, y, n),
    {
        if self.index_ptr as usize + n as usize > MEM_SIZE {
            return Err(Chip8Error::AddressOutOfRange(self.index_ptr));
        }
        let x0: u8 = self.v_regs[x as usize] % 64;
        let y0: u8 = self.v_regs[y as usize] % 32;
        let ghost fb0 = self.display_mem@;
        let mut collision: bool = false;
        let mut row: usize = 0;
        while row < n as usize
            invariant
                row <= n as usize,
                self.mem == old(self).mem,
                self.v_regs == old(self).v_regs,
                self.index_ptr == old(self).index_ptr,
                self.prg_counter == old(self).prg_counter,
                self.stack == old(self).stack,
                self.stack_ptr == old(self).stack_ptr,
                self.delay_timer == old(self).delay_timer,
                self.sound_timer == old(self).sound_timer,
                self.keypad == old(self).keypad,
                self.display_mem@.len() == DISP_SIZE,
                (self.display_mem@, collision) == spec_draw_rows(
                    fb0,
                    self.mem@,
                    self.index_ptr as int,
                    x0 as int,
                    y0 as int,
                    row as nat,
                ),
            decreases n as usize - row,
        {
            let sprite_byte: u8 = self.mem[self.index_ptr as usize + row];
            let yr: usize = (y0 as usize + row) % 32;
            let ghost fbr = self.display_mem@;
            let ghost collision0 = collision;
            let mut rowhit: bool = false;
            let mut col: usize = 0;
            while col < 8
                invariant
                    col <= 8,
                    self.mem == old(self).mem,
                    self.v_regs == old(self).v_regs,
                    self.index_ptr == old(self).index_ptr,
                    self.prg_counter == old(self).prg_counter,
                    self.stack == old(self).stack,
                    self.stack_ptr == old(self).stack_ptr,
                    self.delay_timer == old(self).delay_timer,
                    self.sound_timer == old(self).sound_timer,
                    self.keypad == old(self).keypad,
                    self.display_mem@.len() == DISP_SIZE,
                    collision == collision0,
                    (self.display_mem@, rowhit) == spec_draw_cols(
                        fbr,
                        sprite_byte,
                        x0 as int,
                        yr as int,
                        col as nat,
                    ),
                decreases 8 - col,
            {
                let shift: u8 = (7 - col) as u8;
                if (sprite_byte >> shift) & 1 == 1 {
                    let xc: usize = (x0 as usize + col) % 64;
                    let pos: usize = yr * 64 + xc;
                    let lit = self.display_mem[pos];
                    if lit {
                        rowhit = true;
                    }
                    self.display_mem.set(pos, !lit);
                }
                col = col + 1;
            }
            collision = collision || rowhit;
            row = row + 1;
        }
        let flag: u8 = if collision {
            1
        } else {
            0
        };
        self.v_regs.set(15, flag);
        Ok(())
    }

    /// SKP Vx: skip the next instruction if the key numbered Vx is pressed.
    fn op_ex9e(&mut self, x: u8) -> (r: Result<(), Chip8Error>)
        requires
            old(self).wf(),
            x < 16,
        ensures
            final(self).wf(),
            (final(self)@, err_opt(r)) == spec_skp(old(self)@, x),
    {
        let key = self.v_regs[x as usize];
        if key >= 16 {
            return Err(Chip8Error::KeyOutOfRange(key));
        }
        if self.keypad[key as usize] {
            self.prg_counter = self.prg_counter.wrapping_add(2);
        }
        Ok(())
    }

    /// SKNP Vx: skip the next instruction if the key numbered Vx is not pressed.
    fn op_exa1(&mut self, x: u8) -> (r: Result<(), Chip8Error>)
        requires
            old(self).wf(),
            x < 16,
        ensures
            final(self).wf(),
            (final(self)@, err_opt(r)) == spec_sknp(old(self)@, x),
    {
        let key = self.v_regs[x as usize];
        if key >= 16 {
            return Err(Chip8Error::KeyOutOfRange(key));
        }
        if !self.keypad[key as usize] {
            self.prg_counter = self.prg_counter.wrapping_add(2);
        }
        Ok(())
    }

    /// LD Vx, DT: read the delay timer into Vx.
    fn op_fx07(&mut self, x: u8)
        requires
            old(self).wf(),
            x < 16,
        ensures
            final(self).wf(),
            final(self)@ == (MachineView {
                v: old(self)@.v.update(x as int, old(self)@.delay),
                ..old(self)@
            }),
    {
        let d = self.delay_timer;
        self.v_regs.set(x as usize, d);
    }

    /// LD Vx, K: latch the lowest pressed key into Vx, or rewind the program
    /// counter so the same instruction re-executes next cycle.
    #[verifier::loop_isolation(false)]
    fn op_fx0a(&mut self, x: u8)
        requires
            old(self).wf(),
            x < 16,
        ensures
            final(self).wf(),
            final(self)@ == spec_wait_key(old(self)@, x),
    {
        let mut k: usize = 0;
        while k < 16 && !self.keypad[k]
            invariant
                k <= 16,
                spec_first_key(self.keypad@) == spec_first_key_from(self.keypad@, k as int),
            decreases 16 - k,
        {
            k = k + 1;
        }
        if k < 16 {
            self.v_regs.set(x as usize, k as u8);
        } else {
            self.prg_counter = self.prg_counter.wrapping_sub(2);
        }
    }

    /// LD DT, Vx: set the delay timer from Vx.
    fn op_fx15(&mut self, x: u8)
        requires
            old(self).wf(),
            x < 16,
        ensures
            final(self).wf(),
            final(self)@ == (MachineView { delay: old(self)@.v[x as int], ..old(self)@ }),
    {
        self.delay_timer = self.v_regs[x as usize];
    }

    /// LD ST, Vx: set the sound timer from Vx.
    fn op_fx18(&mut self, x: u8)
        requires
            old(self).wf(),
            x < 16,
        ensures
            final(self).wf(),
            final(self)@ == (MachineView { sound: old(self)@.v[x as int], ..old(self)@ }),
    {
        self.sound_timer = self.v_regs[x as usize];
    }

    /// ADD I, Vx: add Vx into the index register, wrapping.
    fn op_fx1e(&mut self, x: u8)
        requires
            old(self).wf(),
            x < 16,
        ensures
            final(self).wf(),
            final(self)@ == (MachineView {
                index: wrap_add16(old(self)@.index, old(self)@.v[x as int] as u16),
                ..old(self)@
            }),
    {
        let a = self.v_regs[x as usize];
        self.index_ptr = self.index_ptr.wrapping_add(a as u16);
    }

    /// LD F, Vx: point the index register at the five-byte font glyph for
    /// the value in Vx.
    fn op_fx29(&mut self, x: u8)
        requires
            old(self).wf(),
            x < 16,
        ensures
            final(self).wf(),
            final(self)@ == (MachineView {
                index: (FONT_START_ADDR + 5 * old(self)@.v[x as int]) as u16,
                ..old(self)@
            }),
    {
        let digit = self.v_regs[x as usize];
        self.index_ptr = FONT_START_ADDR as u16 + 5 * (digit as u16);
    }

    /// LD B, Vx: write the hundreds, tens and ones digits of Vx to memory at
    /// I, I+1, I+2; an index within three bytes of the end of memory is fatal.
    fn op_fx33(&mut self, x: u8) -> (r: Result<(), Chip8Error>)
        requires
            old(self).wf(),
            x < 16,
        ensures
            final(self).wf(),
            (final(self)@, err_opt(r)) == spec_bcd(old(self)@, x),
    {
        if self.index_ptr as usize + 2 >= MEM_SIZE {
            return Err(Chip8Error::AddressOutOfRange(self.index_ptr));
        }
        let value = self.v_regs[x as usize];
        self.mem.set(self.index_ptr as usize, value / 100);
        self.mem.set(self.index_ptr as usize + 1, (value / 10) % 10);
        self.mem.set(self.index_ptr as usize + 2, value % 10);
        Ok(())
    }

    /// LD [I], Vx: store V0..=Vx to memory at I..; the index register is not
    /// changed. A block that would pass the end of memory is fatal.
    #[verifier::loop_isolation(false)]
    fn op_fx55(&mut self, x: u8) -> (r: Result<(), Chip8Error>)
        requires
            old(self).wf(),
            x < 16,
        ensures
            final(self).wf(),
            (final(self)@, err_opt(r)) == spec_store_regs(old(self)@, x),
    {
        if self.index_ptr as usize + x as usize >= MEM_SIZE {
            return Err(Chip8Error::AddressOutOfRange(self.index_ptr));
        }
        let i = self.index_ptr as usize;
        let mut j: usize = 0;
        while j <= x as usize
            invariant
                j <= x as usize + 1,
                self.mem@.len() == MEM_SIZE,
                self.display_mem == old(self).display_mem,
                self.v_regs == old(self).v_regs,
                self.index_ptr == old(self).index_ptr,
                self.prg_counter == old(self).prg_counter,
                self.stack == old(self).stack,
                self.stack_ptr == old(self).stack_ptr,
                self.delay_timer == old(self).delay_timer,
                self.sound_timer == old(self).sound_timer,
                self.keypad == old(self).keypad,
                forall|t: int| i <= t < i + j ==> self.mem@[t] == old(self)@.v[t - i],
                forall|t: int|
                    0 <= t < MEM_SIZE && !(i <= t < i + j) ==> self.mem@[t] == old(self)@.mem[t],
            decreases x as usize + 1 - j,
        {
            self.mem.set(i + j, self.v_regs[j]);
            j = j + 1;
        }
        proof {
            assert(self@.mem =~= spec_store_regs(old(self)@, x).0.mem);
            assert(final(self)@ =~= spec_store_regs(old(self)@, x).0);
        }
        Ok(())
    }

    /// LD Vx, [I]: load V0..=Vx from memory at I..; the index register is not
    /// changed. A block that would pass the end of memory is fatal.
    #[verifier::loop_isolation(false)]
    fn op_fx65(&mut self, x: u8) -> (r: Result<(), Chip8Error>)
        requires
            old(self).wf(),
            x < 16,
        ensures
            final(self).wf(),
            (final(self)@, err_opt(r)) == spec_load_regs(old(self)@, x),
    {
        if self.index_ptr as usize + x as usize >= MEM_SIZE {
            return Err(Chip8Error::AddressOutOfRange(self.index_ptr));
        }
        let i = self.index_ptr as usize;
        let mut j: usize = 0;
        while j <= x as usize
            invariant
                j <= x as usize + 1,
                self.v_regs@.len() == 16,
                self.mem == old(self).mem,
                self.display_mem == old(self).display_mem,
                self.index_ptr == old(self).index_ptr,
                self.prg_counter == old(self).prg_counter,
                self.stack == old(self).stack,
                self.stack_ptr == old(self).stack_ptr,
                self.delay_timer == old(self).delay_timer,
                self.sound_timer == old(self).sound_timer,
                self.keypad == old(self).keypad,
                forall|t: int| 0 <= t < j ==> self.v_regs@[t] == old(self)@.mem[i + t],
                forall|t: int| j <= t < 16 ==> self.v_regs@[t] == old(self)@.v[t],
            decreases x as usize + 1 - j,
        {
            let b = self.mem[i + j];
            self.v_regs.set(j, b);
            j = j + 1;
        }
        proof {
            assert(self@.v =~= spec_load_regs(old(self)@, x).0.v);
            assert(final(self)@ =~= spec_load_regs(old(self)@, x).0);
        }
        Ok(())
    }

    /// Execute one already-decoded instruction against the state, feeding the
    /// one instruction that consumes randomness from `rand_byte`. The whole
    /// effect, successful or fatal, is `spec_exec` of the starting state.
    pub fn execute(&mut self, instr: Instr, rand_byte: u8) -> (r: Result<(), Chip8Error>)
        requires
            old(self).wf(),
            instr.valid(),
        ensures
            final(self).wf(),
            (final(self)@, err_opt(r)) == spec_exec(old(self)@, instr, rand_byte),
    {
        match instr {
            Instr::Cls => {
                self.op_00e0();
                Ok(())
            },
            Instr::Ret => self.op_00ee(),
            Instr::Jp(nnn) => {
                self.op_1nnn(nnn);
                Ok(())
            },
            Instr::Call(nnn) => self.op_2nnn(nnn),
            Instr::SeByte(x, kk) => {
                self.op_3xkk(x, kk);
                Ok(())
            },
            Instr::SneByte(x, kk) => {
                self.op_4xkk(x, kk);
                Ok(())
            },
            Instr::SeReg(x, y) => {
                self.op_5xy0(x, y);
                Ok(())
            },
            Instr::LdByte(x, kk) => {
                self.op_6xkk(x, kk);
                Ok(())
            },
            Instr::AddByte(x, kk) => {
                self.op_7xkk(x, kk);
                Ok(())
            },
            Instr::LdReg(x, y) => {
                self.op_8xy0(x, y);
                Ok(())
            },
            Instr::Or(x, y) => {
                self.op_8xy1(x, y);
                Ok(())
            },
            Instr::And(x, y) => {
                self.op_8xy2(x, y);
                Ok(())
            },
            Instr::Xor(x, y) => {
                self.op_8xy3(x, y);
                Ok(())
            },
            Instr::AddReg(x, y) => {
                self.op_8xy4(x, y);
                Ok(())
            },
            Instr::Sub(x, y) => {
                self.op_8xy5(x, y);
                Ok(())
            },
            Instr::Shr(x) => {
                self.op_8xy6(x);
                Ok(())
            },
            Instr::Subn(x, y) => {
                self.op_8xy7(x, y);
                Ok(())
            },
            Instr::Shl(x) => {
                self.op_8xye(x);
                Ok(())
            },
            Instr::SneReg(x, y) => {
                self.op_9xy0(x, y);
                Ok(())
            },
            Instr::LdI(nnn) => {
                self.op_annn(nnn);
                Ok(())
            },
            Instr::JpV0(nnn) => {
                self.op_bnnn(nnn);
                Ok(())
            },
            Instr::Rnd(x, kk) => {
                self.op_cxkk(x, kk, rand_byte);
                Ok(())
            },
            Instr::Drw(x, y, n) => self.op_dxyn(x, y, n),
            Instr::Skp(x) => self.op_ex9e(x),
            Instr::Sknp(x) => self.op_exa1(x),
            Instr::LdVxDt(x) => {
                self.op_fx07(x);
                Ok(())
            },
            Instr::LdVxK(x) => {
                self.op_fx0a(x);
                Ok(())
            },
            Instr::LdDtVx(x) => {
                self.op_fx15(x);
                Ok(())
            },
            Instr::LdStVx(x) => {
                self.op_fx18(x);
                Ok(())
            },
            Instr::AddIVx(x) => {
                self.op_fx1e(x);
                Ok(())
            },
            Instr::LdFVx(x) => {
                self.op_fx29(x);
                Ok(())
            },
            Instr::LdBVx(x) => self.op_fx33(x),
            Instr::LdMemVx(x) => self.op_fx55(x),
            Instr::LdVxMem(x) => self.op_fx65(x),
        }
    }

    /// One whole cycle driven by a caller-supplied random sample: fetch the
    /// word at the program counter, advance it by two, decode, execute, and
    /// on success count both timers down. Every fault is reported: a program
    /// counter that cannot address two bytes, an unassigned opcode, and the
    /// instruction faults. This is `cycle` with the one nondeterministic
    /// input made an argument, so the whole transition is pinned.
    pub fn step(&mut self, rand_byte: u8) -> (r: Result<(), Chip8Error>)
        requires
            old(self).wf(),
        ensures
            final(self).wf(),
            (final(self)@, err_opt(r)) == spec_cycle(old(self)@, rand_byte),
    {
        if self.prg_counter as usize + 1 >= MEM_SIZE {
            return Err(Chip8Error::AddressOutOfRange(self.prg_counter));
        }
        let hi = self.mem[self.prg_counter as usize];
        let lo = self.mem[self.prg_counter as usize + 1];
        let opcode: u16 = ((hi as u16) << 8u16) | (lo as u16);
        proof {
            assert(opcode == spec_fetch_word(old(self)@));
        }
        self.prg_counter = self.prg_counter + 2;
        let instr = match decode(opcode) {
            Ok(i) => i,
            Err(e) => {
                return Err(e);
            },
        };
        match self.execute(instr, rand_byte) {
            Err(e) => Err(e),
            Ok(()) => {
                if self.delay_timer > 0 {
                    self.delay_timer = self.delay_timer - 1;
                }
                if self.sound_timer > 0 {
                    self.sound_timer = self.sound_timer - 1;
                }
                Ok(())
            },
        }
    }

    /// The sole entry point that advances the machine: one fetch-decode-
    /// execute-timer-tick against a fresh random sample. The outcome is
    /// `spec_cycle` of the starting state under some random byte; every
    /// property independent of the random byte follows, and `step` exposes
    /// the same transition with the byte chosen by the caller.
    pub fn cycle(&mut self) -> (r: Result<(), Chip8Error>)
        requires
            old(self).wf(),
        ensures
            final(self).wf(),
            exists|rb: u8| (final(self)@, err_opt(r)) == #[trigger] spec_cycle(old(self)@, rb),
    {
        let rb = random_byte();
        let r = self.step(rb);
        proof {
            assert((self@, err_opt(r)) == spec_cycle(old(self)@, rb));
        }
        r
    }
}

} // verus!
