use vstd::prelude::*;
use crate::error::Chip8Error;
use crate::view::{
    spec_font, spec_initial, MachineView, DISP_HEIGHT, DISP_SIZE, DISP_WIDTH, FONT_SET_LEN,
    FONT_START_ADDR, MEM_SIZE, NUM_KEYS, NUM_REGS, PROG_START_ADDR, STACK_SIZE,
};

verus! {

/// The CHIP-8 machine: all architectural state, mutated only by the
/// instruction handlers during cycles and by the public accessors.
pub struct CHIP8 {
    pub(crate) mem: Vec<u8>,
    pub(crate) display_mem: Vec<bool>,
    pub(crate) v_regs: Vec<u8>,
    pub(crate) index_ptr: u16,
    pub(crate) prg_counter: u16,
    pub(crate) stack: Vec<u16>,
    pub(crate) stack_ptr: u8,
    pub(crate) delay_timer: u8,
    pub(crate) sound_timer: u8,
    pub(crate) keypad: Vec<bool>,
}

impl View for CHIP8 {
    type V = MachineView;

    open(crate) spec fn view(&self) -> MachineView {
        MachineView {
            mem: self.mem@,
            display: self.display_mem@,
            v: self.v_regs@,
            index: self.index_ptr,
            pc: self.prg_counter,
            stack: self.stack@,
            sp: self.stack_ptr,
            delay: self.delay_timer,
            sound: self.sound_timer,
            keys: self.keypad@,
        }
    }
}

/// A vector holding `n` copies of one value.
pub(crate) fn filled<T: Copy>(value: T, n: usize) -> (v: Vec<T>)
    ensures
        v@ == Seq::new(n as nat, |i: int| value),
{
    let mut v: Vec<T> = Vec::new();
    let mut i: usize = 0;
    while i < n
        invariant
            i <= n,
            v@.len() == i,
            forall|j: int| 0 <= j < i ==> v@[j] == value,
        decreases n - i,
    {
        v.push(value);
        i = i + 1;
    }
    proof {
        assert(v@ =~= Seq::new(n as nat, |i: int| value));
    }
    v
}

impl CHIP8 {
    /// The structural invariant of the state, carried by every method.
    pub open spec fn wf(&self) -> bool {
        self@.wf()
    }

    /// Copy the built-in font table into its fixed memory region.
    fn load_chars(&mut self)
        requires
            old(self)@.mem.len() == MEM_SIZE,
        ensures
            final(self)@ == (MachineView {
                mem: Seq::new(MEM_SIZE as nat, |i: int| (
                    if FONT_START_ADDR <= i < FONT_START_ADDR + FONT_SET_LEN {
                        spec_font()[i - FONT_START_ADDR]
                    } else {
                        old(self)@.mem[i]
                    }
                )),
                ..old(self)@
            }),
    {
        let font: [u8; 80] = [
            0xF0, 0x90, 0x90, 0x90, 0xF0, // 0
            0x20, 0x60, 0x20, 0x20, 0x70, // 1
            0xF0, 0x10, 0xF0, 0x80, 0xF0, // 2
            0xF0, 0x10, 0xF0, 0x10, 0xF0, // 3
            0x90, 0x90, 0xF0, 0x10, 0x10, // 4
            0xF0, 0x80, 0xF0, 0x10, 0xF0, // 5
            0xF0, 0x80, 0xF0, 0x90, 0xF0, // 6
            0xF0, 0x10, 0x20, 0x40, 0x40, // 7
            0xF0, 0x90, 0xF0, 0x90, 0xF0, // 8
            0xF0, 0x90, 0xF0, 0x10, 0xF0, // 9
            0xF0, 0x90, 0xF0, 0x90, 0x90, // A
            0xE0, 0x90, 0xE0, 0x90, 0xE0, // B
            0xF0, 0x80, 0x80, 0x80, 0xF0, // C
            0xE0, 0x90, 0x90, 0x90, 0xE0, // D
            0xF0, 0x80, 0xF0, 0x80, 0xF0, // E
            0xF0, 0x80, 0xF0, 0x80, 0x80, // F
        ];
        proof {
            assert(font@ =~= spec_font());
        }
        let mut i: usize = 0;
        while i < FONT_SET_LEN
            invariant
                i <= FONT_SET_LEN,
                font@ == spec_font(),
                self.mem@.len() == MEM_SIZE,
                self.display_mem == old(self).display_mem,
                self.v_regs == old(self).v_regs,
                self.index_ptr == old(self).index_ptr,
                self.prg_counter == old(self).prg_counter,
                self.stack == old(self).stack,
                self.stack_ptr == old(self).stack_ptr,
                self.delay_timer == old(self).delay_timer,
                self.sound_timer == old(self).sound_timer,
                self.keypad == old(self).keypad,
                forall|j: int|
                    FONT_START_ADDR <= j < FONT_START_ADDR + i ==> self.mem@[j] == spec_font()[j
                        - FONT_START_ADDR],
                forall|j: int|
                    0 <= j < MEM_SIZE && !(FONT_START_ADDR <= j < FONT_START_ADDR + i)
                        ==> self.mem@[j] == old(self)@.mem[j],
            decreases FONT_SET_LEN - i,
        {
            self.mem.set(FONT_START_ADDR + i, font[i]);
            i = i + 1;
        }
        proof {
            assert(self@.mem =~= Seq::new(MEM_SIZE as nat, |i: int| (
                if FONT_START_ADDR <= i < FONT_START_ADDR + FONT_SET_LEN {
                    spec_font()[i - FONT_START_ADDR]
                } else {
                    old(self)@.mem[i]
                }
            )));
            assert(final(self)@ =~= (MachineView {
                mem: self@.mem,
                ..old(self)@
            }));
        }
    }

    /// A fresh machine: everything zeroed except the font table in its fixed
    /// region, with the program counter at the program load address.
    pub fn new() -> (r: CHIP8)
        ensures
            r@ == spec_initial(),
            r.wf(),
    {
        let mut chip = CHIP8 {
            mem: filled(0u8, MEM_SIZE),
            display_mem: filled(false, DISP_SIZE),
            v_regs: filled(0u8, NUM_REGS),
            index_ptr: 0,
            prg_counter: PROG_START_ADDR as u16,
            stack: filled(0u16, STACK_SIZE),
            stack_ptr: 0,
            delay_timer: 0,
            sound_timer: 0,
            keypad: filled(false, NUM_KEYS),
        };
        chip.load_chars();
        proof {
            assert(chip@.mem =~= spec_initial().mem);
            assert(chip@ =~= spec_initial());
        }
        chip
    }

    /// Copy a program image into memory starting at the load address. An
    /// image that would run past the end of memory is rejected whole, and
    /// nothing is copied.
    pub fn load_rom(&mut self, data: &Vec<u8>) -> (r: Result<(), Chip8Error>)
        requires
            old(self).wf(),
        ensures
            final(self).wf(),
            data@.len() <= MEM_SIZE - PROG_START_ADDR ==> (r == Ok::<(), Chip8Error>(())
                && final(self)@ == (MachineView {
                mem: Seq::new(MEM_SIZE as nat, |t: int| (
                    if PROG_START_ADDR <= t < PROG_START_ADDR + data@.len() {
                        data@[t - PROG_START_ADDR]
                    } else {
                        old(self)@.mem[t]
                    }
                )),
                ..old(self)@
            })),
            data@.len() > MEM_SIZE - PROG_START_ADDR ==> (r == Err::<(), Chip8Error>(
                Chip8Error::ProgramTooLarge(data@.len() as usize),
            ) && final(self)@ == old(self)@),
    {
        if data.len() > MEM_SIZE - PROG_START_ADDR {
            return Err(Chip8Error::ProgramTooLarge(data.len()));
        }
        let n = data.len();
        let mut i: usize = 0;
        while i < n
            invariant
                i <= n,
                n == data@.len(),
                n <= MEM_SIZE - PROG_START_ADDR,
                self.mem@.len() == MEM_SIZE,
                self.display_mem == old(self).display_mem,
                self.v_regs == old(self).v_regs,
                self.index_ptr == old(self).index_ptr,
                self.prg_counter == old(self).prg_counter,
                self.stack == old(self).stack,
                self.stack_ptr == old(self).stack_ptr,
                self.delay_timer == old(self).delay_timer,
                self.sound_timer == old(self).sound_timer,
                self.keypad == old(self).keypad,
                forall|j: int|
                    PROG_START_ADDR <= j < PROG_START_ADDR + i ==> self.mem@[j] == data@[j
                        - PROG_START_ADDR],
                forall|j: int|
                    0 <= j < MEM_SIZE && !(PROG_START_ADDR <= j < PROG_START_ADDR + i)
                        ==> self.mem@[j] == old(self)@.mem[j],
            decreases n - i,
        {
            self.mem.set(PROG_START_ADDR + i, data[i]);
            i = i + 1;
        }
        proof {
            assert(self@.mem =~= Seq::new(MEM_SIZE as nat, |t: int| (
                if PROG_START_ADDR <= t < PROG_START_ADDR + data@.len() {
                    data@[t - PROG_START_ADDR]
                } else {
                    old(self)@.mem[t]
                }
            )));
            assert(final(self)@ =~= (MachineView {
                mem: self@.mem,
                ..old(self)@
            }));
        }
        Ok(())
    }
}

impl CHIP8 {
    /// Read general register Vi; an index past VF is rejected.
    pub fn read_register(&self, i: u8) -> (r: Result<u8, Chip8Error>)
        requires
            self.wf(),
        ensures
            i < NUM_REGS ==> r == Ok::<u8, Chip8Error>(self@.v[i as int]),
            i >= NUM_REGS ==> r == Err::<u8, Chip8Error>(Chip8Error::RegisterOutOfRange(i)),
    {
        if i as usize >= NUM_REGS {
            return Err(Chip8Error::RegisterOutOfRange(i));
        }
        Ok(self.v_regs[i as usize])
    }

    /// Write general register Vi; an index past VF is rejected and nothing
    /// changes.
    pub fn write_register(&mut self, i: u8, value: u8) -> (r: Result<(), Chip8Error>)
        requires
            old(self).wf(),
        ensures
            final(self).wf(),
            i < NUM_REGS ==> (r == Ok::<(), Chip8Error>(()) && final(self)@ == (MachineView {
                v: old(self)@.v.update(i as int, value),
                ..old(self)@
            })),
            i >= NUM_REGS ==> (r == Err::<(), Chip8Error>(Chip8Error::RegisterOutOfRange(i))
                && final(self)@ == old(self)@),
    {
        if i as usize >= NUM_REGS {
            return Err(Chip8Error::RegisterOutOfRange(i));
        }
        self.v_regs.set(i as usize, value);
        Ok(())
    }

    /// Read the memory byte at `addr`; an address past the end of memory is
    /// rejected.
    pub fn read_memory(&self, addr: u16) -> (r: Result<u8, Chip8Error>)
        requires
            self.wf(),
        ensures
            addr < MEM_SIZE ==> r == Ok::<u8, Chip8Error>(self@.mem[addr as int]),
            addr >= MEM_SIZE ==> r == Err::<u8, Chip8Error>(Chip8Error::AddressOutOfRange(addr)),
    {
        if addr as usize >= MEM_SIZE {
            return Err(Chip8Error::AddressOutOfRange(addr));
        }
        Ok(self.mem[addr as usize])
    }

    /// Write the memory byte at `addr`; an address past the end of memory is
    /// rejected and nothing changes.
    pub fn write_memory(&mut self, addr: u16, value: u8) -> (r: Result<(), Chip8Error>)
        requires
            old(self).wf(),
        ensures
            final(self).wf(),
            addr < MEM_SIZE ==> (r == Ok::<(), Chip8Error>(()) && final(self)@ == (MachineView {
                mem: old(self)@.mem.update(addr as int, value),
                ..old(self)@
            })),
            addr >= MEM_SIZE ==> (r == Err::<(), Chip8Error>(Chip8Error::AddressOutOfRange(addr))
                && final(self)@ == old(self)@),
    {
        if addr as usize >= MEM_SIZE {
            return Err(Chip8Error::AddressOutOfRange(addr));
        }
        self.mem.set(addr as usize, value);
        Ok(())
    }

    /// Read whether the framebuffer pixel at (row, col) is lit; coordinates
    /// outside the 64x32 grid are rejected.
    pub fn get_pixel(&self, row: usize, col: usize) -> (r: Result<bool, Chip8Error>)
        requires
            self.wf(),
        ensures
            row < DISP_HEIGHT && col < DISP_WIDTH ==> r == Ok::<bool, Chip8Error>(
                self@.display[row * DISP_WIDTH + col],
            ),
            !(row < DISP_HEIGHT && col < DISP_WIDTH) ==> r == Err::<bool, Chip8Error>(
                Chip8Error::PixelOutOfRange(row, col),
            ),
    {
        if row >= DISP_HEIGHT || col >= DISP_WIDTH {
            return Err(Chip8Error::PixelOutOfRange(row, col));
        }
        Ok(self.display_mem[row * DISP_WIDTH + col])
    }

    /// Set or clear the pressed state of one key; an index past the last key
    /// is rejected and nothing changes.
    pub fn set_key(&mut self, key: u8, pressed: bool) -> (r: Result<(), Chip8Error>)
        requires
            old(self).wf(),
        ensures
            final(self).wf(),
            key < NUM_KEYS ==> (r == Ok::<(), Chip8Error>(()) && final(self)@ == (MachineView {
                keys: old(self)@.keys.update(key as int, pressed),
                ..old(self)@
            })),
            key >= NUM_KEYS ==> (r == Err::<(), Chip8Error>(Chip8Error::KeyOutOfRange(key))
                && final(self)@ == old(self)@),
    {
        if key as usize >= NUM_KEYS {
            return Err(Chip8Error::KeyOutOfRange(key));
        }
        self.keypad.set(key as usize, pressed);
        Ok(())
    }

    /// Read the pressed state of one key; an index past the last key is
    /// rejected.
    pub fn get_key(&self, key: u8) -> (r: Result<bool, Chip8Error>)
        requires
            self.wf(),
        ensures
            key < NUM_KEYS ==> r == Ok::<bool, Chip8Error>(self@.keys[key as int]),
            key >= NUM_KEYS ==> r == Err::<bool, Chip8Error>(Chip8Error::KeyOutOfRange(key)),
    {
        if key as usize >= NUM_KEYS {
            return Err(Chip8Error::KeyOutOfRange(key));
        }
        Ok(self.keypad[key as usize])
    }

    /// The delay timer's current value.
    pub fn delay_timer(&self) -> (r: u8)
        ensures
            r == self@.delay,
    {
        self.delay_timer
    }

    /// The sound timer's current value.
    pub fn sound_timer(&self) -> (r: u8)
        ensures
            r == self@.sound,
    {
        self.sound_timer
    }

    /// The program counter: the address of the next instruction to fetch.
    pub fn program_counter(&self) -> (r: u16)
        ensures
            r == self@.pc,
    {
        self.prg_counter
    }

    /// The index register I.
    pub fn index_register(&self) -> (r: u16)
        ensures
            r == self@.index,
    {
        self.index_ptr
    }

    /// The call stack's current depth.
    pub fn stack_depth(&self) -> (r: u8)
        ensures
            r == self@.sp,
    {
        self.stack_ptr
    }
}

/// Relies on rand::random: one fresh sample of a uniformly distributed 8-bit
/// value from the process-wide random source. Nothing is promised of the
/// value; callers state what holds of every outcome.
#[verifier::external_body]
pub(crate) fn random_byte() -> u8 {
    rand::random::<u8>()
}

} // verus!
