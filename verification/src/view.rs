use vstd::prelude::*;

verus! {

/// Total bytes of addressable memory.
pub const MEM_SIZE: usize = 4096;
/// Pixels in the framebuffer: 64 columns by 32 rows, row-major.
pub const DISP_SIZE: usize = 2048;
/// Framebuffer width in pixels.
pub const DISP_WIDTH: usize = 64;
/// Framebuffer height in pixels.
pub const DISP_HEIGHT: usize = 32;
/// Address at which a program image is loaded and execution starts.
pub const PROG_START_ADDR: usize = 0x200;
/// Address of the first byte of the built-in font table.
pub const FONT_START_ADDR: usize = 0x50;
/// Bytes in the built-in font table: 16 glyphs of 5 bytes each.
pub const FONT_SET_LEN: usize = 80;
/// Number of general registers.
pub const NUM_REGS: usize = 16;
/// Maximum call-stack depth.
pub const STACK_SIZE: usize = 16;
/// Number of keypad keys.
pub const NUM_KEYS: usize = 16;

/// The mathematical model of the whole architectural state. Every public
/// contract of the machine speaks of values of this type.
#[verifier::ext_equal]
pub ghost struct MachineView {
    /// All 4096 memory bytes.
    pub mem: Seq<u8>,
    /// The 64x32 framebuffer, row-major: pixel (row, col) is `display[row * 64 + col]`.
    pub display: Seq<bool>,
    /// The sixteen general registers V0..VF.
    pub v: Seq<u8>,
    /// The index register I.
    pub index: u16,
    /// The program counter: address of the next instruction to fetch.
    pub pc: u16,
    /// The sixteen call-stack slots; only the first `sp` hold live return addresses.
    pub stack: Seq<u16>,
    /// The stack depth, which is also the next slot a call writes.
    pub sp: u8,
    /// The delay timer.
    pub delay: u8,
    /// The sound timer.
    pub sound: u8,
    /// The sixteen key states, true while a key is held down.
    pub keys: Seq<bool>,
}

impl MachineView {
    /// The structural invariant: every component has its architectural size
    /// and the stack depth never exceeds the stack.
    pub open spec fn wf(self) -> bool {
        &&& self.mem.len() == MEM_SIZE
        &&& self.display.len() == DISP_SIZE
        &&& self.v.len() == NUM_REGS
        &&& self.stack.len() == STACK_SIZE
        &&& self.sp <= STACK_SIZE
        &&& self.keys.len() == NUM_KEYS
    }
}

/// The 80-byte font table: glyphs for the hex digits 0..F, five bytes each.
pub open spec fn spec_font() -> Seq<u8> {
    seq![
        0xF0u8, 0x90, 0x90, 0x90, 0xF0, // 0
        0x20, 0x60, 0x20, 0x20, 0x70, // 1
        0xF0, 0x10, 0xF0, 0x80, 0xF0, // 2
        0xF0, 0x10, 0xF0, 0x10, 0xF0, // 3
        0x90, 0x90, 0xF0, 0x10, 0x10, // 4
        0xF0, 0x80, 0xF0, 0x10, 0xF0, // 5
        0xF0, 0x80, 0xF0, 0x90, 0xF0, // 6
        0xF0, 0x10, 0x20, 0x40, 0x40, // 7
        0xF0, 0x90, 0xF0, 0x90, 0xF0, // 8
        0xF0, 0x90, 0xF0, 0x10, 0xF0, // 9
        0xF0, 0x90, 0xF0, 0x90, 0x90, // A
        0xE0, 0x90, 0xE0, 0x90, 0xE0, // B
        0xF0, 0x80, 0x80, 0x80, 0xF0, // C
        0xE0, 0x90, 0x90, 0x90, 0xE0, // D
        0xF0, 0x80, 0xF0, 0x80, 0xF0, // E
        0xF0, 0x80, 0xF0, 0x80, 0x80, // F
    ]
}

/// The state a machine is constructed in: zeroed everywhere except the font
/// table at its fixed region, with the program counter at the load address.
pub open spec fn spec_initial() -> MachineView {
    MachineView {
        mem: Seq::new(MEM_SIZE as nat, |i: int| (
            if FONT_START_ADDR <= i < FONT_START_ADDR + FONT_SET_LEN {
                spec_font()[i - FONT_START_ADDR]
            } else {
                0u8
            }
        )),
        display: Seq::new(DISP_SIZE as nat, |i: int| false),
        v: Seq::new(NUM_REGS as nat, |i: int| 0u8),
        index: 0,
        pc: PROG_START_ADDR as u16,
        stack: Seq::new(STACK_SIZE as nat, |i: int| 0u16),
        sp: 0,
        delay: 0,
        sound: 0,
        keys: Seq::new(NUM_KEYS as nat, |i: int| false),
    }
}

} // verus!
