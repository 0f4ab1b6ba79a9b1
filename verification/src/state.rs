//! The mathematical model of a machine: its state as sequences and integers.

use vstd::prelude::*;

verus! {

/// Number of addressable bytes of memory.
pub const MEMORY_SIZE: usize = 0x1000;

/// Address at which a program image is loaded and execution starts.
pub const CODE_BASE_ADDRESS: u16 = 0x200;

/// Address at which the built-in glyph table is stored.
pub const FONT_BASE_ADDRESS: u16 = 0x50;

/// Number of bytes of one glyph of the built-in glyph table.
pub const GLYPH_SIZE: u16 = 5;

/// Largest program image that fits between the code origin and the end of memory.
pub const MAX_PROGRAM_SIZE: usize = 0xE00;

/// Number of return addresses that the call stack can hold.
pub const STACK_CAPACITY: usize = 128;

/// Width of the framebuffer in pixels.
pub const DISPLAY_WIDTH: usize = 64;

/// Height of the framebuffer in pixels.
pub const DISPLAY_HEIGHT: usize = 32;

/// Number of general-purpose registers.
pub const REGISTER_COUNT: usize = 16;

/// Number of keys.
pub const KEY_COUNT: usize = 16;

/// Index of the register that doubles as the flag register.
pub const FLAG_REGISTER: usize = 15;

/// The state of a machine as plain mathematical values.
#[verifier::ext_equal]
pub struct MachineState {
    /// The 4096 bytes of memory.
    pub memory: Seq<u8>,
    /// The framebuffer: 32 rows of 64 pixels, `display[y][x]`.
    pub display: Seq<Seq<bool>>,
    /// Address of the next instruction word.
    pub pc: int,
    /// The index register.
    pub index: int,
    /// The return addresses of the calls that have not returned, oldest first.
    pub stack: Seq<int>,
    /// The delay timer.
    pub delay_timer: u8,
    /// The sound timer.
    pub sound_timer: u8,
    /// The sixteen registers; register 15 doubles as the flag register.
    pub registers: Seq<u8>,
    /// The sixteen key states, `true` for pressed.
    pub keypad: Seq<bool>,
    /// Whether a shift first copies register Y into register X.
    pub shift_sets_vx: bool,
    /// Whether an indexed jump adds register X in place of register 0.
    pub jump_with_offset_bug_emulation: bool,
    /// Whether a block store or load advances the index register.
    pub increment_i_on_store_and_load: bool,
}

impl MachineState {
    /// The shape that every machine state has: the fixed sizes of its parts
    /// and the 16-bit range of its addresses.
    pub open spec fn wf(self) -> bool {
        &&& self.memory.len() == MEMORY_SIZE
        &&& self.display.len() == DISPLAY_HEIGHT
        &&& forall|y: int|
            0 <= y < DISPLAY_HEIGHT ==> (#[trigger] self.display[y]).len() == DISPLAY_WIDTH
        &&& 0 <= self.pc <= u16::MAX
        &&& 0 <= self.index <= u16::MAX
        &&& self.stack.len() <= STACK_CAPACITY
        &&& forall|i: int| 0 <= i < self.stack.len() ==> 0 <= #[trigger] self.stack[i] <= u16::MAX
        &&& self.registers.len() == REGISTER_COUNT
        &&& self.keypad.len() == KEY_COUNT
    }
}

/// The built-in glyph table: five bytes for each hexadecimal digit, `0` to `F`.
pub open spec fn glyph_table() -> Seq<u8> {
    seq![
        0xF0u8, 0x90, 0x90, 0x90, 0xF0,
        0x20, 0x60, 0x20, 0x20, 0x70,
        0xF0, 0x10, 0xF0, 0x80, 0xF0,
        0xF0, 0x10, 0xF0, 0x10, 0xF0,
        0x90, 0x90, 0xF0, 0x10, 0x10,
        0xF0, 0x80, 0xF0, 0x10, 0xF0,
        0xF0, 0x80, 0xF0, 0x90, 0xF0,
        0xF0, 0x10, 0x20, 0x40, 0x40,
        0xF0, 0x90, 0xF0, 0x90, 0xF0,
        0xF0, 0x90, 0xF0, 0x10, 0xF0,
        0xF0, 0x90, 0xF0, 0x90, 0x90,
        0xE0, 0x90, 0xE0, 0x90, 0xE0,
        0xF0, 0x80, 0x80, 0x80, 0xF0,
        0xE0, 0x90, 0x90, 0x90, 0xE0,
        0xF0, 0x80, 0xF0, 0x80, 0xF0,
        0xF0, 0x80, 0xF0, 0x80, 0x80,
    ]
}

/// A framebuffer with every pixel off.
pub open spec fn blank_display() -> Seq<Seq<bool>> {
    Seq::new(DISPLAY_HEIGHT as nat, |y: int| Seq::new(DISPLAY_WIDTH as nat, |x: int| false))
}

/// The memory of a fresh machine: zero everywhere but for the glyph table at
/// its origin and the program image at the code origin.
pub open spec fn initial_memory(program: Seq<u8>) -> Seq<u8> {
    Seq::new(
        MEMORY_SIZE as nat,
        |a: int|
            if CODE_BASE_ADDRESS <= a < CODE_BASE_ADDRESS + program.len() {
                program[a - CODE_BASE_ADDRESS]
            } else if FONT_BASE_ADDRESS <= a < FONT_BASE_ADDRESS + glyph_table().len() {
                glyph_table()[a - FONT_BASE_ADDRESS]
            } else {
                0u8
            },
    )
}

/// The state in which a machine starts on the given program image.
pub open spec fn initial_state(
    program: Seq<u8>,
    shift_sets_vx: bool,
    jump_with_offset_bug_emulation: bool,
    increment_i_on_store_and_load: bool,
) -> MachineState {
    MachineState {
        memory: initial_memory(program),
        display: blank_display(),
        pc: CODE_BASE_ADDRESS as int,
        index: 0,
        stack: Seq::empty(),
        delay_timer: 0,
        sound_timer: 0,
        registers: Seq::new(REGISTER_COUNT as nat, |i: int| 0u8),
        keypad: Seq::new(KEY_COUNT as nat, |i: int| false),
        shift_sets_vx,
        jump_with_offset_bug_emulation,
        increment_i_on_store_and_load,
    }
}

} // verus!
