//! The virtual machine: its state, construction and timers.

use vstd::prelude::*;
use crate::error::EmulatorError;
use crate::instruction::{decode, Instruction};
use crate::semantics::{
    any_pressed, can_fetch, collides, drawn, drawn_row, execute_spec, fetch_spec, fetched,
    index_after_block, is_first_pressed, lemma_first_pressed, loaded, operation_0_spec,
    operation_1_spec, operation_2_spec, operation_3_spec, operation_4_spec, operation_5_spec,
    operation_6_spec, operation_7_spec, operation_8_spec, operation_9_spec, operation_a_spec,
    operation_b_spec, operation_c_spec, operation_d_spec, operation_e_spec, operation_f_spec,
    row_collides, row_covers, shifted, sprite_at_index, sprite_covers, step_spec, stored,
    tick_spec, with_register, with_result_and_flag,
};
use crate::state::{
    blank_display, glyph_table, initial_memory, initial_state, MachineState, CODE_BASE_ADDRESS,
    DISPLAY_HEIGHT, DISPLAY_WIDTH, FLAG_REGISTER, FONT_BASE_ADDRESS, GLYPH_SIZE, KEY_COUNT,
    MAX_PROGRAM_SIZE, MEMORY_SIZE, REGISTER_COUNT, STACK_CAPACITY,
};

verus! {

/// The built-in font, one five-byte glyph for each hexadecimal digit.
const FONT: [u8; 80] = [
    0xF0, 0x90, 0x90, 0x90, 0xF0,
    0x20, 0x60, 0x20, 0x20, 0x70,
    0xF0, 0x10, 0xF0, 0x80, 0xF0,
    0xF0, 0x10, 0xF0, 0x10, 0xF0,
    0x90, 0x90, 0xF0, 0x10, 0x10,
    0xF0, 0x80, 0xF0, 0x10, 0xF0,
    0xF0, 0x80, 0xF0, 0x90, 0xF0,
    0xF0, 0x10, 0x20, 0x40, 0x40,
    0xF0, 0x90, 0xF0, 0x90, 0xF0,
    0xF0, 0x90, 0xF0, 0x10, 0xF0,
    0xF0, 0x90, 0xF0, 0x90, 0x90,
    0xE0, 0x90, 0xE0, 0x90, 0xE0,
    0xF0, 0x80, 0x80, 0x80, 0xF0,
    0xE0, 0x90, 0x90, 0x90, 0xE0,
    0xF0, 0x80, 0xF0, 0x80, 0xF0,
    0xF0, 0x80, 0xF0, 0x80, 0x80,
];

/// A CHIP-8 machine.
pub struct Emulator {
    memory: [u8; 0x1000],
    display: [[bool; 64]; 32],
    pc: u16,
    index: u16,
    stack: [u16; 128],
    sp: usize,
    delay_timer: u8,
    sound_timer: u8,
    registers: [u8; 16],
    keypad: [bool; 16],
    shift_sets_vx: bool,
    jump_with_offset_bug_emulation: bool,
    increment_i_on_store_and_load: bool,
}

impl View for Emulator {
    type V = MachineState;

    closed spec fn view(&self) -> MachineState {
        MachineState {
            memory: self.memory@,
            display: Seq::new(32, |y: int| self.display@[y]@),
            pc: self.pc as int,
            index: self.index as int,
            stack: Seq::new(self.sp as nat, |i: int| self.stack@[i] as int),
            delay_timer: self.delay_timer,
            sound_timer: self.sound_timer,
            registers: self.registers@,
            keypad: self.keypad@,
            shift_sets_vx: self.shift_sets_vx,
            jump_with_offset_bug_emulation: self.jump_with_offset_bug_emulation,
            increment_i_on_store_and_load: self.increment_i_on_store_and_load,
        }
    }
}

impl Emulator {
    #[verifier::type_invariant]
    spec fn inv(self) -> bool {
        self.sp <= 128
    }

    /// Builds a machine with the program image loaded at the code origin, the
    /// glyph table at its origin and everything else zero. An image of more
    /// than 3584 bytes does not fit and is rejected with its size.
    pub fn new(
        program: &[u8],
        shift_sets_vx: bool,
        jump_with_offset_bug_emulation: bool,
        increment_i_on_store_and_load: bool,
    ) -> (result: Result<Emulator, EmulatorError>)
        ensures
            program@.len() > MAX_PROGRAM_SIZE ==> result == Err::<Emulator, EmulatorError>(
                EmulatorError::ProgramTooLarge(program.len()),
            ),
            program@.len() <= MAX_PROGRAM_SIZE ==> result is Ok && result->Ok_0@.wf()
                && result->Ok_0@ == initial_state(
                program@,
                shift_sets_vx,
                jump_with_offset_bug_emulation,
                increment_i_on_store_and_load,
            ),
            program@.len() <= MAX_PROGRAM_SIZE ==> result->Ok_0@.memory.subrange(
                CODE_BASE_ADDRESS as int,
                CODE_BASE_ADDRESS + program@.len() as int,
            ) == program@,
    {
        if program.len() > MAX_PROGRAM_SIZE {
            return Err(EmulatorError::ProgramTooLarge(program.len()));
        }
        let mut memory: [u8; 0x1000] = [0; 0x1000];
        let mut i: usize = 0;
        while i < program.len()
            invariant
                i <= program@.len() <= 3584,
                forall|a: int|
                    0 <= a < 0x1000 ==> memory@[a] == if 0x200 <= a < 0x200 + i {
                        program@[a - 0x200]
                    } else {
                        0u8
                    },
            decreases program@.len() - i,
        {
            memory[i + 0x200] = program[i];
            i += 1;
        }
        let mut j: usize = 0;
        while j < 80
            invariant
                j <= 80,
                program@.len() <= 3584,
                forall|a: int|
                    0 <= a < 0x1000 ==> memory@[a] == if 0x200 <= a < 0x200 + program@.len() {
                        program@[a - 0x200]
                    } else if 0x50 <= a < 0x50 + j {
                        FONT@[a - 0x50]
                    } else {
                        0u8
                    },
            decreases 80 - j,
        {
            memory[j + 0x50] = FONT[j];
            j += 1;
        }
        proof {
            assert(FONT@ =~= glyph_table());
            assert(memory@ =~= initial_memory(program@));
        }
        let machine = Emulator {
            memory,
            display: [[false; 64]; 32],
            pc: CODE_BASE_ADDRESS,
            index: 0,
            stack: [0; 128],
            sp: 0,
            delay_timer: 0,
            sound_timer: 0,
            registers: [0; 16],
            keypad: [false; 16],
            shift_sets_vx,
            jump_with_offset_bug_emulation,
            increment_i_on_store_and_load,
        };
        proof {
            let expected = initial_state(
                program@,
                shift_sets_vx,
                jump_with_offset_bug_emulation,
                increment_i_on_store_and_load,
            );
            assert(machine@.display =~~= expected.display);
            assert(machine@.stack =~= expected.stack);
            assert(machine@.registers =~= expected.registers);
            assert(machine@.keypad =~= expected.keypad);
            assert(machine@ == expected);
            assert(expected.memory.subrange(0x200, 0x200 + program@.len() as int) =~= program@);
        }
        Ok(machine)
    }

    /// Executes the instruction at the program counter: fetches its word,
    /// moves the counter past it, decodes and executes it. Returns whether
    /// the framebuffer was drawn to. The byte of a class C instruction comes
    /// from the random number generator, so the step is `step_spec` for some
    /// byte.
    pub fn step(&mut self) -> (result: Result<bool, EmulatorError>)
        ensures
            final(self)@.wf(),
            exists|random: u8|
                final(self)@ == (#[trigger] step_spec(old(self)@, random)).state && result
                    == step_spec(old(self)@, random).result,
    {
        proof {
            use_type_invariant(&*self);
        }
        let ghost before = self@;
        let opcode: u16 = match self.fetch_opcode() {
            Ok(opcode) => opcode,
            Err(error) => {
                proof {
                    assert(self@ == step_spec(before, 0u8).state);
                }
                return Err(error);
            },
        };
        let result = self.execute_opcode(opcode);
        proof {
            use_type_invariant(&*self);
            let random = choose|random: u8|
                self@ == (#[trigger] execute_spec(fetched(before), decode(opcode), random)).state
                    && result == execute_spec(fetched(before), decode(opcode), random).result;
            assert(self@ == step_spec(before, random).state);
        }
        result
    }

    /// Executes the instruction at the program counter as `step` does, with
    /// `random` in place of the byte that a class C instruction would draw.
    pub fn step_with(&mut self, random: u8) -> (result: Result<bool, EmulatorError>)
        ensures
            final(self)@.wf(),
            final(self)@ == step_spec(old(self)@, random).state,
            result == step_spec(old(self)@, random).result,
    {
        proof {
            use_type_invariant(&*self);
        }
        let opcode: u16 = match self.fetch_opcode() {
            Ok(opcode) => opcode,
            Err(error) => {
                return Err(error);
            },
        };
        let instruction = Instruction::from_opcode(opcode);
        let result = self.execute_instruction(instruction, random);
        proof {
            use_type_invariant(&*self);
        }
        result
    }

    /// Counts both timers down by one, each stopping at zero.
    pub fn tick_clock(&mut self)
        ensures
            final(self)@.wf(),
            final(self)@ == tick_spec(old(self)@),
    {
        proof {
            use_type_invariant(&*self);
        }
        if self.delay_timer > 0 {
            self.delay_timer -= 1;
        }
        if self.sound_timer > 0 {
            self.sound_timer -= 1;
        }
    }

    /// Records that a key went down or came up. Nothing else changes.
    pub fn set_key(&mut self, key: usize, pressed: bool)
        requires
            key < KEY_COUNT,
        ensures
            final(self)@.wf(),
            final(self)@ == (MachineState {
                keypad: old(self)@.keypad.update(key as int, pressed),
                ..old(self)@
            }),
    {
        proof {
            use_type_invariant(&*self);
        }
        self.keypad[key] = pressed;
    }

    /// Whether a key is held down.
    pub fn key(&self, key: usize) -> (pressed: bool)
        requires
            key < KEY_COUNT,
        ensures
            self@.wf(),
            pressed == self@.keypad[key as int],
    {
        proof {
            use_type_invariant(self);
        }
        self.keypad[key]
    }

    /// The framebuffer: 32 rows of 64 pixels, `true` for a lit pixel.
    pub fn display(&self) -> (display: &[[bool; 64]; 32])
        ensures
            self@.wf(),
            forall|y: int| 0 <= y < 32 ==> (#[trigger] display@[y])@ == self@.display[y],
    {
        proof {
            use_type_invariant(self);
        }
        &self.display
    }

    /// Whether the pixel in column `x` of row `y` is lit.
    pub fn pixel(&self, x: usize, y: usize) -> (lit: bool)
        requires
            x < DISPLAY_WIDTH,
            y < DISPLAY_HEIGHT,
        ensures
            self@.wf(),
            lit == self@.display[y as int][x as int],
    {
        proof {
            use_type_invariant(self);
        }
        self.display[y][x]
    }

    /// The delay timer.
    pub fn delay_timer(&self) -> (value: u8)
        ensures
            self@.wf(),
            value == self@.delay_timer,
    {
        proof {
            use_type_invariant(self);
        }
        self.delay_timer
    }

    /// The sound timer.
    pub fn sound_timer(&self) -> (value: u8)
        ensures
            self@.wf(),
            value == self@.sound_timer,
    {
        proof {
            use_type_invariant(self);
        }
        self.sound_timer
    }

    /// The value of one register.
    pub fn register(&self, register: usize) -> (value: u8)
        requires
            register < REGISTER_COUNT,
        ensures
            self@.wf(),
            value == self@.registers[register as int],
    {
        proof {
            use_type_invariant(self);
        }
        self.registers[register]
    }

    /// The byte of memory at an address.
    pub fn memory(&self, address: usize) -> (byte: u8)
        requires
            address < MEMORY_SIZE,
        ensures
            self@.wf(),
            byte == self@.memory[address as int],
    {
        proof {
            use_type_invariant(self);
        }
        self.memory[address]
    }

    /// The program counter.
    pub fn pc(&self) -> (pc: u16)
        ensures
            self@.wf(),
            pc == self@.pc,
    {
        proof {
            use_type_invariant(self);
        }
        self.pc
    }

    /// The index register.
    pub fn index(&self) -> (index: u16)
        ensures
            self@.wf(),
            index == self@.index,
    {
        proof {
            use_type_invariant(self);
        }
        self.index
    }

    /// The number of calls that have not returned.
    pub fn stack_depth(&self) -> (depth: usize)
        ensures
            self@.wf(),
            depth == self@.stack.len(),
    {
        proof {
            use_type_invariant(self);
        }
        self.sp
    }

    /// Reads the instruction word at the program counter, high byte first,
    /// and moves the counter past it. Fails, changing nothing, where the word
    /// does not lie in memory.
    fn fetch_opcode(&mut self) -> (result: Result<u16, EmulatorError>)
        ensures
            !can_fetch(old(self)@) ==> result == Err::<u16, EmulatorError>(
                EmulatorError::ProgramCounterOutOfBounds,
            ) && final(self)@ == old(self)@,
            can_fetch(old(self)@) ==> result == Ok::<u16, EmulatorError>(fetch_spec(old(self)@))
                && final(self)@ == fetched(old(self)@),
    {
        proof {
            use_type_invariant(&*self);
        }
        let pc: usize = self.pc as usize;
        if pc + 1 >= MEMORY_SIZE {
            return Err(EmulatorError::ProgramCounterOutOfBounds);
        }
        let high: u8 = self.memory[pc];
        let low: u8 = self.memory[pc + 1];
        let opcode: u16 = (high as u16) << 8 | (low as u16);
        assert((high as u16) << 8 | (low as u16) == high * 0x100 + low) by (bit_vector);
        self.pc += 2;
        Ok(opcode)
    }

    /// Decodes and executes one instruction word. A class C instruction
    /// draws its byte from the random number generator.
    fn execute_opcode(&mut self, opcode: u16) -> (result: Result<bool, EmulatorError>)
        requires
            2 <= old(self)@.pc <= 0x1000,
        ensures
            exists|random: u8|
                final(self)@ == (#[trigger] execute_spec(old(self)@, decode(opcode), random)).state
                    && result == execute_spec(old(self)@, decode(opcode), random).result,
    {
        let instruction = Instruction::from_opcode(opcode);
        let random: u8 = if instruction.operation == 0xC {
            random_byte()
        } else {
            0
        };
        self.execute_instruction(instruction, random)
    }

    /// Executes one decoded instruction, with `random` as the byte that a
    /// class C instruction draws.
    fn execute_instruction(&mut self, instruction: Instruction, random: u8) -> (result: Result<
        bool,
        EmulatorError,
    >)
        requires
            instruction.wf(),
            2 <= old(self)@.pc <= 0x1000,
        ensures
            final(self)@ == execute_spec(old(self)@, instruction, random).state,
            result == execute_spec(old(self)@, instruction, random).result,
    {
        match instruction.operation {
            0x0 => self.operation_0(instruction),
            0x1 => self.operation_1(instruction),
            0x2 => self.operation_2(instruction),
            0x3 => self.operation_3(instruction),
            0x4 => self.operation_4(instruction),
            0x5 => self.operation_5(instruction),
            0x6 => self.operation_6(instruction),
            0x7 => self.operation_7(instruction),
            0x8 => self.operation_8(instruction),
            0x9 => self.operation_9(instruction),
            0xA => self.operation_a(instruction),
            0xB => self.operation_b(instruction),
            0xC => self.operation_c(instruction, random),
            0xD => self.operation_d(instruction),
            0xE => self.operation_e(instruction),
            0xF => self.operation_f(instruction),
            _ => Err(EmulatorError::InvalidInstruction(instruction)),
        }
    }

    /// Class 0: clears the framebuffer or returns from a call.
    fn operation_0(&mut self, instruction: Instruction) -> (result: Result<bool, EmulatorError>)
        ensures
            final(self)@ == operation_0_spec(old(self)@, instruction).state,
            result == operation_0_spec(old(self)@, instruction).result,
    {
        proof {
            use_type_invariant(&*self);
        }
        if instruction.nnn == 0x0E0 {
            self.display = [[false; 64]; 32];
            proof {
                assert(self@.display =~~= blank_display());
            }
        } else if instruction.nnn == 0x0EE {
            if self.sp == 0 {
                return Err(EmulatorError::PoppedEmptyStack);
            }
            self.sp -= 1;
            self.pc = self.stack[self.sp];
            proof {
                assert(self@.stack =~= old(self)@.stack.drop_last());
            }
        } else {
            return Err(EmulatorError::InvalidInstruction(instruction));
        }
        Ok(false)
    }

    /// Class 1: jumps to the address immediate.
    fn operation_1(&mut self, instruction: Instruction) -> (result: Result<bool, EmulatorError>)
        ensures
            final(self)@ == operation_1_spec(old(self)@, instruction).state,
            result == operation_1_spec(old(self)@, instruction).result,
    {
        proof {
            use_type_invariant(&*self);
        }
        self.pc = instruction.nnn;
        Ok(false)
    }

    /// Class 2: calls the subroutine at the address immediate.
    fn operation_2(&mut self, instruction: Instruction) -> (result: Result<bool, EmulatorError>)
        ensures
            final(self)@ == operation_2_spec(old(self)@, instruction).state,
            result == operation_2_spec(old(self)@, instruction).result,
    {
        proof {
            use_type_invariant(&*self);
        }
        if self.sp >= STACK_CAPACITY {
            return Err(EmulatorError::StackOverflow);
        }
        self.stack[self.sp] = self.pc;
        self.sp += 1;
        self.pc = instruction.nnn;
        proof {
            assert(self@.stack =~= old(self)@.stack.push(old(self)@.pc));
        }
        Ok(false)
    }

    /// Class 3: skips when register X equals the byte immediate.
    fn operation_3(&mut self, instruction: Instruction) -> (result: Result<bool, EmulatorError>)
        requires
            instruction.wf(),
            old(self)@.pc <= 0x1000,
        ensures
            final(self)@ == operation_3_spec(old(self)@, instruction).state,
            result == operation_3_spec(old(self)@, instruction).result,
    {
        if self.register(instruction.x as usize) == instruction.nn {
            self.skip();
        }
        Ok(false)
    }

    /// Class 4: skips when register X differs from the byte immediate.
    fn operation_4(&mut self, instruction: Instruction) -> (result: Result<bool, EmulatorError>)
        requires
            instruction.wf(),
            old(self)@.pc <= 0x1000,
        ensures
            final(self)@ == operation_4_spec(old(self)@, instruction).state,
            result == operation_4_spec(old(self)@, instruction).result,
    {
        if self.register(instruction.x as usize) != instruction.nn {
            self.skip();
        }
        Ok(false)
    }

    /// Class 5: skips when registers X and Y are equal.
    fn operation_5(&mut self, instruction: Instruction) -> (result: Result<bool, EmulatorError>)
        requires
            instruction.wf(),
            old(self)@.pc <= 0x1000,
        ensures
            final(self)@ == operation_5_spec(old(self)@, instruction).state,
            result == operation_5_spec(old(self)@, instruction).result,
    {
        if self.register(instruction.x as usize) == self.register(instruction.y as usize) {
            self.skip();
        }
        Ok(false)
    }

    /// Class 6: loads the byte immediate into register X.
    fn operation_6(&mut self, instruction: Instruction) -> (result: Result<bool, EmulatorError>)
        requires
            instruction.wf(),
        ensures
            final(self)@ == operation_6_spec(old(self)@, instruction).state,
            result == operation_6_spec(old(self)@, instruction).result,
    {
        self.set_register(instruction.x as usize, instruction.nn);
        Ok(false)
    }

    /// Class 7: adds the byte immediate to register X, wrapping, with no flag.
    fn operation_7(&mut self, instruction: Instruction) -> (result: Result<bool, EmulatorError>)
        requires
            instruction.wf(),
        ensures
            final(self)@ == operation_7_spec(old(self)@, instruction).state,
            result == operation_7_spec(old(self)@, instruction).result,
    {
        let x: usize = instruction.x as usize;
        let vx: u8 = self.register(x);
        proof {
            lemma_wrapping(vx, instruction.nn);
        }
        self.set_register(x, vx.wrapping_add(instruction.nn));
        Ok(false)
    }

    /// Class 8: moves, logic, arithmetic and shifts between registers X and Y.
    fn operation_8(&mut self, instruction: Instruction) -> (result: Result<bool, EmulatorError>)
        requires
            instruction.wf(),
        ensures
            final(self)@ == operation_8_spec(old(self)@, instruction).state,
            result == operation_8_spec(old(self)@, instruction).result,
    {
        let x: usize = instruction.x as usize;
        let y: usize = instruction.y as usize;
        let vx: u8 = self.register(x);
        let vy: u8 = self.register(y);
        let ghost expected = operation_8_spec(old(self)@, instruction).state;
        if instruction.n == 0x0 {
            self.set_register(x, vy);
            assert(self@ == expected);
        } else if instruction.n == 0x1 {
            self.set_register(x, vx | vy);
            assert(self@ == expected);
        } else if instruction.n == 0x2 {
            self.set_register(x, vx & vy);
            assert(self@ == expected);
        } else if instruction.n == 0x3 {
            self.set_register(x, vx ^ vy);
            assert(self@ == expected);
        } else if instruction.n == 0x4 {
            proof {
                lemma_wrapping(vx, vy);
            }
            self.set_result_and_flag(x, vx.wrapping_add(vy), vx as u16 + vy as u16 > 255);
            assert(self@ == expected);
        } else if instruction.n == 0x5 {
            proof {
                lemma_wrapping(vx, vy);
            }
            self.set_result_and_flag(x, vx.wrapping_sub(vy), vx >= vy);
            assert(self@ == expected);
        } else if instruction.n == 0x6 {
            self.shift(x, y, false);
            assert(self@ == expected);
        } else if instruction.n == 0x7 {
            proof {
                lemma_wrapping(vy, vx);
            }
            self.set_result_and_flag(x, vy.wrapping_sub(vx), vy >= vx);
            assert(self@ == expected);
        } else if instruction.n == 0xE {
            self.shift(x, y, true);
            assert(self@ == expected);
        } else {
            return Err(EmulatorError::InvalidInstruction(instruction));
        }
        Ok(false)
    }

    /// Class 9: skips when registers X and Y differ.
    fn operation_9(&mut self, instruction: Instruction) -> (result: Result<bool, EmulatorError>)
        requires
            instruction.wf(),
            old(self)@.pc <= 0x1000,
        ensures
            final(self)@ == operation_9_spec(old(self)@, instruction).state,
            result == operation_9_spec(old(self)@, instruction).result,
    {
        if self.register(instruction.x as usize) != self.register(instruction.y as usize) {
            self.skip();
        }
        Ok(false)
    }

    /// Class A: loads the address immediate into the index register.
    fn operation_a(&mut self, instruction: Instruction) -> (result: Result<bool, EmulatorError>)
        ensures
            final(self)@ == operation_a_spec(old(self)@, instruction).state,
            result == operation_a_spec(old(self)@, instruction).result,
    {
        proof {
            use_type_invariant(&*self);
        }
        self.index = instruction.nnn;
        Ok(false)
    }

    /// Class B: jumps to the address immediate plus an offset register.
    fn operation_b(&mut self, instruction: Instruction) -> (result: Result<bool, EmulatorError>)
        requires
            instruction.wf(),
        ensures
            final(self)@ == operation_b_spec(old(self)@, instruction).state,
            result == operation_b_spec(old(self)@, instruction).result,
    {
        proof {
            use_type_invariant(&*self);
        }
        if self.jump_with_offset_bug_emulation {
            self.pc = instruction.nnn + self.registers[instruction.x as usize] as u16;
        } else {
            self.pc = instruction.nnn + self.registers[0] as u16;
        }
        Ok(false)
    }

    /// Class C: loads the given random byte, masked by the byte immediate,
    /// into register X.
    fn operation_c(&mut self, instruction: Instruction, random: u8) -> (result: Result<
        bool,
        EmulatorError,
    >)
        requires
            instruction.wf(),
        ensures
            final(self)@ == operation_c_spec(old(self)@, instruction, random).state,
            result == operation_c_spec(old(self)@, instruction, random).result,
    {
        self.set_register(instruction.x as usize, random & instruction.nn);
        Ok(false)
    }

    /// Class D: draws the sprite at the index register and flags a collision
    /// in register 15.
    fn operation_d(&mut self, instruction: Instruction) -> (result: Result<bool, EmulatorError>)
        requires
            instruction.wf(),
        ensures
            final(self)@ == operation_d_spec(old(self)@, instruction).state,
            result == operation_d_spec(old(self)@, instruction).result,
    {
        proof {
            use_type_invariant(&*self);
        }
        let x0: usize = self.register(instruction.x as usize) as usize % DISPLAY_WIDTH;
        let y0: usize = self.register(instruction.y as usize) as usize % DISPLAY_HEIGHT;
        let n: usize = instruction.n as usize;
        let rows: usize = if n <= DISPLAY_HEIGHT - y0 { n } else { DISPLAY_HEIGHT - y0 };
        let base: usize = self.index as usize;
        if rows > 0 && base + rows > MEMORY_SIZE {
            return Err(EmulatorError::InvalidInstruction(instruction));
        }
        let ghost sprite: Seq<u8> = sprite_at_index(old(self)@, rows as int);
        let mut collision: bool = false;
        let mut r: usize = 0;
        while r < rows
            invariant
                r <= rows,
                x0 < 64,
                y0 + rows <= 32,
                rows > 0 ==> base + rows <= 0x1000,
                sprite.len() == rows,
                forall|k: int| 0 <= k < rows ==> sprite[k] == old(self).memory@[base + k],
                old(self).sp <= 128,
                *self == (Emulator { display: self.display, ..*old(self) }),
                forall|y: int|
                    0 <= y < 32 ==> (#[trigger] self.display@[y])@ == if y0 <= y < y0 + r {
                        drawn_row(old(self).display@[y]@, sprite[y - y0], x0 as int)
                    } else {
                        old(self).display@[y]@
                    },
                collision <==> exists|x: int, y: int|
                    0 <= x < 64 && 0 <= y < y0 + r && #[trigger] sprite_covers(
                        sprite,
                        x0 as int,
                        y0 as int,
                        x,
                        y,
                    ) && old(self).display@[y]@[x],
            decreases rows - r,
        {
            let y: usize = y0 + r;
            let bits: u8 = self.memory[base + r];
            let mut row: [bool; 64] = self.display[y];
            let hit: bool = draw_row(&mut row, bits, x0);
            self.display[y] = row;
            proof {
                let before = old(self).display@[y as int]@;
                if hit {
                    let x = choose|x: int|
                        0 <= x < 64 && #[trigger] row_covers(bits, x0 as int, x) && before[x];
                    assert(sprite_covers(sprite, x0 as int, y0 as int, x, y as int));
                }
                if !hit && !collision {
                    assert forall|x: int, yy: int|
                        0 <= x < 64 && 0 <= yy < y0 + r + 1 && #[trigger] sprite_covers(
                            sprite,
                            x0 as int,
                            y0 as int,
                            x,
                            yy,
                        ) implies !old(self).display@[yy]@[x] by {
                        if yy == y {
                            assert(row_covers(bits, x0 as int, x));
                        }
                    }
                }
            }
            collision = collision || hit;
            r += 1;
        }
        proof {
            let expected = drawn(old(self)@.display, sprite, x0 as int, y0 as int);
            assert forall|y: int| 0 <= y < 32 implies #[trigger] self@.display[y] =~= expected[y] by {
                assert(self@.display[y] == self.display@[y]@);
            }
            assert(self@.display =~= expected);
            assert(collision == collides(old(self)@.display, sprite, x0 as int, y0 as int));
        }
        self.set_register(FLAG_REGISTER, if collision { 1 } else { 0 });
        Ok(true)
    }

    /// Class E: skips on the state of the key that register X names.
    fn operation_e(&mut self, instruction: Instruction) -> (result: Result<bool, EmulatorError>)
        requires
            instruction.wf(),
            old(self)@.pc <= 0x1000,
        ensures
            final(self)@ == operation_e_spec(old(self)@, instruction).state,
            result == operation_e_spec(old(self)@, instruction).result,
    {
        let key: usize = self.register(instruction.x as usize) as usize;
        if instruction.nn == 0x9E {
            if key >= KEY_COUNT {
                return Err(EmulatorError::InvalidInstruction(instruction));
            }
            if self.keypad[key] {
                self.skip();
            }
        } else if instruction.nn == 0xA1 {
            if key >= KEY_COUNT {
                return Err(EmulatorError::InvalidInstruction(instruction));
            }
            if !self.keypad[key] {
                self.skip();
            }
        } else {
            return Err(EmulatorError::InvalidInstruction(instruction));
        }
        Ok(false)
    }

    /// Class F: timers, index arithmetic, the key wait, glyph addresses,
    /// decimal digits, and block store and load.
    fn operation_f(&mut self, instruction: Instruction) -> (result: Result<bool, EmulatorError>)
        requires
            instruction.wf(),
            2 <= old(self)@.pc,
        ensures
            final(self)@ == operation_f_spec(old(self)@, instruction).state,
            result == operation_f_spec(old(self)@, instruction).result,
    {
        proof {
            use_type_invariant(&*self);
        }
        let x: usize = instruction.x as usize;
        let vx: u8 = self.register(x);
        if instruction.nn == 0x07 {
            let delay: u8 = self.delay_timer;
            self.set_register(x, delay);
        } else if instruction.nn == 0x15 {
            self.delay_timer = vx;
        } else if instruction.nn == 0x18 {
            self.sound_timer = vx;
        } else if instruction.nn == 0x1E {
            self.add_to_index(vx);
        } else if instruction.nn == 0x0A {
            match self.first_pressed_key() {
                Some(key) => {
                    proof {
                        lemma_first_pressed(self@.keypad, key as int);
                    }
                    self.set_register(x, key);
                },
                None => {
                    self.pc -= 2;
                },
            }
        } else if instruction.nn == 0x29 {
            assert(vx as u16 & 0xF == vx % 16) by (bit_vector);
            self.index = (vx as u16 & 0xF) * GLYPH_SIZE + FONT_BASE_ADDRESS;
        } else if instruction.nn == 0x33 {
            if self.index as usize + 2 >= MEMORY_SIZE {
                return Err(EmulatorError::InvalidInstruction(instruction));
            }
            self.store_digits(vx);
        } else if instruction.nn == 0x55 {
            if self.index as usize + x >= MEMORY_SIZE {
                return Err(EmulatorError::InvalidInstruction(instruction));
            }
            self.store_registers(x);
            self.advance_index_after_block(x);
        } else if instruction.nn == 0x65 {
            if self.index as usize + x >= MEMORY_SIZE {
                return Err(EmulatorError::InvalidInstruction(instruction));
            }
            self.load_registers(x);
            self.advance_index_after_block(x);
        } else {
            return Err(EmulatorError::InvalidInstruction(instruction));
        }
        Ok(false)
    }

    /// Moves the program counter past the next instruction.
    fn skip(&mut self)
        requires
            old(self)@.pc <= 0x1000,
        ensures
            final(self)@ == (MachineState { pc: old(self)@.pc + 2, ..old(self)@ }),
    {
        proof {
            use_type_invariant(&*self);
        }
        self.pc += 2;
    }

    /// Replaces one register.
    fn set_register(&mut self, register: usize, value: u8)
        requires
            register < 16,
        ensures
            final(self)@ == with_register(old(self)@, register as int, value),
    {
        proof {
            use_type_invariant(&*self);
        }
        self.registers[register] = value;
    }

    /// Stores the result of an arithmetic instruction in register X, then
    /// its flag in register 15.
    fn set_result_and_flag(&mut self, x: usize, value: u8, flag: bool)
        requires
            x < 16,
        ensures
            final(self)@ == with_result_and_flag(old(self)@, x as int, value, flag),
    {
        self.set_register(x, value);
        self.set_register(FLAG_REGISTER, if flag { 1 } else { 0 });
    }

    /// Shifts register X one bit to the right, or to the left, after copying
    /// register Y into it where the quirk asks for that; register 15 takes
    /// the bit that leaves.
    fn shift(&mut self, x: usize, y: usize, left: bool)
        requires
            x < 16,
            y < 16,
        ensures
            final(self)@ == shifted(old(self)@, x as int, y as int, left),
    {
        if self.shift_sets_vx {
            let source: u8 = self.register(y);
            self.set_register(x, source);
        }
        let before: u8 = self.register(x);
        if left {
            assert((before >> 7) & 0x1 == before / 128) by (bit_vector);
            self.set_register(FLAG_REGISTER, (before >> 7) & 0x1);
        } else {
            assert(before & 0x1 == before % 2) by (bit_vector);
            self.set_register(FLAG_REGISTER, before & 0x1);
        }
        let flagged: u8 = self.register(x);
        if left {
            assert(flagged << 1 == (flagged * 2) % 256) by (bit_vector);
            self.set_register(x, flagged << 1);
        } else {
            assert(flagged >> 1 == flagged / 2) by (bit_vector);
            self.set_register(x, flagged >> 1);
        }
    }

    /// Class F, index arithmetic: adds a value to the index register, keeps
    /// twelve bits of the sum and flags in register 15 whether more were needed.
    fn add_to_index(&mut self, value: u8)
        ensures
            old(self)@.index + value > 0xFFF ==> final(self)@ == (MachineState {
                index: (old(self)@.index + value) % 0x1000,
                registers: old(self)@.registers.update(15, 1u8),
                ..old(self)@
            }),
            old(self)@.index + value <= 0xFFF ==> final(self)@ == (MachineState {
                index: old(self)@.index + value,
                registers: old(self)@.registers.update(15, 0u8),
                ..old(self)@
            }),
    {
        proof {
            use_type_invariant(&*self);
        }
        let sum: u32 = self.index as u32 + value as u32;
        if sum > 0xFFF {
            assert(sum & 0xFFF == sum % 0x1000) by (bit_vector);
            self.index = (sum & 0xFFF) as u16;
            self.registers[FLAG_REGISTER] = 1;
        } else {
            self.index = sum as u16;
            self.registers[FLAG_REGISTER] = 0;
        }
    }

    /// The lowest pressed key, if any key is pressed.
    fn first_pressed_key(&self) -> (key: Option<u8>)
        ensures
            key matches Some(k) ==> is_first_pressed(self@.keypad, k as int),
            key is None ==> !any_pressed(self@.keypad),
    {
        let mut k: u8 = 0;
        while k < 16
            invariant
                k <= 16,
                forall|lower: int| 0 <= lower < k ==> !self.keypad@[lower],
            decreases 16 - k,
        {
            if self.keypad[k as usize] {
                return Some(k);
            }
            k += 1;
        }
        None
    }

    /// Class F, decimal digits: writes the hundreds, tens and units of a
    /// value to the three bytes at the index register.
    fn store_digits(&mut self, value: u8)
        requires
            old(self)@.index + 2 < 0x1000,
        ensures
            final(self)@ == (MachineState {
                memory: old(self)@.memory.update(old(self)@.index, value / 100).update(
                    old(self)@.index + 1,
                    (value / 10) % 10,
                ).update(old(self)@.index + 2, value % 10),
                ..old(self)@
            }),
    {
        proof {
            use_type_invariant(&*self);
        }
        assert((value % 100) / 10 == (value / 10) % 10 && (value % 100) % 10 == value % 10)
            by (bit_vector);
        let base: usize = self.index as usize;
        let mut rest: u8 = value;
        self.memory[base] = rest / 100;
        rest %= 100;
        self.memory[base + 1] = rest / 10;
        rest %= 10;
        self.memory[base + 2] = rest;
    }

    /// Class F, store: copies registers 0 to `last` into memory from the
    /// index register on.
    fn store_registers(&mut self, last: usize)
        requires
            last < 16,
            old(self)@.index + last < 0x1000,
        ensures
            final(self)@ == (MachineState {
                memory: stored(
                    old(self)@.memory,
                    old(self)@.registers,
                    old(self)@.index,
                    last as int,
                ),
                ..old(self)@
            }),
    {
        proof {
            use_type_invariant(&*self);
        }
        let base: usize = self.index as usize;
        let mut i: usize = 0;
        while i <= last
            invariant
                i <= last + 1,
                last < 16,
                base + last < 0x1000,
                base == old(self).index,
                old(self).sp <= 128,
                *self == (Emulator { memory: self.memory, ..*old(self) }),
                forall|a: int|
                    0 <= a < 0x1000 ==> self.memory@[a] == if base <= a < base + i {
                        old(self).registers@[a - base]
                    } else {
                        old(self).memory@[a]
                    },
            decreases last + 1 - i,
        {
            self.memory[base + i] = self.registers[i];
            i += 1;
        }
        proof {
            assert(self@.memory =~= stored(
                old(self)@.memory,
                old(self)@.registers,
                old(self)@.index,
                last as int,
            ));
        }
    }

    /// Class F, load: copies memory from the index register on into
    /// registers 0 to `last`.
    fn load_registers(&mut self, last: usize)
        requires
            last < 16,
            old(self)@.index + last < 0x1000,
        ensures
            final(self)@ == (MachineState {
                registers: loaded(
                    old(self)@.memory,
                    old(self)@.registers,
                    old(self)@.index,
                    last as int,
                ),
                ..old(self)@
            }),
    {
        proof {
            use_type_invariant(&*self);
        }
        let base: usize = self.index as usize;
        let mut i: usize = 0;
        while i <= last
            invariant
                i <= last + 1,
                last < 16,
                base + last < 0x1000,
                base == old(self).index,
                old(self).sp <= 128,
                *self == (Emulator { registers: self.registers, ..*old(self) }),
                forall|r: int|
                    0 <= r < 16 ==> self.registers@[r] == if r < i {
                        old(self).memory@[base + r]
                    } else {
                        old(self).registers@[r]
                    },
            decreases last + 1 - i,
        {
            self.registers[i] = self.memory[base + i];
            i += 1;
        }
        proof {
            assert(self@.registers =~= loaded(
                old(self)@.memory,
                old(self)@.registers,
                old(self)@.index,
                last as int,
            ));
        }
    }

    /// Moves the index register past a block of registers 0 to `last` where
    /// the quirk asks for that.
    fn advance_index_after_block(&mut self, last: usize)
        requires
            last < 16,
            old(self)@.index + last < 0x1000,
        ensures
            final(self)@ == (MachineState {
                index: index_after_block(old(self)@, last as int),
                ..old(self)@
            }),
    {
        proof {
            use_type_invariant(&*self);
        }
        if self.increment_i_on_store_and_load {
            self.index += last as u16 + 1;
        }
    }
}

/// Wrapping addition and subtraction of bytes are addition and subtraction
/// modulo 256.
proof fn lemma_wrapping(a: u8, b: u8)
    ensures
        a.wrapping_add(b) == ((a + b) % 256) as u8,
        a.wrapping_sub(b) == ((a - b) % 256) as u8,
{
}

/// Draws one sprite row into one framebuffer row, flipping every pixel under
/// a lit bit and dropping the bits that fall off the right edge. Returns
/// whether a lit pixel was turned off.
fn draw_row(row: &mut [bool; 64], bits: u8, x0: usize) -> (collision: bool)
    requires
        x0 < 64,
    ensures
        final(row)@ == drawn_row(old(row)@, bits, x0 as int),
        collision == row_collides(old(row)@, bits, x0 as int),
{
    let mut collision: bool = false;
    let mut column: u8 = 0;
    while column < 8 && x0 + (column as usize) < 64
        invariant
            column <= 8,
            x0 < 64,
            forall|x: int|
                0 <= x < 64 ==> #[trigger] row@[x] == (old(row)@[x] != (x < x0 + column && row_covers(
                    bits,
                    x0 as int,
                    x,
                ))),
            collision <==> exists|x: int|
                0 <= x < 64 && x < x0 + column && #[trigger] row_covers(bits, x0 as int, x) && old(
                    row,
                )@[x],
        decreases 8 - column,
    {
        let x: usize = x0 + column as usize;
        let sprite_pixel: bool = (bits >> (7 - column)) & 1 == 1;
        let display_pixel: bool = row[x];
        assert(sprite_pixel == row_covers(bits, x0 as int, x as int));
        if sprite_pixel && display_pixel {
            collision = true;
        }
        row[x] = display_pixel != sprite_pixel;
        column += 1;
    }
    proof {
        assert(row@ =~= drawn_row(old(row)@, bits, x0 as int));
    }
    collision
}

/// Draws one byte from `rand::random`, which takes it from the `rand`
/// crate's thread-local generator. Nothing is claimed of the byte: any value
/// may come, and two calls may differ. The call takes no input; it panics
/// only where the operating system gives the generator no seed.
#[verifier::external_body]
fn random_byte() -> (byte: u8) {
    rand::random::<u8>()
}

} // verus!
