//! What one step of the machine does, stated on the mathematical model.
//!
//! `step_spec` is the whole instruction set as a function from a state and a
//! random byte to the next state and the step's result. The executable
//! machine is proved to compute exactly this function.

use vstd::prelude::*;
use crate::error::EmulatorError;
use crate::instruction::{decode, Instruction};
use crate::state::{
    blank_display, MachineState, DISPLAY_HEIGHT, DISPLAY_WIDTH, FLAG_REGISTER, FONT_BASE_ADDRESS,
    GLYPH_SIZE, KEY_COUNT, STACK_CAPACITY,
};

verus! {

/// What a step leaves behind: the next state and what the step returns.
#[verifier::ext_equal]
pub struct Outcome {
    /// The state after the step.
    pub state: MachineState,
    /// `Ok(true)` when the framebuffer was drawn to, `Ok(false)` when not,
    /// or the error that stopped the instruction.
    pub result: Result<bool, EmulatorError>,
}

/// An instruction that completed without touching the framebuffer.
pub open spec fn done(state: MachineState) -> Outcome {
    Outcome { state, result: Ok(false) }
}

/// An instruction that failed: the state is the one it started from.
pub open spec fn failed(state: MachineState, error: EmulatorError) -> Outcome {
    Outcome { state, result: Err(error) }
}

/// The state with one register replaced.
pub open spec fn with_register(s: MachineState, register: int, value: u8) -> MachineState {
    MachineState { registers: s.registers.update(register, value), ..s }
}

/// The state with the program counter moved past the next instruction when
/// the condition holds.
pub open spec fn skip_if(s: MachineState, condition: bool) -> MachineState {
    MachineState { pc: if condition { s.pc + 2 } else { s.pc }, ..s }
}

/// Whether an instruction word can be fetched: both of its bytes lie in memory.
pub open spec fn can_fetch(s: MachineState) -> bool {
    0 <= s.pc && s.pc + 1 < s.memory.len()
}

/// The instruction word at the program counter, high byte first.
pub open spec fn fetch_spec(s: MachineState) -> u16 {
    (s.memory[s.pc] * 0x100 + s.memory[s.pc + 1]) as u16
}

/// Class 0: clear the framebuffer, or return from a call.
pub open spec fn operation_0_spec(s: MachineState, i: Instruction) -> Outcome {
    if i.nnn == 0x0E0 {
        done(MachineState { display: blank_display(), ..s })
    } else if i.nnn == 0x0EE {
        if s.stack.len() == 0 {
            failed(s, EmulatorError::PoppedEmptyStack)
        } else {
            done(MachineState { pc: s.stack.last(), stack: s.stack.drop_last(), ..s })
        }
    } else {
        failed(s, EmulatorError::InvalidInstruction(i))
    }
}

/// Class 1: jump to the address immediate.
pub open spec fn operation_1_spec(s: MachineState, i: Instruction) -> Outcome {
    done(MachineState { pc: i.nnn as int, ..s })
}

/// Class 2: push the program counter and jump, unless the stack is full.
pub open spec fn operation_2_spec(s: MachineState, i: Instruction) -> Outcome {
    if s.stack.len() >= STACK_CAPACITY {
        failed(s, EmulatorError::StackOverflow)
    } else {
        done(MachineState { pc: i.nnn as int, stack: s.stack.push(s.pc), ..s })
    }
}

/// Class 3: skip when register X equals the byte immediate.
pub open spec fn operation_3_spec(s: MachineState, i: Instruction) -> Outcome {
    done(skip_if(s, s.registers[i.x as int] == i.nn))
}

/// Class 4: skip when register X differs from the byte immediate.
pub open spec fn operation_4_spec(s: MachineState, i: Instruction) -> Outcome {
    done(skip_if(s, s.registers[i.x as int] != i.nn))
}

/// Class 5: skip when registers X and Y are equal.
pub open spec fn operation_5_spec(s: MachineState, i: Instruction) -> Outcome {
    done(skip_if(s, s.registers[i.x as int] == s.registers[i.y as int]))
}

/// Class 6: load the byte immediate into register X.
pub open spec fn operation_6_spec(s: MachineState, i: Instruction) -> Outcome {
    done(with_register(s, i.x as int, i.nn))
}

/// Class 7: add the byte immediate to register X modulo 256; no flag.
pub open spec fn operation_7_spec(s: MachineState, i: Instruction) -> Outcome {
    done(with_register(s, i.x as int, ((s.registers[i.x as int] + i.nn) % 256) as u8))
}

/// The registers after an arithmetic instruction: first the result goes to
/// register X, then the flag to register 15.
pub open spec fn with_result_and_flag(
    s: MachineState,
    x: int,
    value: u8,
    flag: bool,
) -> MachineState {
    with_register(with_register(s, x, value), FLAG_REGISTER as int, if flag { 1u8 } else { 0u8 })
}

/// The registers after a shift: register X takes register Y first where the
/// quirk asks for it, then register 15 takes the bit that is about to leave
/// register X, then register X is shifted.
pub open spec fn shifted(s: MachineState, x: int, y: int, left: bool) -> MachineState {
    let sourced = if s.shift_sets_vx { with_register(s, x, s.registers[y]) } else { s };
    let leaving = if left { sourced.registers[x] / 128 } else { sourced.registers[x] % 2 };
    let flagged = with_register(sourced, FLAG_REGISTER as int, leaving);
    let moved = if left {
        ((flagged.registers[x] * 2) % 256) as u8
    } else {
        flagged.registers[x] / 2
    };
    with_register(flagged, x, moved)
}

/// Class 8: register-to-register moves, logic, arithmetic and shifts.
pub open spec fn operation_8_spec(s: MachineState, i: Instruction) -> Outcome {
    let x = i.x as int;
    let y = i.y as int;
    let vx = s.registers[x];
    let vy = s.registers[y];
    if i.n == 0x0 {
        done(with_register(s, x, vy))
    } else if i.n == 0x1 {
        done(with_register(s, x, vx | vy))
    } else if i.n == 0x2 {
        done(with_register(s, x, vx & vy))
    } else if i.n == 0x3 {
        done(with_register(s, x, vx ^ vy))
    } else if i.n == 0x4 {
        done(with_result_and_flag(s, x, ((vx + vy) % 256) as u8, vx + vy > 255))
    } else if i.n == 0x5 {
        done(with_result_and_flag(s, x, ((vx - vy) % 256) as u8, vx >= vy))
    } else if i.n == 0x6 {
        done(shifted(s, x, y, false))
    } else if i.n == 0x7 {
        done(with_result_and_flag(s, x, ((vy - vx) % 256) as u8, vy >= vx))
    } else if i.n == 0xE {
        done(shifted(s, x, y, true))
    } else {
        failed(s, EmulatorError::InvalidInstruction(i))
    }
}

/// Class 9: skip when registers X and Y differ.
pub open spec fn operation_9_spec(s: MachineState, i: Instruction) -> Outcome {
    done(skip_if(s, s.registers[i.x as int] != s.registers[i.y as int]))
}

/// Class A: load the address immediate into the index register.
pub open spec fn operation_a_spec(s: MachineState, i: Instruction) -> Outcome {
    done(MachineState { index: i.nnn as int, ..s })
}

/// Class B: jump to the address immediate plus an offset register, which is
/// register X under the quirk and register 0 without it.
pub open spec fn operation_b_spec(s: MachineState, i: Instruction) -> Outcome {
    let offset = if s.jump_with_offset_bug_emulation {
        s.registers[i.x as int]
    } else {
        s.registers[0]
    };
    done(MachineState { pc: i.nnn + offset, ..s })
}

/// Class C: load the random byte, masked by the byte immediate, into register X.
pub open spec fn operation_c_spec(s: MachineState, i: Instruction, random: u8) -> Outcome {
    done(with_register(s, i.x as int, random & i.nn))
}

/// Bit `column` of a sprite row, counted from the left: column 0 is the top bit.
pub open spec fn sprite_bit(row: u8, column: u8) -> bool {
    (row >> ((7 - column) as u8)) & 1 == 1
}

/// Whether a sprite row whose leftmost bit is at column `x0` has a lit bit
/// at column `x`.
pub open spec fn row_covers(bits: u8, x0: int, x: int) -> bool {
    x0 <= x < x0 + 8 && sprite_bit(bits, (x - x0) as u8)
}

/// Whether the sprite, put with its top left corner at `(x0, y0)`, has a lit
/// bit over the pixel `(x, y)`.
pub open spec fn sprite_covers(sprite: Seq<u8>, x0: int, y0: int, x: int, y: int) -> bool {
    y0 <= y < y0 + sprite.len() && row_covers(sprite[y - y0], x0, x)
}

/// One framebuffer row after a sprite row is drawn into it.
pub open spec fn drawn_row(row: Seq<bool>, bits: u8, x0: int) -> Seq<bool> {
    Seq::new(row.len(), |x: int| row[x] != row_covers(bits, x0, x))
}

/// Whether drawing a sprite row turns a lit pixel of the framebuffer row off.
pub open spec fn row_collides(row: Seq<bool>, bits: u8, x0: int) -> bool {
    exists|x: int| 0 <= x < row.len() && #[trigger] row_covers(bits, x0, x) && row[x]
}

/// The framebuffer after a sprite is drawn: every pixel under a lit sprite
/// bit is flipped. What falls off the right or the bottom edge is dropped.
pub open spec fn drawn(display: Seq<Seq<bool>>, sprite: Seq<u8>, x0: int, y0: int) -> Seq<
    Seq<bool>,
> {
    Seq::new(
        DISPLAY_HEIGHT as nat,
        |y: int|
            Seq::new(
                DISPLAY_WIDTH as nat,
                |x: int| display[y][x] != sprite_covers(sprite, x0, y0, x, y),
            ),
    )
}

/// Whether drawing the sprite turns a lit pixel off.
pub open spec fn collides(display: Seq<Seq<bool>>, sprite: Seq<u8>, x0: int, y0: int) -> bool {
    exists|x: int, y: int|
        0 <= x < DISPLAY_WIDTH && 0 <= y < DISPLAY_HEIGHT && #[trigger] sprite_covers(
            sprite,
            x0,
            y0,
            x,
            y,
        ) && display[y][x]
}

/// How many rows of an `n`-row sprite lie on the screen when its top row is `y0`.
pub open spec fn visible_rows(n: int, y0: int) -> int {
    if n <= DISPLAY_HEIGHT - y0 {
        n
    } else {
        DISPLAY_HEIGHT - y0
    }
}

/// The sprite that a draw reads: the given number of bytes of memory from
/// the index register on.
pub open spec fn sprite_at_index(s: MachineState, rows: int) -> Seq<u8> {
    if rows > 0 {
        s.memory.subrange(s.index, s.index + rows)
    } else {
        Seq::empty()
    }
}

/// Class D: draw the `N`-row sprite at the index register with its corner at
/// `(register X mod 64, register Y mod 32)` and put the collision flag in
/// register 15. A sprite whose visible rows reach past the end of memory
/// cannot be read, and the instruction is rejected.
pub open spec fn operation_d_spec(s: MachineState, i: Instruction) -> Outcome {
    let x0 = s.registers[i.x as int] as int % DISPLAY_WIDTH as int;
    let y0 = s.registers[i.y as int] as int % DISPLAY_HEIGHT as int;
    let rows = visible_rows(i.n as int, y0);
    if rows > 0 && s.index + rows > s.memory.len() {
        failed(s, EmulatorError::InvalidInstruction(i))
    } else {
        let sprite = sprite_at_index(s, rows);
        let flag = if collides(s.display, sprite, x0, y0) {
            1u8
        } else {
            0u8
        };
        Outcome {
            state: MachineState {
                display: drawn(s.display, sprite, x0, y0),
                registers: s.registers.update(FLAG_REGISTER as int, flag),
                ..s
            },
            result: Ok(true),
        }
    }
}

/// Class E: skip on the state of the key that register X names. A register
/// that names no key is rejected.
pub open spec fn operation_e_spec(s: MachineState, i: Instruction) -> Outcome {
    let key = s.registers[i.x as int];
    if i.nn != 0x9E && i.nn != 0xA1 {
        failed(s, EmulatorError::InvalidInstruction(i))
    } else if key >= KEY_COUNT {
        failed(s, EmulatorError::InvalidInstruction(i))
    } else if i.nn == 0x9E {
        done(skip_if(s, s.keypad[key as int]))
    } else {
        done(skip_if(s, !s.keypad[key as int]))
    }
}

/// Whether `key` is pressed and no key below it is.
pub open spec fn is_first_pressed(keypad: Seq<bool>, key: int) -> bool {
    &&& 0 <= key < keypad.len()
    &&& keypad[key]
    &&& forall|lower: int| 0 <= lower < key ==> !keypad[lower]
}

/// Whether any key is pressed.
pub open spec fn any_pressed(keypad: Seq<bool>) -> bool {
    exists|key: int| 0 <= key < keypad.len() && keypad[key]
}

/// The lowest pressed key, where one is pressed.
pub open spec fn first_pressed(keypad: Seq<bool>) -> int {
    choose|key: int| is_first_pressed(keypad, key)
}

/// A key that is pressed with none pressed below it is the first pressed key.
pub proof fn lemma_first_pressed(keypad: Seq<bool>, key: int)
    requires
        is_first_pressed(keypad, key),
    ensures
        any_pressed(keypad),
        first_pressed(keypad) == key,
{
    let chosen = first_pressed(keypad);
    assert(is_first_pressed(keypad, chosen));
    if chosen < key {
        assert(!keypad[chosen]);
    } else if key < chosen {
        assert(!keypad[key]);
    }
}

/// The memory after registers 0 to `last` are stored from `index` on.
pub open spec fn stored(memory: Seq<u8>, registers: Seq<u8>, index: int, last: int) -> Seq<u8> {
    Seq::new(
        memory.len(),
        |a: int|
            if index <= a <= index + last {
                registers[a - index]
            } else {
                memory[a]
            },
    )
}

/// The registers after registers 0 to `last` are loaded from `index` on.
pub open spec fn loaded(memory: Seq<u8>, registers: Seq<u8>, index: int, last: int) -> Seq<u8> {
    Seq::new(
        registers.len(),
        |r: int|
            if r <= last {
                memory[index + r]
            } else {
                registers[r]
            },
    )
}

/// The index register after a block store or load of registers 0 to `last`.
pub open spec fn index_after_block(s: MachineState, last: int) -> int {
    if s.increment_i_on_store_and_load {
        s.index + last + 1
    } else {
        s.index
    }
}

/// Class F: timers, index arithmetic, the key wait, glyph addresses,
/// decimal digits, and block store and load. An instruction that would write
/// or read past the end of memory is rejected.
pub open spec fn operation_f_spec(s: MachineState, i: Instruction) -> Outcome {
    let x = i.x as int;
    let vx = s.registers[x];
    if i.nn == 0x07 {
        done(with_register(s, x, s.delay_timer))
    } else if i.nn == 0x15 {
        done(MachineState { delay_timer: vx, ..s })
    } else if i.nn == 0x18 {
        done(MachineState { sound_timer: vx, ..s })
    } else if i.nn == 0x1E {
        let sum = s.index + vx;
        if sum > 0xFFF {
            done(
                MachineState {
                    index: sum % 0x1000,
                    registers: s.registers.update(FLAG_REGISTER as int, 1u8),
                    ..s
                },
            )
        } else {
            done(
                MachineState {
                    index: sum,
                    registers: s.registers.update(FLAG_REGISTER as int, 0u8),
                    ..s
                },
            )
        }
    } else if i.nn == 0x0A {
        if any_pressed(s.keypad) {
            done(with_register(s, x, first_pressed(s.keypad) as u8))
        } else {
            done(MachineState { pc: s.pc - 2, ..s })
        }
    } else if i.nn == 0x29 {
        done(MachineState { index: (vx % 16) * GLYPH_SIZE + FONT_BASE_ADDRESS, ..s })
    } else if i.nn == 0x33 {
        if s.index + 2 >= s.memory.len() {
            failed(s, EmulatorError::InvalidInstruction(i))
        } else {
            done(
                MachineState {
                    memory: s.memory.update(s.index, vx / 100).update(
                        s.index + 1,
                        (vx / 10) % 10,
                    ).update(s.index + 2, vx % 10),
                    ..s
                },
            )
        }
    } else if i.nn == 0x55 {
        if s.index + x >= s.memory.len() {
            failed(s, EmulatorError::InvalidInstruction(i))
        } else {
            done(
                MachineState {
                    memory: stored(s.memory, s.registers, s.index, x),
                    index: index_after_block(s, x),
                    ..s
                },
            )
        }
    } else if i.nn == 0x65 {
        if s.index + x >= s.memory.len() {
            failed(s, EmulatorError::InvalidInstruction(i))
        } else {
            done(
                MachineState {
                    registers: loaded(s.memory, s.registers, s.index, x),
                    index: index_after_block(s, x),
                    ..s
                },
            )
        }
    } else {
        failed(s, EmulatorError::InvalidInstruction(i))
    }
}

/// What executing one decoded instruction does to a state whose program
/// counter already points past it.
pub open spec fn execute_spec(s: MachineState, i: Instruction, random: u8) -> Outcome {
    if i.operation == 0x0 {
        operation_0_spec(s, i)
    } else if i.operation == 0x1 {
        operation_1_spec(s, i)
    } else if i.operation == 0x2 {
        operation_2_spec(s, i)
    } else if i.operation == 0x3 {
        operation_3_spec(s, i)
    } else if i.operation == 0x4 {
        operation_4_spec(s, i)
    } else if i.operation == 0x5 {
        operation_5_spec(s, i)
    } else if i.operation == 0x6 {
        operation_6_spec(s, i)
    } else if i.operation == 0x7 {
        operation_7_spec(s, i)
    } else if i.operation == 0x8 {
        operation_8_spec(s, i)
    } else if i.operation == 0x9 {
        operation_9_spec(s, i)
    } else if i.operation == 0xA {
        operation_a_spec(s, i)
    } else if i.operation == 0xB {
        operation_b_spec(s, i)
    } else if i.operation == 0xC {
        operation_c_spec(s, i, random)
    } else if i.operation == 0xD {
        operation_d_spec(s, i)
    } else if i.operation == 0xE {
        operation_e_spec(s, i)
    } else if i.operation == 0xF {
        operation_f_spec(s, i)
    } else {
        failed(s, EmulatorError::InvalidInstruction(i))
    }
}

/// The state after one tick of the clock: each timer is one lower, unless it
/// is zero already. Nothing else changes.
pub open spec fn tick_spec(s: MachineState) -> MachineState {
    MachineState {
        delay_timer: if s.delay_timer > 0 {
            (s.delay_timer - 1) as u8
        } else {
            0u8
        },
        sound_timer: if s.sound_timer > 0 {
            (s.sound_timer - 1) as u8
        } else {
            0u8
        },
        ..s
    }
}

/// The state once the instruction word at the program counter has been read.
pub open spec fn fetched(s: MachineState) -> MachineState {
    MachineState { pc: s.pc + 2, ..s }
}

/// One step: fetch the word at the program counter, move the counter past
/// it, decode the word and execute it. Where no word can be fetched the step
/// fails and changes nothing.
pub open spec fn step_spec(s: MachineState, random: u8) -> Outcome {
    if !can_fetch(s) {
        failed(s, EmulatorError::ProgramCounterOutOfBounds)
    } else {
        execute_spec(fetched(s), decode(fetch_spec(s)), random)
    }
}

} // verus!
