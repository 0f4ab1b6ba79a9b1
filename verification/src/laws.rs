//! Laws of the instruction set, proved from its definition.

use vstd::prelude::*;
use crate::error::EmulatorError;
use crate::instruction::{decode, lemma_decode_wf, Instruction};
use crate::semantics::{
    any_pressed, can_fetch, collides, drawn, execute_spec, fetch_spec, fetched, operation_d_spec,
    sprite_at_index, sprite_covers, step_spec, visible_rows,
};
use crate::state::{MachineState, STACK_CAPACITY};

verus! {

/// The instruction word of a call to `target`.
pub open spec fn call_to(target: int) -> Instruction {
    decode((0x2000 + target) as u16)
}

/// The instruction word of a return.
pub open spec fn return_from_call() -> Instruction {
    decode(0x00EEu16)
}

/// A call: the address that the program counter holds when the call
/// executes, which is where the matching return resumes, and the address
/// that the call jumps to.
pub struct Call {
    /// The program counter when the call executes.
    pub return_address: int,
    /// The address called.
    pub target: int,
}

/// The state after a chain of nested calls, each executed with the program
/// counter at its return address.
pub open spec fn after_calls(s: MachineState, calls: Seq<Call>) -> MachineState
    decreases calls.len(),
{
    if calls.len() == 0 {
        s
    } else {
        let before = after_calls(s, calls.drop_last());
        execute_spec(
            MachineState { pc: calls.last().return_address, ..before },
            call_to(calls.last().target),
            0,
        ).state
    }
}

/// The state after a number of returns in a row.
pub open spec fn after_returns(s: MachineState, count: nat) -> MachineState
    decreases count,
{
    if count == 0 {
        s
    } else {
        execute_spec(after_returns(s, (count - 1) as nat), return_from_call(), 0).state
    }
}

/// Whether every call of the chain names a twelve-bit target.
pub open spec fn targets_fit(calls: Seq<Call>) -> bool {
    forall|k: int| 0 <= k < calls.len() ==> 0 <= (#[trigger] calls[k]).target <= 0xFFF
}

/// The return addresses of a chain of calls, oldest first.
pub open spec fn return_addresses(calls: Seq<Call>) -> Seq<int> {
    Seq::new(calls.len(), |k: int| calls[k].return_address)
}

/// The column at which a draw instruction puts the left edge of its sprite.
pub open spec fn draw_column(s: MachineState, i: Instruction) -> int {
    (s.registers[i.x as int] % 64) as int
}

/// The row at which a draw instruction puts the top edge of its sprite.
pub open spec fn draw_row(s: MachineState, i: Instruction) -> int {
    (s.registers[i.y as int] % 32) as int
}

/// The sprite that a draw instruction reads: its rows that lie on the screen.
pub open spec fn drawn_sprite(s: MachineState, i: Instruction) -> Seq<u8> {
    sprite_at_index(s, visible_rows(i.n as int, draw_row(s, i)))
}

/// Whether a draw instruction turns on a pixel that was off.
pub open spec fn lights(s: MachineState, i: Instruction) -> bool {
    exists|x: int, y: int|
        0 <= x < 64 && 0 <= y < 32 && #[trigger] sprite_covers(
            drawn_sprite(s, i),
            draw_column(s, i),
            draw_row(s, i),
            x,
            y,
        ) && !s.display[y][x]
}

/// Executing an instruction keeps the shape of the state: the sizes of
/// memory, framebuffer, registers and keys, the 16-bit range of the program
/// counter, the index register and the return addresses, and the bound on
/// the depth of the stack.
pub proof fn lemma_execute_keeps_shape(s: MachineState, i: Instruction, random: u8)
    requires
        s.wf(),
        i.wf(),
        2 <= s.pc <= 0x1000,
    ensures
        execute_spec(s, i, random).state.wf(),
{
    let after = execute_spec(s, i, random).state;
    if i.operation == 0xF && i.nn == 0x0A {
        if any_pressed(s.keypad) {
            assert(after.registers.len() == 16);
        }
    }
    assert(after.registers.len() == 16);
    assert(after.memory.len() == 0x1000);
    assert(after.display.len() == 32);
    assert forall|y: int| 0 <= y < 32 implies (#[trigger] after.display[y]).len() == 64 by {}
    assert forall|k: int| 0 <= k < after.stack.len() implies 0 <= #[trigger] after.stack[k]
        <= u16::MAX by {
        if k < s.stack.len() {
            assert(after.stack[k] == s.stack[k]);
        }
    }
}

/// A step keeps the shape of the state, whether it succeeds or fails.
pub proof fn lemma_step_keeps_shape(s: MachineState, random: u8)
    requires
        s.wf(),
    ensures
        step_spec(s, random).state.wf(),
{
    if can_fetch(s) {
        let instruction = decode(fetch_spec(s));
        let ready = fetched(s);
        lemma_decode_wf(fetch_spec(s));
        assert(ready.wf());
        lemma_execute_keeps_shape(ready, instruction, random);
        assert(step_spec(s, random) == execute_spec(ready, instruction, random));
    }
}

/// Only a class C instruction looks at the random byte: for every other
/// instruction a step is the same whatever byte is drawn.
pub proof fn lemma_random_matters_to_class_c_only(s: MachineState, first: u8, second: u8)
    requires
        can_fetch(s),
        decode(fetch_spec(s)).operation != 0xC,
    ensures
        step_spec(s, first) == step_spec(s, second),
{
}

/// An instruction reports a change of the framebuffer exactly when it is a
/// draw that succeeds.
pub proof fn lemma_change_reported_by_draw_only(s: MachineState, i: Instruction, random: u8)
    ensures
        execute_spec(s, i, random).result == Ok::<bool, EmulatorError>(true) <==> i.operation
            == 0xD && execute_spec(s, i, random).result is Ok,
{
}

/// After the clear-screen instruction every pixel of the framebuffer is off,
/// whatever the framebuffer held before.
pub proof fn lemma_clear_screen(s: MachineState, random: u8)
    requires
        can_fetch(s),
        fetch_spec(s) == 0x00E0,
    ensures
        step_spec(s, random).result == Ok::<bool, EmulatorError>(false),
        step_spec(s, random).state.display.len() == 32,
        forall|x: int, y: int|
            0 <= x < 64 && 0 <= y < 32 ==> !(#[trigger] step_spec(s, random).state.display[y][x]),
        forall|y: int|
            0 <= y < 32 ==> (#[trigger] step_spec(s, random).state.display[y]).len() == 64,
{
    assert(decode(0x00E0u16).operation == 0 && decode(0x00E0u16).nnn == 0x0E0);
}

/// Drawing a sprite twice at one position restores the framebuffer, and the
/// second draw collides exactly where the first one lit a pixel.
pub proof fn lemma_draw_twice(display: Seq<Seq<bool>>, sprite: Seq<u8>, x0: int, y0: int)
    requires
        display.len() == 32,
        forall|y: int| 0 <= y < 32 ==> (#[trigger] display[y]).len() == 64,
    ensures
        drawn(drawn(display, sprite, x0, y0), sprite, x0, y0) == display,
        collides(drawn(display, sprite, x0, y0), sprite, x0, y0) <==> exists|x: int, y: int|
            0 <= x < 64 && 0 <= y < 32 && #[trigger] sprite_covers(sprite, x0, y0, x, y)
                && !display[y][x],
{
    let once = drawn(display, sprite, x0, y0);
    let twice = drawn(once, sprite, x0, y0);
    assert forall|y: int| 0 <= y < 32 implies #[trigger] twice[y] =~= display[y] by {
        assert forall|x: int| 0 <= x < 64 implies twice[y][x] == display[y][x] by {
            assert(once[y][x] == (display[y][x] != sprite_covers(sprite, x0, y0, x, y)));
        }
    }
    assert(twice =~= display);
    if collides(once, sprite, x0, y0) {
        let (x, y) = choose|x: int, y: int|
            0 <= x < 64 && 0 <= y < 32 && #[trigger] sprite_covers(sprite, x0, y0, x, y)
                && once[y][x];
        assert(sprite_covers(sprite, x0, y0, x, y) && !display[y][x]);
    }
    if exists|x: int, y: int|
        0 <= x < 64 && 0 <= y < 32 && #[trigger] sprite_covers(sprite, x0, y0, x, y)
            && !display[y][x] {
        let (x, y) = choose|x: int, y: int|
            0 <= x < 64 && 0 <= y < 32 && #[trigger] sprite_covers(sprite, x0, y0, x, y)
                && !display[y][x];
        assert(sprite_covers(sprite, x0, y0, x, y) && once[y][x]);
    }
}

/// Executing one draw instruction twice in a row, with registers X and Y
/// other than the flag register so that the position stays, restores the
/// framebuffer; the second draw sets the flag exactly when the first one lit
/// a pixel.
pub proof fn lemma_draw_instruction_twice(s: MachineState, i: Instruction, random: u8)
    requires
        s.wf(),
        i.wf(),
        i.operation == 0xD,
        i.x != 15,
        i.y != 15,
        execute_spec(s, i, random).result is Ok,
    ensures
        execute_spec(s, i, random).result == Ok::<bool, EmulatorError>(true),
        execute_spec(execute_spec(s, i, random).state, i, random).result == Ok::<
            bool,
            EmulatorError,
        >(true),
        execute_spec(execute_spec(s, i, random).state, i, random).state.display == s.display,
        execute_spec(execute_spec(s, i, random).state, i, random).state.registers[15] == if lights(
            s,
            i,
        ) {
            1u8
        } else {
            0u8
        },
{
    let first = operation_d_spec(s, i);
    let x0 = draw_column(s, i);
    let y0 = draw_row(s, i);
    let sprite = drawn_sprite(s, i);
    assert(first.result is Ok);
    assert(first.state.registers[i.x as int] == s.registers[i.x as int]);
    assert(first.state.registers[i.y as int] == s.registers[i.y as int]);
    assert(draw_column(first.state, i) == x0);
    assert(draw_row(first.state, i) == y0);
    assert(drawn_sprite(first.state, i) == sprite);
    assert(first.state.display == drawn(s.display, sprite, x0, y0));
    lemma_draw_twice(s.display, sprite, x0, y0);
    let second = operation_d_spec(first.state, i);
    assert(second.state.display == drawn(first.state.display, sprite, x0, y0));
    assert(second.state.registers[15] == if collides(first.state.display, sprite, x0, y0) {
        1u8
    } else {
        0u8
    });
}

/// Add with carry: register 15 becomes 1 when the sum of the two registers
/// exceeds 255 and 0 when not, and register X, unless it is register 15
/// itself, becomes the sum modulo 256.
pub proof fn lemma_add_with_carry(s: MachineState, i: Instruction, random: u8)
    requires
        s.wf(),
        i.wf(),
        i.operation == 0x8,
        i.n == 0x4,
    ensures
        ({
            let after = execute_spec(s, i, random);
            let sum = s.registers[i.x as int] + s.registers[i.y as int];
            &&& after.result == Ok::<bool, EmulatorError>(false)
            &&& after.state.registers[15] == if sum > 255 { 1u8 } else { 0u8 }
            &&& i.x != 15 ==> after.state.registers[i.x as int] == sum % 256
        }),
{
}

/// Subtract with borrow, in either direction: register 15 becomes 1 when
/// the minuend is at least the subtrahend, so that nothing is borrowed, and
/// 0 when not; register X, unless it is register 15 itself, becomes the
/// difference modulo 256.
pub proof fn lemma_subtract_with_borrow(s: MachineState, i: Instruction, random: u8)
    requires
        s.wf(),
        i.wf(),
        i.operation == 0x8,
        i.n == 0x5 || i.n == 0x7,
    ensures
        ({
            let after = execute_spec(s, i, random);
            let minuend = if i.n == 0x5 {
                s.registers[i.x as int]
            } else {
                s.registers[i.y as int]
            };
            let subtrahend = if i.n == 0x5 {
                s.registers[i.y as int]
            } else {
                s.registers[i.x as int]
            };
            &&& after.result == Ok::<bool, EmulatorError>(false)
            &&& after.state.registers[15] == if minuend >= subtrahend { 1u8 } else { 0u8 }
            &&& i.x != 15 ==> after.state.registers[i.x as int] == (minuend - subtrahend) % 256
        }),
{
}

/// A return with no call outstanding fails and changes nothing.
pub proof fn lemma_return_on_empty_stack(s: MachineState, random: u8)
    requires
        s.stack.len() == 0,
    ensures
        execute_spec(s, return_from_call(), random).result == Err::<bool, EmulatorError>(
            EmulatorError::PoppedEmptyStack,
        ),
        execute_spec(s, return_from_call(), random).state == s,
{
}

/// A call with the stack at capacity fails and changes nothing.
pub proof fn lemma_call_on_full_stack(s: MachineState, target: int, random: u8)
    requires
        s.stack.len() == STACK_CAPACITY,
        0 <= target <= 0xFFF,
    ensures
        execute_spec(s, call_to(target), random).result == Err::<bool, EmulatorError>(
            EmulatorError::StackOverflow,
        ),
        execute_spec(s, call_to(target), random).state == s,
{
}

/// A chain of nested calls that fits the stack pushes its return addresses
/// in order, above what the stack held, and ends at the last target.
pub proof fn lemma_after_calls(s: MachineState, calls: Seq<Call>)
    requires
        s.stack.len() + calls.len() <= STACK_CAPACITY,
        targets_fit(calls),
    ensures
        after_calls(s, calls).stack == s.stack + return_addresses(calls),
        calls.len() > 0 ==> after_calls(s, calls).pc == calls.last().target,
    decreases calls.len(),
{
    if calls.len() == 0 {
        assert(s.stack + return_addresses(calls) =~= s.stack);
    } else {
        let earlier = calls.drop_last();
        lemma_after_calls(s, earlier);
        let before = after_calls(s, earlier);
        let target = calls.last().target;
        assert(call_to(target).operation == 0x2 && call_to(target).nnn == target);
        assert(before.stack.push(calls.last().return_address) =~= s.stack + return_addresses(
            calls,
        ));
    }
}

/// Returns in a row, no more of them than calls are outstanding, take the
/// return addresses off the stack from the top.
pub proof fn lemma_after_returns(s: MachineState, count: nat)
    requires
        count <= s.stack.len(),
    ensures
        after_returns(s, count).stack == s.stack.take(s.stack.len() - count),
        count > 0 ==> after_returns(s, count).pc == s.stack[s.stack.len() - count],
    decreases count,
{
    if count == 0 {
        assert(s.stack.take(s.stack.len() as int) =~= s.stack);
    } else {
        lemma_after_returns(s, (count - 1) as nat);
        let before = after_returns(s, (count - 1) as nat);
        assert(return_from_call().operation == 0x0 && return_from_call().nnn == 0x0EE);
        assert(before.stack.drop_last() =~= s.stack.take(s.stack.len() - count));
    }
}

/// Stack discipline: after a chain of nested calls that fits the stack, the
/// returns resume at the calls' return addresses in reverse order, and once
/// as many returns as calls have executed the stack is what it was.
pub proof fn lemma_calls_then_returns(s: MachineState, calls: Seq<Call>)
    requires
        s.stack.len() + calls.len() <= STACK_CAPACITY,
        targets_fit(calls),
    ensures
        forall|k: int|
            1 <= k <= calls.len() ==> (#[trigger] after_returns(after_calls(s, calls), k as nat)).pc
                == calls[calls.len() - k].return_address,
        after_returns(after_calls(s, calls), calls.len()).stack == s.stack,
{
    lemma_after_calls(s, calls);
    let called = after_calls(s, calls);
    assert forall|k: int| 1 <= k <= calls.len() implies (#[trigger] after_returns(
        called,
        k as nat,
    )).pc == calls[calls.len() - k].return_address by {
        lemma_after_returns(called, k as nat);
    }
    lemma_after_returns(called, calls.len());
    assert(called.stack.take(called.stack.len() - calls.len()) =~= s.stack);
}

} // verus!
