use rustychip::error::EmulatorError;
use rustychip::machine::Emulator;

/// A program of `calls` nested calls: call `i` stands at `0x200 + 4 i` and
/// calls the address of call `i + 1`; behind each call stands a return, to
/// which the matching return comes back, and at the end of the chain a
/// return starts the unwinding.
fn nested(calls: usize) -> Vec<u8> {
    let mut program = Vec::new();
    for i in 0..calls {
        let target = 0x200 + 4 * (i + 1);
        program.extend([0x20 | (target >> 8) as u8, target as u8, 0x00, 0xEE]);
    }
    program.extend([0x00, 0xEE]);
    program
}

#[test]
fn return_with_no_call_outstanding_fails() {
    let mut m = Emulator::new(&[0x00, 0xEE], false, false, false).unwrap();
    assert_eq!(m.step(), Err(EmulatorError::PoppedEmptyStack));
    assert_eq!(m.stack_depth(), 0);
    assert_eq!(m.pc(), 0x202);
}

#[test]
fn call_pushes_the_address_behind_it_and_return_comes_back() {
    // call 0x206; V1 = 1; (unused); V2 = 2; return
    let program = [0x22, 0x06, 0x61, 0x01, 0x00, 0x00, 0x62, 0x02, 0x00, 0xEE];
    let mut m = Emulator::new(&program, false, false, false).unwrap();
    assert_eq!(m.step(), Ok(false));
    assert_eq!((m.pc(), m.stack_depth()), (0x206, 1));
    assert_eq!(m.step(), Ok(false));
    assert_eq!(m.step(), Ok(false));
    assert_eq!((m.pc(), m.stack_depth()), (0x202, 0));
    assert_eq!(m.step(), Ok(false));
    assert_eq!((m.register(1), m.register(2)), (1, 2));
}

#[test]
fn as_many_calls_as_the_stack_holds_return_in_reverse_order() {
    let mut m = Emulator::new(&nested(128), false, false, false).unwrap();
    for i in 0..128 {
        assert_eq!(m.pc() as usize, 0x200 + 4 * i);
        assert_eq!(m.step(), Ok(false));
        assert_eq!(m.stack_depth(), i + 1);
    }
    assert_eq!(m.pc() as usize, 0x200 + 4 * 128);
    for i in (0..128).rev() {
        assert_eq!(m.step(), Ok(false));
        assert_eq!(m.pc() as usize, 0x200 + 4 * i + 2);
        assert_eq!(m.stack_depth(), i);
    }
    assert_eq!(m.step(), Err(EmulatorError::PoppedEmptyStack));
}

#[test]
fn shorter_chains_of_calls_return_in_reverse_order() {
    for calls in [1usize, 2, 17, 127] {
        let mut m = Emulator::new(&nested(calls), false, false, false).unwrap();
        let mut return_addresses = Vec::new();
        for _ in 0..calls {
            return_addresses.push(m.pc() + 2);
            assert_eq!(m.step(), Ok(false));
        }
        assert_eq!(m.stack_depth(), calls);
        for expected in return_addresses.iter().rev() {
            assert_eq!(m.step(), Ok(false));
            assert_eq!(m.pc(), *expected);
        }
        assert_eq!(m.stack_depth(), 0);
    }
}

#[test]
fn call_on_a_full_stack_fails_and_changes_nothing() {
    let mut m = Emulator::new(&nested(129), false, false, false).unwrap();
    for _ in 0..128 {
        assert_eq!(m.step(), Ok(false));
    }
    assert_eq!(m.stack_depth(), 128);
    assert_eq!(m.step(), Err(EmulatorError::StackOverflow));
    assert_eq!(m.stack_depth(), 128);
    assert_eq!(m.pc() as usize, 0x200 + 4 * 128 + 2);
    // the stack is intact: the return behind the failed call unwinds it
    assert_eq!(m.step(), Ok(false));
    assert_eq!(m.pc() as usize, 0x200 + 4 * 127 + 2);
    assert_eq!(m.stack_depth(), 127);
}

#[test]
fn recursion_without_return_overflows_after_the_stack_is_full() {
    // call 0x200 for ever
    let mut m = Emulator::new(&[0x22, 0x00], false, false, false).unwrap();
    for depth in 1..=128 {
        assert_eq!(m.step(), Ok(false));
        assert_eq!(m.stack_depth(), depth);
    }
    assert_eq!(m.step(), Err(EmulatorError::StackOverflow));
}
