use rustychip::error::EmulatorError;
use rustychip::machine::Emulator;

const GLYPHS: [u8; 80] = [
    0xF0, 0x90, 0x90, 0x90, 0xF0, 0x20, 0x60, 0x20, 0x20, 0x70, 0xF0, 0x10, 0xF0, 0x80, 0xF0, 0xF0,
    0x10, 0xF0, 0x10, 0xF0, 0x90, 0x90, 0xF0, 0x10, 0x10, 0xF0, 0x80, 0xF0, 0x10, 0xF0, 0xF0, 0x80,
    0xF0, 0x90, 0xF0, 0xF0, 0x10, 0x20, 0x40, 0x40, 0xF0, 0x90, 0xF0, 0x90, 0xF0, 0xF0, 0x90, 0xF0,
    0x10, 0xF0, 0xF0, 0x90, 0xF0, 0x90, 0x90, 0xE0, 0x90, 0xE0, 0x90, 0xE0, 0xF0, 0x80, 0x80, 0x80,
    0xF0, 0xE0, 0x90, 0x90, 0x90, 0xE0, 0xF0, 0x80, 0xF0, 0x80, 0xF0, 0xF0, 0x80, 0xF0, 0x80, 0x80,
];

#[test]
fn program_appears_unchanged_at_the_code_origin() {
    let program: Vec<u8> = (0..300u32).map(|i| (i * 7 + 3) as u8).collect();
    let m = Emulator::new(&program, false, false, false).unwrap();
    for (i, byte) in program.iter().enumerate() {
        assert_eq!(m.memory(0x200 + i), *byte);
    }
    assert_eq!(m.memory(0x200 + program.len()), 0);
    assert_eq!(m.memory(0x1FF), 0);
}

#[test]
fn largest_program_fills_memory_to_its_end() {
    let program: Vec<u8> = (0..3584u32).map(|i| (i % 251) as u8 + 1).collect();
    let m = Emulator::new(&program, true, true, true).unwrap();
    assert_eq!(m.memory(0x200), 1);
    assert_eq!(m.memory(0xFFF), (3583 % 251) as u8 + 1);
    for (i, byte) in program.iter().enumerate() {
        assert_eq!(m.memory(0x200 + i), *byte);
    }
}

#[test]
fn program_one_byte_too_large_is_rejected_with_its_size() {
    let program = vec![0u8; 3585];
    match Emulator::new(&program, false, false, false) {
        Err(error) => assert_eq!(error, EmulatorError::ProgramTooLarge(3585)),
        Ok(_) => panic!("a program of 3585 bytes was accepted"),
    }
}

#[test]
fn much_larger_program_is_rejected_with_its_size() {
    let program = vec![0xAAu8; 10_000];
    match Emulator::new(&program, false, true, false) {
        Err(error) => assert_eq!(error, EmulatorError::ProgramTooLarge(10_000)),
        Ok(_) => panic!("a program of 10000 bytes was accepted"),
    }
}

#[test]
fn empty_program_gives_a_machine_of_zeros_and_glyphs() {
    let m = Emulator::new(&[], false, false, false).unwrap();
    for address in 0..0x1000usize {
        let expected = if (0x50..0x50 + 80).contains(&address) {
            GLYPHS[address - 0x50]
        } else {
            0
        };
        assert_eq!(m.memory(address), expected, "address {:#x}", address);
    }
}

#[test]
fn fresh_machine_starts_at_the_code_origin_with_everything_else_zero() {
    let m = Emulator::new(&[0x12, 0x00], false, false, false).unwrap();
    assert_eq!(m.pc(), 0x200);
    assert_eq!(m.index(), 0);
    assert_eq!(m.stack_depth(), 0);
    assert_eq!(m.delay_timer(), 0);
    assert_eq!(m.sound_timer(), 0);
    for r in 0..16 {
        assert_eq!(m.register(r), 0);
        assert!(!m.key(r));
    }
    for y in 0..32 {
        for x in 0..64 {
            assert!(!m.pixel(x, y));
        }
    }
    assert_eq!(m.display(), &[[false; 64]; 32]);
}

#[test]
fn glyph_table_sits_at_its_origin() {
    let m = Emulator::new(&[0x00, 0xE0], false, false, false).unwrap();
    for (i, byte) in GLYPHS.iter().enumerate() {
        assert_eq!(m.memory(0x50 + i), *byte);
    }
    assert_eq!(m.memory(0x4F), 0);
    assert_eq!(m.memory(0xA0), 0);
}

#[test]
fn timers_count_down_and_stop_at_zero() {
    // V0 = 2, delay = V0, V1 = 1, sound = V1
    let mut m = Emulator::new(&[0x60, 0x02, 0xF0, 0x15, 0x61, 0x01, 0xF1, 0x18], false, false, false)
        .unwrap();
    for _ in 0..4 {
        assert_eq!(m.step(), Ok(false));
    }
    assert_eq!((m.delay_timer(), m.sound_timer()), (2, 1));
    m.tick_clock();
    assert_eq!((m.delay_timer(), m.sound_timer()), (1, 0));
    m.tick_clock();
    assert_eq!((m.delay_timer(), m.sound_timer()), (0, 0));
    m.tick_clock();
    assert_eq!((m.delay_timer(), m.sound_timer()), (0, 0));
    assert_eq!(m.pc(), 0x208);
}

#[test]
fn set_key_changes_one_key_only() {
    let mut m = Emulator::new(&[], false, false, false).unwrap();
    m.set_key(3, true);
    m.set_key(15, true);
    for k in 0..16 {
        assert_eq!(m.key(k), k == 3 || k == 15);
    }
    m.set_key(3, false);
    for k in 0..16 {
        assert_eq!(m.key(k), k == 15);
    }
    assert_eq!(m.pc(), 0x200);
}
