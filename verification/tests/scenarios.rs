use rustychip::error::EmulatorError;
use rustychip::instruction::Instruction;
use rustychip::machine::Emulator;

fn machine(program: &[u8]) -> Emulator {
    Emulator::new(program, false, false, false).unwrap()
}

fn run(m: &mut Emulator, steps: usize) {
    for _ in 0..steps {
        assert_eq!(m.step(), Ok(false));
    }
}

fn lit(m: &Emulator) -> Vec<(usize, usize)> {
    let mut pixels = Vec::new();
    for y in 0..32 {
        for x in 0..64 {
            if m.pixel(x, y) {
                pixels.push((x, y));
            }
        }
    }
    pixels
}

#[test]
fn four_steps_report_a_change_on_the_draw_only() {
    let mut m = machine(&[0x00, 0xE0, 0x60, 0x05, 0xA2, 0x0A, 0xD0, 0x05]);
    let flags: Vec<bool> = (0..4).map(|_| m.step().unwrap()).collect();
    assert_eq!(flags, vec![false, false, false, true]);
    assert_eq!(m.register(0), 5);
    assert_eq!(m.index(), 0x20A);
    assert_eq!(m.pc(), 0x208);
    // The five bytes at the index register lie behind the program and are
    // zero, so the sprite has no lit bit.
    assert_eq!(lit(&m), vec![]);
    assert_eq!(m.register(15), 0);
}

#[test]
fn glyph_of_digit_zero_is_drawn_in_the_top_left_corner() {
    // clear, V0 = 0, index = glyph of V0, draw 5 rows at (V0, V0)
    let mut m = machine(&[0x00, 0xE0, 0x60, 0x00, 0xF0, 0x29, 0xD0, 0x05]);
    let flags: Vec<bool> = (0..4).map(|_| m.step().unwrap()).collect();
    assert_eq!(flags, vec![false, false, false, true]);
    assert_eq!(m.index(), 0x50);
    let glyph = [0xF0u8, 0x90, 0x90, 0x90, 0xF0];
    for y in 0..32 {
        for x in 0..64 {
            let expected = y < 5 && x < 8 && (glyph[y] >> (7 - x)) & 1 == 1;
            assert_eq!(m.pixel(x, y), expected, "pixel ({}, {})", x, y);
        }
    }
    assert_eq!(
        lit(&m),
        vec![
            (0, 0),
            (1, 0),
            (2, 0),
            (3, 0),
            (0, 1),
            (3, 1),
            (0, 2),
            (3, 2),
            (0, 3),
            (3, 3),
            (0, 4),
            (1, 4),
            (2, 4),
            (3, 4)
        ]
    );
    assert_eq!(m.register(15), 0);
}

#[test]
fn shift_left_with_quirk_shifts_register_y_into_register_x() {
    let program = [0x61, 0x80, 0x62, 0x01, 0x81, 0x2E];
    let mut m = Emulator::new(&program, true, false, false).unwrap();
    run(&mut m, 3);
    assert_eq!(m.register(1), 0x02);
    assert_eq!(m.register(2), 0x01);
    assert_eq!(m.register(15), 0);
}

#[test]
fn shift_left_without_quirk_shifts_register_x_in_place() {
    let program = [0x61, 0x80, 0x62, 0x01, 0x81, 0x2E];
    let mut m = Emulator::new(&program, false, false, false).unwrap();
    run(&mut m, 3);
    assert_eq!(m.register(1), 0x00);
    assert_eq!(m.register(2), 0x01);
    assert_eq!(m.register(15), 1);
}

#[test]
fn shift_right_with_and_without_quirk() {
    let program = [0x61, 0x04, 0x62, 0x03, 0x81, 0x26];
    let mut quirky = Emulator::new(&program, true, false, false).unwrap();
    run(&mut quirky, 3);
    assert_eq!((quirky.register(1), quirky.register(15)), (0x01, 1));
    let mut plain = Emulator::new(&program, false, false, false).unwrap();
    run(&mut plain, 3);
    assert_eq!((plain.register(1), plain.register(15)), (0x02, 0));
}

#[test]
fn shift_of_the_flag_register_loses_the_flag() {
    // VF = 3; VF >>= 1: the flag takes the low bit, then is itself shifted.
    let mut m = machine(&[0x6F, 0x03, 0x8F, 0x06]);
    run(&mut m, 2);
    assert_eq!(m.register(15), 0);
}

#[test]
fn clear_screen_turns_every_pixel_off() {
    // V0 = 3, index = glyph 3, draw at (3, 3), clear
    let mut m = machine(&[0x60, 0x03, 0xF0, 0x29, 0xD0, 0x05, 0x00, 0xE0]);
    run(&mut m, 2);
    assert_eq!(m.step(), Ok(true));
    assert!(!lit(&m).is_empty());
    assert_eq!(m.step(), Ok(false));
    assert_eq!(lit(&m), vec![]);
    assert_eq!(m.display(), &[[false; 64]; 32]);
}

#[test]
fn drawing_twice_restores_the_framebuffer_and_flags_a_collision() {
    // V0 = 10, V1 = 7, index = glyph 8 (V2 = 8), draw, draw
    let program = [0x60, 0x0A, 0x61, 0x07, 0x62, 0x08, 0xF2, 0x29, 0xD0, 0x15, 0xD0, 0x15];
    let mut m = machine(&program);
    run(&mut m, 4);
    assert_eq!(m.step(), Ok(true));
    assert_eq!(m.register(15), 0);
    let drawn = lit(&m);
    assert_eq!(drawn.len(), 4 + 2 + 4 + 2 + 4);
    assert!(drawn.contains(&(10, 7)) && drawn.contains(&(13, 11)));
    assert_eq!(m.step(), Ok(true));
    assert_eq!(lit(&m), vec![]);
    assert_eq!(m.register(15), 1);
}

#[test]
fn drawing_over_other_pixels_restores_them_on_the_second_draw() {
    // glyph 1 at (0, 0); then glyph 0 twice at (0, 0) over it
    let program = [
        0x61, 0x01, 0xF1, 0x29, 0xD0, 0x05, // V1 = 1, index = glyph 1, draw at (V0, V0)
        0xF0, 0x29, 0xD0, 0x05, 0xD0, 0x05, // index = glyph 0, draw, draw
    ];
    let mut m = machine(&program);
    run(&mut m, 2);
    assert_eq!(m.step(), Ok(true));
    let before = lit(&m);
    run(&mut m, 1);
    assert_eq!(m.step(), Ok(true));
    // glyph 1 has 0x20 in its first row and glyph 0 has 0xF0: they overlap
    assert_eq!(m.register(15), 1);
    assert_ne!(lit(&m), before);
    assert_eq!(m.step(), Ok(true));
    assert_eq!(lit(&m), before);
    // the first draw of glyph 0 lit pixels, so the second collides
    assert_eq!(m.register(15), 1);
}

#[test]
fn sprite_is_clipped_at_the_right_and_bottom_edges() {
    // V0 = 62 + 64, V1 = 30 + 32: the start wraps to (62, 30); glyph 0
    let program = [0x60, 0x7E, 0x61, 0x3E, 0x62, 0x00, 0xF2, 0x29, 0xD0, 0x15];
    let mut m = machine(&program);
    run(&mut m, 4);
    assert_eq!(m.step(), Ok(true));
    // rows 0xF0 and 0x90 of the glyph, columns 62 and 63 only
    assert_eq!(lit(&m), vec![(62, 30), (63, 30), (62, 31)]);
    assert_eq!(m.register(15), 0);
}

#[test]
fn sprite_on_the_last_row_reads_no_byte_past_memory() {
    // index = 0xFFF, V1 = 31: one visible row of a 15-row sprite
    let mut program = vec![0xAF, 0xFF, 0x61, 0x1F, 0xD0, 0x1F];
    program.resize(3584, 0);
    program[3583] = 0x81;
    let mut m = machine(&program);
    run(&mut m, 2);
    assert_eq!(m.step(), Ok(true));
    assert_eq!(lit(&m), vec![(0, 31), (7, 31)]);
}

#[test]
fn sprite_that_reaches_past_memory_is_rejected() {
    // index = 0xFFF, two rows at (0, 0)
    let mut m = machine(&[0xAF, 0xFF, 0xD0, 0x02]);
    run(&mut m, 1);
    assert_eq!(
        m.step(),
        Err(EmulatorError::InvalidInstruction(Instruction::from_opcode(0xD002)))
    );
    assert_eq!(lit(&m), vec![]);
    assert_eq!(m.pc(), 0x204);
}

#[test]
fn draw_of_no_rows_reports_a_change_and_clears_the_flag() {
    let mut m = machine(&[0x6F, 0x01, 0xD0, 0x00]);
    run(&mut m, 1);
    assert_eq!(m.step(), Ok(true));
    assert_eq!(m.register(15), 0);
    assert_eq!(lit(&m), vec![]);
}
