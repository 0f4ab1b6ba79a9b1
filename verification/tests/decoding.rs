use rustychip::instruction::Instruction;

#[test]
fn word_splits_into_its_fields() {
    let i = Instruction::from_opcode(0xD12F);
    assert_eq!(i.operation, 0xD);
    assert_eq!(i.x, 0x1);
    assert_eq!(i.y, 0x2);
    assert_eq!(i.n, 0xF);
    assert_eq!(i.nn, 0x2F);
    assert_eq!(i.nnn, 0x12F);
}

#[test]
fn extreme_words_decode() {
    assert_eq!(
        Instruction::from_opcode(0x0000),
        Instruction { operation: 0, x: 0, y: 0, n: 0, nn: 0, nnn: 0 }
    );
    assert_eq!(
        Instruction::from_opcode(0xFFFF),
        Instruction { operation: 0xF, x: 0xF, y: 0xF, n: 0xF, nn: 0xFF, nnn: 0xFFF }
    );
}

#[test]
fn every_word_decodes_to_fields_that_rebuild_it() {
    for opcode in 0..=0xFFFFu16 {
        let i = Instruction::from_opcode(opcode);
        assert!(i.operation < 16 && i.x < 16 && i.y < 16 && i.n < 16);
        assert_eq!(i.nn as u16, (i.y as u16) * 16 + i.n as u16);
        assert_eq!(i.nnn, (i.x as u16) * 256 + i.nn as u16);
        assert_eq!((i.operation as u16) * 0x1000 + i.nnn, opcode);
    }
}
