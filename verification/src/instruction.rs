//! Decoding of 16-bit instruction words into their operand fields.

use vstd::prelude::*;

verus! {

/// The operand fields of one 16-bit instruction word.
///
/// Every field is a view of the same word, so the fields overlap: `nn` is the
/// low byte, `nnn` the low twelve bits.
#[derive(Clone, Copy, Debug, PartialEq, Eq, Structural)]
pub struct Instruction {
    /// Operation class: the top nibble of the word.
    pub operation: u8,
    /// Second nibble, usually a register index.
    pub x: u8,
    /// Third nibble, usually a register index.
    pub y: u8,
    /// Fourth nibble, a 4-bit immediate.
    pub n: u8,
    /// Low byte, an 8-bit immediate.
    pub nn: u8,
    /// Low twelve bits, an address immediate.
    pub nnn: u16,
}

/// The record that a 16-bit word decodes to, field by field.
pub open spec fn decode(opcode: u16) -> Instruction {
    Instruction {
        operation: (opcode / 0x1000) as u8,
        x: ((opcode / 0x100) % 0x10) as u8,
        y: ((opcode / 0x10) % 0x10) as u8,
        n: (opcode % 0x10) as u8,
        nn: (opcode % 0x100) as u8,
        nnn: opcode % 0x1000,
    }
}

impl Instruction {
    /// The 16-bit word whose class is `operation` and whose low twelve bits are `nnn`.
    pub open spec fn word(self) -> int {
        self.operation * 0x1000 + self.nnn
    }

    /// A record is well formed when it is the decoding of some word: every
    /// nibble is below 16 and the overlapping fields agree.
    pub open spec fn wf(self) -> bool {
        &&& self.operation < 0x10
        &&& self.x < 0x10
        &&& self.y < 0x10
        &&& self.n < 0x10
        &&& self.nn == self.y * 0x10 + self.n
        &&& self.nnn == self.x * 0x100 + self.nn
    }

    /// Splits an instruction word into its fields.
    pub fn from_opcode(opcode: u16) -> (instruction: Instruction)
        ensures
            instruction == decode(opcode),
            instruction.wf(),
            instruction.word() == opcode,
    {
        assert((opcode & 0xF000) >> 12 == opcode / 0x1000 && opcode / 0x1000 < 0x10) by (bit_vector);
        assert((opcode & 0x0F00) >> 8 == (opcode / 0x100) % 0x10 && (opcode / 0x100) % 0x10 < 0x10)
            by (bit_vector);
        assert((opcode & 0x00F0) >> 4 == (opcode / 0x10) % 0x10 && (opcode / 0x10) % 0x10 < 0x10)
            by (bit_vector);
        assert(opcode & 0x000F == opcode % 0x10 && opcode % 0x10 < 0x10) by (bit_vector);
        assert(opcode & 0x00FF == opcode % 0x100 && opcode % 0x100 < 0x100) by (bit_vector);
        assert(opcode & 0x0FFF == opcode % 0x1000) by (bit_vector);
        proof {
            lemma_decode_wf(opcode);
        }
        let operation: u8 = ((opcode & 0xF000) >> 12) as u8;
        let x: u8 = ((opcode & 0x0F00) >> 8) as u8;
        let y: u8 = ((opcode & 0x00F0) >> 4) as u8;
        let n: u8 = (opcode & 0x000F) as u8;
        let nn: u8 = (opcode & 0x00FF) as u8;
        let nnn: u16 = opcode & 0x0FFF;
        Instruction { operation, x, y, n, nn, nnn }
    }
}

/// Every word decodes to a well-formed record, from which the word can be
/// read back.
pub proof fn lemma_decode_wf(opcode: u16)
    ensures
        decode(opcode).wf(),
        decode(opcode).word() == opcode,
{
    let operation = opcode / 0x1000;
    let x = (opcode / 0x100) % 0x10;
    let y = (opcode / 0x10) % 0x10;
    let n = opcode % 0x10;
    let nn = opcode % 0x100;
    let nnn = opcode % 0x1000;
    assert(operation < 0x10 && x < 0x10 && y < 0x10 && n < 0x10 && nn < 0x100 && nnn < 0x1000) by {
        assert(opcode / 0x1000 < 0x10 && (opcode / 0x100) % 0x10 < 0x10 && (opcode / 0x10) % 0x10
            < 0x10 && opcode % 0x10 < 0x10 && opcode % 0x100 < 0x100 && opcode % 0x1000 < 0x1000)
            by (bit_vector);
    }
    assert(nn == y * 0x10 + n && nnn == x * 0x100 + nn && opcode == operation * 0x1000 + nnn) by {
        assert(opcode % 0x100 == ((opcode / 0x10) % 0x10) * 0x10 + opcode % 0x10 && opcode % 0x1000
            == ((opcode / 0x100) % 0x10) * 0x100 + opcode % 0x100 && opcode == (opcode / 0x1000)
            * 0x1000 + opcode % 0x1000) by (bit_vector);
    }
}

/// Decoding loses nothing: a well-formed record is the decoding of its own word.
pub proof fn lemma_decode_word(instruction: Instruction)
    requires
        instruction.wf(),
    ensures
        0 <= instruction.word() < 0x10000,
        decode(instruction.word() as u16) == instruction,
{
    let operation = instruction.operation;
    let x = instruction.x;
    let y = instruction.y;
    let n = instruction.n;
    let word = instruction.word() as u16;
    assert(word == operation * 0x1000 + x * 0x100 + y * 0x10 + n);
    assert(word / 0x1000 == operation && (word / 0x100) % 0x10 == x && (word / 0x10) % 0x10 == y
        && word % 0x10 == n && word % 0x100 == y * 0x10 + n && word % 0x1000 == x * 0x100 + y
        * 0x10 + n) by (bit_vector)
        requires
            operation < 0x10,
            x < 0x10,
            y < 0x10,
            n < 0x10,
            word == operation * 0x1000 + x * 0x100 + y * 0x10 + n,
    ;
}

} // verus!
