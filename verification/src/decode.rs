//! Splitting a 16-bit instruction word into its fields.

use vstd::arithmetic::div_mod::lemma_fundamental_div_mod_converse;
use vstd::prelude::*;

verus! {

/// The operation class: bits 12 to 15 of the word.
#[verifier::opaque]
pub open spec fn op_class(word: u16) -> int {
    word as int / 0x1000
}

/// The field X: bits 8 to 11 of the word, most often a register index.
#[verifier::opaque]
pub open spec fn field_x(word: u16) -> int {
    (word as int / 0x100) % 0x10
}

/// The field Y: bits 4 to 7 of the word, most often a register index.
#[verifier::opaque]
pub open spec fn field_y(word: u16) -> int {
    (word as int / 0x10) % 0x10
}

/// The field N: bits 0 to 3 of the word.
#[verifier::opaque]
pub open spec fn field_n(word: u16) -> int {
    word as int % 0x10
}

/// The immediate NN: the low byte of the word.
#[verifier::opaque]
pub open spec fn field_nn(word: u16) -> u8 {
    (word as int % 0x100) as u8
}

/// The immediate NNN: the low twelve bits of the word, a memory address.
#[verifier::opaque]
pub open spec fn field_nnn(word: u16) -> u16 {
    (word as int % 0x1000) as u16
}

/// An instruction word together with the fields that dispatch reads from it.
#[derive(Clone, Copy, Debug)]
pub struct Instruction {
    pub word: u16,
    pub class: u8,
    pub x: usize,
    pub y: usize,
    pub n: u8,
    pub nn: u8,
    pub nnn: u16,
}

impl Instruction {
    /// Whether the fields are those of `word`, each within its range.
    pub open spec fn decodes(self, word: u16) -> bool {
        &&& self.word == word
        &&& self.class == op_class(word)
        &&& self.x == field_x(word)
        &&& self.y == field_y(word)
        &&& self.n == field_n(word)
        &&& self.nn == field_nn(word)
        &&& self.nnn == field_nnn(word)
        &&& self.class < 16
        &&& self.x < 16
        &&& self.y < 16
        &&& self.n < 16
        &&& self.nnn < 0x1000
    }
}

/// Splits `word` into its fields.
pub fn decode(word: u16) -> (instruction: Instruction)
    ensures
        instruction.decodes(word),
{
    reveal(op_class);
    reveal(field_x);
    reveal(field_y);
    reveal(field_n);
    reveal(field_nn);
    reveal(field_nnn);
    let class: u16 = (word & 0xF000) >> 12;
    let x: u16 = (word & 0x0F00) >> 8;
    let y: u16 = (word & 0x00F0) >> 4;
    let n: u16 = word & 0x000F;
    let nn: u16 = word & 0x00FF;
    let nnn: u16 = word & 0x0FFF;
    assert(class == word / 0x1000 && x == (word / 0x100) % 0x10 && y == (word / 0x10) % 0x10
        && n == word % 0x10 && nn == word % 0x100 && nnn == word % 0x1000) by (bit_vector)
        requires
            class == (word & 0xF000) >> 12,
            x == (word & 0x0F00) >> 8,
            y == (word & 0x00F0) >> 4,
            n == word & 0x000F,
            nn == word & 0x00FF,
            nnn == word & 0x0FFF,
    ;
    Instruction {
        word,
        class: class as u8,
        x: x as usize,
        y: y as usize,
        n: n as u8,
        nn: nn as u8,
        nnn,
    }
}

/// The fields of the word `CXYN` are `C`, `X`, `Y` and `N`; its low byte is
/// `YN` and its low twelve bits are `XYN`.
pub proof fn lemma_fields(class: int, x: int, y: int, n: int)
    requires
        0 <= class < 16,
        0 <= x < 16,
        0 <= y < 16,
        0 <= n < 16,
    ensures
        ({
            let word = (0x1000 * class + 0x100 * x + 0x10 * y + n) as u16;
            &&& op_class(word) == class
            &&& field_x(word) == x
            &&& field_y(word) == y
            &&& field_n(word) == n
            &&& field_nn(word) == 0x10 * y + n
            &&& field_nnn(word) == 0x100 * x + 0x10 * y + n
        }),
{
    reveal(op_class);
    reveal(field_x);
    reveal(field_y);
    reveal(field_n);
    reveal(field_nn);
    reveal(field_nnn);
    let word = 0x1000 * class + 0x100 * x + 0x10 * y + n;
    lemma_fundamental_div_mod_converse(word, 0x1000, class, 0x100 * x + 0x10 * y + n);
    lemma_fundamental_div_mod_converse(word, 0x100, 0x10 * class + x, 0x10 * y + n);
    lemma_fundamental_div_mod_converse(0x10 * class + x, 0x10, class, x);
    lemma_fundamental_div_mod_converse(word, 0x10, 0x100 * class + 0x10 * x + y, n);
    lemma_fundamental_div_mod_converse(0x100 * class + 0x10 * x + y, 0x10, 0x10 * class + x, y);
}

/// The word `CXNN` has the class `C`, the field X `X` and the low byte `NN`.
pub proof fn lemma_fields_with_byte(class: int, x: int, nn: int)
    requires
        0 <= class < 16,
        0 <= x < 16,
        0 <= nn < 0x100,
    ensures
        ({
            let word = (0x1000 * class + 0x100 * x + nn) as u16;
            &&& op_class(word) == class
            &&& field_x(word) == x
            &&& field_nn(word) == nn
        }),
{
    reveal(op_class);
    reveal(field_x);
    reveal(field_nn);
    let word = 0x1000 * class + 0x100 * x + nn;
    lemma_fundamental_div_mod_converse(word, 0x1000, class, 0x100 * x + nn);
    lemma_fundamental_div_mod_converse(word, 0x100, 0x10 * class + x, nn);
    lemma_fundamental_div_mod_converse(0x10 * class + x, 0x10, class, x);
}

/// The word `CNNN` has the class `C` and the low twelve bits `NNN`.
pub proof fn lemma_fields_with_address(class: int, nnn: int)
    requires
        0 <= class < 16,
        0 <= nnn < 0x1000,
    ensures
        ({
            let word = (0x1000 * class + nnn) as u16;
            &&& op_class(word) == class
            &&& field_nnn(word) == nnn
        }),
{
    reveal(op_class);
    reveal(field_nnn);
    lemma_fundamental_div_mod_converse(0x1000 * class + nnn, 0x1000, class, nnn);
}

/// Each field of a word lies within its range.
pub proof fn lemma_field_ranges(word: u16)
    ensures
        0 <= op_class(word) < 16,
        0 <= field_x(word) < 16,
        0 <= field_y(word) < 16,
        0 <= field_n(word) < 16,
        field_nnn(word) < 0x1000,
{
    reveal(op_class);
    reveal(field_x);
    reveal(field_y);
    reveal(field_n);
    reveal(field_nnn);
}

} // verus!
