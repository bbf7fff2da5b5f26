//! The arithmetic of the 8-bit registers, each operation with its flag.

use vstd::prelude::*;

verus! {

/// The sum of two registers, wrapped to 8 bits, and whether it overflowed them.
pub fn add_with_carry(a: u8, b: u8) -> (r: (u8, bool))
    ensures
        r.0 == (a + b) % 0x100,
        r.1 == (a + b > 0xFF),
{
    let sum = a as u16 + b as u16;
    ((sum % 0x100) as u8, sum > 0xFF)
}

/// The sum of two bytes, wrapped to 8 bits.
pub fn add_wrapping(a: u8, b: u8) -> (sum: u8)
    ensures
        sum == (a + b) % 0x100,
{
    a.wrapping_add(b)
}

/// The difference `a - b`, wrapped to 8 bits, and whether it needed no borrow.
pub fn subtract_with_borrow(a: u8, b: u8) -> (r: (u8, bool))
    ensures
        r.0 == (a - b) % 0x100,
        r.1 == (a >= b),
{
    (a.wrapping_sub(b), a >= b)
}

/// A register shifted right by one bit, and whether the bit shifted out was set.
pub fn shift_right(a: u8) -> (r: (u8, bool))
    ensures
        r.0 == a / 2,
        r.1 == (a % 2 == 1),
{
    assert(a >> 1 == a / 2 && (a & 1 == 1) == (a % 2 == 1)) by (bit_vector);
    (a >> 1, a & 1 == 1)
}

/// A register shifted left by one bit within its 8 bits, and whether the bit
/// shifted out was set.
pub fn shift_left(a: u8) -> (r: (u8, bool))
    ensures
        r.0 == (a * 2) % 0x100,
        r.1 == (a >= 0x80),
{
    assert(a << 1 == (a * 2) % 0x100 && (a >> 7 == 1) == (a >= 0x80)) by (bit_vector);
    (a << 1, a >> 7 == 1)
}

} // verus!
