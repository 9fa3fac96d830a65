//! Little-endian readers over a byte buffer. Callers check the length first.

use vstd::prelude::*;

verus! {

/// The unsigned number that the `n` bytes at `o` hold, the lowest byte first.
pub open spec fn le_nat(b: Seq<u8>, o: int, n: nat) -> nat
    decreases n,
{
    if n == 0 {
        0
    } else {
        b[o] as nat + 256 * le_nat(b, o + 1, (n - 1) as nat)
    }
}

/// The two's-complement reading of an unsigned number below `2 * half`.
pub open spec fn signed(u: int, half: int) -> int {
    if u < half {
        u
    } else {
        u - 2 * half
    }
}

pub fn u8(b: &[u8], o: usize) -> (r: u8)
    requires
        o < b@.len(),
    ensures
        r == b@[o as int],
{
    b[o]
}

pub fn i8(b: &[u8], o: usize) -> (r: i8)
    requires
        o < b@.len(),
    ensures
        r == signed(b@[o as int] as int, 0x80),
{
    let u: u8 = b[o];
    if u < 0x80 {
        u as i8
    } else {
        (u as i16 - 0x100) as i8
    }
}

pub fn u16(b: &[u8], o: usize) -> (r: u16)
    requires
        o + 2 <= b@.len(),
    ensures
        r == le_nat(b@, o as int, 2),
{
    proof {
        reveal_with_fuel(le_nat, 3);
    }
    b[o] as u16 + 256 * b[o + 1] as u16
}

pub fn i16(b: &[u8], o: usize) -> (r: i16)
    requires
        o + 2 <= b@.len(),
    ensures
        r == signed(le_nat(b@, o as int, 2) as int, 0x8000),
{
    let u: u16 = u16(b, o);
    if u < 0x8000 {
        u as i16
    } else {
        (u as i32 - 0x1_0000) as i16
    }
}

pub fn u32(b: &[u8], o: usize) -> (r: u32)
    requires
        o + 4 <= b@.len(),
    ensures
        r == le_nat(b@, o as int, 4),
{
    proof {
        reveal_with_fuel(le_nat, 5);
    }
    b[o] as u32 + 0x100 * b[o + 1] as u32 + 0x1_0000 * b[o + 2] as u32 + 0x100_0000 * b[o
        + 3] as u32
}

pub fn i32(b: &[u8], o: usize) -> (r: i32)
    requires
        o + 4 <= b@.len(),
    ensures
        r == signed(le_nat(b@, o as int, 4) as int, 0x8000_0000),
{
    let u: u32 = u32(b, o);
    if u < 0x8000_0000 {
        u as i32
    } else {
        (u as i64 - 0x1_0000_0000) as i32
    }
}

/// The bit pattern of eight bytes, as they hold a 64-bit float.
pub fn bits64(b: &[u8], o: usize) -> (r: u64)
    requires
        o + 8 <= b@.len(),
    ensures
        r == le_nat(b@, o as int, 8),
{
    proof {
        reveal_with_fuel(le_nat, 9);
    }
    let lo: u32 = u32(b, o);
    let n: usize = b.len();
    assert(o + 4 <= n);
    let hi: u32 = u32(b, o + 4);
    lo as u64 + 0x1_0000_0000 * hi as u64
}

/// The gear byte of a numeric gear: reverse below 0, neutral at 0, gears above 9
/// shown as 9.
pub fn gear_byte(g: i32) -> (r: u8)
    ensures
        r == (if g < 0 {
            0x52
        } else if g == 0 {
            0x4E
        } else if g <= 9 {
            0x30 + g
        } else {
            0x39
        }),
{
    if g < 0 {
        0x52
    } else if g == 0 {
        0x4E
    } else if g <= 9 {
        0x30 + g as u8
    } else {
        0x39
    }
}

// -------------------------------------------------------------------- laws

/// Bytes are weighed by their place, the lowest first: two, four and eight bytes
/// hold the sum of their values times 256 to the power of their place.
pub proof fn bytes_are_weighed(b: Seq<u8>, o: int)
    ensures
        le_nat(b, o, 2) == b[o] + 0x100 * b[o + 1],
        le_nat(b, o, 4) == b[o] + 0x100 * b[o + 1] + 0x1_0000 * b[o + 2] + 0x100_0000 * b[o + 3],
        le_nat(b, o, 8) == b[o] + 0x100 * b[o + 1] + 0x1_0000 * b[o + 2] + 0x100_0000 * b[o + 3]
            + 0x1_0000_0000 * b[o + 4] + 0x100_0000_0000 * b[o + 5] + 0x1_0000_0000_0000 * b[o + 6]
            + 0x100_0000_0000_0000 * b[o + 7],
{
    reveal_with_fuel(le_nat, 9);
    assert(o + 1 + 1 == o + 2 && o + 2 + 1 == o + 3 && o + 3 + 1 == o + 4 && o + 4 + 1 == o + 5);
}

/// A two's-complement reading differs from the unsigned number by a whole turn at
/// most and lies between `-half` and `half`.
pub proof fn signs_are_read(u: int, half: int)
    requires
        0 <= u < 2 * half,
    ensures
        -half <= signed(u, half) < half,
        signed(u, half) == u || signed(u, half) == u - 2 * half,
        signed(u, half) >= 0 <==> u < half,
{
}

} // verus!
