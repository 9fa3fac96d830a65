//! The readings of the load-cell converter: 24 bits, smoothed by an integer
//! filter.

use vstd::prelude::*;
use crate::le::signed;
use crate::shift::in_i32;

verus! {

/// The signed value of a 24-bit two's-complement reading.
pub fn sign_extend24(value: u32) -> (r: i32)
    requires
        value < 0x100_0000,
    ensures
        r == signed(value as int, 0x80_0000),
{
    if value < 0x80_0000 {
        value as i32
    } else {
        value as i32 - 0x100_0000
    }
}

/// The number that 24 bits clocked in, the highest first, make.
pub open spec fn shifted_in(bits: Seq<bool>) -> int
    decreases bits.len(),
{
    if bits.len() == 0 {
        0
    } else {
        2 * shifted_in(bits.drop_last()) + if bits.last() {
            1int
        } else {
            0int
        }
    }
}

/// A conversion from the bits that were clocked in.
pub fn conversion(bits: &[bool; 24]) -> (r: i32)
    ensures
        r == signed(shifted_in(bits@), 0x80_0000),
{
    let mut value: u32 = 0;
    let mut i: usize = 0;
    let ghost mut top: int = 1;
    proof {
        assert(bits@.take(0) =~= Seq::<bool>::empty());
        vstd::arithmetic::power2::lemma2_to64();
    }
    while i < 24
        invariant
            i <= 24,
            value == shifted_in(bits@.take(i as int)),
            value < top,
            top == vstd::arithmetic::power2::pow2(i as nat),
            top <= 0x100_0000,
        decreases 24 - i,
    {
        proof {
            let t = bits@.take(i + 1);
            assert(t.drop_last() =~= bits@.take(i as int));
            vstd::arithmetic::power2::lemma_pow2_unfold((i + 1) as nat);
            vstd::arithmetic::power2::lemma2_to64();
            if i + 1 < 24 {
                vstd::arithmetic::power2::lemma_pow2_strictly_increases((i + 1) as nat, 24);
            }
            top = 2 * top;
        }
        value = 2 * value + if bits[i] {
            1
        } else {
            0
        };
        i += 1;
    }
    proof {
        assert(bits@.take(24) =~= bits@);
    }
    sign_extend24(value)
}

/// A single-pole filter in integers. A shift of 0 passes every sample through.
#[derive(Clone, Copy, Debug, PartialEq, Eq, Structural)]
pub struct Iir {
    pub y: i32,
    pub shift: u32,
    pub primed: bool,
}

/// The filtered value after a sample: the first sample itself, later the old
/// value moved toward the sample by the shifted difference.
pub open spec fn filtered(f: Iir, x: i32) -> int {
    if !f.primed {
        x as int
    } else {
        f.y + (((x - f.y) as i32) >> f.shift)
    }
}

impl Iir {
    pub fn new(shift: u32) -> (r: Iir)
        ensures
            r == (Iir { y: 0, shift, primed: false }),
    {
        Iir { y: 0, shift, primed: false }
    }

    /// Whether a sample is near enough for the filter to take it.
    pub fn can_push(&self, x: i32) -> (r: bool)
        ensures
            r == (self.primed ==> self.shift < 32 && in_i32(x - self.y)),
    {
        if !self.primed {
            return true;
        }
        let d: i64 = x as i64 - self.y as i64;
        self.shift < 32 && -2_147_483_648 <= d && d <= 2_147_483_647
    }

    /// Takes one sample and returns the filtered value.
    pub fn push(&mut self, x: i32) -> (r: i32)
        requires
            old(self).primed ==> old(self).shift < 32 && in_i32(x - old(self).y),
        ensures
            r == filtered(*old(self), x),
            *final(self) == (Iir { y: r, primed: true, ..*old(self) }),
    {
        if !self.primed {
            self.y = x;
            self.primed = true;
        } else {
            let d: i32 = x - self.y;
            proof {
                lemma_shift_toward_zero(d, self.shift);
            }
            self.y = self.y + (d >> self.shift);
        }
        self.y
    }
}

/// A shifted difference keeps its side of zero and does not grow.
proof fn lemma_shift_toward_zero(d: i32, s: u32)
    requires
        s < 32,
    ensures
        d >= 0 ==> 0 <= d >> s <= d,
        d < 0 ==> d <= d >> s < 0,
        s == 0 ==> d >> s == d,
{
    assert(d >= 0 ==> 0 <= (d >> s) && (d >> s) <= d) by (bit_vector)
        requires
            s < 32,
    ;
    assert(d < 0 ==> d <= (d >> s) && (d >> s) < 0) by (bit_vector)
        requires
            s < 32,
    ;
    assert(d >> 0u32 == d) by (bit_vector);
}

/// The filter never overshoots: its value stays between the old one and the sample.
pub proof fn filter_stays_between(f: Iir, x: i32)
    requires
        f.primed,
        f.shift < 32,
        in_i32(x - f.y),
    ensures
        x >= f.y ==> f.y <= filtered(f, x) <= x,
        x < f.y ==> x <= filtered(f, x) < f.y,
{
    lemma_shift_toward_zero((x - f.y) as i32, f.shift);
}

/// A shift of 0 passes every sample through.
pub proof fn no_shift_is_passthrough(f: Iir, x: i32)
    requires
        f.shift == 0,
        in_i32(x - f.y),
    ensures
        filtered(f, x) == x,
{
    lemma_shift_toward_zero((x - f.y) as i32, 0);
}

/// A filter with one more bit of shift moves half as far, rounded down: with no
/// shift it moves all the way, so a shift of `s` divides the distance by 2 to the
/// `s`.
pub proof fn each_shift_halves_the_step(y: i32, x: i32, s: u32)
    requires
        s < 31,
        in_i32(x - y),
    ensures
        ({
            let wide = filtered(Iir { y, shift: s, primed: true }, x) - y;
            let slow = filtered(Iir { y, shift: (s + 1) as u32, primed: true }, x) - y;
            &&& 2 * slow <= wide < 2 * slow + 2
            &&& s == 0 ==> wide == x - y
        }),
        filtered(Iir { y, shift: s, primed: false }, x) == x,
{
    let d = (x - y) as i32;
    let t = (s + 1) as u32;
    assert(2 * (d >> t) <= (d >> s) && (d >> s) < 2 * (d >> t) + 2) by (bit_vector)
        requires
            s < 31,
            t == s + 1,
    ;
    assert(d >> 0u32 == d) by (bit_vector);
}

/// The bits of a conversion are weighed by place, the first the highest: a set bit in
/// front of `n` others counts 2 to the `n`.
pub proof fn first_bit_is_the_highest(b: bool, rest: Seq<bool>)
    ensures
        shifted_in(seq![b] + rest) == shifted_in(rest) + if b {
            vstd::arithmetic::power2::pow2(rest.len()) as int
        } else {
            0int
        },
    decreases rest.len(),
{
    let s = seq![b] + rest;
    if rest.len() == 0 {
        assert(s.drop_last() =~= Seq::<bool>::empty());
        assert(rest =~= Seq::<bool>::empty());
        vstd::arithmetic::power2::lemma2_to64();
        assert(shifted_in(Seq::<bool>::empty()) == 0);
    } else {
        first_bit_is_the_highest(b, rest.drop_last());
        assert(s.drop_last() =~= seq![b] + rest.drop_last());
        assert(s.last() == rest.last());
        vstd::arithmetic::power2::lemma_pow2_unfold(rest.len());
    }
}

} // verus!
