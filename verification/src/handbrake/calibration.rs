//! Idle, maximum and deadzones of a single load-cell axis, in integers only.

use vstd::prelude::*;
use crate::format::{abs, clamped};
use crate::le;

verus! {

/// A calibration. `idle_raw` may be above `max_raw`: either wiring of the load
/// cell ramps up on a pull.
#[derive(Clone, Copy, Debug, PartialEq, Eq, Structural)]
pub struct Calibration {
    pub idle_raw: i32,
    pub max_raw: i32,
    pub deadzone_lo_pct: u8,
    pub deadzone_hi_pct: u8,
    pub inverted: bool,
    /// False until a real pair of idle and maximum has been set.
    pub calibrated: bool,
}

/// The smallest distance between idle and maximum that is told apart from noise.
pub const MIN_SPAN: i32 = 2000;

/// The size of a stored calibration.
pub const BLOB_LEN: usize = 12;

/// The full scale of the axis.
pub const FULL: i64 = 65535;

impl Default for Calibration {
    fn default() -> (r: Calibration)
        ensures
            r == Calibration::factory(),
    {
        Calibration {
            idle_raw: 0,
            max_raw: 0,
            deadzone_lo_pct: 2,
            deadzone_hi_pct: 2,
            inverted: false,
            calibrated: false,
        }
    }
}

/// The quotient rounded toward zero, for a divisor of either sign.
pub open spec fn squot(a: int, b: int) -> int {
    if (a >= 0) == (b >= 0) {
        abs(a) / abs(b)
    } else {
        -(abs(a) / abs(b))
    }
}

/// `v` as an unsigned 32-bit pattern.
pub open spec fn pattern(v: int) -> int {
    if v < 0 {
        v + 0x1_0000_0000
    } else {
        v
    }
}

/// The four bytes of a 32-bit pattern, the lowest first.
pub open spec fn le4(u: int) -> Seq<u8> {
    seq![
        (u % 256) as u8,
        (u / 0x100 % 256) as u8,
        (u / 0x1_0000 % 256) as u8,
        (u / 0x100_0000 % 256) as u8,
    ]
}

/// 1 for true, 0 for false.
pub open spec fn bit(b: bool) -> u8 {
    if b {
        1
    } else {
        0
    }
}

/// 1 for true, 0 for false.
pub fn bit_of(b: bool) -> (r: u8)
    ensures
        r == bit(b),
{
    if b {
        1
    } else {
        0
    }
}

impl Calibration {
    /// The calibration of a device that was never calibrated.
    pub open spec fn factory() -> Calibration {
        Calibration {
            idle_raw: 0,
            max_raw: 0,
            deadzone_lo_pct: 2,
            deadzone_hi_pct: 2,
            inverted: false,
            calibrated: false,
        }
    }

    /// Where the reading stands between idle (0) and maximum (full scale).
    pub open spec fn ratio(self, raw: int) -> int {
        clamped(squot((raw - self.idle_raw) * FULL, self.max_raw - self.idle_raw), 0, FULL as int)
    }

    /// The lower deadzone in axis units.
    pub open spec fn dz_lo(self) -> int {
        self.deadzone_lo_pct * FULL / 100
    }

    /// The upper deadzone in axis units.
    pub open spec fn dz_hi(self) -> int {
        self.deadzone_hi_pct * FULL / 100
    }

    /// The axis value of a ratio: off within the lower deadzone, full within the
    /// upper one, in proportion between them. Deadzones that leave nothing
    /// between them turn the axis off.
    pub open spec fn shaped(self, ratio: int) -> int {
        let cut = FULL - self.dz_hi();
        if self.dz_lo() + self.dz_hi() >= FULL {
            0
        } else if ratio <= self.dz_lo() {
            0
        } else if ratio >= cut {
            FULL as int
        } else {
            (ratio - self.dz_lo()) * FULL / (cut - self.dz_lo())
        }
    }

    /// The axis value of a reading; 0 where there is no usable calibration.
    pub open spec fn axis(self, raw: int) -> int {
        if !self.calibrated || self.max_raw == self.idle_raw {
            0
        } else if self.inverted {
            FULL - self.shaped(self.ratio(raw))
        } else {
            self.shaped(self.ratio(raw))
        }
    }

    /// The stored form.
    pub open spec fn blob(self) -> Seq<u8> {
        le4(pattern(self.idle_raw as int)) + le4(pattern(self.max_raw as int)) + seq![
            self.deadzone_lo_pct,
            self.deadzone_hi_pct,
            bit(self.inverted),
            bit(self.calibrated),
        ]
    }

    /// What a stored form holds. Deadzones above 100 % read as 100 %.
    pub open spec fn of_blob(b: Seq<u8>) -> Calibration {
        Calibration {
            idle_raw: le::signed(le::le_nat(b, 0, 4) as int, 0x8000_0000) as i32,
            max_raw: le::signed(le::le_nat(b, 4, 4) as int, 0x8000_0000) as i32,
            deadzone_lo_pct: clamped(b[8] as int, 0, 100) as u8,
            deadzone_hi_pct: clamped(b[9] as int, 0, 100) as u8,
            inverted: b[10] != 0,
            calibrated: b[11] != 0,
        }
    }

    /// Whether idle and maximum are far enough apart.
    pub fn span_ok(idle: i32, max: i32) -> (r: bool)
        ensures
            r == (abs(max - idle) >= MIN_SPAN),
            r == (max - idle >= 2000 || idle - max >= 2000),
    {
        let d: i64 = max as i64 - idle as i64;
        d >= MIN_SPAN as i64 || -d >= MIN_SPAN as i64
    }

    /// The stored form.
    pub fn to_bytes(&self) -> (b: [u8; 12])
        ensures
            b@ == self.blob(),
    {
        let lo: i64 = if self.idle_raw < 0 {
            self.idle_raw as i64 + 0x1_0000_0000
        } else {
            self.idle_raw as i64
        };
        let hi: i64 = if self.max_raw < 0 {
            self.max_raw as i64 + 0x1_0000_0000
        } else {
            self.max_raw as i64
        };
        let b: [u8; 12] = [
            (lo % 256) as u8,
            (lo / 0x100 % 256) as u8,
            (lo / 0x1_0000 % 256) as u8,
            (lo / 0x100_0000 % 256) as u8,
            (hi % 256) as u8,
            (hi / 0x100 % 256) as u8,
            (hi / 0x1_0000 % 256) as u8,
            (hi / 0x100_0000 % 256) as u8,
            self.deadzone_lo_pct,
            self.deadzone_hi_pct,
            bit_of(self.inverted),
            bit_of(self.calibrated),
        ];
        proof {
            assert(b@ =~= self.blob());
        }
        b
    }

    /// Reads the stored form; `None` where it is too short.
    pub fn from_bytes(b: &[u8]) -> (r: Option<Calibration>)
        ensures
            r == if b@.len() < BLOB_LEN {
                None
            } else {
                Some(Calibration::of_blob(b@))
            },
    {
        if b.len() < BLOB_LEN {
            return None;
        }
        Some(
            Calibration {
                idle_raw: le::i32(b, 0),
                max_raw: le::i32(b, 4),
                deadzone_lo_pct: if b[8] > 100 {
                    100
                } else {
                    b[8]
                },
                deadzone_hi_pct: if b[9] > 100 {
                    100
                } else {
                    b[9]
                },
                inverted: b[10] != 0,
                calibrated: b[11] != 0,
            },
        )
    }

    /// The axis value of a reading.
    pub fn apply(&self, raw: i32) -> (r: u16)
        ensures
            r == self.axis(raw as int),
    {
        if !self.calibrated {
            return 0;
        }
        let span: i64 = self.max_raw as i64 - self.idle_raw as i64;
        if span == 0 {
            return 0;
        }
        let diff: i64 = raw as i64 - self.idle_raw as i64;
        let q: i64 = if span > 0 {
            diff * 65535 / span
        } else {
            -diff * 65535 / -span
        };
        let ratio: i64 = if q < 0 {
            0
        } else if q > 65535 {
            65535
        } else {
            q
        };
        proof {
            assert(q == squot(diff * FULL, span as int));
        }
        let dz_lo: i64 = self.deadzone_lo_pct as i64 * 65535 / 100;
        let dz_hi: i64 = self.deadzone_hi_pct as i64 * 65535 / 100;
        let cut: i64 = 65535 - dz_hi;
        let out: i64 = if dz_lo + dz_hi >= 65535 {
            0
        } else if ratio <= dz_lo {
            0
        } else if ratio >= cut {
            65535
        } else {
            let part: i64 = (ratio - dz_lo) * 65535 / (cut - dz_lo);
            proof {
                lemma_scaled(ratio - dz_lo, cut - dz_lo);
            }
            part
        };
        if self.inverted {
            (65535 - out) as u16
        } else {
            out as u16
        }
    }
}

/// A part of a range rescales to a part of the full scale.
proof fn lemma_scaled(a: int, b: int)
    requires
        0 <= a <= b,
        b > 0,
    ensures
        0 <= a * FULL / b <= FULL,
{
    assert(a * FULL <= b * FULL) by (nonlinear_arith)
        requires
            0 <= a <= b,
            FULL == 65535,
    ;
    vstd::arithmetic::div_mod::lemma_div_is_ordered(a * FULL, b * FULL, b);
    vstd::arithmetic::div_mod::lemma_div_multiples_vanish(FULL as int, b);
    assert(b * FULL == FULL * b) by (nonlinear_arith);
    vstd::arithmetic::div_mod::lemma_div_pos_is_pos(a * FULL, b);
}

// -------------------------------------------------------------------- laws

/// The four bytes of a pattern hold that pattern.
proof fn lemma_le4(u: int, b: Seq<u8>, o: int)
    requires
        0 <= u < 0x1_0000_0000,
        forall|k: int| 0 <= k < 4 ==> #[trigger] b[o + k] == le4(u)[k],
    ensures
        le::le_nat(b, o, 4) == u,
{
    reveal_with_fuel(le::le_nat, 5);
    assert(b[o + 0] == (u % 256) as u8);
    assert(b[o + 1] == (u / 0x100 % 256) as u8);
    assert(b[o + 2] == (u / 0x1_0000 % 256) as u8);
    assert(b[o + 3] == (u / 0x100_0000 % 256) as u8);
}

/// A stored calibration reads back unchanged, where its deadzones are percentages.
pub proof fn blob_round_trip(c: Calibration)
    requires
        c.deadzone_lo_pct <= 100,
        c.deadzone_hi_pct <= 100,
    ensures
        c.blob().len() == BLOB_LEN,
        Calibration::of_blob(c.blob()) == c,
{
    let b = c.blob();
    lemma_le4(pattern(c.idle_raw as int), b, 0);
    lemma_le4(pattern(c.max_raw as int), b, 4);
}

/// The axis stays within its full scale, and every shaped ratio does.
pub proof fn axis_in_range(c: Calibration, raw: int)
    ensures
        0 <= c.axis(raw) <= FULL,
        0 <= c.shaped(c.ratio(raw)) <= FULL,
{
    let r = c.ratio(raw);
    let cut = FULL - c.dz_hi();
    if c.dz_lo() + c.dz_hi() < FULL && c.dz_lo() < r < cut {
        lemma_scaled(r - c.dz_lo(), cut - c.dz_lo());
    }
}

/// Inversion flips the axis of a usable calibration end to end.
pub proof fn inversion_flips(c: Calibration, raw: int)
    requires
        c.calibrated,
        c.max_raw != c.idle_raw,
    ensures
        (Calibration { inverted: true, ..c }).axis(raw) == FULL - (Calibration {
            inverted: false,
            ..c
        }).axis(raw),
{
}

/// The idle point reads as off and the maximum as full scale, whichever way the
/// cell is wired, where the deadzones leave something between them.
pub proof fn end_points(c: Calibration)
    requires
        c.calibrated,
        !c.inverted,
        c.max_raw != c.idle_raw,
        c.dz_lo() + c.dz_hi() < FULL,
    ensures
        c.axis(c.idle_raw as int) == 0,
        c.axis(c.max_raw as int) == FULL,
{
    let span = c.max_raw - c.idle_raw;
    let a = abs(span);
    assert(0 * FULL == 0) by (nonlinear_arith);
    vstd::arithmetic::div_mod::lemma_div_basics(a);
    assert(abs(span * FULL) == FULL * a) by (nonlinear_arith)
        requires
            a == abs(span),
            FULL == 65535,
    ;
    vstd::arithmetic::div_mod::lemma_div_multiples_vanish(FULL as int, a);
    assert(a * FULL == FULL * a) by (nonlinear_arith);
    assert((span * FULL >= 0) == (span >= 0)) by (nonlinear_arith)
        requires
            FULL == 65535,
    ;
}

/// Pulling further never lowers the axis of a calibration that is not inverted:
/// the axis follows the raw reading up where the maximum is above idle, and down
/// where it is below.
pub proof fn axis_is_monotone(c: Calibration, raw1: int, raw2: int)
    requires
        c.calibrated,
        !c.inverted,
        c.max_raw != c.idle_raw,
        if c.max_raw > c.idle_raw {
            raw1 <= raw2
        } else {
            raw1 >= raw2
        },
    ensures
        c.axis(raw1) <= c.axis(raw2),
{
    let span = c.max_raw - c.idle_raw;
    let a = if span > 0 {
        (raw1 - c.idle_raw) * FULL
    } else {
        -((raw1 - c.idle_raw) * FULL)
    };
    let b = if span > 0 {
        (raw2 - c.idle_raw) * FULL
    } else {
        -((raw2 - c.idle_raw) * FULL)
    };
    let d = abs(span);
    assert(squot((raw1 - c.idle_raw) * FULL, span) == squot(a, d));
    assert(squot((raw2 - c.idle_raw) * FULL, span) == squot(b, d));
    lemma_squot_ordered(a, b, d);
    let r1 = c.ratio(raw1);
    let r2 = c.ratio(raw2);
    lemma_shaped_ordered(c, r1, r2);
}

proof fn lemma_squot_ordered(a: int, b: int, d: int)
    requires
        a <= b,
        d > 0,
    ensures
        squot(a, d) <= squot(b, d),
{
    if a >= 0 {
        vstd::arithmetic::div_mod::lemma_div_is_ordered(a, b, d);
    } else if b < 0 {
        vstd::arithmetic::div_mod::lemma_div_is_ordered(-b, -a, d);
    } else {
        vstd::arithmetic::div_mod::lemma_div_pos_is_pos(-a, d);
        vstd::arithmetic::div_mod::lemma_div_pos_is_pos(b, d);
    }
}

proof fn lemma_shaped_ordered(c: Calibration, r1: int, r2: int)
    requires
        r1 <= r2,
    ensures
        c.shaped(r1) <= c.shaped(r2),
{
    let cut = FULL - c.dz_hi();
    let lo = c.dz_lo();
    if lo + c.dz_hi() < FULL {
        if lo < r1 < cut {
            lemma_scaled(r1 - lo, cut - lo);
        }
        if lo < r2 < cut {
            lemma_scaled(r2 - lo, cut - lo);
        }
        if lo < r1 && r2 < cut {
            assert((r1 - lo) * FULL <= (r2 - lo) * FULL) by (nonlinear_arith)
                requires
                    r1 <= r2,
                    FULL == 65535,
            ;
            vstd::arithmetic::div_mod::lemma_div_is_ordered(
                (r1 - lo) * FULL,
                (r2 - lo) * FULL,
                cut - lo,
            );
        }
    }
}

/// The quotient of a division is the number that its two bounds leave.
proof fn lemma_quotient_is(a: int, d: int, q: int)
    requires
        d > 0,
        q * d <= a < (q + 1) * d,
    ensures
        a / d == q,
{
    let r = a - q * d;
    assert((q + 1) * d == q * d + d) by (nonlinear_arith);
    assert(a == d * q + r) by (nonlinear_arith)
        requires
            r == a - q * d,
    ;
    vstd::arithmetic::div_mod::lemma_fundamental_div_mod_converse(a, d, q, r);
}

/// A pull is proportional. `r` is where the reading stands between idle (0) and
/// maximum (65535), rounded down, whichever way the cell is wired, and `lo` and
/// `hi` are the deadzones' percentages of 65535, rounded down. A pull within the
/// lower deadzone or before idle reads as off, one within the upper deadzone or
/// past the maximum as full, and the way between the two is stretched over the
/// whole scale: the axis is the largest number that is not above the same share of
/// 65535. An inverted axis counts down from 65535.
pub proof fn pulls_are_proportional(c: Calibration, raw: int, r: int, lo: int, hi: int)
    requires
        c.calibrated,
        c.max_raw != c.idle_raw,
        c.max_raw > c.idle_raw ==> r * (c.max_raw - c.idle_raw) <= (raw - c.idle_raw) * 65535 < (r
            + 1) * (c.max_raw - c.idle_raw),
        c.max_raw < c.idle_raw ==> r * (c.idle_raw - c.max_raw) <= (c.idle_raw - raw) * 65535 < (r
            + 1) * (c.idle_raw - c.max_raw),
        100 * lo <= c.deadzone_lo_pct * 65535 < 100 * lo + 100,
        100 * hi <= c.deadzone_hi_pct * 65535 < 100 * hi + 100,
    ensures
        ({
            let out = if c.inverted {
                65535 - c.axis(raw)
            } else {
                c.axis(raw)
            };
            let way = 65535 - hi - lo;
            &&& way <= 0 ==> out == 0
            &&& way > 0 && r <= lo ==> out == 0
            &&& way > 0 && r >= 65535 - hi ==> out == 65535
            &&& way > 0 && lo < r < 65535 - hi ==> out * way <= (r - lo) * 65535 < (out + 1) * way
        }),
{
    let span = c.max_raw - c.idle_raw;
    let d = abs(span);
    let travel = if span > 0 {
        raw - c.idle_raw
    } else {
        c.idle_raw - raw
    };
    let a = travel * 65535;
    assert(travel * 65535 == -((raw - c.idle_raw) * 65535) || span > 0) by (nonlinear_arith)
        requires
            span > 0 || travel == c.idle_raw - raw,
    ;
    lemma_quotient_is(a, d, r);
    if a < 0 {
        assert(r < 0) by (nonlinear_arith)
            requires
                r * d <= a,
                a < 0,
                d > 0,
        ;
        vstd::arithmetic::div_mod::lemma_div_pos_is_pos(-a, d);
        assert(c.ratio(raw) == 0);
    } else {
        vstd::arithmetic::div_mod::lemma_div_pos_is_pos(a, d);
        assert(squot((raw - c.idle_raw) * FULL, span) == r);
    }
    let ratio = clamped(r, 0, 65535);
    assert(c.ratio(raw) == ratio);
    assert(c.dz_lo() == lo);
    assert(c.dz_hi() == hi);
    let way = 65535 - hi - lo;
    if way > 0 && lo < r < 65535 - hi {
        let part = (r - lo) * 65535;
        let q = part / way;
        vstd::arithmetic::div_mod::lemma_fundamental_div_mod(part, way);
        vstd::arithmetic::div_mod::lemma_mod_bound(part, way);
        assert(q * way <= part < (q + 1) * way) by (nonlinear_arith)
            requires
                part == way * q + part % way,
                0 <= part % way < way,
        ;
    }
}

/// Without a calibration, or with idle and maximum at one point, every reading is
/// off, and the reading decides nothing else.
pub proof fn uncalibrated_axis_is_off(c: Calibration, raw: int)
    requires
        !c.calibrated || c.max_raw == c.idle_raw,
    ensures
        c.axis(raw) == 0,
{
}

/// The bytes of a stored calibration: the idle point and the maximum as 32-bit
/// numbers with the lowest byte first, the lower and the upper deadzone, and the
/// two marks, each 1 or 0.
pub proof fn stored_bytes_hold_the_fields(c: Calibration)
    ensures
        ({
            let b = c.blob();
            &&& b.len() == 12
            &&& b[0] + 0x100 * b[1] + 0x1_0000 * b[2] + 0x100_0000 * b[3] == if c.idle_raw < 0 {
                c.idle_raw + 0x1_0000_0000
            } else {
                c.idle_raw as int
            }
            &&& b[4] + 0x100 * b[5] + 0x1_0000 * b[6] + 0x100_0000 * b[7] == if c.max_raw < 0 {
                c.max_raw + 0x1_0000_0000
            } else {
                c.max_raw as int
            }
            &&& b[8] == c.deadzone_lo_pct
            &&& b[9] == c.deadzone_hi_pct
            &&& b[10] == if c.inverted {
                1u8
            } else {
                0u8
            }
            &&& b[11] == if c.calibrated {
                1u8
            } else {
                0u8
            }
        }),
{
    let u = pattern(c.idle_raw as int);
    let v = pattern(c.max_raw as int);
    let b = c.blob();
    lemma_le4(u, b, 0);
    lemma_le4(v, b, 4);
    reveal_with_fuel(le::le_nat, 5);
}

/// Bytes that were not written by this library are read too: each 32-bit number is
/// the one whose bytes, lowest first, stand there, a deadzone above 100 % reads as
/// 100 %, and any mark that is not 0 is set.
pub proof fn stored_bytes_are_read(b: Seq<u8>)
    requires
        b.len() >= 12,
    ensures
        ({
            let c = Calibration::of_blob(b);
            let idle = b[0] + 0x100 * b[1] + 0x1_0000 * b[2] + 0x100_0000 * b[3];
            let max = b[4] + 0x100 * b[5] + 0x1_0000 * b[6] + 0x100_0000 * b[7];
            &&& c.idle_raw == idle || c.idle_raw == idle - 0x1_0000_0000
            &&& c.max_raw == max || c.max_raw == max - 0x1_0000_0000
            &&& c.deadzone_lo_pct <= 100 && (b[8] <= 100 ==> c.deadzone_lo_pct == b[8]) && (b[8]
                > 100 ==> c.deadzone_lo_pct == 100)
            &&& c.deadzone_hi_pct <= 100 && (b[9] <= 100 ==> c.deadzone_hi_pct == b[9]) && (b[9]
                > 100 ==> c.deadzone_hi_pct == 100)
            &&& c.inverted == (b[10] != 0)
            &&& c.calibrated == (b[11] != 0)
        }),
{
    reveal_with_fuel(le::le_nat, 5);
}

} // verus!
