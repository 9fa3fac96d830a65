//! Compensation of slow drift: while the lever rests near its idle point, the
//! idle point follows the reading in small steps. A steady reading far from idle
//! is a held pull and never moves it.

use vstd::prelude::*;
use crate::format::{abs, tdiv};
use crate::handbrake::calibration::Calibration;
use crate::shift::in_i32;

verus! {

/// How many steady samples in a row it takes before the idle point moves.
pub const STABLE_SAMPLES: u32 = 15;

/// The samples seen so far that stayed near each other.
#[derive(Clone, Copy, Debug, PartialEq, Eq, Structural)]
pub struct AutoZero {
    /// The first of them.
    pub anchor: i32,
    /// How many there are.
    pub run: u32,
}

/// How far a sample may be from the first one to count as the same reading: half
/// a percent of the span, at least 50.
pub open spec fn quiet_band(span: int) -> int {
    if tdiv(span, 200) < 50 {
        50
    } else {
        tdiv(span, 200)
    }
}

/// The new state after a sample, and the new idle point.
pub open spec fn observed(az: AutoZero, raw: i32, cal: Calibration) -> (AutoZero, int) {
    let span = abs(cal.max_raw - cal.idle_raw);
    let idle = cal.idle_raw as int;
    if !cal.calibrated || span == 0 {
        (AutoZero { run: 0, ..az }, idle)
    } else if az.run == 0 || abs(raw - az.anchor) > quiet_band(span) {
        (AutoZero { anchor: raw, run: 1 }, idle)
    } else if az.run + 1 < STABLE_SAMPLES {
        (AutoZero { run: (az.run + 1) as u32, ..az }, idle)
    } else if abs(raw - idle) > tdiv(span, 12) {
        (AutoZero { run: 0, ..az }, idle)
    } else {
        (AutoZero { run: 0, ..az }, idle + tdiv(raw - idle, 4))
    }
}

/// The differences that a sample is judged by are within 32 bits, and so are the
/// magnitudes of those that the sample is part of.
pub open spec fn observable(az: AutoZero, raw: i32, cal: Calibration) -> bool {
    let span = abs(cal.max_raw - cal.idle_raw);
    cal.calibrated ==> {
        &&& in_i32(cal.max_raw - cal.idle_raw)
        &&& span != 0 && az.run != 0 ==> {
            &&& abs(raw - az.anchor) <= i32::MAX
            &&& az.run + 1 >= STABLE_SAMPLES && abs(raw - az.anchor) <= quiet_band(span) ==> abs(
                raw - cal.idle_raw,
            ) <= i32::MAX
        }
    }
}

impl AutoZero {
    pub open spec fn wf(self) -> bool {
        self.run < STABLE_SAMPLES
    }

    pub fn new() -> (r: AutoZero)
        ensures
            r == (AutoZero { anchor: 0, run: 0 }),
            r.wf(),
    {
        AutoZero { anchor: 0, run: 0 }
    }

    /// Whether the differences that a sample is judged by are within 32 bits.
    pub fn can_observe(&self, raw: i32, cal: &Calibration) -> (r: bool)
        ensures
            r == observable(*self, raw, *cal),
    {
        if !cal.calibrated {
            return true;
        }
        let d: i64 = cal.max_raw as i64 - cal.idle_raw as i64;
        if d < -2_147_483_648 || d > 2_147_483_647 {
            return false;
        }
        let span: i64 = if d < 0 {
            -d
        } else {
            d
        };
        if span == 0 || self.run == 0 {
            return true;
        }
        let part: i64 = span / 200;
        let band: i64 = if part < 50 {
            50
        } else {
            part
        };
        let off: i64 = raw as i64 - self.anchor as i64;
        if off > 2_147_483_647 || -off > 2_147_483_647 {
            return false;
        }
        if off > band || -off > band || (self.run as u64 + 1) < STABLE_SAMPLES as u64 {
            return true;
        }
        let gap: i64 = raw as i64 - cal.idle_raw as i64;
        gap <= 2_147_483_647 && -gap <= 2_147_483_647
    }

    /// Takes one sample; may move `cal.idle_raw` toward it.
    pub fn observe(&mut self, raw: i32, cal: &mut Calibration)
        requires
            old(self).wf(),
            observable(*old(self), raw, *old(cal)),
        ensures
            final(self).wf(),
            *final(self) == observed(*old(self), raw, *old(cal)).0,
            *final(cal) == (Calibration {
                idle_raw: observed(*old(self), raw, *old(cal)).1 as i32,
                ..*old(cal)
            }),
            in_i32(observed(*old(self), raw, *old(cal)).1),
    {
        if !cal.calibrated {
            self.run = 0;
            return;
        }
        let d: i64 = cal.max_raw as i64 - cal.idle_raw as i64;
        let span: i64 = if d < 0 {
            -d
        } else {
            d
        };
        if span == 0 {
            self.run = 0;
            return;
        }
        let part: i32 = (span / 200) as i32;
        let band: i32 = if part < 50 {
            50
        } else {
            part
        };
        if self.run == 0 {
            self.anchor = raw;
            self.run = 1;
            return;
        }
        let off: i32 = raw - self.anchor;
        if off > band || -off > band {
            self.anchor = raw;
            self.run = 1;
            return;
        }
        self.run += 1;
        if self.run < STABLE_SAMPLES {
            return;
        }
        self.run = 0;
        let gap: i32 = raw - cal.idle_raw;
        let limit: i32 = (span / 12) as i32;
        if (gap >= 0 && gap > limit) || (gap < 0 && -gap > limit) {
            return;
        }
        cal.idle_raw = cal.idle_raw + gap / 4;
    }
}

/// A reading further from idle than a twelfth of the span never moves the idle
/// point.
pub proof fn held_pull_is_no_drift(az: AutoZero, raw: i32, cal: Calibration)
    requires
        abs(raw - cal.idle_raw) > tdiv(abs(cal.max_raw - cal.idle_raw), 12),
    ensures
        observed(az, raw, cal).1 == cal.idle_raw,
{
}

/// The idle point never moves away from the reading and never past it, and it
/// moves at most a quarter of the way.
pub proof fn nudge_is_gentle(az: AutoZero, raw: i32, cal: Calibration)
    ensures
        ({
            let idle = observed(az, raw, cal).1;
            &&& raw >= cal.idle_raw ==> cal.idle_raw <= idle <= raw
            &&& raw <= cal.idle_raw ==> raw <= idle <= cal.idle_raw
            &&& 4 * abs(idle - cal.idle_raw) <= abs(raw - cal.idle_raw)
        }),
{
}

/// The idle point moves only on the last of [`STABLE_SAMPLES`] steady samples, and
/// the count then starts over.
pub proof fn nudge_takes_a_steady_run(az: AutoZero, raw: i32, cal: Calibration)
    requires
        observed(az, raw, cal).1 != cal.idle_raw,
    ensures
        az.run + 1 >= STABLE_SAMPLES,
        observed(az, raw, cal).0.run == 0,
{
}

/// The fifteenth of fifteen steady samples in a row moves the idle point by a quarter
/// of its distance from the reading, rounded toward the old point, where that
/// distance is at most a twelfth of the span; `step` is that quarter. Steady means
/// within `band` of the first of them: a two-hundredth of the span, and at least 50.
pub proof fn drift_is_followed_by_quarters(
    az: AutoZero,
    raw: i32,
    cal: Calibration,
    band: int,
    step: int,
)
    requires
        cal.calibrated,
        cal.max_raw != cal.idle_raw,
        az.run == 14,
        ({
            let span = if cal.max_raw > cal.idle_raw {
                cal.max_raw - cal.idle_raw
            } else {
                cal.idle_raw - cal.max_raw
            };
            let gap = if raw > cal.idle_raw {
                raw - cal.idle_raw
            } else {
                cal.idle_raw - raw
            };
            &&& span >= 10200 ==> 200 * band <= span < 200 * band + 200
            &&& span < 10200 ==> band == 50
            &&& -band <= raw - az.anchor <= band
            &&& 12 * gap <= span
            &&& 4 * step <= gap < 4 * step + 4
        }),
    ensures
        ({
            let (n, idle) = observed(az, raw, cal);
            &&& n.run == 0
            &&& raw >= cal.idle_raw ==> idle == cal.idle_raw + step
            &&& raw < cal.idle_raw ==> idle == cal.idle_raw - step
        }),
{
}

/// A sample that is not steady starts a new run with itself; a steady one before the
/// fifteenth only counts. Neither moves the idle point.
pub proof fn runs_are_counted(az: AutoZero, raw: i32, cal: Calibration, band: int)
    requires
        cal.calibrated,
        cal.max_raw != cal.idle_raw,
        az.run < 14,
        ({
            let span = if cal.max_raw > cal.idle_raw {
                cal.max_raw - cal.idle_raw
            } else {
                cal.idle_raw - cal.max_raw
            };
            &&& span >= 10200 ==> 200 * band <= span < 200 * band + 200
            &&& span < 10200 ==> band == 50
        }),
    ensures
        ({
            let (n, idle) = observed(az, raw, cal);
            &&& idle == cal.idle_raw
            &&& az.run == 0 || raw - az.anchor > band || az.anchor - raw > band ==> n.anchor == raw
                && n.run == 1
            &&& az.run > 0 && -band <= raw - az.anchor <= band ==> n.anchor == az.anchor && n.run
                == az.run + 1
        }),
{
}

/// What is not followed: without a calibration nothing is, a reading outside the quiet
/// band starts a new run however long the last one was, and a lever that rests further
/// out than a twelfth of its span is being held.
pub proof fn held_levers_are_not_followed(az: AutoZero, raw: i32, cal: Calibration, band: int)
    requires
        ({
            let span = if cal.max_raw > cal.idle_raw {
                cal.max_raw - cal.idle_raw
            } else {
                cal.idle_raw - cal.max_raw
            };
            &&& span >= 10200 ==> 200 * band <= span < 200 * band + 200
            &&& span < 10200 ==> band == 50
        }),
    ensures
        ({
            let (n, idle) = observed(az, raw, cal);
            let span = if cal.max_raw > cal.idle_raw {
                cal.max_raw - cal.idle_raw
            } else {
                cal.idle_raw - cal.max_raw
            };
            let gap = if raw > cal.idle_raw {
                raw - cal.idle_raw
            } else {
                cal.idle_raw - raw
            };
            &&& !cal.calibrated || span == 0 ==> n.run == 0 && n.anchor == az.anchor && idle
                == cal.idle_raw
            &&& cal.calibrated && span > 0 && (raw - az.anchor > band || az.anchor - raw > band)
                ==> n.run == 1 && n.anchor == raw && idle == cal.idle_raw
            &&& cal.calibrated && span > 0 && az.run >= 14 && -band <= raw - az.anchor <= band && 12
                * gap >= span + 12 ==> n.run == 0 && idle == cal.idle_raw
        }),
{
}

} // verus!
