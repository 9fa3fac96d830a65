//! The decisions of the control loop that are made on whole numbers: which filter
//! runs, which knots the force curve has, and whether an effect is still under way.
//! The physics itself is floating-point and lives with the loop.

use vstd::prelude::*;
use crate::pedals::protocol::PedalConfig;

verus! {

/// The force curve has at most this many knots.
pub const MAX_POINTS: usize = 11;

/// An effect runs for this long after it was triggered, in milliseconds.
pub const ACTIVE_WINDOW_MS: i64 = 100;

/// How the force is filtered.
#[derive(Clone, Copy, Debug, PartialEq, Eq, Structural)]
pub enum Model {
    /// A Kalman filter that takes the velocity as constant.
    Velocity,
    /// A Kalman filter that takes the acceleration as constant.
    Acceleration,
    Exponential,
    /// No filter.
    Raw,
}

/// The filter that a configuration names.
pub open spec fn model_of(order: u8) -> Model {
    if order == 0 {
        Model::Velocity
    } else if order == 1 {
        Model::Acceleration
    } else if order == 2 {
        Model::Exponential
    } else {
        Model::Raw
    }
}

/// The filter that a configuration names.
pub fn filter_model(order: u8) -> (m: Model)
    ensures
        m == model_of(order),
{
    match order {
        0 => Model::Velocity,
        1 => Model::Acceleration,
        2 => Model::Exponential,
        _ => Model::Raw,
    }
}

/// Whether an effect is still under way, and its time counts on.
pub fn in_window(now_ms: i64, trigger_ms: i64) -> (r: bool)
    requires
        i64::MIN <= now_ms - trigger_ms <= i64::MAX,
    ensures
        r == (now_ms - trigger_ms <= ACTIVE_WINDOW_MS),
{
    now_ms - trigger_ms <= ACTIVE_WINDOW_MS
}

/// The knots go up in travel, every one above the last.
pub open spec fn rising(travel: Seq<u16>) -> bool {
    forall|i: int, j: int| 0 <= i < j < travel.len() ==> travel[i] < travel[j]
}

/// How many knots a configuration has: one of travel for each of force.
pub open spec fn knot_count(c: PedalConfig) -> nat {
    if c.curve_travel_pct_x10@.len() < c.curve_force_pct_x10@.len() {
        c.curve_travel_pct_x10@.len()
    } else {
        c.curve_force_pct_x10@.len()
    }
}

/// The knots of a configuration make a curve.
pub open spec fn has_curve(c: PedalConfig) -> bool {
    2 <= knot_count(c) <= MAX_POINTS && rising(c.curve_travel_pct_x10@.take(knot_count(c) as int))
}

/// The knots of the force curve, travel and force in tenths of a percent; a straight
/// line where those of the configuration make no curve.
pub open spec fn curve_of(c: PedalConfig) -> Seq<(u16, u16)> {
    if has_curve(c) {
        Seq::new(
            knot_count(c),
            |i: int| (c.curve_travel_pct_x10@[i], c.curve_force_pct_x10@[i]),
        )
    } else {
        seq![(0u16, 0u16), (1000u16, 1000u16)]
    }
}

/// The knots of the force curve.
pub fn curve_knots(c: &PedalConfig) -> (r: Vec<(u16, u16)>)
    ensures
        r@ == curve_of(*c),
{
    let travel = &c.curve_travel_pct_x10;
    let force = &c.curve_force_pct_x10;
    let n: usize = if travel.len() < force.len() {
        travel.len()
    } else {
        force.len()
    };
    let ghost t = travel@.take(n as int);
    let mut out: Vec<(u16, u16)> = Vec::new();
    let mut ok = 2 <= n && n <= MAX_POINTS;
    let mut i: usize = 0;
    while ok && i < n
        invariant
            i <= n,
            n == knot_count(*c),
            travel == c.curve_travel_pct_x10,
            force == c.curve_force_pct_x10,
            t == travel@.take(n as int),
            ok ==> 2 <= n <= MAX_POINTS,
            ok ==> out@ == Seq::new(i as nat, |k: int| (travel@[k], force@[k])),
            ok ==> forall|j: int, k: int| 0 <= j < k < i ==> t[j] < t[k],
            !ok ==> !has_curve(*c),
        decreases n - i, if ok { 1int } else { 0int },
    {
        if i > 0 && travel[i] <= travel[i - 1] {
            proof {
                assert(!(t[i - 1] < t[i as int]));
            }
            ok = false;
        } else {
            proof {
                if i > 0 {
                    assert(t[i - 1] < t[i as int]);
                }
            }
            out.push((travel[i], force[i]));
            i += 1;
            proof {
                assert(out@ =~= Seq::new(i as nat, |k: int| (travel@[k], force@[k])));
            }
        }
    }
    if ok {
        proof {
            assert(rising(t));
        }
        return out;
    }
    let mut line: Vec<(u16, u16)> = Vec::new();
    line.push((0, 0));
    line.push((1000, 1000));
    proof {
        assert(line@ =~= seq![(0u16, 0u16), (1000u16, 1000u16)]);
    }
    line
}

/// Whatever is configured, the curve has at least two knots and never steps back, so
/// that every position of the pedal has one force.
pub proof fn curve_is_usable(c: PedalConfig)
    ensures
        2 <= curve_of(c).len() <= MAX_POINTS,
        forall|i: int, j: int|
            0 <= i < j < curve_of(c).len() ==> (#[trigger] curve_of(c)[i]).0 < (
            #[trigger] curve_of(c)[j]).0,
{
    if has_curve(c) {
        let t = c.curve_travel_pct_x10@.take(knot_count(c) as int);
        assert forall|i: int, j: int| 0 <= i < j < curve_of(c).len() implies (
        #[trigger] curve_of(c)[i]).0 < (#[trigger] curve_of(c)[j]).0 by {
            assert(t[i] < t[j]);
        }
    }
}

/// The travel of a homed pedal, in absolute steps.
#[derive(Clone, Copy, Debug, PartialEq, Eq, Structural)]
pub struct Travel {
    pub soft_min_steps: i32,
    pub soft_max_steps: i32,
    pub hard_min_steps: i32,
    pub hard_max_steps: i32,
}

impl Travel {
    /// No travel is known.
    pub fn unknown() -> (r: Travel)
        ensures
            r == (Travel {
                soft_min_steps: 0,
                soft_max_steps: 0,
                hard_min_steps: 0,
                hard_max_steps: 0,
            }),
    {
        Travel { soft_min_steps: 0, soft_max_steps: 0, hard_min_steps: 0, hard_max_steps: 0 }
    }

    /// How far the soft travel is.
    pub fn steps(&self) -> (r: i32)
        requires
            i32::MIN <= self.soft_max_steps - self.soft_min_steps <= i32::MAX,
        ensures
            r == self.soft_max_steps - self.soft_min_steps,
    {
        self.soft_max_steps - self.soft_min_steps
    }

    /// Whether the soft travel can be told.
    pub fn can_measure(&self) -> (r: bool)
        ensures
            r == (i32::MIN <= self.soft_max_steps - self.soft_min_steps <= i32::MAX),
    {
        let d: i64 = self.soft_max_steps as i64 - self.soft_min_steps as i64;
        -2_147_483_648 <= d && d <= 2_147_483_647
    }
}

/// The reading of a load cell that is wired the other way round.
pub fn turned(code: i32, invert: bool) -> (r: i32)
    requires
        code > i32::MIN,
    ensures
        r == if invert {
            -code
        } else {
            code as int
        },
{
    if invert {
        -code
    } else {
        code
    }
}

/// How wet the track is, 0 to 6.
pub fn wetness(track_condition: u8) -> (r: u8)
    ensures
        r == if track_condition > 6 {
            6
        } else {
            track_condition
        },
{
    if track_condition > 6 {
        6
    } else {
        track_condition
    }
}

/// The pitch of the spindle, at least 1 mm.
pub fn pitch_mm(c: &PedalConfig) -> (r: u8)
    ensures
        r == if c.spindle_pitch_mm_per_rev < 1 {
            1
        } else {
            c.spindle_pitch_mm_per_rev
        },
{
    if c.spindle_pitch_mm_per_rev < 1 {
        1
    } else {
        c.spindle_pitch_mm_per_rev
    }
}

/// The filters are numbered; a number without a filter means none.
pub proof fn filters_are_numbered(order: u8)
    ensures
        order == 0 <==> model_of(order) == Model::Velocity,
        order == 1 <==> model_of(order) == Model::Acceleration,
        order == 2 <==> model_of(order) == Model::Exponential,
        order > 2 <==> model_of(order) == Model::Raw,
{
}

/// The knots of a configuration are the curve, travel beside force, where there are 2
/// to 11 of them and each has more travel than the one before; otherwise the curve is
/// the straight line from nothing to all.
pub proof fn configured_knots_are_the_curve(c: PedalConfig, n: nat, i: int)
    requires
        c.curve_travel_pct_x10@.len() == n,
        c.curve_force_pct_x10@.len() == n,
        0 <= i < n,
    ensures
        2 <= n <= 11 && (forall|a: int, b: int|
            0 <= a < b < n ==> c.curve_travel_pct_x10@[a] < c.curve_travel_pct_x10@[b]) ==> curve_of(
            c,
        ).len() == n && curve_of(c)[i] == (
            c.curve_travel_pct_x10@[i],
            c.curve_force_pct_x10@[i],
        ),
        n < 2 || n > 11 || i > 0 && c.curve_travel_pct_x10@[i - 1] >= c.curve_travel_pct_x10@[i]
            ==> curve_of(c).len() == 2 && curve_of(c)[0] == (0u16, 0u16) && curve_of(c)[1] == (
            1000u16,
            1000u16,
        ),
{
    let t = c.curve_travel_pct_x10@.take(knot_count(c) as int);
    assert(t =~= c.curve_travel_pct_x10@);
    if i > 0 && t[i - 1] >= t[i] {
        assert(!rising(t));
    }
}

} // verus!
