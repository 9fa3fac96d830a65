//! The telemetry record and its `$`-frame text.
//!
//! One frame per line:
//! ```text
//!   $gear;speed;rpm;maxRpm;shiftRpm;curLap;lastLap;...;batteryPct;ersState
//! ```
//! The `$` is a resync mark: what stands before it on the line is ignored. The
//! gear and the first three numbers are required. The later numbers are optional
//! and keep their defaults where they are missing or empty (tyre wear 100, the
//! others 0), so short frames still parse.

use vstd::prelude::*;
use vstd::slice::slice_subrange;
use crate::text::{
    all_digits, chars_of, dec_text, dec_val, dec_value, digit_run, find, index_of, int_text,
    is_digit, lemma_dec_text, lemma_dec_val_bounds, lemma_digit_run, lemma_find_is, lemma_no_split,
    lemma_split_front, push_int, run_end, split,
};

verus! {

/// The gear byte of reverse, `R`.
pub const GEAR_R: u8 = 0x52;

/// The gear byte of neutral, `N`.
pub const GEAR_N: u8 = 0x4E;

/// How many numbers a frame carries.
pub const FRAME_VALUES: usize = 72;

/// The latest telemetry.
#[derive(Clone, Copy, Debug, PartialEq, Eq, Structural)]
pub struct Telemetry {
    /// `R`, `N` or `1`..`9`, as an ASCII byte.
    pub gear: u8,
    // Core
    pub speed_kmh: i32,
    pub rpm: i32,
    pub max_rpm: i32,
    pub shift_rpm: i32,
    // Timing (ms)
    pub cur_lap_ms: i32,
    pub last_lap_ms: i32,
    pub best_lap_ms: i32,
    pub pb_lap_ms: i32,
    pub est_lap_ms: i32,
    // signed, 0.1 ms units (10000 = 1.0000 s; negative = faster)
    pub delta_ms: i32,
    // Race
    pub position: i32,
    pub field_size: i32,
    pub laps_done: i32,
    pub total_laps: i32,
    pub laps_left: i32,
    // Engine and car
    pub water_c: i32,
    pub oil_c: i32,
    pub oil_press_x10: i32,
    pub boost_kpa: i32,
    pub tc: i32,
    pub abs: i32,
    pub brake_bias_x10: i32,
    // Fuel
    pub fuel_dl: i32,
    pub fuel_cap_dl: i32,
    pub fuel_per_lap_ml: i32,
    pub fuel_laps_x10: i32,
    // Tyres: three-zone temperatures per corner (inner, middle, outer)
    pub tt_fl_i: i32,
    pub tt_fl_m: i32,
    pub tt_fl_o: i32,
    pub tt_fr_i: i32,
    pub tt_fr_m: i32,
    pub tt_fr_o: i32,
    pub tt_rl_i: i32,
    pub tt_rl_m: i32,
    pub tt_rl_o: i32,
    pub tt_rr_i: i32,
    pub tt_rr_m: i32,
    pub tt_rr_o: i32,
    // Tyre pressures (kPa) and wear (% remaining)
    pub tp_fl: i32,
    pub tp_fr: i32,
    pub tp_rl: i32,
    pub tp_rr: i32,
    pub tw_fl: i32,
    pub tw_fr: i32,
    pub tw_rl: i32,
    pub tw_rr: i32,
    // Brakes (C)
    pub bt_fl: i32,
    pub bt_fr: i32,
    pub bt_rl: i32,
    pub bt_rr: i32,
    // Inputs
    pub throttle: i32,
    pub brake: i32,
    pub clutch: i32,
    pub steer: i32,
    // Live engagement of the aids, which drives the side LEDs
    pub tc_active: i32,
    pub abs_active: i32,
    // On/off states of the car controls
    pub headlights: i32,
    pub wipers: i32,
    pub pit_limiter: i32,
    pub ignition: i32,
    // Race flag: 0 none, 1 green, 2 yellow, 3 blue, 4 white, 5 checkered, 6 black
    pub flag: i32,
    // Lap progress, 0..=1000 for 0..100.0 %
    pub track_pct: i32,
    // World position
    pub pos_x: i32,
    pub pos_z: i32,
    // Sector times (ms): this lap, then the personal best
    pub s1_ms: i32,
    pub s2_ms: i32,
    pub s3_ms: i32,
    pub bs1_ms: i32,
    pub bs2_ms: i32,
    pub bs3_ms: i32,
    // Electric boost: charge in 0..=1000; state 0 unavailable, 1 inactive, 2 propulsion, 3 regen
    pub battery_pct: i32,
    pub ers_state: i32,
    // Tyre surface average (0.1 C)
    pub tt_avg_fl: i32,
    pub tt_avg_fr: i32,
    pub tt_avg_rl: i32,
    pub tt_avg_rr: i32,
    // Tyre carcass temperature (0.1 C)
    pub tt_carc_fl: i32,
    pub tt_carc_fr: i32,
    pub tt_carc_rl: i32,
    pub tt_carc_rr: i32,
    // Tyre compound: 0 soft, 1 medium, 2 hard, 3 wet, -1 unknown
    pub comp_fl: i32,
    pub comp_fr: i32,
    pub comp_rl: i32,
    pub comp_rr: i32,
    // Aid settings and virtual energy
    pub tc_slip: i32,
    pub abs_slip: i32,
    pub virtual_energy: i32,
    pub ve_per_lap: i32,
    pub fuel_is_ve: i32,
    // Chassis G-forces and grip diagnostics
    pub g_long_x100: i32,
    pub g_lat_x100: i32,
    pub wheel_slip: i32,
    pub susp_impact: i32,
}

impl Default for Telemetry {
    /// Every number 0, the gear byte 0.
    fn default() -> (t: Telemetry)
        ensures
            t == Telemetry::cleared(0),
    {
        Telemetry {
            gear: 0,
            speed_kmh: 0,
            rpm: 0,
            max_rpm: 0,
            shift_rpm: 0,
            cur_lap_ms: 0,
            last_lap_ms: 0,
            best_lap_ms: 0,
            pb_lap_ms: 0,
            est_lap_ms: 0,
            delta_ms: 0,
            position: 0,
            field_size: 0,
            laps_done: 0,
            total_laps: 0,
            laps_left: 0,
            water_c: 0,
            oil_c: 0,
            oil_press_x10: 0,
            boost_kpa: 0,
            tc: 0,
            abs: 0,
            brake_bias_x10: 0,
            fuel_dl: 0,
            fuel_cap_dl: 0,
            fuel_per_lap_ml: 0,
            fuel_laps_x10: 0,
            tt_fl_i: 0,
            tt_fl_m: 0,
            tt_fl_o: 0,
            tt_fr_i: 0,
            tt_fr_m: 0,
            tt_fr_o: 0,
            tt_rl_i: 0,
            tt_rl_m: 0,
            tt_rl_o: 0,
            tt_rr_i: 0,
            tt_rr_m: 0,
            tt_rr_o: 0,
            tp_fl: 0,
            tp_fr: 0,
            tp_rl: 0,
            tp_rr: 0,
            tw_fl: 0,
            tw_fr: 0,
            tw_rl: 0,
            tw_rr: 0,
            bt_fl: 0,
            bt_fr: 0,
            bt_rl: 0,
            bt_rr: 0,
            throttle: 0,
            brake: 0,
            clutch: 0,
            steer: 0,
            tc_active: 0,
            abs_active: 0,
            headlights: 0,
            wipers: 0,
            pit_limiter: 0,
            ignition: 0,
            flag: 0,
            track_pct: 0,
            pos_x: 0,
            pos_z: 0,
            s1_ms: 0,
            s2_ms: 0,
            s3_ms: 0,
            bs1_ms: 0,
            bs2_ms: 0,
            bs3_ms: 0,
            battery_pct: 0,
            ers_state: 0,
            tt_avg_fl: 0,
            tt_avg_fr: 0,
            tt_avg_rl: 0,
            tt_avg_rr: 0,
            tt_carc_fl: 0,
            tt_carc_fr: 0,
            tt_carc_rl: 0,
            tt_carc_rr: 0,
            comp_fl: 0,
            comp_fr: 0,
            comp_rl: 0,
            comp_rr: 0,
            tc_slip: 0,
            abs_slip: 0,
            virtual_energy: 0,
            ve_per_lap: 0,
            fuel_is_ve: 0,
            g_long_x100: 0,
            g_lat_x100: 0,
            wheel_slip: 0,
            susp_impact: 0,
        }
    }
}

impl Telemetry {
    /// The record with that gear whose numbers are all 0.
    pub open spec fn cleared(gear: u8) -> Telemetry {
        Telemetry {
            gear,
            speed_kmh: 0,
            rpm: 0,
            max_rpm: 0,
            shift_rpm: 0,
            cur_lap_ms: 0,
            last_lap_ms: 0,
            best_lap_ms: 0,
            pb_lap_ms: 0,
            est_lap_ms: 0,
            delta_ms: 0,
            position: 0,
            field_size: 0,
            laps_done: 0,
            total_laps: 0,
            laps_left: 0,
            water_c: 0,
            oil_c: 0,
            oil_press_x10: 0,
            boost_kpa: 0,
            tc: 0,
            abs: 0,
            brake_bias_x10: 0,
            fuel_dl: 0,
            fuel_cap_dl: 0,
            fuel_per_lap_ml: 0,
            fuel_laps_x10: 0,
            tt_fl_i: 0,
            tt_fl_m: 0,
            tt_fl_o: 0,
            tt_fr_i: 0,
            tt_fr_m: 0,
            tt_fr_o: 0,
            tt_rl_i: 0,
            tt_rl_m: 0,
            tt_rl_o: 0,
            tt_rr_i: 0,
            tt_rr_m: 0,
            tt_rr_o: 0,
            tp_fl: 0,
            tp_fr: 0,
            tp_rl: 0,
            tp_rr: 0,
            tw_fl: 0,
            tw_fr: 0,
            tw_rl: 0,
            tw_rr: 0,
            bt_fl: 0,
            bt_fr: 0,
            bt_rl: 0,
            bt_rr: 0,
            throttle: 0,
            brake: 0,
            clutch: 0,
            steer: 0,
            tc_active: 0,
            abs_active: 0,
            headlights: 0,
            wipers: 0,
            pit_limiter: 0,
            ignition: 0,
            flag: 0,
            track_pct: 0,
            pos_x: 0,
            pos_z: 0,
            s1_ms: 0,
            s2_ms: 0,
            s3_ms: 0,
            bs1_ms: 0,
            bs2_ms: 0,
            bs3_ms: 0,
            battery_pct: 0,
            ers_state: 0,
            tt_avg_fl: 0,
            tt_avg_fr: 0,
            tt_avg_rl: 0,
            tt_avg_rr: 0,
            tt_carc_fl: 0,
            tt_carc_fr: 0,
            tt_carc_rl: 0,
            tt_carc_rr: 0,
            comp_fl: 0,
            comp_fr: 0,
            comp_rl: 0,
            comp_rr: 0,
            tc_slip: 0,
            abs_slip: 0,
            virtual_energy: 0,
            ve_per_lap: 0,
            fuel_is_ve: 0,
            g_long_x100: 0,
            g_lat_x100: 0,
            wheel_slip: 0,
            susp_impact: 0,
        }
    }

    /// The number with the 1-based id `id`; 0 where there is none.
    pub open spec fn value(self, id: int) -> i32 {
        if id == 1 {
            self.speed_kmh
        } else if id == 2 {
            self.rpm
        } else if id == 3 {
            self.max_rpm
        } else if id == 4 {
            self.shift_rpm
        } else if id == 5 {
            self.cur_lap_ms
        } else if id == 6 {
            self.last_lap_ms
        } else if id == 7 {
            self.best_lap_ms
        } else if id == 8 {
            self.pb_lap_ms
        } else if id == 9 {
            self.est_lap_ms
        } else if id == 10 {
            self.delta_ms
        } else if id == 11 {
            self.position
        } else if id == 12 {
            self.field_size
        } else if id == 13 {
            self.laps_done
        } else if id == 14 {
            self.total_laps
        } else if id == 15 {
            self.laps_left
        } else if id == 16 {
            self.water_c
        } else if id == 17 {
            self.oil_c
        } else if id == 18 {
            self.oil_press_x10
        } else if id == 19 {
            self.boost_kpa
        } else if id == 20 {
            self.tc
        } else if id == 21 {
            self.abs
        } else if id == 22 {
            self.brake_bias_x10
        } else if id == 23 {
            self.fuel_dl
        } else if id == 24 {
            self.fuel_cap_dl
        } else if id == 25 {
            self.fuel_per_lap_ml
        } else if id == 26 {
            self.fuel_laps_x10
        } else if id == 27 {
            self.tt_fl_i
        } else if id == 28 {
            self.tt_fl_m
        } else if id == 29 {
            self.tt_fl_o
        } else if id == 30 {
            self.tt_fr_i
        } else if id == 31 {
            self.tt_fr_m
        } else if id == 32 {
            self.tt_fr_o
        } else if id == 33 {
            self.tt_rl_i
        } else if id == 34 {
            self.tt_rl_m
        } else if id == 35 {
            self.tt_rl_o
        } else if id == 36 {
            self.tt_rr_i
        } else if id == 37 {
            self.tt_rr_m
        } else if id == 38 {
            self.tt_rr_o
        } else if id == 39 {
            self.tp_fl
        } else if id == 40 {
            self.tp_fr
        } else if id == 41 {
            self.tp_rl
        } else if id == 42 {
            self.tp_rr
        } else if id == 43 {
            self.tw_fl
        } else if id == 44 {
            self.tw_fr
        } else if id == 45 {
            self.tw_rl
        } else if id == 46 {
            self.tw_rr
        } else if id == 47 {
            self.bt_fl
        } else if id == 48 {
            self.bt_fr
        } else if id == 49 {
            self.bt_rl
        } else if id == 50 {
            self.bt_rr
        } else if id == 51 {
            self.throttle
        } else if id == 52 {
            self.brake
        } else if id == 53 {
            self.clutch
        } else if id == 54 {
            self.steer
        } else if id == 55 {
            self.tc_active
        } else if id == 56 {
            self.abs_active
        } else if id == 57 {
            self.headlights
        } else if id == 58 {
            self.wipers
        } else if id == 59 {
            self.pit_limiter
        } else if id == 60 {
            self.ignition
        } else if id == 61 {
            self.flag
        } else if id == 62 {
            self.track_pct
        } else if id == 63 {
            self.pos_x
        } else if id == 64 {
            self.pos_z
        } else if id == 65 {
            self.s1_ms
        } else if id == 66 {
            self.s2_ms
        } else if id == 67 {
            self.s3_ms
        } else if id == 68 {
            self.bs1_ms
        } else if id == 69 {
            self.bs2_ms
        } else if id == 70 {
            self.bs3_ms
        } else if id == 71 {
            self.battery_pct
        } else if id == 72 {
            self.ers_state
        } else if id == 73 {
            self.tt_avg_fl
        } else if id == 74 {
            self.tt_avg_fr
        } else if id == 75 {
            self.tt_avg_rl
        } else if id == 76 {
            self.tt_avg_rr
        } else if id == 77 {
            self.tt_carc_fl
        } else if id == 78 {
            self.tt_carc_fr
        } else if id == 79 {
            self.tt_carc_rl
        } else if id == 80 {
            self.tt_carc_rr
        } else if id == 81 {
            self.comp_fl
        } else if id == 82 {
            self.comp_fr
        } else if id == 83 {
            self.comp_rl
        } else if id == 84 {
            self.comp_rr
        } else if id == 85 {
            self.tc_slip
        } else if id == 86 {
            self.abs_slip
        } else if id == 87 {
            self.virtual_energy
        } else if id == 88 {
            self.ve_per_lap
        } else if id == 89 {
            self.fuel_is_ve
        } else if id == 90 {
            self.g_long_x100
        } else if id == 91 {
            self.g_lat_x100
        } else if id == 92 {
            self.wheel_slip
        } else if id == 93 {
            self.susp_impact
        } else {
            0
        }
    }

    /// The numbers that the frame carries, in the order of the frame.
    pub open spec fn frame_values(self) -> Seq<int> {
        Seq::new(FRAME_VALUES as nat, |k: int| self.value(k + 1) as int)
    }

    /// The numbers that the frame does not carry are all 0.
    pub open spec fn rest_is_zero(self) -> bool {
        forall|id: int| id > FRAME_VALUES ==> #[trigger] self.value(id) == 0
    }

    /// A record with the numbers `v`, in the order of the frame.
    fn of_frame(gear: u8, v: &Vec<i32>) -> (t: Telemetry)
        requires
            v@.len() == FRAME_VALUES,
        ensures
            t.gear == gear,
            t.rest_is_zero(),
            forall|k: int| 0 <= k < FRAME_VALUES ==> t.value(k + 1) == #[trigger] v@[k],
    {
        Telemetry {
            gear,
            speed_kmh: v[0],
            rpm: v[1],
            max_rpm: v[2],
            shift_rpm: v[3],
            cur_lap_ms: v[4],
            last_lap_ms: v[5],
            best_lap_ms: v[6],
            pb_lap_ms: v[7],
            est_lap_ms: v[8],
            delta_ms: v[9],
            position: v[10],
            field_size: v[11],
            laps_done: v[12],
            total_laps: v[13],
            laps_left: v[14],
            water_c: v[15],
            oil_c: v[16],
            oil_press_x10: v[17],
            boost_kpa: v[18],
            tc: v[19],
            abs: v[20],
            brake_bias_x10: v[21],
            fuel_dl: v[22],
            fuel_cap_dl: v[23],
            fuel_per_lap_ml: v[24],
            fuel_laps_x10: v[25],
            tt_fl_i: v[26],
            tt_fl_m: v[27],
            tt_fl_o: v[28],
            tt_fr_i: v[29],
            tt_fr_m: v[30],
            tt_fr_o: v[31],
            tt_rl_i: v[32],
            tt_rl_m: v[33],
            tt_rl_o: v[34],
            tt_rr_i: v[35],
            tt_rr_m: v[36],
            tt_rr_o: v[37],
            tp_fl: v[38],
            tp_fr: v[39],
            tp_rl: v[40],
            tp_rr: v[41],
            tw_fl: v[42],
            tw_fr: v[43],
            tw_rl: v[44],
            tw_rr: v[45],
            bt_fl: v[46],
            bt_fr: v[47],
            bt_rl: v[48],
            bt_rr: v[49],
            throttle: v[50],
            brake: v[51],
            clutch: v[52],
            steer: v[53],
            tc_active: v[54],
            abs_active: v[55],
            headlights: v[56],
            wipers: v[57],
            pit_limiter: v[58],
            ignition: v[59],
            flag: v[60],
            track_pct: v[61],
            pos_x: v[62],
            pos_z: v[63],
            s1_ms: v[64],
            s2_ms: v[65],
            s3_ms: v[66],
            bs1_ms: v[67],
            bs2_ms: v[68],
            bs3_ms: v[69],
            battery_pct: v[70],
            ers_state: v[71],
            tt_avg_fl: 0,
            tt_avg_fr: 0,
            tt_avg_rl: 0,
            tt_avg_rr: 0,
            tt_carc_fl: 0,
            tt_carc_fr: 0,
            tt_carc_rl: 0,
            tt_carc_rr: 0,
            comp_fl: 0,
            comp_fr: 0,
            comp_rl: 0,
            comp_rr: 0,
            tc_slip: 0,
            abs_slip: 0,
            virtual_energy: 0,
            ve_per_lap: 0,
            fuel_is_ve: 0,
            g_long_x100: 0,
            g_lat_x100: 0,
            wheel_slip: 0,
            susp_impact: 0,
        }
    }

    /// The idle record: neutral, every number 0.
    pub fn idle() -> (t: Telemetry)
        ensures
            t == Telemetry::cleared(GEAR_N),
            forall|id: int| #[trigger] t.value(id) == 0,
    {
        let mut t = Telemetry::default();
        t.gear = GEAR_N;
        t
    }
}

// ------------------------------------------------------- what a frame says

/// What stands behind the first `$` of the line.
pub open spec fn frame_body(s: Seq<char>) -> Option<Seq<char>> {
    let i = find(s, '$');
    if i < s.len() {
        Some(s.skip(i + 1))
    } else {
        None
    }
}

/// A gear letter or a forward gear.
pub open spec fn is_gear_char(c: char) -> bool {
    c == 'R' || c == 'N' || ('1' <= c && c <= '9')
}

/// The gear at the start of `s` and what is left behind it. A minus sign and the
/// digits behind it mean reverse, `0` means neutral.
pub open spec fn gear_token(s: Seq<char>) -> Option<(u8, Seq<char>)> {
    if s.len() == 0 {
        None
    } else if s[0] == '-' {
        Some((GEAR_R, s.skip(1).skip(digit_run(s.skip(1)) as int)))
    } else if s[0] == '0' {
        Some((GEAR_N, s.skip(1)))
    } else if is_gear_char(s[0]) {
        Some((s[0] as u8, s.skip(1)))
    } else {
        None
    }
}

/// Up to `n` required numbers, each a `;` and at least one digit, and what is
/// left behind them.
pub open spec fn required(s: Seq<char>, n: nat) -> (Seq<int>, Seq<char>)
    decreases n,
{
    let d = s.skip(1);
    let k = digit_run(d) as int;
    if n == 0 || s.len() == 0 || s[0] != ';' || k == 0 {
        (Seq::empty(), s)
    } else {
        let (more, rest) = required(d.skip(k), (n - 1) as nat);
        (seq![dec_val(d.take(k))] + more, rest)
    }
}

/// An optional signed number at the start of `s` and what is left behind it. A
/// sign without a digit is no number, and nothing is taken.
pub open spec fn signed_number(s: Seq<char>) -> (Option<int>, Seq<char>) {
    let signed = s.len() > 0 && (s[0] == '-' || s[0] == '+');
    let d = if signed {
        s.skip(1)
    } else {
        s
    };
    let k = digit_run(d) as int;
    if k == 0 {
        (None, s)
    } else if signed && s[0] == '-' {
        (Some(-dec_val(d.take(k))), d.skip(k))
    } else {
        (Some(dec_val(d.take(k))), d.skip(k))
    }
}

/// Up to `n` optional numbers, each behind a `;`, and what is left behind them.
pub open spec fn optionals(s: Seq<char>, n: nat) -> (Seq<Option<int>>, Seq<char>)
    decreases n,
{
    if n == 0 || s.len() == 0 || s[0] != ';' {
        (Seq::empty(), s)
    } else {
        let (v, after) = signed_number(s.skip(1));
        let (more, rest) = optionals(after, (n - 1) as nat);
        (seq![v] + more, rest)
    }
}

/// Only separators, line ends and blanks.
pub open spec fn is_tail(s: Seq<char>) -> bool {
    forall|i: int| 0 <= i < s.len() ==> is_tail_char(#[trigger] s[i])
}

pub open spec fn is_tail_char(c: char) -> bool {
    c == ';' || c == '\r' || c == '\n' || c == ' ' || c == '\t'
}

/// The number at place `k` of a frame that leaves it out: tyre wear reads as
/// full, everything else as 0.
pub open spec fn frame_default(k: int) -> int {
    if 42 <= k && k <= 45 {
        100
    } else {
        0
    }
}

/// The numbers of a frame whose required numbers are `req` and whose optional
/// ones are `opt`.
pub open spec fn filled(req: Seq<int>, opt: Seq<Option<int>>) -> Seq<int> {
    Seq::new(
        FRAME_VALUES as nat,
        |k: int|
            if k < 3 {
                req[k]
            } else if k - 3 < opt.len() && opt[k - 3] is Some {
                opt[k - 3]->0
            } else {
                frame_default(k)
            },
    )
}

/// The gear and the numbers that a line carries; `None` where the line is no frame.
pub open spec fn frame_of(s: Seq<char>) -> Option<(u8, Seq<int>)> {
    match frame_body(s) {
        None => None,
        Some(body) => match gear_token(body) {
            None => None,
            Some((gear, fields)) => {
                let (req, more) = required(fields, 3);
                let (opt, tail) = optionals(more, 69);
                if req.len() == 3 && is_tail(tail) {
                    Some((gear, filled(req, opt)))
                } else {
                    None
                }
            },
        },
    }
}

/// The number fits the numbers of a record, and so does its negation.
pub open spec fn fits(v: int) -> bool {
    -i32::MAX <= v <= i32::MAX
}

/// Every number that is read from the line fits, those before a mistake in the
/// line included.
pub open spec fn numbers_fit(s: Seq<char>) -> bool {
    match frame_body(s) {
        None => true,
        Some(body) => match gear_token(body) {
            None => true,
            Some((gear, fields)) => {
                let (req, more) = required(fields, 3);
                let (opt, tail) = optionals(more, 69);
                &&& forall|k: int| 0 <= k < req.len() ==> fits(#[trigger] req[k])
                &&& req.len() == 3 ==> forall|k: int|
                    0 <= k < opt.len() && (#[trigger] opt[k]) is Some ==> fits(opt[k]->0)
            },
        },
    }
}

/// The text of a run of numbers: a `;` before each.
pub open spec fn fields_text(v: Seq<int>) -> Seq<char>
    decreases v.len(),
{
    if v.len() == 0 {
        Seq::empty()
    } else {
        fields_text(v.drop_last()) + (seq![';'] + int_text(v.last()))
    }
}

/// The frame of a gear and a run of numbers.
pub open spec fn frame_text(gear: u8, v: Seq<int>) -> Seq<char> {
    seq!['$', gear as char] + fields_text(v)
}

// ------------------------------------------------------------ the parser

/// A number with more digits than a record can hold.
#[derive(Clone, Copy, Debug, PartialEq, Eq, Structural)]
pub struct TooLong;

/// A cursor over the characters of a line.
struct Cur<'a> {
    b: &'a [char],
    i: usize,
}

impl<'a> Cur<'a> {
    spec fn wf(self) -> bool {
        self.i <= self.b@.len()
    }

    /// What the cursor has not passed yet.
    spec fn rest(self) -> Seq<char> {
        self.b@.skip(self.i as int)
    }

    /// The character at the cursor; NUL at the end.
    fn peek(&self) -> (c: char)
        requires
            self.wf(),
        ensures
            self.rest().len() > 0 ==> c == self.rest()[0],
            self.rest().len() == 0 ==> c == '\0',
            self.rest().len() > 0 <==> self.i < self.b@.len(),
    {
        if self.i < self.b.len() {
            self.b[self.i]
        } else {
            '\0'
        }
    }

    /// Moves past the character at the cursor.
    fn bump(&mut self)
        requires
            old(self).wf(),
            old(self).rest().len() > 0,
        ensures
            final(self).wf(),
            final(self).b@ == old(self).b@,
            final(self).rest() == old(self).rest().skip(1),
    {
        proof {
            assert(self.b@.skip(self.i as int).skip(1) =~= self.b@.skip(self.i + 1));
            assert(self.i < self.b.len());
        }
        self.i += 1;
    }

    /// Reads the digits at the cursor; `None` where there are none.
    fn parse_uint(&mut self) -> (r: Result<Option<i32>, TooLong>)
        requires
            old(self).wf(),
        ensures
            final(self).wf(),
            final(self).b@ == old(self).b@,
            ({
                let s = old(self).rest();
                let k = digit_run(s) as int;
                match r {
                    Ok(None) => k == 0 && final(self).rest() == s,
                    Ok(Some(v)) => k > 0 && v == dec_val(s.take(k)) && v >= 0 && final(self).rest()
                        == s.skip(k),
                    Err(_) => k > 0 && dec_val(s.take(k)) > i32::MAX,
                }
            }),
    {
        let end = run_end(self.b, self.i);
        if end == self.i {
            return Ok(None);
        }
        let run = slice_subrange(self.b, self.i, end);
        proof {
            let s = self.rest();
            let k = digit_run(s) as int;
            assert(run@ =~= s.take(k));
            assert(s.skip(k) =~= self.b@.skip(end as int));
            lemma_dec_val_bounds(run@, 0);
        }
        match dec_value(run, i32::MAX as u64) {
            Some(v) => {
                self.i = end;
                Ok(Some(v as i32))
            },
            None => Err(TooLong),
        }
    }

    /// Reads an optional signed number into `out`. An empty field leaves both
    /// `out` and the cursor as they are.
    fn parse_int_opt(&mut self, out: &mut i32) -> (r: Result<(), TooLong>)
        requires
            old(self).wf(),
        ensures
            final(self).wf(),
            final(self).b@ == old(self).b@,
            ({
                let (v, rest) = signed_number(old(self).rest());
                match r {
                    Ok(_) => {
                        &&& final(self).rest() == rest
                        &&& v is Some ==> fits(v->0) && *final(out) == v->0
                        &&& v is None ==> *final(out) == *old(out)
                    },
                    Err(_) => v is Some && !fits(v->0) && *final(out) == *old(out),
                }
            }),
    {
        let ghost s = self.rest();
        let c = self.peek();
        let neg = c == '-';
        let from = self.i;
        if neg || c == '+' {
            self.bump();
        }
        match self.parse_uint() {
            Err(e) => Err(e),
            Ok(None) => {
                self.i = from;
                Ok(())
            },
            Ok(Some(v)) => {
                *out = if neg {
                    -v
                } else {
                    v
                };
                Ok(())
            },
        }
    }

    /// Moves past a `;`, where the cursor stands at one.
    fn expect_sep(&mut self) -> (r: bool)
        requires
            old(self).wf(),
        ensures
            final(self).wf(),
            final(self).b@ == old(self).b@,
            r == (old(self).rest().len() > 0 && old(self).rest()[0] == ';'),
            r ==> final(self).rest() == old(self).rest().skip(1),
            !r ==> final(self).rest() == old(self).rest(),
    {
        if self.peek() != ';' {
            return false;
        }
        self.bump();
        true
    }

    /// Moves past a `;` and reads an optional number into `field`; `false` where
    /// there is no `;`.
    fn opt_field(&mut self, field: &mut i32) -> (r: Result<bool, TooLong>)
        requires
            old(self).wf(),
        ensures
            final(self).wf(),
            final(self).b@ == old(self).b@,
            ({
                let s = old(self).rest();
                let (v, rest) = signed_number(s.skip(1));
                match r {
                    Ok(true) => {
                        &&& s.len() > 0 && s[0] == ';'
                        &&& final(self).rest() == rest
                        &&& v is Some ==> fits(v->0) && *final(field) == v->0
                        &&& v is None ==> *final(field) == *old(field)
                    },
                    Ok(false) => {
                        &&& s.len() == 0 || s[0] != ';'
                        &&& final(self).rest() == s
                        &&& *final(field) == *old(field)
                    },
                    Err(_) => s.len() > 0 && s[0] == ';' && v is Some && !fits(v->0),
                }
            }),
    {
        if !self.expect_sep() {
            return Ok(false);
        }
        match self.parse_int_opt(field) {
            Ok(_) => Ok(true),
            Err(e) => Err(e),
        }
    }

    /// Reads the gear.
    fn gear(&mut self) -> (r: Option<u8>)
        requires
            old(self).wf(),
        ensures
            final(self).wf(),
            final(self).b@ == old(self).b@,
            match r {
                Some(g) => gear_token(old(self).rest()) == Some((g, final(self).rest())),
                None => gear_token(old(self).rest()) is None,
            },
    {
        let g = self.peek();
        if g == '-' {
            self.bump();
            let ghost d = self.rest();
            let end = run_end(self.b, self.i);
            proof {
                assert(d.skip(digit_run(d) as int) =~= self.b@.skip(end as int));
            }
            self.i = end;
            Some(GEAR_R)
        } else if g == '0' {
            self.bump();
            Some(GEAR_N)
        } else if g == 'R' || g == 'N' || ('1' <= g && g <= '9') {
            self.bump();
            Some(g as u8)
        } else {
            None
        }
    }
}

/// The first `n` numbers of `v`, as mathematical integers.
spec fn ints(v: Seq<i32>) -> Seq<int> {
    v.map_values(|x: i32| x as int)
}

/// Reads the three required numbers; `None` where one is missing.
fn read_required(c: &mut Cur) -> (r: Result<Option<Vec<i32>>, TooLong>)
    requires
        old(c).wf(),
    ensures
        final(c).wf(),
        final(c).b@ == old(c).b@,
        ({
            let (req, more) = required(old(c).rest(), 3);
            match r {
                Ok(Some(v)) => {
                    &&& req.len() == 3
                    &&& ints(v@) == req
                    &&& final(c).rest() == more
                    &&& forall|j: int| 0 <= j < req.len() ==> fits(#[trigger] req[j])
                },
                Ok(None) => {
                    &&& req.len() < 3
                    &&& forall|j: int| 0 <= j < req.len() ==> fits(#[trigger] req[j])
                },
                Err(_) => exists|j: int| 0 <= j < req.len() && !fits(#[trigger] req[j]),
            }
        }),
{
    let ghost (req, more) = required(c.rest(), 3);
    let mut vals: Vec<i32> = Vec::new();
    let mut k: usize = 0;
    proof {
        assert(ints(vals@) + req =~= req);
    }
    while k < 3
        invariant
            k <= 3,
            c.wf(),
            c.b@ == old(c).b@,
            vals@.len() == k,
            required(c.rest(), (3 - k) as nat).1 == more,
            req == ints(vals@) + required(c.rest(), (3 - k) as nat).0,
            forall|j: int| 0 <= j < k ==> fits(#[trigger] vals@[j] as int),
            required(old(c).rest(), 3) == (req, more),
        decreases 3 - k,
    {
        let ghost before = c.rest();
        let ghost done = ints(vals@);
        proof {
            assert forall|j: int| 0 <= j < k implies fits(#[trigger] req[j]) by {
                assert(req[j] == vals@[j]);
            }
        }
        if !c.expect_sep() {
            return Ok(None);
        }
        match c.parse_uint() {
            Err(e) => {
                proof {
                    let d = before.skip(1);
                    let rq = required(before, (3 - k) as nat).0;
                    assert(rq.len() > 0 && rq[0] == dec_val(d.take(digit_run(d) as int)));
                    assert(req[k as int] == dec_val(d.take(digit_run(d) as int)));
                    let all = required(old(c).rest(), 3).0;
                    assert(k < all.len() && !fits(all[k as int]));
                }
                return Err(e);
            },
            Ok(None) => return Ok(None),
            Ok(Some(v)) => {
                vals.push(v);
                proof {
                    let (rq, mr) = required(c.rest(), (2 - k) as nat);
                    assert(ints(vals@) =~= done.push(v as int));
                    assert(done + (seq![v as int] + rq) =~= done.push(v as int) + rq);
                }
            },
        }
        k += 1;
    }
    proof {
        assert(ints(vals@) + Seq::<int>::empty() =~= ints(vals@));
        assert forall|j: int| 0 <= j < 3 implies fits(#[trigger] req[j]) by {
            assert(req[j] == vals@[j]);
        }
    }
    Ok(Some(vals))
}

/// Reads the optional numbers into `vals`, from place 3 on.
fn read_optionals(c: &mut Cur, vals: &mut Vec<i32>) -> (r: Result<(), TooLong>)
    requires
        old(c).wf(),
        old(vals)@.len() == FRAME_VALUES,
    ensures
        final(c).wf(),
        final(c).b@ == old(c).b@,
        final(vals)@.len() == FRAME_VALUES,
        ({
            let (opt, tail) = optionals(old(c).rest(), 69);
            match r {
                Ok(_) => {
                    &&& final(c).rest() == tail
                    &&& opt.len() <= 69
                    &&& forall|j: int|
                        0 <= j < opt.len() && (#[trigger] opt[j]) is Some ==> fits(opt[j]->0)
                    &&& forall|j: int|
                        0 <= j < FRAME_VALUES ==> (#[trigger] final(vals)@[j]) == if 3 <= j && j - 3 < opt.len()
                            && opt[j - 3] is Some {
                            opt[j - 3]->0
                        } else {
                            old(vals)@[j] as int
                        }
                },
                Err(_) => exists|j: int|
                    0 <= j < opt.len() && (#[trigger] opt[j]) is Some && !fits(opt[j]->0),
            }
        }),
{
    let ghost (opt, tail) = optionals(c.rest(), 69);
    let ghost start = vals@;
    let mut k: usize = 0;
    let ghost mut read: Seq<Option<int>> = Seq::empty();
    proof {
        assert(read + opt =~= opt);
    }
    while k < 69
        invariant
            k <= 69,
            c.wf(),
            c.b@ == old(c).b@,
            vals@.len() == FRAME_VALUES,
            start == old(vals)@,
            start.len() == FRAME_VALUES,
            read.len() == k,
            optionals(c.rest(), (69 - k) as nat).1 == tail,
            opt == read + optionals(c.rest(), (69 - k) as nat).0,
            forall|j: int| 0 <= j < k && (#[trigger] read[j]) is Some ==> fits(read[j]->0),
            forall|j: int|
                0 <= j < FRAME_VALUES ==> (#[trigger] vals@[j]) == if 3 <= j && j - 3 < k && read[j
                    - 3] is Some {
                    read[j - 3]->0
                } else {
                    start[j] as int
                },
            optionals(old(c).rest(), 69) == (opt, tail),
        decreases 69 - k,
    {
        let ghost before = c.rest();
        let ghost (v, after) = signed_number(before.skip(1));
        let ghost (more, rest) = optionals(after, (68 - k) as nat);
        let mut field: i32 = vals[k + 3];
        match c.opt_field(&mut field) {
            Err(e) => {
                proof {
                    assert(opt[k as int] == v);
                }
                return Err(e);
            },
            Ok(false) => {
                proof {
                    assert(opt =~= read);
                }
                return Ok(());
            },
            Ok(true) => {
                vals.set(k + 3, field);
                proof {
                    assert(read + (seq![v] + more) =~= read.push(v) + more);
                    read = read.push(v);
                }
            },
        }
        k += 1;
    }
    proof {
        assert(opt =~= read);
    }
    Ok(())
}

/// Whether only separators, line ends and blanks are left.
fn at_tail(c: &Cur) -> (r: bool)
    requires
        c.wf(),
    ensures
        r == is_tail(c.rest()),
{
    let mut i: usize = c.i;
    while i < c.b.len()
        invariant
            c.i <= i <= c.b@.len(),
            forall|k: int| c.i <= k < i ==> is_tail_char(#[trigger] c.b@[k]),
        decreases c.b@.len() - i,
    {
        let x = c.b[i];
        if !(x == ';' || x == '\r' || x == '\n' || x == ' ' || x == '\t') {
            proof {
                assert(c.rest()[i - c.i] == x);
            }
            return false;
        }
        i += 1;
    }
    proof {
        assert forall|k: int| 0 <= k < c.rest().len() implies is_tail_char(#[trigger] c.rest()[k]) by {
            assert(c.rest()[k] == c.b@[k + c.i]);
        }
    }
    true
}

/// The telemetry of a line: `None` where the line is no frame, an error where a
/// number on it does not fit a record.
pub fn read_frame(line: &str) -> (r: Result<Option<Telemetry>, TooLong>)
    ensures
        match r {
            Ok(Some(t)) => numbers_fit(line@) && frame_of(line@) == Some(
                (t.gear, t.frame_values()),
            ) && t.rest_is_zero(),
            Ok(None) => numbers_fit(line@) && frame_of(line@) is None,
            Err(_) => !numbers_fit(line@),
        },
{
    let text = chars_of(line);
    let b = text.as_slice();
    let start = index_of(b, '$');
    if start >= b.len() {
        return Ok(None);
    }
    let mut c = Cur { b, i: start + 1 };
    let gear = match c.gear() {
        Some(g) => g,
        None => return Ok(None),
    };
    let ghost (req, more) = required(c.rest(), 3);
    let ghost (opt, tail) = optionals(more, 69);
    let mut vals = match read_required(&mut c) {
        Err(e) => return Err(e),
        Ok(None) => return Ok(None),
        Ok(Some(v)) => v,
    };
    let mut k: usize = 3;
    while k < FRAME_VALUES
        invariant
            3 <= k <= FRAME_VALUES,
            vals@.len() == k,
            ints(vals@.take(3)) == req,
            forall|j: int| 3 <= j < k ==> (#[trigger] vals@[j]) == frame_default(j),
        decreases FRAME_VALUES - k,
    {
        vals.push(
            if 42 <= k && k <= 45 {
                100
            } else {
                0
            },
        );
        k += 1;
    }
    let ghost blank = vals@;
    match read_optionals(&mut c, &mut vals) {
        Err(e) => return Err(e),
        Ok(_) => {},
    }
    if !at_tail(&c) {
        return Ok(None);
    }
    let t = Telemetry::of_frame(gear, &vals);
    proof {
        let f = filled(req, opt);
        assert forall|j: int| 0 <= j < FRAME_VALUES implies #[trigger] t.frame_values()[j] == f[j] by {
            assert(t.frame_values()[j] == vals@[j]);
            if j < 3 {
                assert(req[j] == ints(blank.take(3))[j]);
            }
        }
        assert(t.frame_values() =~= f);
    }
    Ok(Some(t))
}

/// Whether every number that is read from the line fits a record.
pub fn frame_fits(line: &str) -> (r: bool)
    ensures
        r == numbers_fit(line@),
{
    match read_frame(line) {
        Ok(_) => true,
        Err(_) => false,
    }
}

/// Parses one frame line; `None` where the line is no frame. Missing numbers
/// keep their defaults.
pub fn parse_line(line: &str) -> (r: Option<Telemetry>)
    requires
        numbers_fit(line@),
    ensures
        match r {
            Some(t) => frame_of(line@) == Some((t.gear, t.frame_values())) && t.rest_is_zero(),
            None => frame_of(line@) is None,
        },
{
    match read_frame(line) {
        Ok(r) => r,
        Err(_) => None,
    }
}

/// Appends `;` and the text of `v`.
fn push_field(out: &mut String, v: i32)
    ensures
        final(out)@ == old(out)@ + (seq![';'] + int_text(v as int)),
{
    out.push(';');
    push_int(out, v as i64);
    proof {
        assert(old(out)@.push(';') + int_text(v as int) =~= old(out)@ + (seq![';'] + int_text(
            v as int,
        )));
    }
}

impl Telemetry {
    /// The number with the id `id` as an executable function; see [`Telemetry::value`].
    pub fn get(&self, id: usize) -> (v: i32)
        ensures
            v == self.value(id as int),
    {
        match id {
            1 => self.speed_kmh,
            2 => self.rpm,
            3 => self.max_rpm,
            4 => self.shift_rpm,
            5 => self.cur_lap_ms,
            6 => self.last_lap_ms,
            7 => self.best_lap_ms,
            8 => self.pb_lap_ms,
            9 => self.est_lap_ms,
            10 => self.delta_ms,
            11 => self.position,
            12 => self.field_size,
            13 => self.laps_done,
            14 => self.total_laps,
            15 => self.laps_left,
            16 => self.water_c,
            17 => self.oil_c,
            18 => self.oil_press_x10,
            19 => self.boost_kpa,
            20 => self.tc,
            21 => self.abs,
            22 => self.brake_bias_x10,
            23 => self.fuel_dl,
            24 => self.fuel_cap_dl,
            25 => self.fuel_per_lap_ml,
            26 => self.fuel_laps_x10,
            27 => self.tt_fl_i,
            28 => self.tt_fl_m,
            29 => self.tt_fl_o,
            30 => self.tt_fr_i,
            31 => self.tt_fr_m,
            32 => self.tt_fr_o,
            33 => self.tt_rl_i,
            34 => self.tt_rl_m,
            35 => self.tt_rl_o,
            36 => self.tt_rr_i,
            37 => self.tt_rr_m,
            38 => self.tt_rr_o,
            39 => self.tp_fl,
            40 => self.tp_fr,
            41 => self.tp_rl,
            42 => self.tp_rr,
            43 => self.tw_fl,
            44 => self.tw_fr,
            45 => self.tw_rl,
            46 => self.tw_rr,
            47 => self.bt_fl,
            48 => self.bt_fr,
            49 => self.bt_rl,
            50 => self.bt_rr,
            51 => self.throttle,
            52 => self.brake,
            53 => self.clutch,
            54 => self.steer,
            55 => self.tc_active,
            56 => self.abs_active,
            57 => self.headlights,
            58 => self.wipers,
            59 => self.pit_limiter,
            60 => self.ignition,
            61 => self.flag,
            62 => self.track_pct,
            63 => self.pos_x,
            64 => self.pos_z,
            65 => self.s1_ms,
            66 => self.s2_ms,
            67 => self.s3_ms,
            68 => self.bs1_ms,
            69 => self.bs2_ms,
            70 => self.bs3_ms,
            71 => self.battery_pct,
            72 => self.ers_state,
            73 => self.tt_avg_fl,
            74 => self.tt_avg_fr,
            75 => self.tt_avg_rl,
            76 => self.tt_avg_rr,
            77 => self.tt_carc_fl,
            78 => self.tt_carc_fr,
            79 => self.tt_carc_rl,
            80 => self.tt_carc_rr,
            81 => self.comp_fl,
            82 => self.comp_fr,
            83 => self.comp_rl,
            84 => self.comp_rr,
            85 => self.tc_slip,
            86 => self.abs_slip,
            87 => self.virtual_energy,
            88 => self.ve_per_lap,
            89 => self.fuel_is_ve,
            90 => self.g_long_x100,
            91 => self.g_lat_x100,
            92 => self.wheel_slip,
            93 => self.susp_impact,
            _ => 0,
        }
    }

    /// The frame of this record, without a line end: what [`parse_line`] reads back.
    pub fn to_frame(&self) -> (s: String)
        ensures
            s@ == frame_text(self.gear, self.frame_values()),
    {
        let mut s = String::new();
        s.push('$');
        s.push(self.gear as char);
        let mut k: usize = 0;
        let ghost vals = self.frame_values();
        proof {
            assert(vals.take(0) =~= Seq::<int>::empty());
            assert(s@ =~= frame_text(self.gear, vals.take(0)));
        }
        while k < FRAME_VALUES
            invariant
                k <= FRAME_VALUES,
                vals == self.frame_values(),
                s@ == frame_text(self.gear, vals.take(k as int)),
            decreases FRAME_VALUES - k,
        {
            let ghost before = s@;
            push_field(&mut s, self.get(k + 1));
            proof {
                let t = vals.take(k + 1);
                assert(t.drop_last() =~= vals.take(k as int));
                assert(t.last() == self.value(k + 1));
                assert(s@ =~= frame_text(self.gear, t));
            }
            k += 1;
        }
        proof {
            assert(vals.take(k as int) =~= vals);
        }
        s
    }
}

// ------------------------------------------------------------ round trip

/// The text of a run of numbers starts with the first number.
proof fn lemma_fields_text_front(v: Seq<int>)
    requires
        v.len() > 0,
    ensures
        fields_text(v) == seq![';'] + (int_text(v[0]) + fields_text(v.drop_first())),
    decreases v.len(),
{
    let head = seq![';'] + int_text(v[0]);
    if v.len() == 1 {
        assert(v.drop_last() =~= Seq::<int>::empty());
        assert(v.drop_first() =~= Seq::<int>::empty());
        assert(fields_text(v) =~= seq![';'] + (int_text(v[0]) + fields_text(v.drop_first())));
    } else {
        let front = v.drop_last();
        let last = seq![';'] + int_text(v.last());
        lemma_fields_text_front(front);
        assert(v.drop_first().drop_last() =~= front.drop_first());
        assert(front[0] == v[0]);
        assert(v.drop_first().last() == v.last());
        assert(fields_text(v) =~= seq![';'] + (int_text(v[0]) + fields_text(v.drop_first())));
    }
}

/// A text of digits before a text that does not start with one.
proof fn lemma_run_before(d: Seq<char>, rest: Seq<char>)
    requires
        all_digits(d),
        rest.len() > 0 ==> !is_digit(rest[0]),
    ensures
        digit_run(d + rest) == d.len(),
        (d + rest).take(d.len() as int) == d,
        (d + rest).skip(d.len() as int) == rest,
{
    let s = d + rest;
    assert forall|i: int| 0 <= i < d.len() implies is_digit(#[trigger] s[i]) by {
        assert(s[i] == d[i]);
    }
    lemma_digit_run(s, d.len() as int);
    assert(s.take(d.len() as int) =~= d);
    assert(s.skip(d.len() as int) =~= rest);
}

/// A number that was written is read back.
proof fn lemma_signed_number(v: int, rest: Seq<char>)
    requires
        rest.len() > 0 ==> !is_digit(rest[0]),
    ensures
        signed_number(int_text(v) + rest) == (Some(v), rest),
{
    let s = int_text(v) + rest;
    if v < 0 {
        let d = dec_text((-v) as nat);
        lemma_dec_text((-v) as nat);
        lemma_run_before(d, rest);
        assert(s.skip(1) =~= d + rest);
    } else {
        let d = dec_text(v as nat);
        lemma_dec_text(v as nat);
        lemma_run_before(d, rest);
        assert(is_digit(d[0]));
        assert(s[0] == d[0]);
    }
}

/// Numbers that were written are read back as optional numbers.
proof fn lemma_optionals(v: Seq<int>)
    ensures
        optionals(fields_text(v), v.len()) == (v.map_values(|x: int| Some(x)), Seq::<char>::empty()),
    decreases v.len(),
{
    let some = |x: int| Some(x);
    if v.len() == 0 {
        assert(v.map_values(some) =~= Seq::empty());
    } else {
        let more = v.drop_first();
        let rest = fields_text(more);
        lemma_fields_text_front(v);
        lemma_optionals(more);
        if more.len() > 0 {
            lemma_fields_text_front(more);
        }
        lemma_signed_number(v[0], rest);
        assert(fields_text(v).skip(1) =~= int_text(v[0]) + rest);
        assert(seq![Some(v[0])] + more.map_values(some) =~= v.map_values(some));
    }
}

/// Numbers that were written are read back as required numbers, where none is negative.
proof fn lemma_required(v: Seq<int>, n: nat)
    requires
        n <= v.len(),
        forall|j: int| 0 <= j < n ==> #[trigger] v[j] >= 0,
    ensures
        required(fields_text(v), n) == (v.take(n as int), fields_text(v.skip(n as int))),
    decreases n,
{
    if n == 0 {
        assert(v.take(0) =~= Seq::<int>::empty());
        assert(v.skip(0) =~= v);
    } else {
        let more = v.drop_first();
        let rest = fields_text(more);
        let d = dec_text(v[0] as nat);
        lemma_fields_text_front(v);
        if more.len() > 0 {
            lemma_fields_text_front(more);
        }
        lemma_dec_text(v[0] as nat);
        lemma_run_before(d, rest);
        assert(fields_text(v).skip(1) =~= d + rest);
        assert forall|j: int| 0 <= j < n - 1 implies #[trigger] more[j] >= 0 by {
            assert(more[j] == v[j + 1]);
        }
        lemma_required(more, (n - 1) as nat);
        assert(seq![v[0]] + more.take(n - 1) =~= v.take(n as int));
        assert(more.skip(n - 1) =~= v.skip(n as int));
    }
}

/// The frame of a record parses back to the gear and the numbers of that record,
/// where the gear is `R`, `N` or a digit above 0, speed, RPM and maximum RPM are
/// not negative, and no number is the smallest an `i32` can hold.
pub proof fn frame_round_trip(t: Telemetry)
    requires
        is_gear_char(t.gear as char),
        t.speed_kmh >= 0,
        t.rpm >= 0,
        t.max_rpm >= 0,
        forall|id: int| 1 <= id <= FRAME_VALUES ==> #[trigger] t.value(id) > i32::MIN,
    ensures
        numbers_fit(frame_text(t.gear, t.frame_values())),
        frame_of(frame_text(t.gear, t.frame_values())) == Some((t.gear, t.frame_values())),
{
    let v = t.frame_values();
    let s = frame_text(t.gear, v);
    lemma_find_is(s, '$', 0);
    let body = s.skip(1);
    assert(body.skip(1) =~= fields_text(v));
    assert(body[0] == t.gear as char);
    assert(v[0] == t.speed_kmh && v[1] == t.rpm && v[2] == t.max_rpm);
    assert forall|j: int| 0 <= j < v.len() implies fits(#[trigger] v[j]) by {
        assert(v[j] == t.value(j + 1));
    }
    lemma_required(v, 3);
    lemma_optionals(v.skip(3));
    let req = v.take(3);
    let opt = v.skip(3).map_values(|x: int| Some(x));
    assert(is_tail(Seq::<char>::empty()));
    assert(filled(req, opt) =~= v) by {
        assert forall|k: int| 0 <= k < FRAME_VALUES implies #[trigger] filled(req, opt)[k] == v[k] by {
            if k >= 3 {
                assert(opt[k - 3] == Some(v[k]));
            }
        }
    }
}

// ------------------------------------------------------------ what is read

/// Separators and blanks hold no number.
proof fn lemma_optionals_of_tail(tail: Seq<char>, n: nat)
    requires
        is_tail(tail),
    ensures
        forall|j: int| 0 <= j < optionals(tail, n).0.len() ==> #[trigger] optionals(tail, n).0[j]
            is None,
        is_tail(optionals(tail, n).1),
    decreases n,
{
    if n > 0 && tail.len() > 0 && tail[0] == ';' {
        let after = tail.skip(1);
        assert forall|i: int| 0 <= i < after.len() implies is_tail_char(#[trigger] after[i]) by {
            assert(after[i] == tail[i + 1]);
        }
        if after.len() > 0 {
            assert(is_tail_char(after[0]));
        }
        assert(digit_run(after) == 0);
        assert(signed_number(after) == (None::<int>, after));
        lemma_optionals_of_tail(after, (n - 1) as nat);
    }
}

/// Numbers that were written before separators, blanks and line ends are read
/// back as optional numbers.
proof fn lemma_optionals_before(v: Seq<int>, tail: Seq<char>, n: nat)
    requires
        v.len() <= n,
        is_tail(tail),
    ensures
        ({
            let (opt, rest) = optionals(fields_text(v) + tail, n);
            &&& is_tail(rest)
            &&& v.len() <= opt.len()
            &&& forall|j: int|
                0 <= j < opt.len() ==> #[trigger] opt[j] == if j < v.len() {
                    Some(v[j])
                } else {
                    None
                }
        }),
    decreases v.len(),
{
    let s = fields_text(v) + tail;
    if v.len() == 0 {
        assert(s =~= tail);
        lemma_optionals_of_tail(tail, n);
    } else {
        let more = v.drop_first();
        let rest = fields_text(more) + tail;
        lemma_fields_text_front(v);
        if more.len() > 0 {
            lemma_fields_text_front(more);
            assert(rest[0] == ';');
        } else {
            assert(rest =~= tail);
            if rest.len() > 0 {
                assert(is_tail_char(tail[0]));
            }
        }
        lemma_signed_number(v[0], rest);
        assert(s.skip(1) =~= int_text(v[0]) + rest);
        assert(s[0] == ';');
        lemma_optionals_before(more, tail, (n - 1) as nat);
        let (opt, end) = optionals(s, n);
        let (later, _) = optionals(rest, (n - 1) as nat);
        assert(opt =~= seq![Some(v[0])] + later);
        assert forall|j: int| 0 <= j < opt.len() implies #[trigger] opt[j] == if j < v.len() {
            Some(v[j])
        } else {
            None
        } by {
            if j > 0 {
                assert(opt[j] == later[j - 1]);
                if j < v.len() {
                    assert(more[j - 1] == v[j]);
                }
            }
        }
    }
}

/// Numbers that were written before any text that does not go on with a digit
/// are read back as required numbers, where none is negative.
proof fn lemma_required_before(v: Seq<int>, tail: Seq<char>, n: nat)
    requires
        n <= v.len(),
        tail.len() > 0 ==> !is_digit(tail[0]),
        forall|j: int| 0 <= j < n ==> #[trigger] v[j] >= 0,
    ensures
        required(fields_text(v) + tail, n) == (v.take(n as int), fields_text(v.skip(n as int)) + tail),
    decreases n,
{
    if n == 0 {
        assert(v.take(0) =~= Seq::<int>::empty());
        assert(v.skip(0) =~= v);
    } else {
        let more = v.drop_first();
        let rest = fields_text(more) + tail;
        let d = dec_text(v[0] as nat);
        lemma_fields_text_front(v);
        if more.len() > 0 {
            lemma_fields_text_front(more);
            assert(rest[0] == ';');
        } else {
            assert(rest =~= tail);
        }
        lemma_dec_text(v[0] as nat);
        lemma_run_before(d, rest);
        let s = fields_text(v) + tail;
        assert(s.skip(1) =~= d + rest);
        assert(s[0] == ';');
        assert forall|j: int| 0 <= j < n - 1 implies #[trigger] more[j] >= 0 by {
            assert(more[j] == v[j + 1]);
        }
        lemma_required_before(more, tail, (n - 1) as nat);
        assert(seq![v[0]] + more.take(n - 1) =~= v.take(n as int));
        assert(more.skip(n - 1) =~= v.skip(n as int));
    }
}

/// A line is read as it was written: what stands before the `$` is skipped, the
/// gear letter or digit is the gear, the numbers behind it keep their order, the
/// numbers that are left out are 100 for the four tyre wears and 0 otherwise, and
/// separators, blanks and line ends at the end change nothing.
pub proof fn lines_are_read_as_written(
    before: Seq<char>,
    gear: char,
    v: Seq<int>,
    tail: Seq<char>,
)
    requires
        forall|i: int| 0 <= i < before.len() ==> #[trigger] before[i] != '$',
        gear == 'R' || gear == 'N' || ('1' <= gear && gear <= '9'),
        3 <= v.len() <= 72,
        v[0] >= 0,
        v[1] >= 0,
        v[2] >= 0,
        forall|i: int|
            0 <= i < tail.len() ==> #[trigger] tail[i] == ';' || tail[i] == ' ' || tail[i] == '\t'
                || tail[i] == '\r' || tail[i] == '\n',
    ensures
        ({
            let line = before + seq!['$', gear] + fields_text(v) + tail;
            &&& frame_of(line) matches Some((g, w)) && g as char == gear && w.len() == 72 && (
            forall|k: int| 0 <= k < v.len() ==> #[trigger] w[k] == v[k]) && (forall|k: int|
                v.len() <= k < 72 ==> #[trigger] w[k] == if k == 42 || k == 43 || k == 44 || k == 45 {
                    100int
                } else {
                    0int
                })
            &&& numbers_fit(line) <==> forall|k: int|
                0 <= k < v.len() ==> -0x7fff_ffff <= #[trigger] v[k] <= 0x7fff_ffff
        }),
{
    let line = before + seq!['$', gear] + fields_text(v) + tail;
    let n = before.len() as int;
    assert forall|i: int| 0 <= i < n implies #[trigger] line[i] != '$' by {
        assert(line[i] == before[i]);
    }
    assert(line[n] == '$');
    lemma_find_is(line, '$', n);
    let body = line.skip(n + 1);
    assert(body =~= seq![gear] + fields_text(v) + tail);
    assert(body[0] == gear);
    assert(body.skip(1) =~= fields_text(v) + tail);
    assert forall|i: int| 0 <= i < tail.len() implies is_tail_char(#[trigger] tail[i]) by {}
    assert(is_tail(tail));
    if tail.len() > 0 {
        assert(is_tail_char(tail[0]));
    }
    assert forall|j: int| 0 <= j < 3 implies #[trigger] v[j] >= 0 by {}
    lemma_required_before(v, tail, 3);
    lemma_optionals_before(v.skip(3), tail, 69);
    let (req, more) = required(body.skip(1), 3);
    let (opt, rest) = optionals(more, 69);
    assert(req =~= v.take(3));
    let w = filled(req, opt);
    assert forall|k: int| 0 <= k < v.len() implies #[trigger] w[k] == v[k] by {
        if k >= 3 {
            assert(opt[k - 3] == Some(v.skip(3)[k - 3]));
        } else {
            assert(req[k] == v[k]);
        }
    }
    assert forall|k: int| v.len() <= k < 72 implies #[trigger] w[k] == if k == 42 || k == 43 || k
        == 44 || k == 45 {
        100int
    } else {
        0int
    } by {
        if k - 3 < opt.len() {
            assert(opt[k - 3] is None);
        }
    }
    if forall|k: int| 0 <= k < v.len() ==> -0x7fff_ffff <= #[trigger] v[k] <= 0x7fff_ffff {
        assert forall|k: int| 0 <= k < req.len() implies fits(#[trigger] req[k]) by {
            assert(req[k] == v[k]);
        }
        assert forall|k: int| 0 <= k < opt.len() && (#[trigger] opt[k]) is Some implies fits(
            opt[k]->0,
        ) by {
            assert(opt[k]->0 == v[k + 3]);
        }
    }
    if numbers_fit(line) {
        assert forall|k: int| 0 <= k < v.len() implies -0x7fff_ffff <= #[trigger] v[k]
            <= 0x7fff_ffff by {
            if k < 3 {
                assert(fits(req[k]));
                assert(req[k] == v[k]);
            } else {
                assert(opt[k - 3] == Some(v.skip(3)[k - 3]));
                assert(fits(opt[k - 3]->0));
            }
        }
    }
}

/// The text of a run of numbers is those numbers in order, a separator before
/// each: cut at the separators, a frame gives the gear mark and then the text of
/// each number.
pub proof fn frames_are_separated_numbers(gear: u8, v: Seq<int>)
    requires
        gear != 0x3B,
        gear < 128,
    ensures
        ({
            let parts = split(frame_text(gear, v), ';');
            &&& parts.len() == v.len() + 1
            &&& parts[0] == seq!['$', gear as char]
            &&& forall|k: int| 0 <= k < v.len() ==> #[trigger] parts[k + 1] == int_text(v[k])
        }),
{
    let head = seq!['$', gear as char];
    lemma_fields_split(head, v);
}

proof fn lemma_fields_split(head: Seq<char>, v: Seq<int>)
    requires
        forall|i: int| 0 <= i < head.len() ==> #[trigger] head[i] != ';',
    ensures
        ({
            let parts = split(head + fields_text(v), ';');
            &&& parts.len() == v.len() + 1
            &&& parts[0] == head
            &&& forall|k: int| 0 <= k < v.len() ==> #[trigger] parts[k + 1] == int_text(v[k])
        }),
    decreases v.len(),
{
    if v.len() == 0 {
        assert(head + fields_text(v) =~= head);
        lemma_no_split(head, ';');
        lemma_find_is(head, ';', head.len() as int);
    } else {
        let more = v.drop_first();
        let next = int_text(v[0]);
        lemma_fields_text_front(v);
        lemma_dec_text(
            if v[0] < 0 {
                (-v[0]) as nat
            } else {
                v[0] as nat
            },
        );
        let digits = dec_text(
            if v[0] < 0 {
                (-v[0]) as nat
            } else {
                v[0] as nat
            },
        );
        assert forall|i: int| 0 <= i < next.len() implies #[trigger] next[i] != ';' by {
            if v[0] < 0 {
                if i > 0 {
                    assert(next[i] == digits[i - 1]);
                    assert(is_digit(digits[i - 1]));
                }
            } else {
                assert(is_digit(digits[i]));
            }
        }
        lemma_fields_split(next, more);
        assert(head + fields_text(v) =~= head + seq![';'] + (next + fields_text(more)));
        lemma_split_front(head, ';', next + fields_text(more));
        let parts = split(head + fields_text(v), ';');
        let later = split(next + fields_text(more), ';');
        assert(parts =~= seq![head] + later);
        assert forall|k: int| 0 <= k < v.len() implies #[trigger] parts[k + 1] == int_text(v[k]) by {
            assert(parts[k + 1] == later[k]);
            if k > 0 {
                assert(later[(k - 1) + 1] == int_text(more[k - 1]));
                assert(more[k - 1] == v[k]);
            }
        }
    }
}

/// Each number of a frame has its own field: the record that is read from a line
/// holds the line's first number as the speed, its eleventh as the position, its
/// twelfth as the field size, and so on to the last.
pub proof fn numbers_land_in_their_fields(line: Seq<char>, v: Seq<int>, t: Telemetry)
    requires
        frame_of(line) == Some((t.gear, v)),
        frame_of(line) == Some((t.gear, t.frame_values())),
    ensures
        v.len() == 72,
        v[0] == t.speed_kmh,
        v[1] == t.rpm,
        v[2] == t.max_rpm,
        v[3] == t.shift_rpm,
        v[4] == t.cur_lap_ms,
        v[5] == t.last_lap_ms,
        v[6] == t.best_lap_ms,
        v[7] == t.pb_lap_ms,
        v[8] == t.est_lap_ms,
        v[9] == t.delta_ms,
        v[10] == t.position,
        v[11] == t.field_size,
        v[12] == t.laps_done,
        v[13] == t.total_laps,
        v[14] == t.laps_left,
        v[15] == t.water_c,
        v[16] == t.oil_c,
        v[17] == t.oil_press_x10,
        v[18] == t.boost_kpa,
        v[19] == t.tc,
        v[20] == t.abs,
        v[21] == t.brake_bias_x10,
        v[22] == t.fuel_dl,
        v[23] == t.fuel_cap_dl,
        v[24] == t.fuel_per_lap_ml,
        v[25] == t.fuel_laps_x10,
        v[26] == t.tt_fl_i,
        v[27] == t.tt_fl_m,
        v[28] == t.tt_fl_o,
        v[29] == t.tt_fr_i,
        v[30] == t.tt_fr_m,
        v[31] == t.tt_fr_o,
        v[32] == t.tt_rl_i,
        v[33] == t.tt_rl_m,
        v[34] == t.tt_rl_o,
        v[35] == t.tt_rr_i,
        v[36] == t.tt_rr_m,
        v[37] == t.tt_rr_o,
        v[38] == t.tp_fl,
        v[39] == t.tp_fr,
        v[40] == t.tp_rl,
        v[41] == t.tp_rr,
        v[42] == t.tw_fl,
        v[43] == t.tw_fr,
        v[44] == t.tw_rl,
        v[45] == t.tw_rr,
        v[46] == t.bt_fl,
        v[47] == t.bt_fr,
        v[48] == t.bt_rl,
        v[49] == t.bt_rr,
        v[50] == t.throttle,
        v[51] == t.brake,
        v[52] == t.clutch,
        v[53] == t.steer,
        v[54] == t.tc_active,
        v[55] == t.abs_active,
        v[56] == t.headlights,
        v[57] == t.wipers,
        v[58] == t.pit_limiter,
        v[59] == t.ignition,
        v[60] == t.flag,
        v[61] == t.track_pct,
        v[62] == t.pos_x,
        v[63] == t.pos_z,
        v[64] == t.s1_ms,
        v[65] == t.s2_ms,
        v[66] == t.s3_ms,
        v[67] == t.bs1_ms,
        v[68] == t.bs2_ms,
        v[69] == t.bs3_ms,
        v[70] == t.battery_pct,
        v[71] == t.ers_state,
{
    assert(v == t.frame_values());
}

/// Each id stands for one field of the record.
pub proof fn ids_stand_for_fields(t: Telemetry)
    ensures
        t.value(1) == t.speed_kmh,
        t.value(2) == t.rpm,
        t.value(3) == t.max_rpm,
        t.value(4) == t.shift_rpm,
        t.value(5) == t.cur_lap_ms,
        t.value(6) == t.last_lap_ms,
        t.value(7) == t.best_lap_ms,
        t.value(8) == t.pb_lap_ms,
        t.value(9) == t.est_lap_ms,
        t.value(10) == t.delta_ms,
        t.value(11) == t.position,
        t.value(12) == t.field_size,
        t.value(13) == t.laps_done,
        t.value(14) == t.total_laps,
        t.value(15) == t.laps_left,
        t.value(16) == t.water_c,
        t.value(17) == t.oil_c,
        t.value(18) == t.oil_press_x10,
        t.value(19) == t.boost_kpa,
        t.value(20) == t.tc,
        t.value(21) == t.abs,
        t.value(22) == t.brake_bias_x10,
        t.value(23) == t.fuel_dl,
        t.value(24) == t.fuel_cap_dl,
        t.value(25) == t.fuel_per_lap_ml,
        t.value(26) == t.fuel_laps_x10,
        t.value(27) == t.tt_fl_i,
        t.value(28) == t.tt_fl_m,
        t.value(29) == t.tt_fl_o,
        t.value(30) == t.tt_fr_i,
        t.value(31) == t.tt_fr_m,
        t.value(32) == t.tt_fr_o,
        t.value(33) == t.tt_rl_i,
        t.value(34) == t.tt_rl_m,
        t.value(35) == t.tt_rl_o,
        t.value(36) == t.tt_rr_i,
        t.value(37) == t.tt_rr_m,
        t.value(38) == t.tt_rr_o,
        t.value(39) == t.tp_fl,
        t.value(40) == t.tp_fr,
        t.value(41) == t.tp_rl,
        t.value(42) == t.tp_rr,
        t.value(43) == t.tw_fl,
        t.value(44) == t.tw_fr,
        t.value(45) == t.tw_rl,
        t.value(46) == t.tw_rr,
        t.value(47) == t.bt_fl,
        t.value(48) == t.bt_fr,
        t.value(49) == t.bt_rl,
        t.value(50) == t.bt_rr,
        t.value(51) == t.throttle,
        t.value(52) == t.brake,
        t.value(53) == t.clutch,
        t.value(54) == t.steer,
        t.value(55) == t.tc_active,
        t.value(56) == t.abs_active,
        t.value(57) == t.headlights,
        t.value(58) == t.wipers,
        t.value(59) == t.pit_limiter,
        t.value(60) == t.ignition,
        t.value(61) == t.flag,
        t.value(62) == t.track_pct,
        t.value(63) == t.pos_x,
        t.value(64) == t.pos_z,
        t.value(65) == t.s1_ms,
        t.value(66) == t.s2_ms,
        t.value(67) == t.s3_ms,
        t.value(68) == t.bs1_ms,
        t.value(69) == t.bs2_ms,
        t.value(70) == t.bs3_ms,
        t.value(71) == t.battery_pct,
        t.value(72) == t.ers_state,
        t.value(73) == t.tt_avg_fl,
        t.value(74) == t.tt_avg_fr,
        t.value(75) == t.tt_avg_rl,
        t.value(76) == t.tt_avg_rr,
        t.value(77) == t.tt_carc_fl,
        t.value(78) == t.tt_carc_fr,
        t.value(79) == t.tt_carc_rl,
        t.value(80) == t.tt_carc_rr,
        t.value(81) == t.comp_fl,
        t.value(82) == t.comp_fr,
        t.value(83) == t.comp_rl,
        t.value(84) == t.comp_rr,
        t.value(85) == t.tc_slip,
        t.value(86) == t.abs_slip,
        t.value(87) == t.virtual_energy,
        t.value(88) == t.ve_per_lap,
        t.value(89) == t.fuel_is_ve,
        t.value(90) == t.g_long_x100,
        t.value(91) == t.g_lat_x100,
        t.value(92) == t.wheel_slip,
        t.value(93) == t.susp_impact,
        forall|id: int| id < 1 || id > 93 ==> #[trigger] t.value(id) == 0,
{
}

/// Two records with the same gear and the same numbers are the same record.
pub proof fn records_are_their_numbers(a: Telemetry, b: Telemetry)
    requires
        a.gear == b.gear,
        forall|id: int| 1 <= id <= 93 ==> #[trigger] a.value(id) == b.value(id),
    ensures
        a == b,
{
    assert(a.value(1) == b.value(1));
    assert(a.value(2) == b.value(2));
    assert(a.value(3) == b.value(3));
    assert(a.value(4) == b.value(4));
    assert(a.value(5) == b.value(5));
    assert(a.value(6) == b.value(6));
    assert(a.value(7) == b.value(7));
    assert(a.value(8) == b.value(8));
    assert(a.value(9) == b.value(9));
    assert(a.value(10) == b.value(10));
    assert(a.value(11) == b.value(11));
    assert(a.value(12) == b.value(12));
    assert(a.value(13) == b.value(13));
    assert(a.value(14) == b.value(14));
    assert(a.value(15) == b.value(15));
    assert(a.value(16) == b.value(16));
    assert(a.value(17) == b.value(17));
    assert(a.value(18) == b.value(18));
    assert(a.value(19) == b.value(19));
    assert(a.value(20) == b.value(20));
    assert(a.value(21) == b.value(21));
    assert(a.value(22) == b.value(22));
    assert(a.value(23) == b.value(23));
    assert(a.value(24) == b.value(24));
    assert(a.value(25) == b.value(25));
    assert(a.value(26) == b.value(26));
    assert(a.value(27) == b.value(27));
    assert(a.value(28) == b.value(28));
    assert(a.value(29) == b.value(29));
    assert(a.value(30) == b.value(30));
    assert(a.value(31) == b.value(31));
    assert(a.value(32) == b.value(32));
    assert(a.value(33) == b.value(33));
    assert(a.value(34) == b.value(34));
    assert(a.value(35) == b.value(35));
    assert(a.value(36) == b.value(36));
    assert(a.value(37) == b.value(37));
    assert(a.value(38) == b.value(38));
    assert(a.value(39) == b.value(39));
    assert(a.value(40) == b.value(40));
    assert(a.value(41) == b.value(41));
    assert(a.value(42) == b.value(42));
    assert(a.value(43) == b.value(43));
    assert(a.value(44) == b.value(44));
    assert(a.value(45) == b.value(45));
    assert(a.value(46) == b.value(46));
    assert(a.value(47) == b.value(47));
    assert(a.value(48) == b.value(48));
    assert(a.value(49) == b.value(49));
    assert(a.value(50) == b.value(50));
    assert(a.value(51) == b.value(51));
    assert(a.value(52) == b.value(52));
    assert(a.value(53) == b.value(53));
    assert(a.value(54) == b.value(54));
    assert(a.value(55) == b.value(55));
    assert(a.value(56) == b.value(56));
    assert(a.value(57) == b.value(57));
    assert(a.value(58) == b.value(58));
    assert(a.value(59) == b.value(59));
    assert(a.value(60) == b.value(60));
    assert(a.value(61) == b.value(61));
    assert(a.value(62) == b.value(62));
    assert(a.value(63) == b.value(63));
    assert(a.value(64) == b.value(64));
    assert(a.value(65) == b.value(65));
    assert(a.value(66) == b.value(66));
    assert(a.value(67) == b.value(67));
    assert(a.value(68) == b.value(68));
    assert(a.value(69) == b.value(69));
    assert(a.value(70) == b.value(70));
    assert(a.value(71) == b.value(71));
    assert(a.value(72) == b.value(72));
    assert(a.value(73) == b.value(73));
    assert(a.value(74) == b.value(74));
    assert(a.value(75) == b.value(75));
    assert(a.value(76) == b.value(76));
    assert(a.value(77) == b.value(77));
    assert(a.value(78) == b.value(78));
    assert(a.value(79) == b.value(79));
    assert(a.value(80) == b.value(80));
    assert(a.value(81) == b.value(81));
    assert(a.value(82) == b.value(82));
    assert(a.value(83) == b.value(83));
    assert(a.value(84) == b.value(84));
    assert(a.value(85) == b.value(85));
    assert(a.value(86) == b.value(86));
    assert(a.value(87) == b.value(87));
    assert(a.value(88) == b.value(88));
    assert(a.value(89) == b.value(89));
    assert(a.value(90) == b.value(90));
    assert(a.value(91) == b.value(91));
    assert(a.value(92) == b.value(92));
    assert(a.value(93) == b.value(93));
}

/// A gear written as a number: any negative number is reverse and 0 is neutral,
/// whatever follows.
pub proof fn numbered_gears_are_read(digits: Seq<char>, rest: Seq<char>)
    requires
        forall|i: int| 0 <= i < digits.len() ==> '0' <= #[trigger] digits[i] && digits[i] <= '9',
        rest.len() > 0 ==> rest[0] == ';',
    ensures
        frame_of(seq!['$', '-'] + digits + rest) == frame_of(seq!['$', 'R'] + rest),
        frame_of(seq!['$', '0'] + rest) == frame_of(seq!['$', 'N'] + rest),
        frame_of(seq!['$', 'R'] + rest) matches Some((g, w)) ==> g == 0x52,
        frame_of(seq!['$', 'N'] + rest) matches Some((g, w)) ==> g == 0x4E,
{
    let a = seq!['$', '-'] + digits + rest;
    let b = seq!['$', 'R'] + rest;
    let c = seq!['$', '0'] + rest;
    let d = seq!['$', 'N'] + rest;
    lemma_find_is(a, '$', 0);
    lemma_find_is(b, '$', 0);
    lemma_find_is(c, '$', 0);
    lemma_find_is(d, '$', 0);
    assert(a.skip(1).skip(1) =~= digits + rest);
    lemma_run_before(digits, rest);
    assert(b.skip(1).skip(1) =~= rest);
    assert(c.skip(1).skip(1) =~= rest);
    assert(d.skip(1).skip(1) =~= rest);
}

/// A line without a `$`, a line whose `$` no gear follows, and a line that goes on
/// with another character right behind its last number are no frames.
pub proof fn other_lines_are_refused(
    line: Seq<char>,
    gear: char,
    v: Seq<int>,
    c: char,
    more: Seq<char>,
)
    requires
        forall|i: int| 0 <= i < line.len() ==> #[trigger] line[i] != '$',
        3 <= v.len() <= 72,
        v[0] >= 0,
        v[1] >= 0,
        v[2] >= 0,
        c < '0' || c > '9',
        c != ';' && c != ' ' && c != '\t' && c != '\r' && c != '\n',
    ensures
        frame_of(line) is None,
        c != 'R' && c != 'N' && c != '-' ==> frame_of(seq!['$', c] + more) is None,
        frame_of(seq!['$', gear] + fields_text(v) + seq![c] + more) is None,
{
    lemma_find_is(line, '$', line.len() as int);
    lemma_find_is(seq!['$', c] + more, '$', 0);
    assert((seq!['$', c] + more).skip(1)[0] == c);
    let s = seq!['$', gear] + fields_text(v) + seq![c] + more;
    let tail = seq![c] + more;
    lemma_find_is(s, '$', 0);
    let body = s.skip(1);
    assert(body[0] == gear);
    assert(body.skip(1) =~= fields_text(v) + tail);
    lemma_fields_text_front(v);
    assert(digit_run(body.skip(1)) == 0);
    assert(body.skip(1).skip(0) =~= body.skip(1));
    assert forall|j: int| 0 <= j < 3 implies #[trigger] v[j] >= 0 by {}
    lemma_required_before(v, tail, 3);
    lemma_optionals_stop(v.skip(3), tail, 69);
    assert(!is_tail(tail)) by {
        assert(!is_tail_char(tail[0]));
    }
}

/// Reading optional numbers stops at a character that no number starts with.
proof fn lemma_optionals_stop(v: Seq<int>, tail: Seq<char>, n: nat)
    requires
        v.len() <= n,
        tail.len() > 0,
        tail[0] != ';',
        !is_digit(tail[0]),
    ensures
        optionals(fields_text(v) + tail, n).1 == tail,
    decreases v.len(),
{
    let s = fields_text(v) + tail;
    if v.len() == 0 {
        assert(s =~= tail);
    } else {
        let more = v.drop_first();
        let rest = fields_text(more) + tail;
        lemma_fields_text_front(v);
        if more.len() > 0 {
            lemma_fields_text_front(more);
            assert(rest[0] == ';');
        } else {
            assert(rest =~= tail);
        }
        lemma_signed_number(v[0], rest);
        assert(s.skip(1) =~= int_text(v[0]) + rest);
        assert(s[0] == ';');
        lemma_optionals_stop(more, tail, (n - 1) as nat);
    }
}

/// A cleared record has its gear and nothing else.
pub proof fn cleared_records_hold_nothing(gear: u8)
    ensures
        ({
            let t = Telemetry::cleared(gear);
            &&& t.gear == gear
            &&& t.speed_kmh == 0 && t.rpm == 0 && t.max_rpm == 0 && t.shift_rpm == 0
            &&& t.cur_lap_ms == 0 && t.last_lap_ms == 0 && t.best_lap_ms == 0 && t.pb_lap_ms == 0
            &&& t.est_lap_ms == 0 && t.delta_ms == 0 && t.position == 0 && t.field_size == 0
            &&& t.laps_done == 0 && t.total_laps == 0 && t.laps_left == 0 && t.water_c == 0
            &&& t.oil_c == 0 && t.oil_press_x10 == 0 && t.boost_kpa == 0 && t.tc == 0
            &&& t.abs == 0 && t.brake_bias_x10 == 0 && t.fuel_dl == 0 && t.fuel_cap_dl == 0
            &&& t.fuel_per_lap_ml == 0 && t.fuel_laps_x10 == 0 && t.tt_fl_i == 0 && t.tt_fl_m == 0
            &&& t.tt_fl_o == 0 && t.tt_fr_i == 0 && t.tt_fr_m == 0 && t.tt_fr_o == 0
            &&& t.tt_rl_i == 0 && t.tt_rl_m == 0 && t.tt_rl_o == 0 && t.tt_rr_i == 0
            &&& t.tt_rr_m == 0 && t.tt_rr_o == 0 && t.tp_fl == 0 && t.tp_fr == 0
            &&& t.tp_rl == 0 && t.tp_rr == 0 && t.tw_fl == 0 && t.tw_fr == 0
            &&& t.tw_rl == 0 && t.tw_rr == 0 && t.bt_fl == 0 && t.bt_fr == 0
            &&& t.bt_rl == 0 && t.bt_rr == 0 && t.throttle == 0 && t.brake == 0
            &&& t.clutch == 0 && t.steer == 0 && t.tc_active == 0 && t.abs_active == 0
            &&& t.headlights == 0 && t.wipers == 0 && t.pit_limiter == 0 && t.ignition == 0
            &&& t.flag == 0 && t.track_pct == 0 && t.pos_x == 0 && t.pos_z == 0
            &&& t.s1_ms == 0 && t.s2_ms == 0 && t.s3_ms == 0 && t.bs1_ms == 0
            &&& t.bs2_ms == 0 && t.bs3_ms == 0 && t.battery_pct == 0 && t.ers_state == 0
            &&& t.tt_avg_fl == 0 && t.tt_avg_fr == 0 && t.tt_avg_rl == 0 && t.tt_avg_rr == 0
            &&& t.tt_carc_fl == 0 && t.tt_carc_fr == 0 && t.tt_carc_rl == 0 && t.tt_carc_rr == 0
            &&& t.comp_fl == 0 && t.comp_fr == 0 && t.comp_rl == 0 && t.comp_rr == 0
            &&& t.tc_slip == 0 && t.abs_slip == 0 && t.virtual_energy == 0 && t.ve_per_lap == 0
            &&& t.fuel_is_ve == 0 && t.g_long_x100 == 0 && t.g_lat_x100 == 0 && t.wheel_slip == 0
            &&& t.susp_impact == 0
        }),
{
}

} // verus!
