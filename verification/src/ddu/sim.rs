//! The bench simulation: a sweep through the gears that stands in for telemetry.

use vstd::prelude::*;
use crate::simhub::{Telemetry, GEAR_N};

verus! {

/// The RPM to shift at.
pub const SHIFT: i32 = 8100;

/// Where the sweep is.
#[derive(Clone, Copy, Debug, PartialEq, Eq, Structural)]
pub struct Sim {
    pub phase: i32,
    pub gear: i32,
    pub rpm: i32,
    pub accel: bool,
    pub lap: i32,
}

/// The sweep after one more step: up through the gears, then down in the last one,
/// which completes a lap.
pub open spec fn stepped(s: Sim) -> Sim {
    let p = Sim { phase: (s.phase + 1) as i32, ..s };
    if s.accel {
        if s.rpm + 220 < SHIFT {
            Sim { rpm: (s.rpm + 220) as i32, ..p }
        } else if s.gear < 6 {
            Sim { gear: (s.gear + 1) as i32, rpm: 5200, ..p }
        } else {
            Sim { rpm: (s.rpm + 220) as i32, accel: false, ..p }
        }
    } else if s.rpm - 180 > 1500 {
        Sim { rpm: (s.rpm - 180) as i32, ..p }
    } else {
        Sim { gear: 1, rpm: 1500, accel: true, lap: (s.lap + 1) as i32, ..p }
    }
}

/// What the sweep shows.
pub open spec fn sim_frame(s: Sim) -> Telemetry {
    let tyre = 80 + s.phase as int / 8 % 30;
    Telemetry {
        gear: (0x30 + s.gear) as u8,
        speed_kmh: (s.gear * 38 + (s.rpm - 1500) / 60) as i32,
        rpm: s.rpm,
        max_rpm: 8800,
        shift_rpm: SHIFT,
        cur_lap_ms: (s.phase * 50 % 95000) as i32,
        last_lap_ms: 84012,
        best_lap_ms: 82900,
        pb_lap_ms: 82500,
        est_lap_ms: 83100,
        delta_ms: (-3000 + s.phase as int % 60 * 100) as i32,
        position: 4,
        field_size: 20,
        laps_done: s.lap,
        total_laps: 30,
        laps_left: (30 - s.lap as int % 30) as i32,
        water_c: 90,
        oil_c: 105,
        tc: 4,
        abs: 2,
        brake_bias_x10: 565,
        fuel_dl: (700 - s.lap as int % 80 * 8) as i32,
        fuel_cap_dl: 750,
        tt_fl_m: (tyre + 4) as i32,
        tt_fr_m: (tyre + 5) as i32,
        tt_rl_m: (tyre + 2) as i32,
        tt_rr_m: (tyre + 3) as i32,
        throttle: if s.accel {
            100
        } else {
            0
        },
        brake: if s.accel {
            0
        } else {
            85
        },
        tc_active: if s.accel && s.rpm > 7400 {
            1
        } else {
            0
        },
        abs_active: if !s.accel && s.rpm < 4000 {
            1
        } else {
            0
        },
        s1_ms: 28000,
        s2_ms: 30900,
        s3_ms: 25600,
        bs1_ms: 28100,
        bs2_ms: 30900,
        bs3_ms: 25600,
        ..Telemetry::cleared(GEAR_N)
    }
}

impl Sim {
    /// The gear is 1 to 6, and the engine speed within the sweep.
    pub open spec fn wf(self) -> bool {
        &&& self.phase >= 0
        &&& 1 <= self.lap <= self.phase + 1
        &&& 1 <= self.gear <= 6
        &&& 1500 <= self.rpm
        &&& if self.accel {
            self.rpm < SHIFT
        } else {
            self.gear == 6 && self.rpm < SHIFT + 220
        }
    }

    /// The beginning of the sweep.
    pub fn new() -> (r: Sim)
        ensures
            r == (Sim { phase: 0, gear: 1, rpm: 1500, accel: true, lap: 1 }),
            r.wf(),
    {
        Sim { phase: 0, gear: 1, rpm: 1500, accel: true, lap: 1 }
    }

    /// Goes on by one step and shows it. The lap time is computed in 32 bits, which
    /// lasts for 42 million steps.
    pub fn step(&mut self) -> (t: Telemetry)
        requires
            old(self).wf(),
            (old(self).phase + 1) * 50 <= i32::MAX,
        ensures
            *final(self) == stepped(*old(self)),
            final(self).wf(),
            t == sim_frame(*final(self)),
    {
        self.phase = self.phase + 1;
        if self.accel {
            self.rpm = self.rpm + 220;
            if self.rpm >= SHIFT {
                if self.gear < 6 {
                    self.gear = self.gear + 1;
                    self.rpm = 5200;
                } else {
                    self.accel = false;
                }
            }
        } else {
            self.rpm = self.rpm - 180;
            if self.rpm <= 1500 {
                self.gear = 1;
                self.rpm = 1500;
                self.accel = true;
                self.lap = self.lap + 1;
            }
        }
        let trel: i32 = (self.rpm - 1500) / 60;
        let mut t = Telemetry::idle();
        t.gear = 0x30 + self.gear as u8;
        t.speed_kmh = self.gear * 38 + trel;
        t.rpm = self.rpm;
        t.max_rpm = 8800;
        t.shift_rpm = SHIFT;
        t.cur_lap_ms = self.phase * 50 % 95000;
        t.last_lap_ms = 84012;
        t.best_lap_ms = 82900;
        t.pb_lap_ms = 82500;
        t.est_lap_ms = 83100;
        t.delta_ms = -3000 + self.phase % 60 * 100;
        t.position = 4;
        t.field_size = 20;
        t.laps_done = self.lap;
        t.total_laps = 30;
        t.laps_left = 30 - self.lap % 30;
        t.water_c = 90;
        t.oil_c = 105;
        t.tc = 4;
        t.abs = 2;
        t.brake_bias_x10 = 565;
        t.fuel_dl = 700 - self.lap % 80 * 8;
        t.fuel_cap_dl = 750;
        let tb: i32 = 80 + self.phase / 8 % 30;
        t.tt_fl_m = tb + 4;
        t.tt_fr_m = tb + 5;
        t.tt_rl_m = tb + 2;
        t.tt_rr_m = tb + 3;
        t.throttle = if self.accel {
            100
        } else {
            0
        };
        t.brake = if self.accel {
            0
        } else {
            85
        };
        t.tc_active = if self.accel && self.rpm > 7400 {
            1
        } else {
            0
        };
        t.abs_active = if !self.accel && self.rpm < 4000 {
            1
        } else {
            0
        };
        t.s1_ms = 28000;
        t.s2_ms = 30900;
        t.s3_ms = 25600;
        t.bs1_ms = 28100;
        t.bs2_ms = 30900;
        t.bs3_ms = 25600;
        t
    }
}

/// The sweep after a number of steps.
pub open spec fn after_steps(s: Sim, n: nat) -> Sim
    decreases n,
{
    if n == 0 {
        s
    } else {
        stepped(after_steps(s, (n - 1) as nat))
    }
}

/// The sweep never leaves its range, and the bench never sees the throttle and the
/// brake at once.
pub proof fn sweep_stays_in_range(s: Sim, n: nat)
    requires
        s.wf(),
        (s.phase + n) * 50 <= i32::MAX,
    ensures
        after_steps(s, n).wf(),
        after_steps(s, n).phase == s.phase + n,
        sim_frame(after_steps(s, n)).throttle == 0 || sim_frame(after_steps(s, n)).brake == 0,
        0 <= sim_frame(after_steps(s, n)).speed_kmh <= 6 * 38 + 113,
    decreases n,
{
    if n > 0 {
        sweep_stays_in_range(s, (n - 1) as nat);
    }
}

/// Each step adds 220 RPM while the throttle is open; where that would reach 8100,
/// the next gear is taken at 5200, and in the sixth the brake takes over. Braking
/// takes 180 RPM a step, and at 1500 the next lap begins in first gear.
pub proof fn steps_of_the_sweep(s: Sim)
    requires
        s.wf(),
        s.phase < i32::MAX,
        s.lap < i32::MAX,
    ensures
        ({
            let n = stepped(s);
            &&& n.phase == s.phase + 1
            &&& s.accel && s.rpm < 7880 ==> n.rpm == s.rpm + 220 && n.gear == s.gear && n.accel
                && n.lap == s.lap
            &&& s.accel && s.rpm >= 7880 && s.gear < 6 ==> n.rpm == 5200 && n.gear == s.gear + 1
                && n.accel && n.lap == s.lap
            &&& s.accel && s.rpm >= 7880 && s.gear == 6 ==> n.rpm == s.rpm + 220 && n.gear == 6
                && !n.accel && n.lap == s.lap
            &&& !s.accel && s.rpm > 1680 ==> n.rpm == s.rpm - 180 && n.gear == s.gear && !n.accel
                && n.lap == s.lap
            &&& !s.accel && s.rpm <= 1680 ==> n.rpm == 1500 && n.gear == 1 && n.accel && n.lap
                == s.lap + 1
        }),
{
}

/// What the bench sees of a state of the sweep: its gear as a digit, its engine
/// speed, its lap and its pedals; traction control acts near the shift point under
/// power and the ABS under braking at low speed. The speed grows with the gear and
/// the engine speed, and every whole lap is shown as done.
pub proof fn frames_show_the_sweep(s: Sim)
    requires
        s.wf(),
        s.phase * 50 <= i32::MAX,
    ensures
        ({
            let t = sim_frame(s);
            &&& t.gear == '0' as u8 + s.gear
            &&& t.rpm == s.rpm
            &&& t.shift_rpm == 8100
            &&& t.max_rpm == 8800
            &&& 60 * (t.speed_kmh - 38 * s.gear) <= s.rpm - 1500 < 60 * (t.speed_kmh - 38 * s.gear)
                + 60
            &&& t.laps_done == s.lap
            &&& 0 <= t.cur_lap_ms < 95000
            &&& s.phase < 1900 ==> t.cur_lap_ms == 50 * s.phase
            &&& s.accel ==> t.throttle == 100 && t.brake == 0 && t.abs_active == 0
            &&& !s.accel ==> t.throttle == 0 && t.brake == 85 && t.tc_active == 0
            &&& t.tc_active == 1 <==> s.accel && s.rpm > 7400
            &&& t.abs_active == 1 <==> !s.accel && s.rpm < 4000
            &&& t.position == 4 && t.field_size == 20
            &&& t.total_laps == 30
            &&& s.lap < 30 ==> t.laps_left == 30 - s.lap
            &&& s.lap < 80 ==> t.fuel_dl == 700 - 8 * s.lap
            &&& t.fuel_cap_dl == 750
            &&& s.phase < 60 ==> t.delta_ms == 100 * s.phase - 3000
            &&& t.tt_fl_m == t.tt_rr_m + 1 && t.tt_fr_m == t.tt_rr_m + 2 && t.tt_rl_m + 1
                == t.tt_rr_m
            &&& 83 <= t.tt_rr_m < 113
        }),
{
}

/// What a simulated frame shows besides: laps, sectors, temperatures and settings that
/// stay, tyres that warm with the time, and nothing else.
pub proof fn frames_show_fixed_values(s: Sim)
    ensures
        ({
            let t = sim_frame(s);
            &&& t.last_lap_ms == 84012 && t.best_lap_ms == 82900
            &&& t.pb_lap_ms == 82500 && t.est_lap_ms == 83100
            &&& t.water_c == 90 && t.oil_c == 105
            &&& t.tc == 4 && t.abs == 2 && t.brake_bias_x10 == 565
            &&& t.s1_ms == 28000 && t.s2_ms == 30900 && t.s3_ms == 25600
            &&& t.bs1_ms == 28100 && t.bs2_ms == 30900 && t.bs3_ms == 25600
            &&& 0 <= s.phase < 240 ==> 8 * (t.tt_rl_m - 82) <= s.phase < 8 * (t.tt_rl_m - 82) + 8
            &&& t.oil_press_x10 == 0 && t.boost_kpa == 0 && t.fuel_per_lap_ml == 0
            &&& t.clutch == 0 && t.steer == 0 && t.flag == 0 && t.headlights == 0
            &&& t.tp_fl == 0 && t.tp_fr == 0 && t.tp_rl == 0 && t.tp_rr == 0
            &&& t.battery_pct == 0 && t.virtual_energy == 0 && t.track_pct == 0
        }),
{
}

} // verus!
