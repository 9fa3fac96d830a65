//! What is exchanged with a pedal: its configuration, the live effects, and its
//! state. Every number is an integer; those with a decimal are scaled by ten.

use vstd::prelude::*;

verus! {

/// Which pedal a device is.
#[derive(Clone, Copy, Debug, PartialEq, Eq, Structural)]
pub enum PedalId {
    Clutch,
    Brake,
    Throttle,
}

/// One of the general-purpose vibration slots.
#[derive(Clone, Copy, Debug, PartialEq, Eq, Structural)]
pub struct CustomVibration {
    pub amplitude: u8,
    pub frequency_hz: u8,
}

impl Default for CustomVibration {
    fn default() -> (r: CustomVibration)
        ensures
            r == (CustomVibration { amplitude: 0, frequency_hz: 0 }),
    {
        CustomVibration { amplitude: 0, frequency_hz: 0 }
    }
}

/// The configuration of a pedal: travel, force range and curve, effects, geometry
/// and calibration.
#[derive(Clone, Debug, PartialEq)]
pub struct PedalConfig {
    // Travel in percent of the physical range
    pub pedal_start_pct: u8,
    pub pedal_end_pct: u8,
    // Force range (N, one decimal)
    pub max_force_n_x10: u16,
    pub preload_force_n_x10: u16,
    // Force over travel, up to 11 points (percent, one decimal)
    pub curve_travel_pct_x10: Vec<u16>,
    pub curve_force_pct_x10: Vec<u16>,
    // Remap of the joystick output, up to 11 points (percent, one decimal)
    pub joystick_map_orig_pct_x10: Vec<u16>,
    pub joystick_map_mapped_pct_x10: Vec<u16>,
    // ABS pulsation; the amplitude is in kg/20
    pub abs_frequency_hz: u8,
    pub abs_amplitude_kg20: u8,
    pub abs_sawtooth: bool,
    pub abs_affects_travel: bool,
    // Linkage geometry (mm)
    pub length_a_mm: i16,
    pub length_b_mm: i16,
    pub length_d_mm: i16,
    pub length_c_horizontal_mm: i16,
    pub length_c_vertical_mm: i16,
    pub length_travel_mm: i16,
    // ABS test
    pub simulate_abs: bool,
    pub simulate_abs_value: u8,
    // RPM vibration
    pub rpm_max_freq_hz: u8,
    pub rpm_min_freq_hz: u8,
    pub rpm_amplitude_kg: u8,
    // Clutch bite point
    pub bite_point_trigger_pct: u8,
    pub bite_point_amplitude: u8,
    pub bite_point_freq_hz: u8,
    pub bite_point_enabled: bool,
    // Weight transfer
    pub g_multiplier: u8,
    pub g_window: u8,
    // Wheel slip
    pub wheel_slip_amplitude: u8,
    pub wheel_slip_freq_hz: u8,
    // Kerbs and bumps
    pub road_impact_multiplier: u8,
    pub road_impact_window: u8,
    // General-purpose vibration
    pub custom_vibration: [CustomVibration; 4],
    pub max_game_output_pct: u8,
    // Filters
    pub kf_force_model_noise: u8,
    pub kf_force_model_order: u8,
    pub kf_joystick_enabled: bool,
    pub kf_joystick_model_noise: u8,
    pub debug_flags: u8,
    // Load cell and calibration
    pub loadcell_rating_kg: u8,
    pub travel_as_joystick_output: bool,
    pub invert_loadcell: bool,
    pub invert_motor_direction: bool,
    pub spindle_pitch_mm_per_rev: u8,
    // Identity and supervision
    pub pedal_type: PedalId,
    pub step_loss_recovery: bool,
    pub crash_detection: bool,
    pub servo_idle_timeout_s: u8,
    pub min_force_for_effects_n: u8,
    pub config_hash: u32,
    pub endstop_detection_threshold: u8,
    // Virtual pedal
    pub virtual_mass_pct: u8,
    pub virtual_damping_pct: u8,
    // Endstop feel
    pub endstop_stiffness_kg_per_mm: u8,
    pub endstop_travel_range_mm: u8,
    // Progression and static friction
    pub damping_progression: u8,
    pub coulomb_friction_0p1n: u8,
}

/// The force range of a pedal as it comes (N, one decimal).
pub open spec fn stock_force(id: PedalId) -> u16 {
    match id {
        PedalId::Brake => 6000,
        PedalId::Clutch => 2000,
        PedalId::Throttle => 500,
    }
}

impl PedalConfig {
    /// The conservative configuration a pedal starts with: a straight curve over
    /// the full travel, every effect at amplitude 0.
    pub open spec fn is_stock(self, id: PedalId) -> bool {
        &&& self.max_force_n_x10 == stock_force(id)
        &&& self.pedal_type == id
        &&& self.custom_vibration@ == Seq::new(
            4,
            |k: int| CustomVibration { amplitude: 0, frequency_hz: 0 },
        )
        &&& self.pedal_start_pct == 0
        &&& self.pedal_end_pct == 100
        &&& self.preload_force_n_x10 == 0
        &&& self.curve_travel_pct_x10@ == seq![0u16, 1000u16]
        &&& self.curve_force_pct_x10@ == seq![0u16, 1000u16]
        &&& self.joystick_map_orig_pct_x10@ == seq![0u16, 1000u16]
        &&& self.joystick_map_mapped_pct_x10@ == seq![0u16, 1000u16]
        &&& self.abs_frequency_hz == 12
        &&& self.abs_amplitude_kg20 == 0
        &&& self.abs_sawtooth == false
        &&& self.abs_affects_travel == false
        &&& self.length_a_mm == 0
        &&& self.length_b_mm == 0
        &&& self.length_d_mm == 0
        &&& self.length_c_horizontal_mm == 0
        &&& self.length_c_vertical_mm == 0
        &&& self.length_travel_mm == 0
        &&& self.simulate_abs == false
        &&& self.simulate_abs_value == 0
        &&& self.rpm_max_freq_hz == 0
        &&& self.rpm_min_freq_hz == 0
        &&& self.rpm_amplitude_kg == 0
        &&& self.bite_point_trigger_pct == 0
        &&& self.bite_point_amplitude == 0
        &&& self.bite_point_freq_hz == 0
        &&& self.bite_point_enabled == false
        &&& self.g_multiplier == 0
        &&& self.g_window == 0
        &&& self.wheel_slip_amplitude == 0
        &&& self.wheel_slip_freq_hz == 0
        &&& self.road_impact_multiplier == 0
        &&& self.road_impact_window == 0
        &&& self.max_game_output_pct == 100
        &&& self.kf_force_model_noise == 10
        &&& self.kf_force_model_order == 1
        &&& self.kf_joystick_enabled == false
        &&& self.kf_joystick_model_noise == 10
        &&& self.debug_flags == 0
        &&& self.loadcell_rating_kg == 50
        &&& self.travel_as_joystick_output == false
        &&& self.invert_loadcell == false
        &&& self.invert_motor_direction == false
        &&& self.spindle_pitch_mm_per_rev == 4
        &&& self.step_loss_recovery == true
        &&& self.crash_detection == true
        &&& self.servo_idle_timeout_s == 30
        &&& self.min_force_for_effects_n == 5
        &&& self.config_hash == 0
        &&& self.endstop_detection_threshold == 10
        &&& self.virtual_mass_pct == 20
        &&& self.virtual_damping_pct == 50
        &&& self.endstop_stiffness_kg_per_mm == 10
        &&& self.endstop_travel_range_mm == 2
        &&& self.damping_progression == 0
        &&& self.coulomb_friction_0p1n == 0
    }

    /// The configuration a pedal starts with.
    pub fn defaults(pedal_type: PedalId) -> (r: PedalConfig)
        ensures
            r.is_stock(pedal_type),
    {
        let r = PedalConfig {
            pedal_start_pct: 0,
            pedal_end_pct: 100,
            max_force_n_x10: match pedal_type {
                PedalId::Brake => 6000,
                PedalId::Clutch => 2000,
                PedalId::Throttle => 500,
            },
            preload_force_n_x10: 0,
            curve_travel_pct_x10: straight(),
            curve_force_pct_x10: straight(),
            joystick_map_orig_pct_x10: straight(),
            joystick_map_mapped_pct_x10: straight(),
            abs_frequency_hz: 12,
            abs_amplitude_kg20: 0,
            abs_sawtooth: false,
            abs_affects_travel: false,
            length_a_mm: 0,
            length_b_mm: 0,
            length_d_mm: 0,
            length_c_horizontal_mm: 0,
            length_c_vertical_mm: 0,
            length_travel_mm: 0,
            simulate_abs: false,
            simulate_abs_value: 0,
            rpm_max_freq_hz: 0,
            rpm_min_freq_hz: 0,
            rpm_amplitude_kg: 0,
            bite_point_trigger_pct: 0,
            bite_point_amplitude: 0,
            bite_point_freq_hz: 0,
            bite_point_enabled: false,
            g_multiplier: 0,
            g_window: 0,
            wheel_slip_amplitude: 0,
            wheel_slip_freq_hz: 0,
            road_impact_multiplier: 0,
            road_impact_window: 0,
            custom_vibration: [CustomVibration { amplitude: 0, frequency_hz: 0 }; 4],
            max_game_output_pct: 100,
            kf_force_model_noise: 10,
            kf_force_model_order: 1,
            kf_joystick_enabled: false,
            kf_joystick_model_noise: 10,
            debug_flags: 0,
            loadcell_rating_kg: 50,
            travel_as_joystick_output: false,
            invert_loadcell: false,
            invert_motor_direction: false,
            spindle_pitch_mm_per_rev: 4,
            pedal_type,
            step_loss_recovery: true,
            crash_detection: true,
            servo_idle_timeout_s: 30,
            min_force_for_effects_n: 5,
            config_hash: 0,
            endstop_detection_threshold: 10,
            virtual_mass_pct: 20,
            virtual_damping_pct: 50,
            endstop_stiffness_kg_per_mm: 10,
            endstop_travel_range_mm: 2,
            damping_progression: 0,
            coulomb_friction_0p1n: 0,
        };
        proof {
            assert(r.custom_vibration@ =~= Seq::new(
                4,
                |k: int| CustomVibration { amplitude: 0, frequency_hz: 0 },
            ));
        }
        r
    }
}

/// The end points of a straight curve.
fn straight() -> (v: Vec<u16>)
    ensures
        v@ == seq![0u16, 1000u16],
{
    let mut v: Vec<u16> = Vec::new();
    v.push(0);
    v.push(1000);
    proof {
        assert(v@ =~= seq![0u16, 1000u16]);
    }
    v
}

impl Default for PedalConfig {
    /// A brake pedal as it comes.
    fn default() -> (r: PedalConfig)
        ensures
            r.is_stock(PedalId::Brake),
    {
        PedalConfig::defaults(PedalId::Brake)
    }
}

/// The live effects: one magnitude per effect.
#[derive(Clone, Copy, Debug, PartialEq)]
pub struct PedalAction {
    pub trigger_abs: bool,
    /// Surface condition; 0 is unknown.
    pub track_condition: u8,
    /// 0..255 for 0..100 % of the redline.
    pub rpm_pct: u8,
    /// Centred on 128: 128 is no G, less is braking, more is accelerating.
    pub g_value: u8,
    /// 0..255 for 0..100 % slip.
    pub wheel_slip: u8,
    /// 0..255, road and kerb impacts.
    pub impact_value: u8,
    /// The general-purpose slots.
    pub trigger_cv: [bool; 4],
}

impl PedalAction {
    /// No effect at all.
    pub open spec fn is_quiet(self) -> bool {
        &&& !self.trigger_abs
        &&& self.track_condition == 0
        &&& self.rpm_pct == 0
        &&& self.g_value == 128
        &&& self.wheel_slip == 0
        &&& self.impact_value == 0
        &&& self.trigger_cv@ == Seq::new(4, |k: int| false)
    }
}

impl Default for PedalAction {
    fn default() -> (r: PedalAction)
        ensures
            r.is_quiet(),
    {
        let r = PedalAction {
            trigger_abs: false,
            track_condition: 0,
            rpm_pct: 0,
            g_value: 128,
            wheel_slip: 0,
            impact_value: 0,
            trigger_cv: [false; 4],
        };
        proof {
            assert(r.trigger_cv@ =~= Seq::new(4, |k: int| false));
        }
        r
    }
}

/// The state of a pedal.
#[derive(Clone, Copy, Debug, PartialEq, Eq, Structural)]
pub struct PedalState {
    /// 0..1000, percent with one decimal.
    pub position_pct_x10: u16,
    /// Newton with one decimal.
    pub force_n_x10: u16,
    /// The axis.
    pub joystick_output: u16,
    pub error_code: u8,
    pub servo_on: bool,
}

impl Default for PedalState {
    fn default() -> (r: PedalState)
        ensures
            r == (PedalState {
                position_pct_x10: 0,
                force_n_x10: 0,
                joystick_output: 0,
                error_code: 0,
                servo_on: false,
            }),
    {
        PedalState {
            position_pct_x10: 0,
            force_n_x10: 0,
            joystick_output: 0,
            error_code: 0,
            servo_on: false,
        }
    }
}

// -------------------------------------------------------------------- laws

/// A pedal as it comes is gentle: its whole travel, a straight curve, no preload and
/// every effect silent; a brake takes 600 N, a clutch 200 and a throttle 50.
pub proof fn stock_pedals_are_gentle(c: PedalConfig, id: PedalId)
    requires
        c.is_stock(id),
    ensures
        id == PedalId::Brake ==> c.max_force_n_x10 == 6000,
        id == PedalId::Clutch ==> c.max_force_n_x10 == 2000,
        id == PedalId::Throttle ==> c.max_force_n_x10 == 500,
        c.pedal_type == id,
        c.curve_travel_pct_x10@.len() == 2 && c.curve_travel_pct_x10@[0] == 0
            && c.curve_travel_pct_x10@[1] == 1000,
        c.curve_force_pct_x10@ == c.curve_travel_pct_x10@,
        c.joystick_map_orig_pct_x10@ == c.curve_travel_pct_x10@,
        c.joystick_map_mapped_pct_x10@ == c.curve_travel_pct_x10@,
        forall|k: int|
            0 <= k < 4 ==> (#[trigger] c.custom_vibration@[k]).amplitude == 0
                && c.custom_vibration@[k].frequency_hz == 0,
        c.pedal_start_pct == 0,
        c.pedal_end_pct == 100,
        c.preload_force_n_x10 == 0,
        c.abs_frequency_hz == 12,
        c.abs_amplitude_kg20 == 0,
        c.abs_sawtooth == false,
        c.abs_affects_travel == false,
        c.length_a_mm == 0,
        c.length_b_mm == 0,
        c.length_d_mm == 0,
        c.length_c_horizontal_mm == 0,
        c.length_c_vertical_mm == 0,
        c.length_travel_mm == 0,
        c.simulate_abs == false,
        c.simulate_abs_value == 0,
        c.rpm_max_freq_hz == 0,
        c.rpm_min_freq_hz == 0,
        c.rpm_amplitude_kg == 0,
        c.bite_point_trigger_pct == 0,
        c.bite_point_amplitude == 0,
        c.bite_point_freq_hz == 0,
        c.bite_point_enabled == false,
        c.g_multiplier == 0,
        c.g_window == 0,
        c.wheel_slip_amplitude == 0,
        c.wheel_slip_freq_hz == 0,
        c.road_impact_multiplier == 0,
        c.road_impact_window == 0,
        c.max_game_output_pct == 100,
        c.kf_force_model_noise == 10,
        c.kf_force_model_order == 1,
        c.kf_joystick_enabled == false,
        c.kf_joystick_model_noise == 10,
        c.debug_flags == 0,
        c.loadcell_rating_kg == 50,
        c.travel_as_joystick_output == false,
        c.invert_loadcell == false,
        c.invert_motor_direction == false,
        c.spindle_pitch_mm_per_rev == 4,
        c.step_loss_recovery == true,
        c.crash_detection == true,
        c.servo_idle_timeout_s == 30,
        c.min_force_for_effects_n == 5,
        c.config_hash == 0,
        c.endstop_detection_threshold == 10,
        c.virtual_mass_pct == 20,
        c.virtual_damping_pct == 50,
        c.endstop_stiffness_kg_per_mm == 10,
        c.endstop_travel_range_mm == 2,
        c.damping_progression == 0,
        c.coulomb_friction_0p1n == 0,
{
    assert forall|k: int| 0 <= k < 4 implies (#[trigger] c.custom_vibration@[k]).amplitude == 0
        && c.custom_vibration@[k].frequency_hz == 0 by {
        assert(c.custom_vibration@[k] == Seq::new(
            4,
            |k: int| CustomVibration { amplitude: 0, frequency_hz: 0 },
        )[k]);
    }
}

/// An action without effects: nothing is triggered, and the G value is at its middle.
pub proof fn quiet_actions_trigger_nothing(a: PedalAction, k: int)
    requires
        a.is_quiet(),
        0 <= k < 4,
    ensures
        !a.trigger_abs,
        !a.trigger_cv@[k],
        a.wheel_slip == 0,
        a.rpm_pct == 0,
        a.impact_value == 0,
        a.track_condition == 0,
        a.g_value == 128,
{
    assert(a.trigger_cv@[k] == Seq::new(4, |k: int| false)[k]);
}

} // verus!
