//! The telemetry field registry: every number of a record has a 1-based id, a
//! name and a default format. The ids up to [`crate::simhub::FRAME_VALUES`] are
//! the places of the numbers in a frame; id 0 means none.

use vstd::prelude::*;
use crate::format::Fmt;
use crate::simhub::Telemetry;
use crate::text::same_str;

verus! {

/// How many field ids there are, id 0 included.
pub const FIELD_COUNT: usize = 94;

/// A bindable field.
#[derive(Clone, Copy, Debug)]
pub struct FieldDef {
    pub name: &'static str,
    pub fmt: Fmt,
    pub scale: i32,
    pub label: &'static str,
}

/// `id` is the id of a field.
pub open spec fn is_field(id: int) -> bool {
    1 <= id < FIELD_COUNT
}

/// The name of the field `id`; empty where there is none.
pub open spec fn name_of(id: int) -> Seq<char> {
    if id == 1 {
        "speed_kmh"@
    } else if id == 2 {
        "rpm"@
    } else if id == 3 {
        "max_rpm"@
    } else if id == 4 {
        "shift_rpm"@
    } else if id == 5 {
        "cur_lap_ms"@
    } else if id == 6 {
        "last_lap_ms"@
    } else if id == 7 {
        "best_lap_ms"@
    } else if id == 8 {
        "pb_lap_ms"@
    } else if id == 9 {
        "est_lap_ms"@
    } else if id == 10 {
        "delta_ms"@
    } else if id == 11 {
        "position"@
    } else if id == 12 {
        "field_size"@
    } else if id == 13 {
        "laps_done"@
    } else if id == 14 {
        "total_laps"@
    } else if id == 15 {
        "laps_left"@
    } else if id == 16 {
        "water_c"@
    } else if id == 17 {
        "oil_c"@
    } else if id == 18 {
        "oil_press_x10"@
    } else if id == 19 {
        "boost_kpa"@
    } else if id == 20 {
        "tc"@
    } else if id == 21 {
        "abs"@
    } else if id == 22 {
        "brake_bias_x10"@
    } else if id == 23 {
        "fuel_dl"@
    } else if id == 24 {
        "fuel_cap_dl"@
    } else if id == 25 {
        "fuel_per_lap_ml"@
    } else if id == 26 {
        "fuel_laps_x10"@
    } else if id == 27 {
        "tt_fl_i"@
    } else if id == 28 {
        "tt_fl_m"@
    } else if id == 29 {
        "tt_fl_o"@
    } else if id == 30 {
        "tt_fr_i"@
    } else if id == 31 {
        "tt_fr_m"@
    } else if id == 32 {
        "tt_fr_o"@
    } else if id == 33 {
        "tt_rl_i"@
    } else if id == 34 {
        "tt_rl_m"@
    } else if id == 35 {
        "tt_rl_o"@
    } else if id == 36 {
        "tt_rr_i"@
    } else if id == 37 {
        "tt_rr_m"@
    } else if id == 38 {
        "tt_rr_o"@
    } else if id == 39 {
        "tp_fl"@
    } else if id == 40 {
        "tp_fr"@
    } else if id == 41 {
        "tp_rl"@
    } else if id == 42 {
        "tp_rr"@
    } else if id == 43 {
        "tw_fl"@
    } else if id == 44 {
        "tw_fr"@
    } else if id == 45 {
        "tw_rl"@
    } else if id == 46 {
        "tw_rr"@
    } else if id == 47 {
        "bt_fl"@
    } else if id == 48 {
        "bt_fr"@
    } else if id == 49 {
        "bt_rl"@
    } else if id == 50 {
        "bt_rr"@
    } else if id == 51 {
        "throttle"@
    } else if id == 52 {
        "brake"@
    } else if id == 53 {
        "clutch"@
    } else if id == 54 {
        "steer"@
    } else if id == 55 {
        "tc_active"@
    } else if id == 56 {
        "abs_active"@
    } else if id == 57 {
        "headlights"@
    } else if id == 58 {
        "wipers"@
    } else if id == 59 {
        "pit_limiter"@
    } else if id == 60 {
        "ignition"@
    } else if id == 61 {
        "flag"@
    } else if id == 62 {
        "track_pct"@
    } else if id == 63 {
        "pos_x"@
    } else if id == 64 {
        "pos_z"@
    } else if id == 65 {
        "s1_ms"@
    } else if id == 66 {
        "s2_ms"@
    } else if id == 67 {
        "s3_ms"@
    } else if id == 68 {
        "bs1_ms"@
    } else if id == 69 {
        "bs2_ms"@
    } else if id == 70 {
        "bs3_ms"@
    } else if id == 71 {
        "battery_pct"@
    } else if id == 72 {
        "ers_state"@
    } else if id == 73 {
        "tt_avg_fl"@
    } else if id == 74 {
        "tt_avg_fr"@
    } else if id == 75 {
        "tt_avg_rl"@
    } else if id == 76 {
        "tt_avg_rr"@
    } else if id == 77 {
        "tt_carc_fl"@
    } else if id == 78 {
        "tt_carc_fr"@
    } else if id == 79 {
        "tt_carc_rl"@
    } else if id == 80 {
        "tt_carc_rr"@
    } else if id == 81 {
        "comp_fl"@
    } else if id == 82 {
        "comp_fr"@
    } else if id == 83 {
        "comp_rl"@
    } else if id == 84 {
        "comp_rr"@
    } else if id == 85 {
        "tc_slip"@
    } else if id == 86 {
        "abs_slip"@
    } else if id == 87 {
        "virtual_energy"@
    } else if id == 88 {
        "ve_per_lap"@
    } else if id == 89 {
        "fuel_is_ve"@
    } else if id == 90 {
        "g_long_x100"@
    } else if id == 91 {
        "g_lat_x100"@
    } else if id == 92 {
        "wheel_slip"@
    } else if id == 93 {
        "susp_impact"@
    } else {
        ""@
    }
}

/// The format and the scale that a field is shown with by default, chosen by its unit:
/// lap times, sector times and the delta in their own formats, tenths and hundredths as
/// fixed-point numbers, everything else as an integer.
pub open spec fn format_of(id: int) -> (Fmt, i32) {
    if 5 <= id <= 9 {
        (Fmt::Time, 1)
    } else if id == 10 {
        (Fmt::Delta, 1)
    } else if 65 <= id <= 70 {
        (Fmt::Sector, 1)
    } else if id == 18 || 22 <= id <= 24 || id == 26 || id == 62 || id == 71 || 73 <= id <= 80 {
        (Fmt::Fixed1, 10)
    } else if id == 25 {
        (Fmt::Fixed2, 1000)
    } else if id == 90 || id == 91 {
        (Fmt::Fixed2, 100)
    } else {
        (Fmt::Int, 1)
    }
}

/// The label that a field is shown with by default. This table gives none: a module is
/// labelled by its layout alone.
pub open spec fn label_of(id: int) -> Seq<char> {
    ""@
}

/// The name of the field `id`.
fn field_name(id: usize) -> (r: &'static str)
    ensures
        r@ == name_of(id as int),
{
    match id {
        1 => "speed_kmh",
        2 => "rpm",
        3 => "max_rpm",
        4 => "shift_rpm",
        5 => "cur_lap_ms",
        6 => "last_lap_ms",
        7 => "best_lap_ms",
        8 => "pb_lap_ms",
        9 => "est_lap_ms",
        10 => "delta_ms",
        11 => "position",
        12 => "field_size",
        13 => "laps_done",
        14 => "total_laps",
        15 => "laps_left",
        16 => "water_c",
        17 => "oil_c",
        18 => "oil_press_x10",
        19 => "boost_kpa",
        20 => "tc",
        21 => "abs",
        22 => "brake_bias_x10",
        23 => "fuel_dl",
        24 => "fuel_cap_dl",
        25 => "fuel_per_lap_ml",
        26 => "fuel_laps_x10",
        27 => "tt_fl_i",
        28 => "tt_fl_m",
        29 => "tt_fl_o",
        30 => "tt_fr_i",
        31 => "tt_fr_m",
        32 => "tt_fr_o",
        33 => "tt_rl_i",
        34 => "tt_rl_m",
        35 => "tt_rl_o",
        36 => "tt_rr_i",
        37 => "tt_rr_m",
        38 => "tt_rr_o",
        39 => "tp_fl",
        40 => "tp_fr",
        41 => "tp_rl",
        42 => "tp_rr",
        43 => "tw_fl",
        44 => "tw_fr",
        45 => "tw_rl",
        46 => "tw_rr",
        47 => "bt_fl",
        48 => "bt_fr",
        49 => "bt_rl",
        50 => "bt_rr",
        51 => "throttle",
        52 => "brake",
        53 => "clutch",
        54 => "steer",
        55 => "tc_active",
        56 => "abs_active",
        57 => "headlights",
        58 => "wipers",
        59 => "pit_limiter",
        60 => "ignition",
        61 => "flag",
        62 => "track_pct",
        63 => "pos_x",
        64 => "pos_z",
        65 => "s1_ms",
        66 => "s2_ms",
        67 => "s3_ms",
        68 => "bs1_ms",
        69 => "bs2_ms",
        70 => "bs3_ms",
        71 => "battery_pct",
        72 => "ers_state",
        73 => "tt_avg_fl",
        74 => "tt_avg_fr",
        75 => "tt_avg_rl",
        76 => "tt_avg_rr",
        77 => "tt_carc_fl",
        78 => "tt_carc_fr",
        79 => "tt_carc_rl",
        80 => "tt_carc_rr",
        81 => "comp_fl",
        82 => "comp_fr",
        83 => "comp_rl",
        84 => "comp_rr",
        85 => "tc_slip",
        86 => "abs_slip",
        87 => "virtual_energy",
        88 => "ve_per_lap",
        89 => "fuel_is_ve",
        90 => "g_long_x100",
        91 => "g_lat_x100",
        92 => "wheel_slip",
        93 => "susp_impact",
        _ => "",
    }
}

/// The first id from `id` on whose field has that name; 0 where there is none.
pub open spec fn field_named(name: Seq<char>, id: int) -> int
    decreases FIELD_COUNT - id,
{
    if id >= FIELD_COUNT {
        0
    } else if name_of(id) == name {
        id
    } else {
        field_named(name, id + 1)
    }
}

/// The id of the field with that name; 0 where no field has it.
pub fn field_id_from_str(name: &str) -> (r: usize)
    ensures
        r == field_named(name@, 1),
        r == 0 ==> forall|id: int| is_field(id) ==> #[trigger] name_of(id) != name@,
        r != 0 ==> is_field(r as int) && name_of(r as int) == name@ && forall|id: int|
            1 <= id < r ==> #[trigger] name_of(id) != name@,
{
    let mut id: usize = 1;
    while id < FIELD_COUNT
        invariant
            1 <= id <= FIELD_COUNT,
            forall|k: int| 1 <= k < id ==> #[trigger] name_of(k) != name@,
            field_named(name@, 1) == field_named(name@, id as int),
        decreases FIELD_COUNT - id,
    {
        if same_str(field_name(id), name) {
            return id;
        }
        id += 1;
    }
    0
}

/// The definition of the field `id`.
pub fn field_def(id: usize) -> (r: Option<FieldDef>)
    ensures
        r is Some <==> is_field(id as int),
        r matches Some(d) ==> d.name@ == name_of(id as int) && (d.fmt, d.scale) == format_of(
            id as int,
        ) && d.label@ == label_of(id as int),
{
    if id == 0 || id >= FIELD_COUNT {
        return None;
    }
    let (fmt, scale): (Fmt, i32) = if 5 <= id && id <= 9 {
        (Fmt::Time, 1)
    } else if id == 10 {
        (Fmt::Delta, 1)
    } else if 65 <= id && id <= 70 {
        (Fmt::Sector, 1)
    } else if id == 18 || (22 <= id && id <= 24) || id == 26 || id == 62 || id == 71 || (73 <= id
        && id <= 80) {
        (Fmt::Fixed1, 10)
    } else if id == 25 {
        (Fmt::Fixed2, 1000)
    } else if id == 90 || id == 91 {
        (Fmt::Fixed2, 100)
    } else {
        (Fmt::Int, 1)
    };
    Some(FieldDef { name: field_name(id), fmt, scale, label: "" })
}

/// The definitions of all fields; the field `id` stands at `id - 1`.
pub fn fields() -> (r: Vec<FieldDef>)
    ensures
        r@.len() == FIELD_COUNT - 1,
        forall|k: int|
            0 <= k < r@.len() ==> (#[trigger] r@[k]).name@ == name_of(k + 1) && (
            r@[k].fmt, r@[k].scale) == format_of(k + 1) && r@[k].label@ == label_of(k + 1),
{
    let mut out: Vec<FieldDef> = Vec::new();
    let mut id: usize = 1;
    while id < FIELD_COUNT
        invariant
            1 <= id <= FIELD_COUNT,
            out@.len() == id - 1,
            forall|k: int|
                0 <= k < out@.len() ==> (#[trigger] out@[k]).name@ == name_of(k + 1) && (
                out@[k].fmt, out@[k].scale) == format_of(k + 1) && out@[k].label@ == label_of(k + 1),
        decreases FIELD_COUNT - id,
    {
        match field_def(id) {
            Some(d) => out.push(d),
            None => {},
        }
        id += 1;
    }
    out
}

/// The number of the field `id`; 0 where there is no such field.
pub fn field_value(t: &Telemetry, id: usize) -> (v: i32)
    ensures
        v == t.value(id as int),
{
    t.get(id)
}

/// The two records agree in every field but `id`, and in the gear.
pub open spec fn same_but(a: Telemetry, b: Telemetry, id: int) -> bool {
    &&& a.gear == b.gear
    &&& forall|k: int| k != id ==> #[trigger] a.value(k) == b.value(k)
}

/// Writes the number of the field `id`; nothing happens where there is no such field.
pub fn set_field(t: &mut Telemetry, id: usize, v: i32)
    ensures
        same_but(*final(t), *old(t), id as int),
        final(t).value(id as int) == if is_field(id as int) {
            v
        } else {
            0
        },
        !is_field(id as int) ==> *final(t) == *old(t),
{
    *t = Telemetry {
        gear: t.gear,
        speed_kmh: if id == 1 { v } else { t.speed_kmh },
        rpm: if id == 2 { v } else { t.rpm },
        max_rpm: if id == 3 { v } else { t.max_rpm },
        shift_rpm: if id == 4 { v } else { t.shift_rpm },
        cur_lap_ms: if id == 5 { v } else { t.cur_lap_ms },
        last_lap_ms: if id == 6 { v } else { t.last_lap_ms },
        best_lap_ms: if id == 7 { v } else { t.best_lap_ms },
        pb_lap_ms: if id == 8 { v } else { t.pb_lap_ms },
        est_lap_ms: if id == 9 { v } else { t.est_lap_ms },
        delta_ms: if id == 10 { v } else { t.delta_ms },
        position: if id == 11 { v } else { t.position },
        field_size: if id == 12 { v } else { t.field_size },
        laps_done: if id == 13 { v } else { t.laps_done },
        total_laps: if id == 14 { v } else { t.total_laps },
        laps_left: if id == 15 { v } else { t.laps_left },
        water_c: if id == 16 { v } else { t.water_c },
        oil_c: if id == 17 { v } else { t.oil_c },
        oil_press_x10: if id == 18 { v } else { t.oil_press_x10 },
        boost_kpa: if id == 19 { v } else { t.boost_kpa },
        tc: if id == 20 { v } else { t.tc },
        abs: if id == 21 { v } else { t.abs },
        brake_bias_x10: if id == 22 { v } else { t.brake_bias_x10 },
        fuel_dl: if id == 23 { v } else { t.fuel_dl },
        fuel_cap_dl: if id == 24 { v } else { t.fuel_cap_dl },
        fuel_per_lap_ml: if id == 25 { v } else { t.fuel_per_lap_ml },
        fuel_laps_x10: if id == 26 { v } else { t.fuel_laps_x10 },
        tt_fl_i: if id == 27 { v } else { t.tt_fl_i },
        tt_fl_m: if id == 28 { v } else { t.tt_fl_m },
        tt_fl_o: if id == 29 { v } else { t.tt_fl_o },
        tt_fr_i: if id == 30 { v } else { t.tt_fr_i },
        tt_fr_m: if id == 31 { v } else { t.tt_fr_m },
        tt_fr_o: if id == 32 { v } else { t.tt_fr_o },
        tt_rl_i: if id == 33 { v } else { t.tt_rl_i },
        tt_rl_m: if id == 34 { v } else { t.tt_rl_m },
        tt_rl_o: if id == 35 { v } else { t.tt_rl_o },
        tt_rr_i: if id == 36 { v } else { t.tt_rr_i },
        tt_rr_m: if id == 37 { v } else { t.tt_rr_m },
        tt_rr_o: if id == 38 { v } else { t.tt_rr_o },
        tp_fl: if id == 39 { v } else { t.tp_fl },
        tp_fr: if id == 40 { v } else { t.tp_fr },
        tp_rl: if id == 41 { v } else { t.tp_rl },
        tp_rr: if id == 42 { v } else { t.tp_rr },
        tw_fl: if id == 43 { v } else { t.tw_fl },
        tw_fr: if id == 44 { v } else { t.tw_fr },
        tw_rl: if id == 45 { v } else { t.tw_rl },
        tw_rr: if id == 46 { v } else { t.tw_rr },
        bt_fl: if id == 47 { v } else { t.bt_fl },
        bt_fr: if id == 48 { v } else { t.bt_fr },
        bt_rl: if id == 49 { v } else { t.bt_rl },
        bt_rr: if id == 50 { v } else { t.bt_rr },
        throttle: if id == 51 { v } else { t.throttle },
        brake: if id == 52 { v } else { t.brake },
        clutch: if id == 53 { v } else { t.clutch },
        steer: if id == 54 { v } else { t.steer },
        tc_active: if id == 55 { v } else { t.tc_active },
        abs_active: if id == 56 { v } else { t.abs_active },
        headlights: if id == 57 { v } else { t.headlights },
        wipers: if id == 58 { v } else { t.wipers },
        pit_limiter: if id == 59 { v } else { t.pit_limiter },
        ignition: if id == 60 { v } else { t.ignition },
        flag: if id == 61 { v } else { t.flag },
        track_pct: if id == 62 { v } else { t.track_pct },
        pos_x: if id == 63 { v } else { t.pos_x },
        pos_z: if id == 64 { v } else { t.pos_z },
        s1_ms: if id == 65 { v } else { t.s1_ms },
        s2_ms: if id == 66 { v } else { t.s2_ms },
        s3_ms: if id == 67 { v } else { t.s3_ms },
        bs1_ms: if id == 68 { v } else { t.bs1_ms },
        bs2_ms: if id == 69 { v } else { t.bs2_ms },
        bs3_ms: if id == 70 { v } else { t.bs3_ms },
        battery_pct: if id == 71 { v } else { t.battery_pct },
        ers_state: if id == 72 { v } else { t.ers_state },
        tt_avg_fl: if id == 73 { v } else { t.tt_avg_fl },
        tt_avg_fr: if id == 74 { v } else { t.tt_avg_fr },
        tt_avg_rl: if id == 75 { v } else { t.tt_avg_rl },
        tt_avg_rr: if id == 76 { v } else { t.tt_avg_rr },
        tt_carc_fl: if id == 77 { v } else { t.tt_carc_fl },
        tt_carc_fr: if id == 78 { v } else { t.tt_carc_fr },
        tt_carc_rl: if id == 79 { v } else { t.tt_carc_rl },
        tt_carc_rr: if id == 80 { v } else { t.tt_carc_rr },
        comp_fl: if id == 81 { v } else { t.comp_fl },
        comp_fr: if id == 82 { v } else { t.comp_fr },
        comp_rl: if id == 83 { v } else { t.comp_rl },
        comp_rr: if id == 84 { v } else { t.comp_rr },
        tc_slip: if id == 85 { v } else { t.tc_slip },
        abs_slip: if id == 86 { v } else { t.abs_slip },
        virtual_energy: if id == 87 { v } else { t.virtual_energy },
        ve_per_lap: if id == 88 { v } else { t.ve_per_lap },
        fuel_is_ve: if id == 89 { v } else { t.fuel_is_ve },
        g_long_x100: if id == 90 { v } else { t.g_long_x100 },
        g_lat_x100: if id == 91 { v } else { t.g_lat_x100 },
        wheel_slip: if id == 92 { v } else { t.wheel_slip },
        susp_impact: if id == 93 { v } else { t.susp_impact },
    };
}

/// A record from a flat array indexed by field id. The gear byte is 0.
pub fn telemetry_from_fields(fields: &[i32]) -> (t: Telemetry)
    ensures
        t.gear == 0,
        forall|id: int|
            #[trigger] t.value(id) == if is_field(id) && id < fields@.len() {
                fields@[id]
            } else {
                0
            },
{
    let mut t = Telemetry::default();
    let mut id: usize = 1;
    while id < fields.len()
        invariant
            1 <= id,
            t.gear == 0,
            forall|k: int|
                #[trigger] t.value(k) == if is_field(k) && k < id && k < fields@.len() {
                    fields@[k]
                } else {
                    0
                },
        decreases fields@.len() - id,
    {
        set_field(&mut t, id, fields[id]);
        id += 1;
    }
    t
}

/// Each id names the field that holds its number: id 11 is `position` and its
/// number is the position, id 12 is `field_size`, and so on.
pub proof fn names_stand_for_fields(t: Telemetry)
    ensures
        name_of(1) == "speed_kmh"@ && t.value(1) == t.speed_kmh,
        name_of(2) == "rpm"@ && t.value(2) == t.rpm,
        name_of(3) == "max_rpm"@ && t.value(3) == t.max_rpm,
        name_of(4) == "shift_rpm"@ && t.value(4) == t.shift_rpm,
        name_of(5) == "cur_lap_ms"@ && t.value(5) == t.cur_lap_ms,
        name_of(6) == "last_lap_ms"@ && t.value(6) == t.last_lap_ms,
        name_of(7) == "best_lap_ms"@ && t.value(7) == t.best_lap_ms,
        name_of(8) == "pb_lap_ms"@ && t.value(8) == t.pb_lap_ms,
        name_of(9) == "est_lap_ms"@ && t.value(9) == t.est_lap_ms,
        name_of(10) == "delta_ms"@ && t.value(10) == t.delta_ms,
        name_of(11) == "position"@ && t.value(11) == t.position,
        name_of(12) == "field_size"@ && t.value(12) == t.field_size,
        name_of(13) == "laps_done"@ && t.value(13) == t.laps_done,
        name_of(14) == "total_laps"@ && t.value(14) == t.total_laps,
        name_of(15) == "laps_left"@ && t.value(15) == t.laps_left,
        name_of(16) == "water_c"@ && t.value(16) == t.water_c,
        name_of(17) == "oil_c"@ && t.value(17) == t.oil_c,
        name_of(18) == "oil_press_x10"@ && t.value(18) == t.oil_press_x10,
        name_of(19) == "boost_kpa"@ && t.value(19) == t.boost_kpa,
        name_of(20) == "tc"@ && t.value(20) == t.tc,
        name_of(21) == "abs"@ && t.value(21) == t.abs,
        name_of(22) == "brake_bias_x10"@ && t.value(22) == t.brake_bias_x10,
        name_of(23) == "fuel_dl"@ && t.value(23) == t.fuel_dl,
        name_of(24) == "fuel_cap_dl"@ && t.value(24) == t.fuel_cap_dl,
        name_of(25) == "fuel_per_lap_ml"@ && t.value(25) == t.fuel_per_lap_ml,
        name_of(26) == "fuel_laps_x10"@ && t.value(26) == t.fuel_laps_x10,
        name_of(27) == "tt_fl_i"@ && t.value(27) == t.tt_fl_i,
        name_of(28) == "tt_fl_m"@ && t.value(28) == t.tt_fl_m,
        name_of(29) == "tt_fl_o"@ && t.value(29) == t.tt_fl_o,
        name_of(30) == "tt_fr_i"@ && t.value(30) == t.tt_fr_i,
        name_of(31) == "tt_fr_m"@ && t.value(31) == t.tt_fr_m,
        name_of(32) == "tt_fr_o"@ && t.value(32) == t.tt_fr_o,
        name_of(33) == "tt_rl_i"@ && t.value(33) == t.tt_rl_i,
        name_of(34) == "tt_rl_m"@ && t.value(34) == t.tt_rl_m,
        name_of(35) == "tt_rl_o"@ && t.value(35) == t.tt_rl_o,
        name_of(36) == "tt_rr_i"@ && t.value(36) == t.tt_rr_i,
        name_of(37) == "tt_rr_m"@ && t.value(37) == t.tt_rr_m,
        name_of(38) == "tt_rr_o"@ && t.value(38) == t.tt_rr_o,
        name_of(39) == "tp_fl"@ && t.value(39) == t.tp_fl,
        name_of(40) == "tp_fr"@ && t.value(40) == t.tp_fr,
        name_of(41) == "tp_rl"@ && t.value(41) == t.tp_rl,
        name_of(42) == "tp_rr"@ && t.value(42) == t.tp_rr,
        name_of(43) == "tw_fl"@ && t.value(43) == t.tw_fl,
        name_of(44) == "tw_fr"@ && t.value(44) == t.tw_fr,
        name_of(45) == "tw_rl"@ && t.value(45) == t.tw_rl,
        name_of(46) == "tw_rr"@ && t.value(46) == t.tw_rr,
        name_of(47) == "bt_fl"@ && t.value(47) == t.bt_fl,
        name_of(48) == "bt_fr"@ && t.value(48) == t.bt_fr,
        name_of(49) == "bt_rl"@ && t.value(49) == t.bt_rl,
        name_of(50) == "bt_rr"@ && t.value(50) == t.bt_rr,
        name_of(51) == "throttle"@ && t.value(51) == t.throttle,
        name_of(52) == "brake"@ && t.value(52) == t.brake,
        name_of(53) == "clutch"@ && t.value(53) == t.clutch,
        name_of(54) == "steer"@ && t.value(54) == t.steer,
        name_of(55) == "tc_active"@ && t.value(55) == t.tc_active,
        name_of(56) == "abs_active"@ && t.value(56) == t.abs_active,
        name_of(57) == "headlights"@ && t.value(57) == t.headlights,
        name_of(58) == "wipers"@ && t.value(58) == t.wipers,
        name_of(59) == "pit_limiter"@ && t.value(59) == t.pit_limiter,
        name_of(60) == "ignition"@ && t.value(60) == t.ignition,
        name_of(61) == "flag"@ && t.value(61) == t.flag,
        name_of(62) == "track_pct"@ && t.value(62) == t.track_pct,
        name_of(63) == "pos_x"@ && t.value(63) == t.pos_x,
        name_of(64) == "pos_z"@ && t.value(64) == t.pos_z,
        name_of(65) == "s1_ms"@ && t.value(65) == t.s1_ms,
        name_of(66) == "s2_ms"@ && t.value(66) == t.s2_ms,
        name_of(67) == "s3_ms"@ && t.value(67) == t.s3_ms,
        name_of(68) == "bs1_ms"@ && t.value(68) == t.bs1_ms,
        name_of(69) == "bs2_ms"@ && t.value(69) == t.bs2_ms,
        name_of(70) == "bs3_ms"@ && t.value(70) == t.bs3_ms,
        name_of(71) == "battery_pct"@ && t.value(71) == t.battery_pct,
        name_of(72) == "ers_state"@ && t.value(72) == t.ers_state,
        name_of(73) == "tt_avg_fl"@ && t.value(73) == t.tt_avg_fl,
        name_of(74) == "tt_avg_fr"@ && t.value(74) == t.tt_avg_fr,
        name_of(75) == "tt_avg_rl"@ && t.value(75) == t.tt_avg_rl,
        name_of(76) == "tt_avg_rr"@ && t.value(76) == t.tt_avg_rr,
        name_of(77) == "tt_carc_fl"@ && t.value(77) == t.tt_carc_fl,
        name_of(78) == "tt_carc_fr"@ && t.value(78) == t.tt_carc_fr,
        name_of(79) == "tt_carc_rl"@ && t.value(79) == t.tt_carc_rl,
        name_of(80) == "tt_carc_rr"@ && t.value(80) == t.tt_carc_rr,
        name_of(81) == "comp_fl"@ && t.value(81) == t.comp_fl,
        name_of(82) == "comp_fr"@ && t.value(82) == t.comp_fr,
        name_of(83) == "comp_rl"@ && t.value(83) == t.comp_rl,
        name_of(84) == "comp_rr"@ && t.value(84) == t.comp_rr,
        name_of(85) == "tc_slip"@ && t.value(85) == t.tc_slip,
        name_of(86) == "abs_slip"@ && t.value(86) == t.abs_slip,
        name_of(87) == "virtual_energy"@ && t.value(87) == t.virtual_energy,
        name_of(88) == "ve_per_lap"@ && t.value(88) == t.ve_per_lap,
        name_of(89) == "fuel_is_ve"@ && t.value(89) == t.fuel_is_ve,
        name_of(90) == "g_long_x100"@ && t.value(90) == t.g_long_x100,
        name_of(91) == "g_lat_x100"@ && t.value(91) == t.g_lat_x100,
        name_of(92) == "wheel_slip"@ && t.value(92) == t.wheel_slip,
        name_of(93) == "susp_impact"@ && t.value(93) == t.susp_impact,
{
}

/// Lap times read as times, the delta as a delta, sector times as sectors, tenths
/// with one decimal place and thousandths or hundredths with two; every other
/// field reads as a whole number.
pub proof fn formats_fit_their_fields()
    ensures
        format_of(1) == (Fmt::Int, 1i32),
        format_of(2) == (Fmt::Int, 1i32),
        format_of(3) == (Fmt::Int, 1i32),
        format_of(4) == (Fmt::Int, 1i32),
        format_of(5) == (Fmt::Time, 1i32),
        format_of(6) == (Fmt::Time, 1i32),
        format_of(7) == (Fmt::Time, 1i32),
        format_of(8) == (Fmt::Time, 1i32),
        format_of(9) == (Fmt::Time, 1i32),
        format_of(10) == (Fmt::Delta, 1i32),
        format_of(11) == (Fmt::Int, 1i32),
        format_of(12) == (Fmt::Int, 1i32),
        format_of(13) == (Fmt::Int, 1i32),
        format_of(14) == (Fmt::Int, 1i32),
        format_of(15) == (Fmt::Int, 1i32),
        format_of(16) == (Fmt::Int, 1i32),
        format_of(17) == (Fmt::Int, 1i32),
        format_of(18) == (Fmt::Fixed1, 10i32),
        format_of(19) == (Fmt::Int, 1i32),
        format_of(20) == (Fmt::Int, 1i32),
        format_of(21) == (Fmt::Int, 1i32),
        format_of(22) == (Fmt::Fixed1, 10i32),
        format_of(23) == (Fmt::Fixed1, 10i32),
        format_of(24) == (Fmt::Fixed1, 10i32),
        format_of(25) == (Fmt::Fixed2, 1000i32),
        format_of(26) == (Fmt::Fixed1, 10i32),
        format_of(27) == (Fmt::Int, 1i32),
        format_of(28) == (Fmt::Int, 1i32),
        format_of(29) == (Fmt::Int, 1i32),
        format_of(30) == (Fmt::Int, 1i32),
        format_of(31) == (Fmt::Int, 1i32),
        format_of(32) == (Fmt::Int, 1i32),
        format_of(33) == (Fmt::Int, 1i32),
        format_of(34) == (Fmt::Int, 1i32),
        format_of(35) == (Fmt::Int, 1i32),
        format_of(36) == (Fmt::Int, 1i32),
        format_of(37) == (Fmt::Int, 1i32),
        format_of(38) == (Fmt::Int, 1i32),
        format_of(39) == (Fmt::Int, 1i32),
        format_of(40) == (Fmt::Int, 1i32),
        format_of(41) == (Fmt::Int, 1i32),
        format_of(42) == (Fmt::Int, 1i32),
        format_of(43) == (Fmt::Int, 1i32),
        format_of(44) == (Fmt::Int, 1i32),
        format_of(45) == (Fmt::Int, 1i32),
        format_of(46) == (Fmt::Int, 1i32),
        format_of(47) == (Fmt::Int, 1i32),
        format_of(48) == (Fmt::Int, 1i32),
        format_of(49) == (Fmt::Int, 1i32),
        format_of(50) == (Fmt::Int, 1i32),
        format_of(51) == (Fmt::Int, 1i32),
        format_of(52) == (Fmt::Int, 1i32),
        format_of(53) == (Fmt::Int, 1i32),
        format_of(54) == (Fmt::Int, 1i32),
        format_of(55) == (Fmt::Int, 1i32),
        format_of(56) == (Fmt::Int, 1i32),
        format_of(57) == (Fmt::Int, 1i32),
        format_of(58) == (Fmt::Int, 1i32),
        format_of(59) == (Fmt::Int, 1i32),
        format_of(60) == (Fmt::Int, 1i32),
        format_of(61) == (Fmt::Int, 1i32),
        format_of(62) == (Fmt::Fixed1, 10i32),
        format_of(63) == (Fmt::Int, 1i32),
        format_of(64) == (Fmt::Int, 1i32),
        format_of(65) == (Fmt::Sector, 1i32),
        format_of(66) == (Fmt::Sector, 1i32),
        format_of(67) == (Fmt::Sector, 1i32),
        format_of(68) == (Fmt::Sector, 1i32),
        format_of(69) == (Fmt::Sector, 1i32),
        format_of(70) == (Fmt::Sector, 1i32),
        format_of(71) == (Fmt::Fixed1, 10i32),
        format_of(72) == (Fmt::Int, 1i32),
        format_of(73) == (Fmt::Fixed1, 10i32),
        format_of(74) == (Fmt::Fixed1, 10i32),
        format_of(75) == (Fmt::Fixed1, 10i32),
        format_of(76) == (Fmt::Fixed1, 10i32),
        format_of(77) == (Fmt::Fixed1, 10i32),
        format_of(78) == (Fmt::Fixed1, 10i32),
        format_of(79) == (Fmt::Fixed1, 10i32),
        format_of(80) == (Fmt::Fixed1, 10i32),
        format_of(81) == (Fmt::Int, 1i32),
        format_of(82) == (Fmt::Int, 1i32),
        format_of(83) == (Fmt::Int, 1i32),
        format_of(84) == (Fmt::Int, 1i32),
        format_of(85) == (Fmt::Int, 1i32),
        format_of(86) == (Fmt::Int, 1i32),
        format_of(87) == (Fmt::Int, 1i32),
        format_of(88) == (Fmt::Int, 1i32),
        format_of(89) == (Fmt::Int, 1i32),
        format_of(90) == (Fmt::Fixed2, 100i32),
        format_of(91) == (Fmt::Fixed2, 100i32),
        format_of(92) == (Fmt::Int, 1i32),
        format_of(93) == (Fmt::Int, 1i32),
{
}

/// Looking a name up from the id `id` on gives the first field from there that has
/// the name, and 0 where none has it.
pub proof fn names_are_looked_up(name: Seq<char>, id: int)
    requires
        1 <= id,
    ensures
        ({
            let r = field_named(name, id);
            &&& r == 0 <==> forall|k: int| id <= k <= 93 ==> #[trigger] name_of(k) != name
            &&& r != 0 ==> id <= r <= 93 && name_of(r) == name && forall|k: int|
                id <= k < r ==> #[trigger] name_of(k) != name
        }),
    decreases 94 - id,
{
    if id <= 93 && name_of(id) != name {
        names_are_looked_up(name, id + 1);
        let r = field_named(name, id + 1);
        if r == 0 {
            assert forall|k: int| id <= k <= 93 implies #[trigger] name_of(k) != name by {}
        } else {
            assert forall|k: int| id <= k < r implies #[trigger] name_of(k) != name by {}
        }
    }
}

/// Writing a field and reading it gives what was written, writing does not touch
/// another field, and the later of two writes stays.
pub proof fn writes_are_read_back(a: Telemetry, b: Telemetry, c: Telemetry, id: int, v: i32)
    requires
        same_but(b, a, id),
        same_but(c, b, id),
        c.value(id) == v,
    ensures
        same_but(c, a, id),
        c.gear == a.gear,
        id != 11 ==> c.position == a.position,
        id != 12 ==> c.field_size == a.field_size,
        id == 11 ==> c.position == v,
        id == 12 ==> c.field_size == v,
{
    assert(c.value(11) == c.position && a.value(11) == a.position && b.value(11) == b.position);
    assert(c.value(12) == c.field_size && a.value(12) == a.field_size && b.value(12)
        == b.field_size);
    assert forall|k: int| k != id implies #[trigger] c.value(k) == a.value(k) by {
        assert(b.value(k) == a.value(k));
    }
}

} // verus!
