use pith::format::{Fmt, Pal, RuleOp};
use pith::net::{axis_packet, beacon, buttons_packet, parse_device_packet, DevicePacket};
use pith::registry::{field_id_from_str, field_value, fields, FIELD_COUNT};
use pith::relatives::{
    read_scoring, reference_lap, relatives_from_scoring, RelCar, Relatives, FLAG_PLAYER, NAME_LEN,
    VEH_BASE, VEH_STRIDE,
};
use pith::shift::{gear_index, segment_rgb, CarData, RevCfg, FLASH_MS};
use pith::simhub::{parse_line, Telemetry};

#[test]
fn fmt_int_and_string() {
    assert_eq!(pith::format::format(212, Fmt::Int, 1, ""), "212");
    assert_eq!(pith::format::format(212, Fmt::Int, 1, "KM/H"), "212KM/H");
    assert_eq!(pith::format::format(2500, Fmt::Int, 1, ""), "2500");
    assert_eq!(pith::format::format(7, Fmt::Str, 1, ""), "7");
}

#[test]
fn fmt_fixed() {
    assert_eq!(pith::format::format(65, Fmt::Fixed1, 10, "L"), "6.5L");
    assert_eq!(pith::format::format(-35, Fmt::Fixed1, 10, ""), "-3.5");
    assert_eq!(pith::format::format(565, Fmt::Fixed1, 10, ""), "56.5");
    assert_eq!(pith::format::format(1234, Fmt::Fixed2, 100, ""), "12.34");
}

#[test]
fn fmt_time_and_sector() {
    assert_eq!(pith::format::format(0, Fmt::Time, 1, ""), "--:--.---");
    assert_eq!(pith::format::format(-5, Fmt::Time, 1, ""), "--:--.---");
    assert_eq!(pith::format::format(84012, Fmt::Time, 1, ""), "1:24.012");
    assert_eq!(pith::format::format(95000, Fmt::Time, 1, ""), "1:35.000");
    assert_eq!(pith::format::format(0, Fmt::Sector, 1, ""), "--.---");
    assert_eq!(pith::format::format(28456, Fmt::Sector, 1, ""), "28.456");
}

#[test]
fn fmt_delta() {
    // 0.1 ms units: 10000 = 1.0000 s; always 4 decimals, signed, no unit.
    assert_eq!(pith::format::format(0, Fmt::Delta, 1, ""), "+0.0000");
    assert_eq!(pith::format::format(-3000, Fmt::Delta, 1, ""), "-0.3000");
    assert_eq!(pith::format::format(12340, Fmt::Delta, 1, ""), "+1.2340");
    assert_eq!(pith::format::format(999999, Fmt::Delta, 1, ""), "+9.9999"); // clamped
    assert_eq!(pith::format::format(-999999, Fmt::Delta, 1, ""), "-9.9999"); // clamped
}

#[test]
fn rule_ops_and_palette_roundtrip() {
    assert!(RuleOp::Gt.matches(10, 5));
    assert!(!RuleOp::Lt.matches(10, 5));
    assert!(RuleOp::Eq.matches(5, 5));
    assert_eq!(RuleOp::from_str(">="), RuleOp::Ge);
    assert_eq!(RuleOp::from_str("bogus"), RuleOp::Gt); // default
    assert_eq!(Fmt::from_str("delta"), Fmt::Delta);
    assert_eq!(Fmt::from_str("bogus"), Fmt::Int); // default
    assert_eq!(Pal::from_str("amber"), Pal::Amber);
    assert_eq!(Pal::from_str("bogus"), Pal::White); // default
    assert_eq!(Fmt::Delta.as_str(), "delta");
    assert_eq!(Pal::Cyan.as_str(), "cyan");
}

#[test]
fn registry_ids_and_count() {
    // id = index + 1; 0 = none. The dashboard relies on this exact ordering.
    assert_eq!(field_id_from_str("speed_kmh"), 1);
    assert_eq!(field_id_from_str("rpm"), 2);
    assert_eq!(field_id_from_str("delta_ms"), 10);
    // Registry order now mirrors the $-frame exactly (incl. inner/outer tyre
    // temps, world pos, best sectors) so field id == frame token position.
    assert_eq!(field_id_from_str("ignition"), 60);
    assert_eq!(field_id_from_str("flag"), 61);
    assert_eq!(field_id_from_str("track_pct"), 62);
    assert_eq!(field_id_from_str("battery_pct"), 71);
    assert_eq!(field_id_from_str("ers_state"), 72);
    // Tyre surface-average (×4) + carcass-core (×4) appended after ers_state.
    assert_eq!(field_id_from_str("tt_avg_fl"), 73);
    assert_eq!(field_id_from_str("tt_carc_fl"), 77);
    assert_eq!(field_id_from_str("tt_carc_rr"), 80);
    // pith-ui's ve_swap hardcodes these ids — keep them stable.
    assert_eq!(field_id_from_str("fuel_dl"), 23);
    assert_eq!(field_id_from_str("fuel_per_lap_ml"), 25);
    assert_eq!(field_id_from_str("comp_fl"), 81);
    assert_eq!(field_id_from_str("comp_rr"), 84);
    assert_eq!(field_id_from_str("tc_slip"), 85);
    assert_eq!(field_id_from_str("virtual_energy"), 87);
    assert_eq!(field_id_from_str("fuel_is_ve"), 89);
    // Chassis G-forces + grip diagnostics appended after fuel_is_ve.
    assert_eq!(field_id_from_str("g_long_x100"), 90);
    assert_eq!(field_id_from_str("g_lat_x100"), 91);
    assert_eq!(field_id_from_str("wheel_slip"), 92);
    assert_eq!(field_id_from_str("susp_impact"), 93);
    assert_eq!(field_id_from_str("nope"), 0);
    assert_eq!(fields().len(), 93);
    assert_eq!(FIELD_COUNT, 94);
}

#[test]
fn field_value_maps_to_struct() {
    let mut t = Telemetry::idle();
    t.speed_kmh = 212;
    t.rpm = 6800;
    t.ignition = 1;
    assert_eq!(field_value(&t, 1), 212);
    assert_eq!(field_value(&t, 2), 6800);
    assert_eq!(field_value(&t, 60), 1); // ignition
    assert_eq!(field_value(&t, 0), 0);
    assert_eq!(field_value(&t, 999), 0);
}

#[test]
fn parse_minimal_required() {
    let t = parse_line("$3;212;6800;7500").unwrap();
    assert_eq!(t.gear, b'3');
    assert_eq!(t.speed_kmh, 212);
    assert_eq!(t.rpm, 6800);
    assert_eq!(t.max_rpm, 7500);
    // Absent optional fields keep defaults; tyre wear defaults to 100.
    assert_eq!(t.shift_rpm, 0);
    assert_eq!(t.tw_fl, 100);
    assert_eq!(t.tw_rr, 100);
}

#[test]
fn parse_gear_forms() {
    assert_eq!(parse_line("$N;0;0;0").unwrap().gear, b'N');
    assert_eq!(parse_line("$R;0;0;0").unwrap().gear, b'R');
    assert_eq!(parse_line("$0;0;0;0").unwrap().gear, b'N'); // numeric neutral
    assert_eq!(parse_line("$-1;0;0;0").unwrap().gear, b'R'); // numeric reverse
    assert_eq!(parse_line("$7;0;0;0").unwrap().gear, b'7');
}

#[test]
fn parse_resync_and_reject() {
    // bytes before '$' are ignored
    assert!(parse_line("junk$2;100;5000;7000").is_some());
    // no sentinel -> reject
    assert!(parse_line("2;100;5000;7000").is_none());
    // missing required field -> reject
    assert!(parse_line("$2;100").is_none());
    // bad gear -> reject
    assert!(parse_line("$X;1;2;3").is_none());
    // trailing junk -> reject
    assert!(parse_line("$2;1;2;3;garbage").is_none());
}

#[test]
fn parse_optional_and_empty_fields() {
    // empty fields keep defaults but are still consumed (;;), later fields set
    let t = parse_line("$2;100;5000;7000;;500;;;;;-3000").unwrap();
    assert_eq!(t.shift_rpm, 0); // empty
    assert_eq!(t.cur_lap_ms, 500);
    assert_eq!(t.delta_ms, -3000); // 7th optional field, negative
}

#[test]
fn parse_trailing_separator_ok() {
    // trailing ';' and whitespace tolerated
    assert!(parse_line("$2;100;5000;7000;").is_some());
    assert!(parse_line("$2;100;5000;7000\r\n").is_some());
}

#[test]
fn beacon_round_trips() {
    let line = beacon("pedals", "PITHPEDAL-AABBCC", "0.1.0");
    assert_eq!(
        parse_device_packet(&line),
        Some(DevicePacket::Beacon {
            kind: "pedals".into(),
            serial: "PITHPEDAL-AABBCC".into(),
            fw: "0.1.0".into(),
        })
    );
}

#[test]
fn axis_round_trips() {
    let line = axis_packet("PITHPEDAL-1", 32768);
    assert_eq!(
        parse_device_packet(&line),
        Some(DevicePacket::Axis {
            serial: "PITHPEDAL-1".into(),
            value: 32768,
        })
    );
}

#[test]
fn buttons_round_trip() {
    let line = buttons_packet("PITH-DDU-1", 0x8000_0005);
    assert_eq!(
        parse_device_packet(&line),
        Some(DevicePacket::Buttons {
            serial: "PITH-DDU-1".into(),
            mask: 0x8000_0005,
        })
    );
}

#[test]
fn state_and_reply_parse() {
    assert_eq!(
        parse_device_packet("ST PITHPEDAL-1 position=500 force=120"),
        Some(DevicePacket::State {
            serial: "PITHPEDAL-1".into(),
            text: "position=500 force=120".into(),
        })
    );
    assert_eq!(
        parse_device_packet("RE PITHPEDAL-1 OK"),
        Some(DevicePacket::Reply {
            serial: "PITHPEDAL-1".into(),
            text: "OK".into(),
        })
    );
}

#[test]
fn unknown_lines_rejected() {
    assert_eq!(parse_device_packet("garbage"), None);
    assert_eq!(parse_device_packet("$1;2;3"), None);
}

fn tel(gear: u8, rpm: i32, max: i32, shift: i32) -> Telemetry {
    let mut t = Telemetry::idle();
    t.gear = gear;
    t.rpm = rpm;
    t.max_rpm = max;
    t.shift_rpm = shift;
    t
}

#[test]
fn rev_bar_fills_and_flashes() {
    let cfg = RevCfg::default();
    let car = CarData::default();
    let count = 12;
    // Below start (50% of 8000=4000): all off.
    let t = tel(b'3', 3000, 8800, 8000);
    for i in 0..count {
        assert_eq!(segment_rgb(&t, i, count, &cfg, &car, 0), 0);
    }
    // Near shift but below flash_pct (98% of 8000 = 7840): some lit, no strobe.
    let t = tel(b'3', 7000, 8800, 8000);
    assert_ne!(segment_rgb(&t, 0, count, &cfg, &car, 0), 0); // first (green) lit
    // At/above flash_pct: strobes — off at now_ms=0, on at now_ms=FLASH_MS
    let t = tel(b'3', 8000, 8800, 8000);
    assert_eq!(segment_rgb(&t, 0, count, &cfg, &car, 0), 0);
    assert_eq!(segment_rgb(&t, 0, count, &cfg, &car, FLASH_MS), cfg.col_flash);
}

#[test]
fn rev_bar_zone_colors() {
    let cfg = RevCfg::default(); // 6 green, 3 red, 3 blue
    let car = CarData::default();
    let t = tel(b'4', 7800, 8800, 8000); // high enough to light most, below flash
    // Force full fill by being just under flash threshold.
    assert_eq!(segment_rgb(&t, 0, 12, &cfg, &car, 0), cfg.col_green);
    assert_eq!(segment_rgb(&t, 6, 12, &cfg, &car, 0), cfg.col_red);
    assert_eq!(segment_rgb(&t, 9, 12, &cfg, &car, 0), cfg.col_blue);
}

#[test]
fn car_data_thresholds() {
    let cfg = RevCfg::default();
    let mut car = CarData::default();
    car.valid = true;
    car.led_count = 12;
    car.redline[gear_index(b'2')] = 9000;
    for ci in 0..12 {
        car.thresh[gear_index(b'2')][ci] = 6000 + ci as u16 * 200;
        car.led_color[ci] = 0x112233;
    }
    let t = tel(b'2', 6500, 9500, 9000);
    // LED 0 (thr 6000) lit, LED 11 (thr 8200) not.
    assert_eq!(segment_rgb(&t, 0, 12, &cfg, &car, 0), 0x112233);
    assert_eq!(segment_rgb(&t, 11, 12, &cfg, &car, 0), 0);
    // Over redline -> flash: off at now_ms=0, on at now_ms=blink_ms.
    let t = tel(b'2', 9200, 9500, 9000);
    assert_eq!(segment_rgb(&t, 0, 12, &cfg, &car, 0), 0);
    assert_eq!(segment_rgb(&t, 0, 12, &cfg, &car, car.blink_ms as i64), 0x112233);
}

/// The gaps of a scoring buffer: to the leader, and to the player on track.
fn parse_rf2_relatives(scoring: &[u8]) -> Option<Relatives> {
    let s = read_scoring(scoring)?;
    let track = f64::from_bits(s.track_len);
    let best = f64::from_bits(reference_lap(&s));
    let pace = if best > 0.0 { track / best } else { 55.0 };
    let me = f64::from_bits(s.cars[s.player].lapdist);
    let gaps: Vec<(i32, i32)> = s
        .cars
        .iter()
        .map(|c| {
            let mut d = f64::from_bits(c.lapdist) - me;
            if d > track / 2.0 {
                d -= track;
            } else if d < -track / 2.0 {
                d += track;
            }
            let behind = f64::from_bits(c.behind_leader_s).max(0.0);
            ((behind * 1000.0).round() as i32, (d / pace * 1000.0).round() as i32)
        })
        .collect();
    Some(relatives_from_scoring(&s, &gaps))
}

#[test]
fn wire_round_trip() {
    let mut r = Relatives::default();
    r.player = 1;
    r.count = 2;
    r.cars[0] = RelCar { place: 1, gap_leader_ms: 0, gap_rel_ms: -2300, laps: 5, flags: 0, name: [0; NAME_LEN] };
    r.cars[0].set_name("VERSTAPPEN");
    r.cars[1] = RelCar { place: 2, gap_leader_ms: 1450, gap_rel_ms: 0, laps: 5, flags: FLAG_PLAYER, name: [0; NAME_LEN] };
    r.cars[1].set_name("HAMILTON");
    let wire = r.to_wire();
    let back = Relatives::from_wire(&wire).unwrap();
    assert_eq!(back.count, 2);
    assert_eq!(back.player, 1);
    assert_eq!(back.cars[0].place, 1);
    assert_eq!(back.cars[0].gap_rel_ms, -2300);
    assert_eq!(back.cars[0].name_str(), "VERSTAPPEN");
    assert_eq!(back.cars[1].gap_leader_ms, 1450);
    assert!(back.cars[1].is_player());
    assert_eq!(back.cars[1].name_str(), "HAMILTON");
}

#[test]
fn from_wire_skips_garbage() {
    // missing prefix → None
    assert!(Relatives::from_wire("REL|0|1,0,0,0,0,X").is_none());
    // one good car, one malformed (skipped)
    let r = Relatives::from_wire("@REL|0|1,0,0,3,1,ME|bogus|2,500,500,3,0,YOU").unwrap();
    assert_eq!(r.count, 2);
    assert_eq!(r.cars[0].name_str(), "ME");
    assert_eq!(r.cars[1].name_str(), "YOU");
}

#[test]
fn rf2_relatives_from_scoring() {
    // Synthetic scoring buffer: 3 cars, player = car index 1.
    let mut s = vec![0u8; VEH_BASE + 3 * VEH_STRIDE];
    s[116..120].copy_from_slice(&3i32.to_le_bytes()); // mNumVehicles
    s[100..108].copy_from_slice(&3000.0f64.to_le_bytes()); // track length 3 km
    let mut set = |i: usize, place: u8, dist: f64, behind: f64, player: bool, name: &str, best: f64| {
        let b = VEH_BASE + i * VEH_STRIDE;
        let nb = name.as_bytes();
        s[b + 36..b + 36 + nb.len()].copy_from_slice(nb);
        s[b + 100..b + 102].copy_from_slice(&3i16.to_le_bytes()); // laps
        s[b + 104..b + 112].copy_from_slice(&dist.to_le_bytes());
        s[b + 144..b + 152].copy_from_slice(&best.to_le_bytes());
        s[b + 196] = player as u8;
        s[b + 199] = place;
        s[b + 244..b + 252].copy_from_slice(&behind.to_le_bytes());
    };
    // leader at 1500 m, player 100 m behind on track, third car 100 m ahead.
    set(0, 1, 1500.0, 0.0, false, "LEADER", 60.0); // pace = 3000/60 = 50 m/s
    set(1, 2, 1400.0, 1.5, true, "PLAYER", 60.0);
    set(2, 3, 1500.0, 3.0, false, "THIRD", 60.0);
    let r = parse_rf2_relatives(&s).unwrap();
    assert_eq!(r.count, 3);
    // player row found, gap_rel 0, flagged
    let p = &r.cars[r.player as usize];
    assert!(p.is_player());
    assert_eq!(p.gap_rel_ms, 0);
    assert_eq!(p.gap_leader_ms, 1500); // 1.5 s behind leader
    // leader is 100 m ahead of player @ 50 m/s → +2000 ms
    let lead = r.cars.iter().find(|c| c.place == 1).unwrap();
    assert_eq!(lead.gap_rel_ms, 2000);
    assert_eq!(lead.name_str(), "LEADER");
}
