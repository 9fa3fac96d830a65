use pith::format::{can_show, Fmt, Pal, NA};
use pith::handbrake::hx711::{conversion, sign_extend24, Iir};
use pith::le;
use pith::net::parse_device_packet;
use pith::order::{indices, sort_by};
use pith::registry::{field_def, field_value, set_field, telemetry_from_fields};
use pith::relatives::{
    can_shorten, from_cars, read_scoring, reference_lap, short_name, RelCar, Relatives,
    FLAG_IN_PITS, FLAG_PLAYER, INFINITE, MAX_REL, VEH_BASE, VEH_STRIDE,
};
use pith::shift::{can_light, gear_index, segment_rgb, shift_rpm_of, CarData, RevCfg};
use pith::simhub::{frame_fits, parse_line, read_frame, Telemetry, TooLong};
use pith::text::{
    chars_of, contains, dec_len, dec_string, int_string, key_value_words, parse_int, parse_nat,
    push_padded, split_all, string_of, trim_str, value_of,
};

#[test]
fn frames_round_trip() {
    let mut t = Telemetry::idle();
    t.gear = b'5';
    t.speed_kmh = 287;
    t.rpm = 11_250;
    t.max_rpm = 12_000;
    t.delta_ms = -1234;
    t.tw_fl = 97;
    t.ignition = 1;
    let back = parse_line(&t.to_frame()).unwrap();
    assert_eq!(back.gear, b'5');
    assert_eq!(back.speed_kmh, 287);
    assert_eq!(back.rpm, 11_250);
    assert_eq!(back.delta_ms, -1234);
    assert_eq!(back.tw_fl, 97);
    assert_eq!(back.ignition, 1);
}

#[test]
fn a_number_that_does_not_fit_is_told_apart() {
    assert!(frame_fits("$1;2147483647;3;4"));
    assert!(!frame_fits("$1;2147483648;3;4"));
    assert!(matches!(read_frame("$1;99999999999;3;4"), Err(TooLong)));
    assert_eq!(read_frame("$1;5;3;4").unwrap().unwrap().speed_kmh, 5);
    assert!(matches!(read_frame("no frame"), Ok(None)));
}

#[test]
fn fields_are_set_and_read_by_number() {
    let mut t = Telemetry::idle();
    set_field(&mut t, 1, 88);
    set_field(&mut t, 2, 7000);
    assert_eq!(t.speed_kmh, 88);
    assert_eq!(field_value(&t, 2), 7000);
    let u = telemetry_from_fields(&[99, 10, 20, 30]);
    assert_eq!(field_value(&u, 1), 10);
    assert_eq!(field_value(&u, 2), 20);
    assert_eq!(field_value(&u, 3), 30);
    assert_eq!(field_value(&u, 4), 0);
    assert!(field_def(0).is_none());
    assert_eq!(field_def(1).unwrap().name, "speed_kmh");
    assert!(field_def(94).is_none());
}

#[test]
fn numbers_that_cannot_be_shown_are_known() {
    assert!(can_show(212, Fmt::Int));
    assert_eq!(pith::format::format(NA, Fmt::Int, 1, "L"), "--");
    assert_eq!(Pal::from_str("#102030"), Pal::Rgb(0x10, 0x20, 0x30));
    assert_eq!(Pal::Rgb(1, 2, 3).rgb888(), (1, 2, 3));
}

#[test]
fn little_endian_numbers() {
    let b = [0xFEu8, 0xFF, 0xFF, 0xFF, 0x01, 0x00, 0x00, 0x80];
    assert_eq!(le::u8(&b, 0), 0xFE);
    assert_eq!(le::i8(&b, 0), -2);
    assert_eq!(le::u16(&b, 0), 0xFFFE);
    assert_eq!(le::i16(&b, 0), -2);
    assert_eq!(le::u32(&b, 0), 0xFFFF_FFFE);
    assert_eq!(le::i32(&b, 0), -2);
    assert_eq!(le::i32(&b, 4), i32::MIN + 1);
    assert_eq!(le::bits64(&1.5f64.to_le_bytes(), 0), 1.5f64.to_bits());
    assert_eq!(le::gear_byte(-1), b'R');
    assert_eq!(le::gear_byte(0), b'N');
    assert_eq!(le::gear_byte(4), b'4');
}

#[test]
fn texts_are_cut_and_read() {
    assert_eq!(trim_str("  a b \r\n"), "a b");
    assert_eq!(trim_str(" \t "), "");
    let c = chars_of("a,,b");
    let parts: Vec<String> = split_all(&c, ',').iter().map(|p| string_of(p)).collect();
    assert_eq!(parts, vec!["a", "", "b"]);
    assert_eq!(parse_nat(&chars_of("65535"), 65_535), Some(65_535));
    assert_eq!(parse_nat(&chars_of("65536"), 65_535), None);
    assert_eq!(parse_nat(&chars_of("+7"), 9), Some(7));
    assert_eq!(parse_nat(&chars_of(""), 9), None);
    assert_eq!(parse_int(&chars_of("-128"), -128, 127), Some(-128));
    assert_eq!(parse_int(&chars_of("-129"), -128, 127), None);
    assert_eq!(parse_int(&chars_of("-"), -128, 127), None);
    assert_eq!(int_string(-40), "-40");
    assert_eq!(dec_string(0), "0");
    assert_eq!(dec_len(1000), 4);
    let mut s = String::from("t=");
    push_padded(&mut s, 7, 3);
    assert_eq!(s, "t=007");
    assert!(contains(&chars_of("xOTADONEy"), "OTADONE"));
    assert!(!contains(&chars_of("OTADON"), "OTADONE"));
    let kv = key_value_words("a=1 noise b=2=3");
    assert_eq!(kv, vec![("a", "1"), ("b", "2=3")]);
    assert_eq!(value_of(&kv, "b"), Some("2=3"));
    assert_eq!(value_of(&kv, "c"), None);
}

#[test]
fn sorting_is_stable() {
    let keys = vec![3i64, 1, 3, 1, 2];
    assert_eq!(sort_by(&indices(5), &keys), vec![1, 3, 4, 0, 2]);
}

#[test]
fn packets_with_missing_parts_are_refused() {
    assert_eq!(parse_device_packet("AX PITH-1"), None);
    assert_eq!(parse_device_packet("AX PITH-1 65536"), None);
    assert_eq!(parse_device_packet("BT PITH-1 notanumber"), None);
    assert_eq!(parse_device_packet("PITH ddu"), None);
}

fn car(place: u8, gap: i32, player: bool, name: &str) -> RelCar {
    let mut c = RelCar::default();
    c.place = place;
    c.gap_rel_ms = gap;
    if player {
        c.flags = FLAG_PLAYER;
    }
    c.set_name(name);
    c
}

#[test]
fn names_are_kept_printable() {
    let mut c = RelCar::default();
    c.set_name("A|B,C\u{e9}");
    assert_eq!(c.name_str(), "A_B_C__");
    c.set_name("12345678901234567");
    assert_eq!(c.name_str(), "12345678901234");
    c.name[3] = 0xFF;
    assert_eq!(c.name_str(), "");
    c.flags = FLAG_IN_PITS;
    assert!(c.in_pits() && !c.is_player());
}

#[test]
fn long_names_are_shortened_to_their_last_word() {
    assert_eq!(short_name("  ALONSO "), "ALONSO");
    assert_eq!(short_name("Fernando Alonso Diaz"), "Diaz");
    assert_eq!(short_name("aaaaaaaaaaaaaaaaaaaa"), "aaaaaaaaaaaaaa");
    assert!(can_shorten("Fernando Alonso Diaz"));
    assert!(!can_shorten("aaaaaaaaaaaaa\u{e9}aaaaaa"));
}

#[test]
fn a_large_field_is_cut_to_the_leaders_and_the_nearest() {
    let built: Vec<RelCar> = (0..20)
        .map(|i| car(20 - i as u8, (i as i32 - 10) * 1000, i == 10, "X"))
        .collect();
    let r = from_cars(built, 10);
    assert_eq!(r.count as usize, MAX_REL);
    let places: Vec<u8> = r.entries().iter().map(|c| c.place).collect();
    assert_eq!(places, vec![1, 2, 3, 4, 5, 7, 8, 9, 10, 11, 12, 13]);
    assert!(r.cars[r.player as usize].is_player());
}

#[test]
fn a_line_of_cars_needs_its_head() {
    assert!(Relatives::from_wire("@REL|x|").is_none());
    assert_eq!(Relatives::from_wire("@REL|3").unwrap().count, 0);
    assert_eq!(Relatives::from_wire("@REL|3").unwrap().player, 3);
}

fn scoring(n: i32, track: f64) -> Vec<u8> {
    let mut s = vec![0u8; VEH_BASE + 2 * VEH_STRIDE];
    s[116..120].copy_from_slice(&n.to_le_bytes());
    s[100..108].copy_from_slice(&track.to_le_bytes());
    s
}

#[test]
fn scoring_without_track_or_player_is_refused() {
    assert!(read_scoring(&[0u8; 119]).is_none());
    assert!(read_scoring(&scoring(0, 3000.0)).is_none());
    assert!(read_scoring(&scoring(-4, 3000.0)).is_none());
    let mut s = scoring(2, 3000.0);
    assert!(read_scoring(&s).is_none());
    s[VEH_BASE + VEH_STRIDE + 196] = 1;
    assert_eq!(read_scoring(&s).unwrap().player, 1);
    for track in [0.0, 1.0, -5.0, f64::INFINITY, f64::NAN] {
        s[100..108].copy_from_slice(&f64::to_le_bytes(track));
        assert!(read_scoring(&s).is_none());
    }
}

#[test]
fn the_pace_is_the_players_or_the_fastest() {
    let mut s = scoring(2, 3000.0);
    s[VEH_BASE + 196] = 1;
    let set = |s: &mut Vec<u8>, i: usize, best: f64| {
        let b = VEH_BASE + i * VEH_STRIDE + 144;
        s[b..b + 8].copy_from_slice(&best.to_le_bytes());
    };
    let lap = |s: &Vec<u8>| f64::from_bits(reference_lap(&read_scoring(s).unwrap()));
    assert_eq!(lap(&s), 0.0);
    set(&mut s, 1, 71.5);
    assert_eq!(lap(&s), 71.5);
    set(&mut s, 0, 80.25);
    assert_eq!(lap(&s), 80.25);
    set(&mut s, 0, -1.0);
    assert_eq!(lap(&s), 71.5);
    assert_eq!(f64::from_bits(INFINITE), f64::INFINITY);
}

#[test]
fn the_shift_point_falls_back_to_the_redline() {
    let mut t = Telemetry::idle();
    t.max_rpm = 8000;
    assert_eq!(shift_rpm_of(&t), 7440);
    t.shift_rpm = 7100;
    assert_eq!(shift_rpm_of(&t), 7100);
    assert_eq!(gear_index(b'R'), 0);
    assert_eq!(gear_index(b'N'), 1);
    assert_eq!(gear_index(b'9'), 10);
}

#[test]
fn lights_stay_within_range() {
    let t = Telemetry::idle();
    let cfg = RevCfg::default();
    let car = CarData::default();
    assert!(can_light(&t, 0, 12, &cfg, &car));
    assert_eq!(segment_rgb(&t, 0, 12, &cfg, &car, 0), 0);
}

#[test]
fn load_cell_bits_make_a_signed_number() {
    assert_eq!(sign_extend24(0x7F_FFFF), 8_388_607);
    assert_eq!(sign_extend24(0x80_0000), -8_388_608);
    let mut bits = [true; 24];
    assert_eq!(conversion(&bits), -1);
    bits[0] = false;
    assert_eq!(conversion(&bits), 8_388_607);
}

#[test]
fn the_filter_stays_between_old_and_new() {
    let mut f = Iir::new(2);
    assert_eq!(f.push(1000), 1000);
    let v = f.push(2000);
    assert!(1000 <= v && v <= 2000);
    let mut raw = Iir::new(0);
    raw.push(5);
    assert_eq!(raw.push(-77), -77);
}

#[test]
fn counts_and_codes_are_not_scaled() {
    assert_eq!(pith::format::format(70, Fmt::Str, 10, ""), "70");
    assert_eq!(pith::format::format(-70, Fmt::Str, 10, "x"), "-70x");
    assert_eq!(pith::format::format(70, Fmt::Int, 10, ""), "7");
    assert_eq!(pith::format::format(NA, Fmt::Str, 10, ""), "--");
}

#[test]
fn an_empty_list_holds_no_cars() {
    let r = Relatives::default();
    assert_eq!((r.count, r.player), (0, 0));
    assert!(r.cars.iter().all(|c| c.place == 0 && c.laps == 0 && c.name == [0; 14]));
}

#[test]
fn places_behind_the_cars_are_empty() {
    let r = Relatives::from_wire("@REL|0|1,0,0,3,1,ME|bad|2,5,-5,3,0,YOU").unwrap();
    assert_eq!(r.count, 2);
    assert!(r.cars[2..].iter().all(|c| c.place == 0 && c.name == [0; 14]));
    let r = from_cars(vec![RelCar::default()], 0);
    assert!(r.cars[1..].iter().all(|c| c.place == 0));
}

#[test]
fn the_nearest_cars_are_sent() {
    let field: Vec<RelCar> = (0..20)
        .map(|i| {
            let mut c = RelCar::default();
            c.place = i + 1;
            c.gap_rel_ms = (19 - i as i32) * 100;
            c
        })
        .collect();
    let r = from_cars(field, 19);
    let places: Vec<u8> = r.cars.iter().map(|c| c.place).collect();
    assert_eq!(places, vec![1, 2, 3, 4, 5, 14, 15, 16, 17, 18, 19, 20]);
}
