use pith::handbrake::calibration::{Calibration, MIN_SPAN};
use pith::handbrake::proto::{
    format_telem, parse_host_line, parse_kv, parse_reply_line, parse_telem_line, HostCmd,
    ParseError, Reply, Telem,
};

fn cal(idle: i32, max: i32, dz_lo: u8, dz_hi: u8, inverted: bool) -> Calibration {
    Calibration {
        idle_raw: idle,
        max_raw: max,
        deadzone_lo_pct: dz_lo,
        deadzone_hi_pct: dz_hi,
        inverted,
        calibrated: true,
    }
}

#[test]
fn uncalibrated_is_zero() {
    let c = Calibration::default();
    assert_eq!(c.apply(50_000), 0);
}

#[test]
fn zero_span_is_zero() {
    let c = cal(1000, 1000, 0, 0, false);
    assert_eq!(c.apply(50_000), 0);
}

#[test]
fn below_idle_clamps_to_zero() {
    let c = cal(1000, 9000, 0, 0, false);
    assert_eq!(c.apply(0), 0);
}

#[test]
fn above_max_clamps_to_max() {
    let c = cal(1000, 9000, 0, 0, false);
    assert_eq!(c.apply(50_000), 65535);
}

#[test]
fn midpoint_is_half_scale() {
    let c = cal(0, 10_000, 0, 0, false);
    let out = c.apply(5_000);
    assert!((32000..=33500).contains(&out), "got {out}");
}

#[test]
fn deadzone_lo_clamps_small_pulls_to_zero() {
    let c = cal(0, 10_000, 10, 0, false); // bottom 10% dead
    assert_eq!(c.apply(500), 0); // 5% pull, inside the deadzone
    assert!(c.apply(2_000) > 0); // 20% pull, past it
}

#[test]
fn deadzone_hi_clamps_near_max_to_full_scale() {
    let c = cal(0, 10_000, 0, 10, false); // top 10% saturates early
    assert_eq!(c.apply(9_500), 65535); // 95% pull, inside the top deadzone
    assert!(c.apply(8_000) < 65535); // 80% pull, before it
}

#[test]
fn inverted_flips_output() {
    let normal = cal(0, 10_000, 0, 0, false);
    let inv = cal(0, 10_000, 0, 0, true);
    assert_eq!(normal.apply(10_000), 65535);
    assert_eq!(inv.apply(10_000), 0);
    assert_eq!(normal.apply(0), 0);
    assert_eq!(inv.apply(0), 65535);
}

#[test]
fn reversed_wiring_still_ramps_up_on_pull() {
    // max_raw < idle_raw: raw counts DOWN as the handbrake is pulled.
    let c = cal(10_000, 0, 0, 0, false);
    assert_eq!(c.apply(10_000), 0);
    assert_eq!(c.apply(0), 65535);
    let mid = c.apply(5_000);
    assert!((32000..=33500).contains(&mid), "got {mid}");
}

#[test]
fn degenerate_deadzone_config_is_always_off() {
    let c = cal(0, 10_000, 60, 60, false); // lo+hi > 100% — nothing usable
    assert_eq!(c.apply(5_000), 0);
}

#[test]
fn bytes_roundtrip() {
    let c = cal(-1234, 987_654, 5, 12, true);
    let b = c.to_bytes();
    assert_eq!(Calibration::from_bytes(&b), Some(c));
}

#[test]
fn from_bytes_rejects_short_buffer() {
    assert_eq!(Calibration::from_bytes(&[0u8; 4]), None);
}

#[test]
fn span_ok_thresholds() {
    assert!(!Calibration::span_ok(0, MIN_SPAN - 1));
    assert!(Calibration::span_ok(0, MIN_SPAN));
    assert!(Calibration::span_ok(MIN_SPAN, 0)); // direction-agnostic
}

#[test]
fn parses_status() {
    assert_eq!(parse_host_line("?"), Ok(HostCmd::Status));
}

#[test]
fn parses_zero_arg_commands() {
    assert_eq!(parse_host_line("@CAP"), Ok(HostCmd::Cap));
    assert_eq!(parse_host_line("@SAVE"), Ok(HostCmd::Save));
    assert_eq!(parse_host_line("@CANCEL"), Ok(HostCmd::Cancel));
    assert_eq!(parse_host_line("@RESET"), Ok(HostCmd::Reset));
}

#[test]
fn parses_set_idle_and_max() {
    assert_eq!(parse_host_line("@SETIDLE1234"), Ok(HostCmd::SetIdle(1234)));
    assert_eq!(parse_host_line("@SETIDLE-500"), Ok(HostCmd::SetIdle(-500)));
    assert_eq!(parse_host_line("@SETMAX98765"), Ok(HostCmd::SetMax(98765)));
    assert_eq!(parse_host_line("@SETIDLEfoo"), Err(ParseError::BadArgs));
}

#[test]
fn parses_deadzone() {
    assert_eq!(
        parse_host_line("@DZ5,12"),
        Ok(HostCmd::SetDeadzone { lo: 5, hi: 12 })
    );
}

#[test]
fn rejects_out_of_range_deadzone() {
    assert_eq!(parse_host_line("@DZ101,0"), Err(ParseError::BadArgs));
    assert_eq!(parse_host_line("@DZ5"), Err(ParseError::BadArgs));
    assert_eq!(parse_host_line("@DZfoo,0"), Err(ParseError::BadArgs));
}

#[test]
fn parses_inverted() {
    assert_eq!(parse_host_line("@INV1"), Ok(HostCmd::SetInverted(true)));
    assert_eq!(parse_host_line("@INV0"), Ok(HostCmd::SetInverted(false)));
    assert_eq!(parse_host_line("@INV2"), Err(ParseError::BadArgs));
}

#[test]
fn rejects_unknown() {
    assert_eq!(parse_host_line("@NOPE"), Err(ParseError::Unknown));
    assert_eq!(parse_host_line("nope"), Err(ParseError::Unknown));
    assert_eq!(parse_host_line(""), Err(ParseError::Unknown));
}

#[test]
fn telem_line_roundtrips() {
    let line = format_telem(-12345, 65535);
    assert_eq!(line, "$-12345,1000\n");
    assert_eq!(
        parse_telem_line(&line),
        Some(Telem {
            raw: -12345,
            pct_x10: 1000
        })
    );
}

#[test]
fn telem_line_rejects_garbage() {
    assert_eq!(parse_telem_line("OK\n"), None);
    assert_eq!(parse_telem_line("$1,2,3\n"), None);
    assert_eq!(parse_telem_line("$notanumber,2\n"), None);
}

#[test]
fn reply_line_parses_ok_and_err() {
    assert_eq!(
        parse_reply_line("OK board=lolin_s2_mini\n"),
        Some(Reply::Okay("board=lolin_s2_mini".to_string()))
    );
    assert_eq!(parse_reply_line("OK\n"), Some(Reply::Okay(String::new())));
    assert_eq!(
        parse_reply_line("ERR span\n"),
        Some(Reply::Error("span".to_string()))
    );
    assert_eq!(parse_reply_line("$1,2\n"), None);
}

#[test]
fn kv_parses_cap_reply() {
    let kv = parse_kv("board=lolin_s2_mini fw=0.1.0 serial=PITHHB-ABC proto=1");
    assert_eq!(
        kv,
        vec![
            ("board", "lolin_s2_mini"),
            ("fw", "0.1.0"),
            ("serial", "PITHHB-ABC"),
            ("proto", "1"),
        ]
    );
}
