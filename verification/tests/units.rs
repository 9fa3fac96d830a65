use pith::handbrake::autozero::AutoZero;
use pith::handbrake::calibration::Calibration;
use pith::handbrake::hx711::Iir;
use pith::handbrake::proto::HostCmd;
use pith::handbrake::runtime::{Runtime, Step, StoreOp};
use pith::handbrake::status::Status;
use pith::link::{hid_payload, LineBuf, LineRule, TxQueue};
use pith::pedals::ads1256;
use pith::pedals::control::{
    curve_knots, filter_model, in_window, pitch_mm, turned, wetness, Model, Travel,
};
use pith::pedals::effects::Triggers;
use pith::pedals::led::Led;
use pith::pedals::ota::{Ota, Post};
use pith::pedals::protocol::{PedalAction, PedalConfig, PedalId};
use pith::pedals::runtime as pedal;
use pith::pedals::servo::{Servo, ServoError};
use pith::pedals::servo_jss57p::{
    default_of, guard_write, GuardError, REG_MOTION_COMMAND, REG_PULSE_FILTER_TIME,
};
use pith::pedals::status::{parse_reply_line, PedalStatus, Reply};
use pith::pedals::{modbus, modbus::ModbusError};

fn framed(body: &[u8]) -> Vec<u8> {
    let crc = modbus::crc16(body);
    let mut f = body.to_vec();
    f.push((crc & 0xFF) as u8);
    f.push((crc >> 8) as u8);
    f
}

#[test]
fn handbrake_status_is_read_back() {
    let mut rt = Runtime::new(None);
    rt.pending.idle_raw = -300;
    rt.pending.max_raw = 90_000;
    rt.pending.deadzone_lo_pct = 7;
    rt.pending.calibrated = true;
    let line = rt.status_line();
    let s = Status::parse(line.strip_prefix("OK ").unwrap()).unwrap();
    assert_eq!(s.idle_raw, -300);
    assert_eq!(s.max_raw, 90_000);
    assert_eq!(s.deadzone_lo_pct, 7);
    assert!(s.calibrated && !s.inverted);
    assert_eq!(Status::parse("raw=1 pct=2"), None);
    assert_eq!(Status::parse("raw=1 pct=70000 idle=0 max=0 dzlo=0 dzhi=0 inv=0 calibrated=0"), None);
}

#[test]
fn handbrake_keeps_what_was_saved() {
    let mut rt = Runtime::new(None);
    assert!(matches!(rt.dispatch("@SETIDLE1000", "f", "s"), Step::Reply(_)));
    assert!(matches!(rt.dispatch("@SETMAX50000", "f", "s"), Step::Reply(_)));
    let before = rt.pending;
    match rt.dispatch("@SAVE", "f", "s") {
        Step::Store { op, .. } => {
            assert_eq!(rt.stored(op, true), "OK\n");
        }
        _ => panic!("a save is stored"),
    }
    rt.dispatch("@INV1", "f", "s");
    assert!(rt.pending.inverted);
    rt.dispatch("@CANCEL", "f", "s");
    assert_eq!(rt.pending, before);
    assert_eq!(Calibration::from_bytes(&before.to_bytes()), Some(before));
}

#[test]
fn handbrake_refuses_what_it_cannot_use() {
    let mut rt = Runtime::new(None);
    let text = |s: Step| match s {
        Step::Reply(s) => s,
        _ => String::new(),
    };
    assert_eq!(text(rt.dispatch("@NOPE", "f", "s")), "ERR parse\n");
    assert_eq!(text(rt.dispatch("@DZ1", "f", "s")), "ERR range\n");
    assert!(text(rt.dispatch("@SETMAX0", "f", "s")).starts_with("ERR span"));
    match rt.dispatch("@RESET", "f", "s") {
        Step::Store { op, .. } => {
            assert_eq!(op, StoreOp::Reset);
            assert!(rt.stored(op, false).starts_with("ERR"));
        }
        _ => panic!("a reset is stored"),
    }
    assert_eq!(Runtime::new(Some(&[1u8, 2])).pending, Calibration::default());
}

#[test]
fn samples_move_the_axis() {
    let mut rt = Runtime::new(None);
    rt.dispatch("@SETIDLE0", "f", "s");
    rt.dispatch("@SETMAX100000", "f", "s");
    let mut filter = Iir::new(0);
    let mut zero = AutoZero::new();
    let (axis, telem) = rt.sample(&mut filter, &mut zero, 50_000, false);
    assert!((32_000..=33_500).contains(&axis));
    assert!(telem.unwrap().starts_with("$50000,"));
    let (_, quiet) = rt.sample(&mut filter, &mut zero, 50_000, true);
    assert_eq!(quiet, None);
}

#[test]
fn a_held_pull_is_no_drift() {
    let mut az = AutoZero::new();
    let mut cal = Calibration::default();
    cal.idle_raw = 0;
    cal.max_raw = 100_000;
    cal.calibrated = true;
    for _ in 0..5000 {
        az.observe(60_000, &mut cal);
    }
    assert_eq!(cal.idle_raw, 0);
    for _ in 0..5000 {
        az.observe(500, &mut cal);
    }
    assert!(cal.idle_raw > 0 && cal.idle_raw <= 500);
}

#[test]
fn lines_are_put_together_from_packets() {
    let rule = LineRule { max: 16, dollar_starts: false };
    let mut b = LineBuf::new();
    assert!(b.feed_text(b"@CA", rule).is_empty());
    assert_eq!(b.feed_text(b"P\r\n?\n@x", rule), vec!["@CAP", "?"]);
    assert_eq!(b.feed_text(&[0xFF, b'\n'], rule), vec!["@x\u{fffd}"]);
    assert!(b.feed_text(b"0123456789012345678", rule).is_empty());
    assert_eq!(b.feed_text(b"\n", rule).len(), 1);
    let dollar = LineRule { max: 64, dollar_starts: true };
    let mut d = LineBuf::new();
    assert_eq!(d.feed_text(b"junk$1;2\n", dollar), vec!["junk", "$1;2"]);
}

#[test]
fn replies_leave_in_chunks() {
    let mut q = TxQueue::new();
    assert_eq!(q.next_report(), None);
    let text: Vec<u8> = (0..100).collect();
    q.queue(&text, 8192);
    let first = q.next_report().unwrap();
    assert_eq!(first[0], 61);
    assert_eq!(&first[1..62], &text[..61]);
    q.sent();
    let second = q.next_report().unwrap();
    assert_eq!(second[0], 39);
    assert_eq!(&second[1..40], &text[61..]);
    q.sent();
    assert_eq!(q.next_report(), None);
    q.queue(&text, 10);
    assert_eq!(&q.next_report().unwrap()[1..11], &text[90..]);
    assert_eq!(hid_payload(&[3, b'a', b'b', b'c', 0, 0]), b"abc");
    assert_eq!(hid_payload(&[9, b'a']), b"a");
}

#[test]
fn pedal_status_is_read_back() {
    let mut rt = pedal::Runtime::new();
    rt.ticked(512, 1234, 40_000);
    let line = rt.status_line();
    assert_eq!(line, "OK position=512 force=1234 joy=40000 err=0 servo=0\n");
    let body = match parse_reply_line(line.trim_end()).unwrap() {
        Reply::Okay(b) => b,
        Reply::Error(_) => panic!("the status is no refusal"),
    };
    let s = PedalStatus::parse(&body).unwrap();
    assert_eq!((s.position_pct_x10, s.force_n_x10, s.joystick_output), (512, 1234, 40_000));
    assert_eq!(rt.state_line(), "position=512 force=1234 joy=40000 armed=0");
    assert_eq!(parse_reply_line("ERR parse "), Some(Reply::Error("parse".to_string())));
    assert_eq!(parse_reply_line("$1"), None);
}

#[test]
fn pedal_commands_are_told_apart() {
    let rt = pedal::Runtime::new();
    assert_eq!(rt.dispatch("@GETCFG\n", "1", "S"), pedal::Step::SendConfig);
    assert_eq!(rt.dispatch("@CFG{}", "1", "S"), pedal::Step::SetConfig("{}".to_string()));
    assert_eq!(rt.dispatch("@ACT{}", "1", "S"), pedal::Step::SetAction("{}".to_string()));
    assert_eq!(rt.dispatch("@OTA 4096 ", "1", "S"), pedal::Step::Ota(4096));
    assert_eq!(rt.dispatch("@OTAx", "1", "S"), pedal::Step::Ota(0));
    assert_eq!(
        rt.dispatch("@CAP", "1", "S"),
        pedal::Step::Reply("OK board=pcba_v2.2b fw=1 serial=S proto=1\n".to_string())
    );
    assert_eq!(rt.dispatch("hello", "1", "S"), pedal::Step::Reply("ERR unknown\n".to_string()));
    assert_eq!(rt.dispatch("@ARM\n", "1", "S"), pedal::Step::Arm(true));
    assert_eq!(rt.dispatch("@DISARM", "1", "S"), pedal::Step::Arm(false));
    assert_eq!(
        rt.dispatch("@WIFI pit-lane s3cret", "1", "S"),
        pedal::Step::Wifi("pit-lane".to_string(), "s3cret".to_string())
    );
    assert_eq!(
        rt.dispatch("@WIFI pit-lane", "1", "S"),
        pedal::Step::Reply("ERR unknown\n".to_string())
    );
    assert_eq!(pedal::config_reply(Some("{}")), "OK{}\n");
    assert_eq!(pedal::config_reply(None), "ERR encode\n");
    assert_eq!(pedal::taken_reply(true), "OK\n");
    assert_eq!(pedal::taken_reply(false), "ERR parse\n");
    assert_eq!(pedal::step_time(1000, 999_999), 1);
    assert_eq!(pedal::step_time(9_000, 1_000), 5000);
}

#[test]
fn the_motor_stays_off_until_it_is_armed() {
    let mut rt = pedal::Runtime::new();
    rt.home(400);
    rt.ticked(1, 2, 3);
    assert!(!rt.follows());
    assert!(!rt.drives(Some(true)));
    assert!(!rt.state.servo_on);
    assert_eq!(rt.arm(true), "OK\n");
    assert!(rt.follows());
    assert!(rt.drives(Some(true)));
    assert!(!rt.drives(Some(false)));
    assert!(!rt.drives(None));
    assert_eq!(rt.soft_min(), 400);
    rt.ticked(1, 2, 3);
    assert!(rt.state.servo_on);
    assert_eq!(rt.arm(false), "OK\n");
    rt.ticked(1, 2, 3);
    assert!(!rt.follows() && !rt.state.servo_on);
}

#[test]
fn the_drive_is_not_armed_before_it_is_known() {
    let mut s = Servo::new(1);
    assert!(!s.arm());
    assert_eq!(s.write_register(REG_MOTION_COMMAND, 1), Err(ServoError::NotArmed));
    assert!(s.write_register(REG_PULSE_FILTER_TIME, 60).is_ok());
    assert_eq!(s.send_target(5).err(), Some(ServoError::NotArmed));
    assert!(s.probed(&framed(&[1, 3, 2, 0, 57])));
    assert!(s.arm() && s.is_armed() && s.is_identified());
    let w = s.send_target(0x0001_0002).unwrap();
    assert_eq!((w[0].value, w[1].value), (2, 1));
    assert!(matches!(
        s.write_register(2, 0),
        Err(ServoError::Guard(GuardError::Forbidden(2)))
    ));
    s.disarm();
    assert!(!s.is_armed());
    assert_eq!(s.hard_stop(), modbus::encode_write_single(1, REG_MOTION_COMMAND, 4));
    assert_eq!(Servo::register_of(&framed(&[1, 3, 2, 1, 44])), Some(300));
}

#[test]
fn drive_replies_that_do_not_fit_are_refused() {
    assert_eq!(modbus::decode_read_holding_response(&[1]), Err(ModbusError::ShortFrame));
    let cut = framed(&[1, 0x83]);
    assert_eq!(modbus::decode_read_holding_response(&cut), Err(ModbusError::ShortFrame));
    assert_eq!(
        modbus::decode_write_single_ack(&framed(&[1, 0x86]), 1, 2),
        Err(ModbusError::ShortFrame)
    );
    assert_eq!(
        modbus::decode_write_multiple_ack(&framed(&[1, 0x90]), 1, 2),
        Err(ModbusError::ShortFrame)
    );
    assert!(!Servo::new(1).probed(&cut));
    assert_eq!(Servo::register_of(&cut), None);
    assert_eq!(
        Servo::written(&framed(&[1, 0x86]), 1, 2),
        Err(ServoError::Modbus(ModbusError::ShortFrame))
    );
    assert_eq!(
        modbus::decode_read_holding_response(&framed(&[1, 3, 3, 0, 1])),
        Err(ModbusError::MalformedPayload)
    );
    assert!(modbus::decode_write_single_ack(&framed(&[1, 6, 0, 1, 0, 2]), 1, 3).is_err());
    assert_eq!(guard_write(33), Ok(()));
    assert_eq!(default_of(12), Some(60));
    assert_eq!(default_of(33), None);
}

#[test]
fn an_image_is_written_and_acknowledged() {
    let mut o = Ota::new();
    assert!(!Ota::may_begin(0));
    assert!(Ota::may_begin(5000));
    assert_eq!(o.began(5000, true, 0), "OTAREADY\n");
    assert!(o.active());
    let mut acks = 0;
    for n in [2000usize, 100, 1996, 904] {
        let take = o.accept(n).unwrap();
        assert_eq!(take, n);
        match o.written(take, true, 1) {
            Post::Ack => acks += 1,
            Post::Finish => assert_eq!(o.finished(true), "OTADONE\n"),
            Post::Quiet => {}
            Post::Failed => panic!("nothing failed"),
        }
    }
    assert_eq!(acks, 2);
    assert!(!o.active() && o.should_reboot());
    assert_eq!(o.accept(10), None);
}

#[test]
fn an_update_that_stalls_is_given_up() {
    let mut o = Ota::new();
    o.began(5000, true, 0);
    assert!(!o.check_timeout(1_000_000));
    assert!(o.check_timeout(60_000_000));
    assert!(!o.active());
    let mut failed = Ota::new();
    failed.began(100, true, 0);
    assert_eq!(failed.written(10, false, 0), Post::Failed);
    assert!(!failed.active() && !failed.should_reboot());
}

#[test]
fn the_status_light_tells_the_state() {
    let (white, c) = Led::boot();
    assert_eq!((c.r, c.g, c.b), (40, 40, 40));
    assert_eq!(white.cur, c);
    let mut led = Led::new();
    let idle = led.tick(0, false, false, true);
    let again = led.tick(1, false, false, true);
    assert!(idle.is_some());
    assert_eq!(again, None);
    let armed = led.tick(2, false, true, true);
    assert!(armed.is_some() && armed != idle);
}

#[test]
fn converter_registers() {
    assert_eq!(ads1256::write_register(2, 0x26), [0x52, 0x00, 0x26]);
    assert_eq!(ads1256::read_register(3), [0x13, 0x00]);
    assert_eq!(ads1256::mux(0, 1), 0x01);
    assert_eq!(ads1256::with_gain(0x20, 6), 0x26);
    assert_eq!(ads1256::reading([0xFF, 0xFF, 0xFE]), -2);
}

#[test]
fn effects_run_from_their_trigger() {
    let mut t = Triggers::new();
    let mut a = PedalAction::default();
    a.trigger_abs = true;
    a.trigger_cv[2] = true;
    t.apply_action(&a, 500);
    assert_eq!((t.abs_ms, t.rpm_ms, t.wheel_slip_ms), (500, 500, 0));
    assert_eq!(t.cv_ms, [0, 0, 500, 0]);
    assert!(in_window(600, t.abs_ms));
    assert!(!in_window(601, t.abs_ms));
}

#[test]
fn a_curve_that_steps_back_becomes_a_line() {
    let mut c = PedalConfig::defaults(PedalId::Brake);
    c.curve_travel_pct_x10 = vec![0, 250, 1000];
    c.curve_force_pct_x10 = vec![0, 100, 1000, 5];
    assert_eq!(curve_knots(&c), vec![(0, 0), (250, 100), (1000, 1000)]);
    c.curve_travel_pct_x10 = vec![0, 250, 250];
    assert_eq!(curve_knots(&c), vec![(0, 0), (1000, 1000)]);
    c.curve_travel_pct_x10 = (0..12).collect();
    c.curve_force_pct_x10 = (0..12).collect();
    assert_eq!(curve_knots(&c), vec![(0, 0), (1000, 1000)]);
    assert_eq!(pitch_mm(&c), 4);
    c.spindle_pitch_mm_per_rev = 0;
    assert_eq!(pitch_mm(&c), 1);
}

#[test]
fn small_choices_of_the_control_loop() {
    assert_eq!(filter_model(0), Model::Velocity);
    assert_eq!(filter_model(1), Model::Acceleration);
    assert_eq!(filter_model(2), Model::Exponential);
    assert_eq!(filter_model(200), Model::Raw);
    assert_eq!(turned(7, true), -7);
    assert_eq!(turned(7, false), 7);
    assert_eq!(wetness(9), 6);
    let t = Travel { soft_min_steps: -5, soft_max_steps: 20, hard_min_steps: 0, hard_max_steps: 0 };
    assert_eq!(t.steps(), 25);
    let wide = Travel { soft_min_steps: i32::MIN, soft_max_steps: 1, ..t };
    assert!(t.can_measure() && !wide.can_measure());
    assert_eq!(Travel::unknown().steps(), 0);
}

#[test]
fn stock_configurations_differ_in_force() {
    assert_eq!(PedalConfig::defaults(PedalId::Brake).max_force_n_x10, 6000);
    assert_eq!(PedalConfig::defaults(PedalId::Clutch).max_force_n_x10, 2000);
    assert_eq!(PedalConfig::defaults(PedalId::Throttle).max_force_n_x10, 500);
    assert_eq!(HostCmd::Save, HostCmd::Save);
}

#[test]
fn handbrake_takes_updates_beside_its_commands() {
    let mut rt = Runtime::new(None);
    assert_eq!(rt.take_line("@OTA204800", "f", "s"), Step::Ota(204_800));
    assert_eq!(rt.take_line("@OTA 12 ", "f", "s"), Step::Ota(12));
    assert_eq!(rt.take_line("@OTAx", "f", "s"), Step::Ota(0));
    assert_eq!(rt.take_line("@NOPE", "f", "s"), Step::Reply("ERR parse\n".to_string()));
    assert_eq!(rt.take_line("@SETIDLE7", "f", "s"), Step::Reply("OK\n".to_string()));
    assert_eq!(rt.pending.idle_raw, 7);
}

#[test]
fn the_widest_span_has_a_magnitude() {
    let mut cal = Calibration::default();
    cal.calibrated = true;
    cal.idle_raw = 0;
    cal.max_raw = i32::MIN;
    let mut az = AutoZero::new();
    for _ in 0..15 {
        assert!(az.can_observe(1_000_000, &cal));
        az.observe(1_000_000, &mut cal);
    }
    assert_eq!(cal.idle_raw, 250_000);
}
