use pith::device::dash::{
    accepted, brightness_line, command_line, device_error, disp_line, last_reply, log_line,
    ota_line, ota_note, ota_reply, push_line, push_note, pushed, read_ms, timed_out, OtaNote,
    OtaReply, Push, Upload,
};
use pith::device::upload::{error_of, succeeded, Ending, Event, Phase, Session, Target, Todo};
use pith::device::handbrake as hb;
use pith::device::handbrake::WaitError;
use pith::device::hid::{reports, shear, HidRx};
use pith::device::pedals as pd;
use pith::device::probe::{name_of, register_line, Answer, Sweep};
use pith::device::serial::{first_line_of, hex4_text, port_info, tty_name, usb_port, PortInfo, SerialRx};
use pith::device::{DEVICE_PIDS, PID_DDU, PITH_PID, PITH_VID};
use pith::flash::{answers, port_line, read_args, Progress, Request};
use pith::handbrake::proto::{parse_host_line, HostCmd, ParseError, Reply};
use pith::handbrake::runtime::Runtime;
use pith::pedals::modbus;
use pith::pedals::status::Reply as PedalReply;

fn args(a: &[&str]) -> Vec<String> {
    a.iter().map(|s| s.to_string()).collect()
}

#[test]
fn lines_for_the_unit() {
    assert_eq!(command_line("@EG", ""), "@EG\n");
    assert_eq!(push_line(""), None);
    assert_eq!(push_line("$1;2"), Some("$1;2\n".to_string()));
    assert_eq!(pushed(Push::Race, "{}"), "@RS{}\n");
    assert_eq!(pushed(Push::Editor, "{}"), "@EL{}\n");
    assert_eq!(push_note(Push::Shift, "OK"), "shift: OK");
    assert_eq!(brightness_line(-5), "@B-5\n");
    assert_eq!(ota_line(1_048_576), "@OTA1048576\n");
    assert_eq!(
        disp_line(1, true, false, false, true),
        "@DO{\"rot\":1,\"fh\":true,\"fv\":false,\"bgr\":false,\"inv\":true}\n"
    );
    assert!(accepted("OK") && accepted("OTAREADY") && !accepted("ERR"));
    let mut log = String::from("a\n");
    log_line(&mut log, "b");
    assert_eq!(log, "a\nb\n");
}

#[test]
fn an_upload_ends_with_the_image() {
    let mut u = Upload::new(5000);
    let mut seen = Vec::new();
    while let Some((from, to)) = u.piece() {
        let (wait, pct) = u.advance();
        seen.push((from, to, wait, pct));
    }
    assert_eq!(
        seen,
        vec![(0, 2048, true, 40), (2048, 4096, true, 81), (4096, 5000, false, 100)]
    );
    assert_eq!(Upload::new(0).piece(), None);
}

#[test]
fn upload_replies_are_told_from_noise() {
    assert_eq!(ota_reply("  \r\n", "K"), OtaReply::Skip);
    assert_eq!(ota_reply("K\n", "K"), OtaReply::Arrived);
    assert_eq!(ota_reply("OK", "K"), OtaReply::Skip);
    assert_eq!(ota_reply("a\u{20AC}b", "\u{20AC}"), OtaReply::Arrived);
    assert_eq!(ota_reply("a\u{E9}b", "\u{E9}"), OtaReply::Skip);
    assert_eq!(ota_reply("xOTAREADYx", "OTAREADY"), OtaReply::Arrived);
    assert_eq!(ota_reply("OTAERR OTAREADY", "OTAREADY"), OtaReply::Failed);
    assert_eq!(last_reply("OTADONE"), OtaReply::Arrived);
    assert_eq!(last_reply("OTAERR"), OtaReply::Failed);
    assert_eq!(last_reply(""), OtaReply::Skip);
    assert_eq!(read_ms(0), 1);
    assert_eq!(read_ms(700), 700);
    assert_eq!(read_ms(12_000), 2000);
    assert_eq!(ota_note(OtaNote::WriteError), "OTA: write error");
    assert_eq!(ota_note(OtaNote::NoAck(2048)), "OTA: no ack at 2048");
    assert_eq!(ota_note(OtaNote::Done), "OTA: OTADONE");
    assert_eq!(ota_note(OtaNote::Rebooting), "OTA: done (device rebooting)");
    assert_eq!(device_error(" OTAERR 3\n"), "OTA: device error: OTAERR 3");
    assert_eq!(timed_out("K"), "OTA: timed out waiting for K");
}

#[test]
fn handbrake_commands_are_understood() {
    for c in [
        HostCmd::Status,
        HostCmd::Cap,
        HostCmd::SetIdle(-77),
        HostCmd::SetMax(i32::MIN),
        HostCmd::SetDeadzone { lo: 0, hi: 100 },
        HostCmd::SetInverted(true),
        HostCmd::SetInverted(false),
        HostCmd::Save,
        HostCmd::Cancel,
        HostCmd::Reset,
    ] {
        assert_eq!(parse_host_line(&hb::host_line(c)), Ok(c));
    }
    let wide = HostCmd::SetDeadzone { lo: 101, hi: 0 };
    assert_eq!(parse_host_line(&hb::host_line(wide)), Err(ParseError::BadArgs));
}

#[test]
fn handbrake_replies() {
    assert_eq!(hb::on_line(""), hb::Wait::GiveUp);
    assert_eq!(hb::on_line("$1,2"), hb::Wait::Again);
    assert_eq!(hb::on_line("noise"), hb::Wait::Again);
    assert_eq!(hb::on_line("OK x"), hb::Wait::Got(Reply::Okay("x".to_string())));
    assert!(hb::taken(&Some(Reply::Okay(String::new()))));
    assert!(!hb::taken(&Some(Reply::Error("span".to_string()))));
    assert!(!hb::taken(&None));
    assert_eq!(hb::outcome(Some(Reply::Okay(String::new()))), Ok(()));
    assert_eq!(hb::outcome(Some(Reply::Error("span".to_string()))), Err("span".to_string()));
    assert_eq!(hb::outcome(None), Err("timeout".to_string()));
    let caps = hb::capabilities_of(&Some(Reply::Okay("fw=1 proto=2".to_string()))).unwrap();
    assert_eq!(caps, vec![
        ("fw".to_string(), "1".to_string()),
        ("proto".to_string(), "2".to_string()),
    ]);
    assert_eq!(hb::capabilities_of(&None), None);
    let line = Runtime::new(None).status_line();
    let reply = match hb::on_line(line.trim_end()) {
        hb::Wait::Got(r) => Some(r),
        _ => None,
    };
    assert_eq!(hb::reported(&reply).unwrap().raw, 0);
    assert!(hb::reported(&Some(Reply::Error(String::new()))).is_none());
}

#[test]
fn handbrake_uploads_say_why_they_failed() {
    assert_eq!(hb::wait_error(WaitError::Timeout, "K"), "timed out waiting for K");
    assert_eq!(hb::wait_error(WaitError::Device, "K"), "device error: OTAERR");
    assert_eq!(hb::no_ack(2048, "x"), "no ack at 2048: x");
    assert_eq!(hb::write_error(0), "write error at 0");
}

#[test]
fn pedal_replies_and_lines() {
    assert_eq!(pd::host_line(pd::PedalCmd::Status), "?\n");
    assert_eq!(pd::host_line(pd::PedalCmd::Cap), "@CAP\n");
    assert_eq!(pd::host_line(pd::PedalCmd::GetConfig), "@GETCFG\n");
    assert_eq!(pd::config_line("{}"), "@CFG{}\n");
    assert_eq!(pd::action_line("{}"), "@ACT{}\n");
    assert_eq!(pd::on_line(""), pd::Wait::GiveUp);
    assert_eq!(pd::on_line("$1"), pd::Wait::Again);
    assert_eq!(pd::on_line("OK{}"), pd::Wait::Got(PedalReply::Okay("{}".to_string())));
    assert_eq!(pd::body(Some(PedalReply::Okay("{}".to_string()))), Some("{}".to_string()));
    assert_eq!(pd::body(None), None);
    assert_eq!(pd::outcome(None), Err("timeout".to_string()));
    assert_eq!(pd::outcome(Some(PedalReply::Error("parse".to_string()))), Err("parse".to_string()));
    let reply = Some(PedalReply::Okay(" position=1 force=2 joy=3 err=4 servo=1".to_string()));
    let s = pd::reported(&reply).unwrap();
    assert_eq!((s.error_code, s.servo_on), (4, true));
    assert_eq!(pd::capabilities_of(&reply).unwrap().len(), 5);
}

#[test]
fn bytes_travel_in_reports() {
    let data: Vec<u8> = (0..130u32).map(|x| x as u8).collect();
    let r = reports(&data);
    let mut back = Vec::new();
    for rep in &r {
        assert_eq!(rep[0], 2);
        back.extend_from_slice(&rep[2..2 + rep[1] as usize]);
    }
    assert_eq!(back, data);
}

#[test]
fn replies_and_logs_are_told_apart() {
    let mut rx = HidRx::new();
    rx.route(&[2, 3, b'O', b'K', b'\n']);
    rx.route(&[3, 4, b'b', b'o', b'o', b't']);
    rx.route(&[3, 1, b'\n']);
    assert_eq!(rx.next_line(), Some("OK".to_string()));
    assert_eq!(rx.next_line(), None);
    assert_eq!(rx.take_logs(), vec!["boot".to_string()]);
    assert!(rx.take_logs().is_empty());
    rx.route(&[2, 2, b'h', b'i']);
    rx.forget_replies();
    rx.route(&[2, 2, b'!', b'\n']);
    assert_eq!(rx.next_line(), Some("!".to_string()));
    assert_eq!(shear("a\r\r", false), "a");
}

#[test]
fn serial_lines() {
    let mut s = SerialRx::new();
    s.feed(b"one\r\ntw");
    assert_eq!(s.next_line(), Some("one".to_string()));
    assert_eq!(s.next_line(), None);
    s.feed(b"o\n");
    assert_eq!(s.next_line(), Some("two".to_string()));
    s.feed(b"left");
    s.clear();
    s.feed(b"\n  \r\nnext \n");
    assert_eq!(s.next_line(), Some("next".to_string()));
}

#[test]
fn ports_are_named() {
    assert!(tty_name("ttyACM0") && tty_name("ttyUSB3") && !tty_name("tty1"));
    assert_eq!(hex4_text(0x303A), "303a");
    assert_eq!(first_line_of("303a\nmore"), "303a");
    let p = usb_port("/dev/ttyACM0", PITH_VID, PID_DDU, "Pith", "DDU");
    assert!(p.is_esp);
    let q = port_info("ttyUSB0", "1a86", "7523", "CH340", "QinHeng", "");
    assert_eq!(q.device, "/dev/ttyUSB0");
    assert!(!q.is_dash);
    assert_eq!(PITH_PID, PID_DDU);
    assert_eq!(DEVICE_PIDS.len(), 3);
}

#[test]
fn drives_are_searched_at_every_speed() {
    let framed = |body: &[u8]| {
        let crc = modbus::crc16(body);
        let mut f = body.to_vec();
        f.push((crc & 0xFF) as u8);
        f.push((crc >> 8) as u8);
        f
    };
    let mut s = Sweep::new();
    let mut asked = 0;
    while let Some((baud, slave)) = s.next() {
        asked += 1;
        if baud == 19_200 && slave == 3 {
            assert_eq!(s.take(&framed(&[3, 3, 2, 0, 57])), Answer::Found);
        } else if baud == 9600 && slave == 31 {
            assert_eq!(s.take(&framed(&[31, 3, 2, 0, 1])), Answer::Other);
        } else {
            assert_eq!(s.take(&[]), Answer::Silent);
        }
    }
    assert_eq!(asked, 4 * 31 + 3);
    assert_eq!(s.first(), Some((19_200, 3)));
    assert_eq!(name_of(0), "drive model (RO)");
    assert_eq!(name_of(35), "?");
    assert_eq!(register_line(5, 300), "  reg  5 =    300  position loop Kp");
    assert_eq!(
        register_line(12, 61),
        "  reg 12 =     61  closed-loop peak current x100mA (manual default 60)"
    );
}

#[test]
fn arguments_of_the_flashing_tool() {
    assert_eq!(read_args(&args(&["-h", "x", "y"])), Request::Help);
    assert_eq!(read_args(&args(&["a.bin", "--help"])), Request::Help);
    assert_eq!(read_args(&args(&["-l"])), Request::List);
    assert_eq!(read_args(&args(&["a.bin", "--list"])), Request::List);
    assert_eq!(read_args(&args(&["a.bin", "-p"])), Request::NoPortValue);
    assert_eq!(read_args(&args(&["a", "b"])), Request::Unexpected("b".to_string()));
    assert_eq!(read_args(&args(&["-x"])), Request::Unexpected("-x".to_string()));
    assert_eq!(read_args(&args(&[])), Request::NoImage);
    assert_eq!(
        read_args(&args(&["-p", "-x", "a.bin"])),
        Request::Flash { bin: "a.bin".to_string(), port: Some("-x".to_string()) }
    );
    assert_eq!(
        read_args(&args(&["a.bin"])),
        Request::Flash { bin: "a.bin".to_string(), port: None }
    );
}

#[test]
fn ports_and_progress_are_shown() {
    let mut p = PortInfo::default();
    p.device = "/dev/ttyACM0".to_string();
    p.manufacturer = "Pith".to_string();
    p.product = "DDU".to_string();
    assert_eq!(port_line(&p), "/dev/ttyACM0  Pith DDU");
    p.is_esp = true;
    assert_eq!(port_line(&p), "/dev/ttyACM0  Pith DDU [ESP]");
    p.is_dash = true;
    assert_eq!(port_line(&p), "/dev/ttyACM0  Pith DDU [Pith DDU]");
    assert!(answers("{\"name\":\"Pith DDU\"}") && !answers("ERR"));
    let mut g = Progress::new();
    assert!(g.moved(0) && !g.moved(0) && g.moved(1));
}

fn line(s: &str) -> Event {
    Event::Line(s.to_string())
}

#[test]
fn an_upload_goes_step_by_step() {
    let mut s = Session::new(Target::Display, 3000);
    assert_eq!(s.todo(), Todo::Announce(3000));
    assert_eq!(s.step(&Event::Sent(false)), None);
    assert_eq!(s.todo(), Todo::Wait(12_000));
    assert_eq!(s.step(&line("$1,2")), None);
    assert_eq!(s.todo(), Todo::Wait(12_000));
    s.step(&line("OTAREADY"));
    assert_eq!(s.todo(), Todo::Send(0, 2048));
    assert_eq!(s.step(&Event::Sent(true)), None);
    assert_eq!(s.todo(), Todo::Wait(6_000));
    assert_eq!(s.step(&line("K")), Some(68));
    assert_eq!(s.todo(), Todo::Send(2048, 3000));
    assert_eq!(s.step(&Event::Sent(true)), Some(100));
    assert_eq!(s.todo(), Todo::Wait(8_000));
    let mut silent = s;
    assert_eq!(silent.log(&Event::TimedOut), "OTA: done (device rebooting)\n");
    silent.step(&Event::TimedOut);
    assert_eq!(silent.todo(), Todo::Stop(Ending::Rebooting));
    assert!(succeeded(Ending::Rebooting));
    let mut both = s;
    both.step(&line("OTADONE OTAERR"));
    assert_eq!(both.todo(), Todo::Stop(Ending::Done));
    assert_eq!(s.log(&line("OTAERR 3")), "OTA: device error: OTAERR 3\n");
    s.step(&line("OTAERR 3"));
    assert_eq!(s.todo(), Todo::Stop(Ending::Refused));
    assert!(!succeeded(Ending::Refused));
    assert_eq!(s.step(&line("OTADONE")), None);
    assert_eq!(s.phase, Phase::Over(Ending::Refused));
}

#[test]
fn an_upload_says_where_it_broke_off() {
    let mut s = Session::new(Target::Handbrake, 5000);
    let mut mute = s;
    mute.step(&Event::Sent(false));
    assert_eq!(mute.todo(), Todo::Stop(Ending::NotAnnounced));
    assert_eq!(error_of(Ending::NotAnnounced), Some("write failed".to_string()));
    s.step(&Event::Sent(true));
    let mut late = s;
    assert_eq!(late.log(&Event::TimedOut), "OTA: timed out waiting for OTAREADY\n");
    late.step(&Event::TimedOut);
    assert_eq!(
        error_of(Ending::NotReady(WaitError::Timeout)),
        Some("timed out waiting for OTAREADY".to_string())
    );
    assert_eq!(late.todo(), Todo::Stop(Ending::NotReady(WaitError::Timeout)));
    s.step(&line("OTAREADY"));
    let mut torn = s;
    assert_eq!(torn.log(&Event::Sent(false)), "OTA: write error\n");
    torn.step(&Event::Sent(false));
    assert_eq!(torn.todo(), Todo::Stop(Ending::WriteError(0)));
    assert_eq!(error_of(Ending::WriteError(0)), Some("write error at 0".to_string()));
    s.step(&Event::Sent(true));
    assert_eq!(
        s.log(&Event::TimedOut),
        "OTA: timed out waiting for K\nOTA: no ack at 2048\n"
    );
    s.step(&line("OTAERR"));
    assert_eq!(s.todo(), Todo::Stop(Ending::NoAck(2048, WaitError::Device)));
    assert_eq!(
        error_of(Ending::NoAck(2048, WaitError::Device)),
        Some("no ack at 2048: device error: OTAERR".to_string())
    );
    let mut empty = Session::new(Target::Handbrake, 0);
    empty.step(&Event::Sent(true));
    empty.step(&line("OTAREADY"));
    assert_eq!(empty.phase, Phase::Last);
    empty.step(&line("OTADONE OTAERR"));
    assert_eq!(error_of(Ending::Refused), Some("device error: OTAERR".to_string()));
    assert_eq!(empty.phase, Phase::Over(Ending::Refused));
}
