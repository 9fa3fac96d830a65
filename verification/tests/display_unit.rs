use pith::bios::{
    action_at, draw_menu_button, menu_action, menu_button_at, menu_button_count, menu_button_rect,
    render_menu, render_message, render_splash, render_splash_chrome, render_splash_countdown,
    splash_countdown_rect, Action as BiosAction, Draw, Ink,
};
use pith::dash;
use pith::dash::display::{
    button_at, race_is_first, Action, Button, Display, FrameIn, Panel, RaceMode, Screen, Shown,
};
use pith::dash::framebuf::{blend, FrameBuf, Window};
use pith::dash::hid::Gamepad;
use pith::dash::touch::{reading, touch, turn, Turn};
use pith::dash::usb::{carries_image, line_rule, Board, Dash, Step, Transport};
use pith::ddu::car::{parse_car, parse_hex, LoadedCar};
use pith::ddu::config::{
    areas, render_config, render_config_hint, render_no_screen, render_ota, sleep_label, ConfigInfo,
};
use pith::ddu::draw::{font, hit, pal, rgb, rgb888, Area, Colour, Font, Op};
use pith::ddu::pins::DevicePins;
use pith::ddu::race::{can_draw, kind_of, parse_race, render_race, Kind, Zone};
use pith::ddu::sim::Sim;
use pith::ddu::sleep::Activity;
use pith::ddu::state::{pins_json, AppState, Stored};
use pith::ddu::strip::{
    can_lay_out, can_light_strip, dim, frame, hex2rgb, selftest_step, Pixel, StripLayout,
};
use pith::format::{Fmt, Pal, RuleOp};
use pith::serial_number::serial;
use pith::shift::CarData;
use pith::simhub::Telemetry;
use pith::store::{
    boot_attempt_begin, boot_mark_ok, route, set_main_slot, stored_text, Put, Route,
};
use pith::wifi::{
    leaves, pull_error_line, read_datagram, read_pull, usable_creds, Inbound, Pull, PullError,
    Send, Udp, WifiOpts, WifiShared,
};

fn nothing() -> Stored {
    Stored {
        pins: None,
        race_json: None,
        editor_json: None,
        ui_json: None,
        buttons_json: None,
        profile_json: None,
        car_json: None,
        bright: None,
        btnpages: None,
        sleepto: None,
        disprot: None,
        dispflip: None,
        dispcol: None,
    }
}

fn unit() -> Dash {
    Dash {
        state: dash::state::AppState::load(dash::state::Stored {
            pins: None,
            race_json: None,
            ui_json: None,
            ui_readable: false,
            buttons_json: None,
            profile_json: None,
            car_json: None,
            bright: None,
            btnpages: None,
        }),
        telem: Telemetry::idle(),
        car: LoadedCar::new(),
    }
}

fn board() -> Board<'static> {
    Board { heap: 123_456, board: "XIAO", serial: "PITH-1" }
}

fn ask(d: &mut Dash, line: &str) -> Step {
    assert!(d.can_run(line));
    d.dispatch(line, &board())
}

#[test]
fn the_menu_maps_touches_to_actions() {
    assert_eq!(menu_button_count(), 5);
    assert_eq!(menu_button_rect(0), Area { x: 60, y: 94, w: 360, h: 38 });
    assert_eq!(menu_button_rect(4), Area { x: 60, y: 262, w: 360, h: 38 });
    assert_eq!(menu_button_rect(9), menu_button_rect(4));
    assert_eq!(menu_action(9), BiosAction::Reboot);
    assert_eq!(menu_button_at(60, 136), Some(1));
    assert_eq!(menu_button_at(60, 132), None);
    assert_eq!(action_at(419, 131), Some(BiosAction::Boot));
    assert_eq!(action_at(420, 131), None);
    assert_eq!(action_at(200, 190), Some(BiosAction::MountUsb));
    assert_eq!(action_at(200, 240), Some(BiosAction::Download));
    assert_eq!(action_at(200, 150), Some(BiosAction::ResetConfig));
}

#[test]
fn the_recovery_screens() {
    let mut b = Vec::new();
    draw_menu_button(&mut b, 0, true);
    assert_eq!(b[0], Draw::Round { area: menu_button_rect(0), radius: 8, ink: Ink::Of(Pal::Green) });
    assert_eq!(
        b[1],
        Draw::Text { s: "Boot firmware".to_string(), x: 240, y: 113, size: 16, ink: Ink::Black }
    );
    let m = render_menu("1.0", "ota_0", 2);
    assert_eq!(m.len(), 4 + 10 + 1);
    assert!(m.contains(&Draw::Text {
        s: "boot failed 2x  -  pick a recovery option".to_string(),
        x: 240,
        y: 82,
        size: 12,
        ink: Ink::Of(Pal::Amber)
    }));
    assert_eq!(render_splash_chrome("1.0", "ota_0", 0).len(), 4);
    assert_eq!(render_splash_chrome("1.0", "ota_0", 1).len(), 5);
    assert_eq!(splash_countdown_rect(), Area { x: 20, y: 190, w: 440, h: 72 });
    let text = |d: &Draw| match d {
        Draw::Text { s, .. } => s.clone(),
        _ => String::new(),
    };
    assert_eq!(text(&render_splash_countdown(1)[1]), "1 second till boot");
    assert_eq!(text(&render_splash_countdown(3)[1]), "3 seconds till boot");
    assert_eq!(render_splash("1.0", "ota_0", 3, 0).len(), 6);
    assert_eq!(text(&render_message("A", "B")[1]), "A");
}

#[test]
fn stored_settings_come_back() {
    let mut s = AppState::load(nothing());
    assert_eq!((s.brightness, s.sleep_timeout_s, s.disp_rot), (43, 30, 3));
    s.set_brightness(0);
    assert_eq!(s.brightness, 5);
    s.set_brightness(250);
    assert_eq!(s.brightness, 100);
    s.set_sleep_timeout(120);
    s.apply_disp(2, false, true, false, true);
    assert_eq!(s.disp_ver, 1);
    let writes = s.take_writes();
    assert!(writes.contains(&Put::U8("bright", 100)));
    assert!(writes.contains(&Put::U16("sleepto", 120)));
    assert!(writes.contains(&Put::U8("disprot", 2)));
    assert!(writes.contains(&Put::U8("dispflip", 2)));
    assert!(s.take_writes().is_empty());
    let back = AppState::load(Stored {
        disprot: Some(2),
        dispflip: Some(2),
        dispcol: Some(2),
        bright: Some(1),
        ..nothing()
    });
    assert_eq!(
        (back.disp_rot, back.disp_flip_h, back.disp_flip_v, back.disp_bgr, back.disp_inv),
        (2, false, true, false, true)
    );
    assert_eq!(back.brightness, 5);
}

#[test]
fn layouts_are_checked_before_they_are_kept() {
    let mut s = AppState::load(nothing());
    assert!(!s.apply_race("not json"));
    assert!(s.apply_race("{\"mods\":[]}"));
    assert_eq!(s.race_json, "{\"mods\":[]}");
    assert!(!s.apply_buttons("{"));
    assert!(s.apply_buttons("{\"pages\":[1,2,3]}"));
    assert_eq!(s.button_pages, 3);
    assert!(s.queue_ui("{}"));
    assert_eq!(s.take_pending_ui(), Some("{}".to_string()));
    assert_eq!(s.take_pending_ui(), None);
    assert!(s.apply_pending_ui(true));
    assert_eq!((s.has_ui, s.ui_ver), (true, 1));
    assert!(s.apply_editor("no json at all"));
    assert_eq!(s.editor_json, "no json at all");
    s.set_car_model("GT3");
    assert_eq!(s.car_model, "GT3");
    s.set_relatives("@REL|0|1,0,0,3,1,ME");
    assert_eq!(s.relatives.count, 1);
}

#[test]
fn pins_are_pushed_within_their_range() {
    let mut s = AppState::load(nothing());
    assert!(!s.apply_pins("["));
    assert!(s.apply_pins("{\"sclk\":12,\"led_rev\":8,\"race_screen\":1,\"dc\":4000,\"mosi\":\"x\"}"));
    assert_eq!((s.pins.sclk, s.pins.led_rev, s.pins.race_screen), (12, 8, 1));
    assert_eq!((s.pins.dc, s.pins.mosi), (2, 9));
    assert!(s.take_writes().contains(&Put::Pins(s.pins)));
    assert!(pins_json(&s.pins).contains("\"sclk\":12"));
    let caps = s.cap_json("1.2", "XIAO", "PITH-1");
    assert!(caps.starts_with("{\"name\":\"Pith DDU\"") && caps.contains("\"serial\":\"PITH-1\""));
}

#[test]
fn car_data_is_read_from_json() {
    assert_eq!(parse_hex("#FF102030"), 0x102030);
    assert_eq!(parse_hex("#102030"), 0x102030);
    assert_eq!(parse_hex("zz"), 0);
    let json = "{\"carName\":\"Porsche 911 GT3 R (992) 2023\",\"ledNumber\":14,\
        \"redlineBlinkInterval\":5,\
        \"ledColor\":[\"#FFFF0000\",\"#FF000001\",\"#FF000002\",\"#FF000003\",\"#FF000004\",\
        \"#FF000005\",\"#FF000006\",\"#FF000007\",\"#FF000008\",\"#FF000009\",\"#FF00000A\",\
        \"#FF00000B\",\"#FF00000C\",\"#FF00000D\",\"#FF00000E\"],\
        \"ledRpm\":[{\"3\":[9000,1,2,3,4,5,6,7,8,9,10,11,12,13,14]}]}";
    let c = parse_car(json).unwrap();
    assert!(c.valid);
    assert_eq!(c.name, "Porsche 911 GT3 R (992)");
    assert_eq!(c.led_count, 12);
    assert_eq!(c.blink_ms, 20);
    assert_eq!((c.led_color[0], c.led_color[11]), (3, 14));
    assert_eq!(c.redline[4], 9000);
    assert_eq!((c.thresh[4][0], c.thresh[4][11]), (3, 14));
    let blink = |ms: &str| {
        let mut push = "{\"ledNumber\":1,\"redlineBlinkInterval\":".to_string();
        push.push_str(ms);
        push.push_str(",\"ledColor\":[\"#FF112233\",\"#FF445566\"]}");
        parse_car(&push).unwrap().blink_ms
    };
    assert_eq!((blink("0"), blink("19"), blink("250")), (0, 20, 250));
    assert_eq!((blink("65535"), blink("65541")), (65535, 65535));
    assert!(parse_car("{\"ledNumber\":0}").is_none());
    assert!(parse_car("nope").is_none());
}

#[test]
fn an_empty_push_clears_the_car() {
    let mut l = LoadedCar::new();
    assert!(l.apply_car_json("{\"ledNumber\":2,\"carName\":\"A\"}"));
    assert_eq!(l.current_car().led_count, 2);
    assert!(!l.apply_car_json("nope"));
    assert_eq!(l.current_car().led_count, 2);
    assert!(l.apply_car_json(" {} "));
    assert!(!l.current_car().valid);
}

#[test]
fn the_strip_shows_lights_and_warnings() {
    let pins = DevicePins::default();
    assert!(can_lay_out(&pins));
    let l = StripLayout::new(&pins);
    assert_eq!((l.rev_count, l.tc_first, l.abs_first, l.led_count), (12, 12, 14, 16));
    let mut t = Telemetry::idle();
    t.tc_active = 1;
    let car = CarData::default();
    assert!(can_light_strip(&l, &t, &car));
    let px = frame(&l, &t, &car, 50, 0);
    assert_eq!(px.len(), 16);
    assert_eq!(px[12], Pixel { r: 127, g: 40, b: 0 });
    assert_eq!(px[14], Pixel { r: 0, g: 0, b: 0 });
    assert_eq!(dim(hex2rgb(0x0A_14_FF), 100), Pixel { r: 10, g: 20, b: 255 });
    let (red, ms) = selftest_step(0, 16).unwrap();
    assert_eq!((red[15], ms), (Pixel { r: 255, g: 0, b: 0 }, 220));
    let (run, ms) = selftest_step(3, 16).unwrap();
    assert_eq!((run[0], run[1], ms), (
        Pixel { r: 255, g: 255, b: 255 },
        Pixel { r: 0, g: 0, b: 0 },
        45,
    ));
    assert!(selftest_step(19, 16).is_none());
}

#[test]
fn colours_and_fonts() {
    assert_eq!(rgb(255, 255, 255), Colour { r: 31, g: 63, b: 31 });
    assert_eq!(rgb888(0xFF0000), Colour { r: 31, g: 0, b: 0 });
    assert_eq!(pal(Pal::Bg), Colour { r: 1, g: 2, b: 1 });
    assert_eq!(font(11), Font::Fixed13);
    assert_eq!(font(12), Font::Bold12);
    assert_eq!(font(16), Font::Bold18);
    assert_eq!(font(24), Font::Bold24);
    assert_eq!(font(34), Font::Large32);
    assert!(hit(areas().hotspot, 85, 319) && !hit(areas().hotspot, 86, 319));
}

#[test]
fn the_configuration_screen() {
    assert_eq!(sleep_label(0), "OFF");
    assert_eq!(sleep_label(30), "30S");
    assert_eq!(sleep_label(300), "5M");
    let info = ConfigInfo {
        fw: "1.0",
        board: "XIAO",
        serial: "PITH-1",
        car: "",
        heap_kb: 120,
        uptime_s: 65,
        brightness: 50,
        sim: false,
        sleep_timeout_s: 60,
    };
    let texts: Vec<String> = render_config(&info)
        .into_iter()
        .filter_map(|o| match o {
            Op::Text { s, .. } => Some(s),
            _ => None,
        })
        .collect();
    assert!(texts.contains(&"HEAP 120 KB   UP 1:05".to_string()));
    assert!(texts.contains(&"AUTO SLEEP: 1M".to_string()));
    assert!(texts.contains(&"50%".to_string()));
    assert!(texts.contains(&"CAR \u{2014}".to_string()));
    assert!(!render_ota(40).is_empty() && !render_no_screen().is_empty());
    assert!(!render_config_hint().is_empty());
}

#[test]
fn race_layouts_are_read_and_drawn() {
    assert_eq!(kind_of("map"), Kind::TrackMap);
    assert_eq!(kind_of("bogus"), Kind::Stat);
    assert!(parse_race("{}").is_none());
    let json = "{\"mods\":[{\"k\":\"stat\",\"f\":\"speed_kmh\",\"l\":\"SPEED\",\"z\":9,\"o\":2,\
        \"fmt\":{\"t\":\"int\",\"sc\":1,\"u\":\"KM/H\"},\"b\":\"cyan\",\
        \"r\":[{\"op\":\">\",\"v\":200,\"c\":\"red\"}]},{\"k\":\"gear\",\"z\":4,\"o\":1}]}";
    let layout = parse_race(json).unwrap();
    assert_eq!(layout.mods.len(), 2);
    let m = &layout.mods[0];
    assert_eq!((m.zone, m.field, m.fmt, m.base), (4, 1, Fmt::Int, Pal::Cyan));
    assert_eq!(m.rules, vec![(RuleOp::Gt, 200, Pal::Red)]);
    assert_eq!(m.color(200), Pal::Cyan);
    assert_eq!(m.color(201), Pal::Red);
    let mut t = Telemetry::idle();
    t.gear = b'4';
    t.speed_kmh = 212;
    assert!(can_draw(&layout, &t));
    let texts: Vec<(String, i32)> = render_race(&layout, &t, 0)
        .into_iter()
        .filter_map(|o| match o {
            Op::Text { s, x, .. } => Some((s, x)),
            _ => None,
        })
        .collect();
    assert_eq!(texts, vec![
        ("4".to_string(), 120),
        ("SPEED".to_string(), 360),
        ("212KM/H".to_string(), 360),
    ]);
    let z: Zone = pith::ddu::race::zone(1);
    assert_eq!((z.x, z.y, z.w, z.h, z.horiz), (4, 50, 128, 220, false));
}

#[test]
fn the_bench_simulation_sweeps() {
    let mut s = Sim::new();
    let first = s.step();
    assert_eq!((first.gear, first.rpm, first.max_rpm), (b'1', 1720, 8800));
    assert_eq!(first.speed_kmh, 38 + 3);
    for _ in 0..2000 {
        let t = s.step();
        assert!((1500..8800).contains(&t.rpm) && (b'1'..=b'6').contains(&t.gear));
    }
}

#[test]
fn texts_move_to_their_own_partition() {
    assert_eq!(route("uijson", true), Route::Blob);
    assert_eq!(route("uijson", false), Route::Main);
    assert_eq!(route("bright", true), Route::Main);
    assert_eq!(route("buttonsjson", true), Route::Blob);
    assert_eq!(route("btnsjson", true), Route::Main);
    assert_eq!(stored_text("uijson", Some(b"new"), Some(b"old")), Some("new".to_string()));
    assert_eq!(stored_text("uijson", None, Some(b"old")), Some("old".to_string()));
    assert_eq!(stored_text("name", Some(b"new"), Some(b"old")), Some("old".to_string()));
    assert_eq!(stored_text("uijson", Some(&[0xFF]), Some(b"old")), None);
    assert_eq!(stored_text("uijson", None, None), None);
}

#[test]
fn failed_boots_are_counted() {
    assert_eq!(boot_attempt_begin(true, None), (1, Some(Put::U8("bootfail", 1))));
    assert_eq!(boot_attempt_begin(true, Some(255)), (255, Some(Put::U8("bootfail", 255))));
    assert_eq!(boot_attempt_begin(false, Some(9)), (1, None));
    assert_eq!(boot_mark_ok(Some(3)), Some(Put::U8("bootfail", 0)));
    assert_eq!(boot_mark_ok(Some(0)), None);
    assert_eq!(set_main_slot(3), Put::U8("mainslot", 1));
    assert_eq!(serial([0x01, 0xAB, 0, 0xFF, 0x10, 9]), "PITH-01AB00FF1009");
}

#[test]
fn layouts_are_handed_back() {
    let mut d = unit();
    assert_eq!(ask(&mut d, "@RG"), Step::Reply("OK {}\n".to_string()));
    assert_eq!(ask(&mut d, "@RS{\"mods\":[]}"), Step::Reply("OK\n".to_string()));
    assert_eq!(ask(&mut d, "@RG"), Step::Reply("OK {\"mods\":[]}\n".to_string()));
    assert_eq!(ask(&mut d, "@RSbroken"), Step::Reply("ERR\n".to_string()));
    assert_eq!(ask(&mut d, "@RG"), Step::Reply("OK {\"mods\":[]}\n".to_string()));
    assert_eq!(ask(&mut d, "@UI{}"), Step::ReadUi("{}".to_string()));
    assert_eq!(d.ui_read("{}", true), Step::Reply("OK\n".to_string()));
    assert_eq!(ask(&mut d, "@UG"), Step::Reply("OK {}\n".to_string()));
    assert_eq!(ask(&mut d, ""), Step::Nothing);
    assert_eq!(ask(&mut d, "@OTA 77"), Step::Ota(77));
    assert_eq!(line_rule().max, 8192);
}

#[test]
fn telemetry_does_not_overrule_the_simulation() {
    let mut d = unit();
    assert_eq!(ask(&mut d, "$3;212;6800;7500"), Step::Nothing);
    assert_eq!(d.telem.speed_kmh, 212);
    d.state.sim_on = true;
    ask(&mut d, "$4;250;6800;7500");
    assert_eq!(d.telem.speed_kmh, 212);
    assert_eq!(d.state.frames_ok, 2);
    ask(&mut d, "garbage");
    assert_eq!(d.state.frames_bad, 1);
    assert!(d.telem_reply().starts_with("3;212;6800;7500;"));
    assert!(d.status_line(7).contains(" heap=7 "));
    ask(&mut d, "@S");
    assert_eq!((d.state.frames_ok, d.state.frames_bad), (0, 0));
}

fn still(now_ms: i64) -> FrameIn {
    FrameIn {
        now_ms,
        race_touch: None,
        side_touch: None,
        race_tab_hit: None,
        side_tab_hit: None,
        ui_ver: 0,
        disp_ver: 0,
    }
}

#[test]
fn a_finger_presses_once_and_releases() {
    let scr = Screen {
        tabs: 0,
        buttons: vec![Button { page: 0, hid: 5, area: Area { x: 100, y: 100, w: 50, h: 50 } }],
    };
    assert_eq!(button_at(&scr, None, 120, 120), Some(4));
    assert_eq!(button_at(&scr, Some(1), 120, 120), None);
    let mut d = Display::new(0, 0, 0);
    let mut f = still(10);
    f.race_touch = Some((120, 120));
    let down = d.frame(Some(&scr), None, &f);
    assert!(down.contains(&Action::Hid { bit: 4, pressed: true }));
    f.now_ms = 20;
    let held = d.frame(Some(&scr), None, &f);
    assert!(!held.contains(&Action::Hid { bit: 4, pressed: true }));
    let up = d.frame(Some(&scr), None, &still(30));
    assert!(up.contains(&Action::Hid { bit: 4, pressed: false }));
    assert_eq!(d.race_shows(None), Shown::Race);
    assert_eq!(d.side_shows(None), Shown::NoScreen);
    assert_eq!(d.race_shows(Some(&scr)), Shown::Layout { active: 0 });
    assert!(race_is_first(0) && !race_is_first(1));
    assert_eq!(Panel::new().held, None);
}

#[test]
fn the_configuration_opens_and_closes() {
    let mut d = Display::new(0, 0, 0);
    let mut f = still(10);
    f.race_touch = Some((5, 300));
    d.frame(None, None, &f);
    assert_eq!(d.mode, RaceMode::Config);
    d.frame(None, None, &still(20));
    f = still(30);
    f.race_touch = Some((240, 220));
    assert!(d.frame(None, None, &f).contains(&Action::Brightness(50)));
    d.frame(None, None, &still(40));
    d.frame(None, None, &still(40 + 8001));
    assert_eq!(d.mode, RaceMode::Race);
}

#[test]
fn pixels_are_kept_and_cut_out() {
    let black = Colour { r: 0, g: 0, b: 0 };
    let white = Colour { r: 31, g: 63, b: 31 };
    let mut b = FrameBuf::new(8, 4);
    b.clear(black);
    b.put(3, 2, white);
    b.put(-1, 2, white);
    b.put(8, 0, white);
    assert_eq!(b.get(3, 2), white);
    b.fill_solid(6, 3, 10, 10, white);
    assert_eq!((b.get(7, 3), b.get(5, 3)), (white, black));
    b.fill_contiguous(-1, 0, 2, 2, &[white, black, white, white]);
    assert_eq!((b.get(0, 0), b.get(0, 1)), (black, white));
    let (w, px) = b.window(Window { x0: 7, y0: 2, x1: 12, y1: 9 }).unwrap();
    assert_eq!((w.x0, w.y0, w.x1, w.y1), (7, 2, 7, 3));
    assert_eq!(px, vec![black, white]);
    assert!(b.window(Window { x0: 9, y0: 0, x1: 9, y1: 1 }).is_none());
    assert_eq!(blend(black, white, 0), black);
    assert_eq!(blend(black, white, 256), white);
}

#[test]
fn touch_test_marks_the_finger() {
    let mut b = FrameBuf::new(480, 320);
    b.render_touch_test(Some((240, 160)), 10, 10);
    b.draw_touch_marker(100, 100, 10, 10);
    assert_ne!(b.get(240, 160), b.get(0, 0));
}

#[test]
fn touches_are_points_on_the_screen() {
    assert_eq!(reading(0x7F, 0xF8), 4095);
    assert_eq!(touch(0, 4000, 2000, 2000), None);
    assert_eq!(touch(500, 100, 3900, 3900), Some((0, 0)));
    assert_eq!(touch(500, 100, 300, 300), Some((479, 319)));
    assert_eq!(turn(5), Turn::Deg90);
}

#[test]
fn the_button_box_reports_changes() {
    let mut g = Gamepad::new();
    assert_eq!(g.service(false), None);
    assert_eq!(g.service(true), Some([0, 0, 0, 0]));
    g.reported(0);
    assert_eq!(g.service(true), None);
    g.set(9, true);
    g.set(40, true);
    assert_eq!(g.service(true), Some([0, 2, 0, 0]));
    g.set(9, false);
    g.set(8, true);
    g.reported(0x200);
    assert_eq!((g.sent, g.mask), (0x200, 0x100));
    assert_eq!(g.service(true), Some([0, 1, 0, 0]));
}

#[test]
fn the_wireless_link_talks_to_its_dashboard() {
    let opts = WifiOpts { kind: "pedals", stream_axis: true, ota: true };
    let mut u = Udp::new(0);
    let mut shared = WifiShared::new();
    shared.axis = 700;
    shared.state_line = "armed=0".to_string();
    shared.tx.push("OK\n".to_string());
    assert_eq!(
        u.outbound(0, &opts, "S1", "1.0", &mut shared),
        vec![Send::Broadcast("PITH pedals S1 1.0".to_string())]
    );
    assert_eq!(shared.tx.len(), 1);
    u.subscribe();
    let sent = u.outbound(250, &opts, "S1", "1.0", &mut shared);
    assert_eq!(sent, vec![
        Send::Dashboard("AX S1 700".to_string()),
        Send::Dashboard("ST S1 armed=0".to_string()),
        Send::Dashboard("RE S1 OK".to_string()),
    ]);
    assert!(shared.tx.is_empty());
    assert!(u.link_due(1000) && !u.link_due(1001));
    assert!(leaves(false, false) && leaves(true, true) && !leaves(true, false));
}

#[test]
fn datagrams_are_read() {
    let lines = read_datagram(b"@SUB\n@OTAWIFI 4000 99\n$1;2\n");
    assert_eq!(lines[0], Inbound::Subscribe);
    assert_eq!(lines.len(), 3);
    assert_eq!(lines[2], Inbound::Line("$1;2".to_string()));
    assert_eq!(read_pull(true, "4000 99"), Ok((4000, 99)));
    assert_eq!(read_pull(false, "4000 99"), Err(PullError::Unsupported));
    assert_eq!(read_pull(true, "4000"), Err(PullError::Usage));
    assert_eq!(read_pull(true, "70000 9"), Err(PullError::Usage));
    assert_eq!(read_pull(true, "4000 -9"), Err(PullError::BadSize));
    assert_eq!(pull_error_line(PullError::BadSize), "ERR bad size");
    assert_eq!(pull_error_line(PullError::Usage), "ERR usage @OTAWIFI port size");
    assert_eq!(pull_error_line(PullError::Unsupported), "ERR ota unsupported");
    let mut p = Pull::new(10);
    assert!(p.wants_more() && p.got(4, true) && !p.got(6, false));
    assert!(!p.wants_more() && !p.got(0, true));
    assert_eq!(usable_creds(Some("n".to_string()), Some("p".to_string())), Some(("n".to_string(), "p".to_string())));
    assert_eq!(usable_creds(Some(String::new()), Some("p".to_string())), None);
    assert_eq!(usable_creds(Some("n".to_string()), None), None);
}

#[test]
fn a_quiet_unit_sleeps() {
    let mut a = Activity::new(1_000);
    assert!(!a.sleeps(30_999, 30));
    assert!(a.sleeps(31_000, 30));
    assert!(!a.sleeps(31_000, 0));
    a.touch_ms = 30_000;
    assert!(!a.sleeps(31_000, 30));
    a.telem_ms = 45_000;
    assert!(!a.sleeps(60_000, 30));
    assert!(a.sleeps(75_000, 30));
}

#[test]
fn an_image_comes_in_where_its_update_was_started() {
    assert!(carries_image(Some(Transport::Hid), Transport::Hid, true));
    assert!(!carries_image(Some(Transport::Cdc), Transport::Hid, true));
    assert!(!carries_image(Some(Transport::Hid), Transport::Hid, false));
    assert!(!carries_image(None, Transport::Cdc, true));
}

#[test]
fn without_a_car_there_is_the_default_one() {
    let c = LoadedCar::new().current_car();
    assert!(!c.valid && c.led_count == 0 && c.name.is_empty());
    assert_eq!((c.blink_ms, c.led_color, c.redline), (100, [0; 12], [0; 11]));
    assert_eq!(c.thresh, [[0; 12]; 11]);
}
