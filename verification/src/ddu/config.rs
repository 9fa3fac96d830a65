//! The screens of the display unit that do not come from the dashboard: its
//! configuration, an update, and the placeholder of a panel without a layout.

use vstd::prelude::*;
use vstd::string::StringExecFns;
use crate::ddu::draw::{
    centred, ground, label, op_views, pal, round, round_at, shade, text, text_at, Align, Area,
    Colour, Op, OpView, H, W,
};
use crate::format::{clamped, tdiv, Pal};
use crate::text::{dec_string, dec_text, int_text, pad_text, push_int, push_padded};

verus! {

/// A touch here opens the configuration.
pub open spec fn hotspot() -> Area {
    Area { x: 0, y: 264, w: 86, h: 56 }
}

/// The brightness slider.
pub open spec fn slider() -> Area {
    Area { x: 40, y: 205, w: 400, h: 36 }
}

/// The button of the bench simulation.
pub open spec fn sim_button() -> Area {
    Area { x: 288, y: 56, w: 172, h: 42 }
}

/// The button of the restart.
pub open spec fn restart_button() -> Area {
    Area { x: 288, y: 104, w: 172, h: 42 }
}

/// The button that sends the unit to sleep.
pub open spec fn sleep_button() -> Area {
    Area { x: 288, y: 152, w: 172, h: 42 }
}

/// The button that steps through the times to sleep.
pub open spec fn timeout_button() -> Area {
    Area { x: 40, y: 140, w: 200, h: 36 }
}

/// The button that leaves the configuration.
pub open spec fn back_button() -> Area {
    Area { x: 20, y: 262, w: 60, h: 46 }
}

/// The areas of the configuration screen.
#[derive(Clone, Copy, Debug, PartialEq, Eq, Structural)]
pub struct Areas {
    pub hotspot: Area,
    pub slider: Area,
    pub sim: Area,
    pub restart: Area,
    pub sleep: Area,
    pub timeout: Area,
    pub back: Area,
}

/// The areas of the configuration screen.
pub fn areas() -> (r: Areas)
    ensures
        r == (Areas {
            hotspot: hotspot(),
            slider: slider(),
            sim: sim_button(),
            restart: restart_button(),
            sleep: sleep_button(),
            timeout: timeout_button(),
            back: back_button(),
        }),
{
    Areas {
        hotspot: Area { x: 0, y: H - 56, w: 86, h: 56 },
        slider: Area { x: 40, y: 205, w: 400, h: 36 },
        sim: Area { x: 288, y: 56, w: 172, h: 42 },
        restart: Area { x: 288, y: 104, w: 172, h: 42 },
        sleep: Area { x: 288, y: 152, w: 172, h: 42 },
        timeout: Area { x: 40, y: 140, w: 200, h: 36 },
        back: Area { x: 20, y: 262, w: 60, h: 46 },
    }
}

/// No two buttons of the configuration screen overlap, so that a touch means one
/// thing.
pub proof fn buttons_do_not_overlap(tx: int, ty: int)
    ensures
        slider().holds(tx, ty) ==> !sim_button().holds(tx, ty) && !restart_button().holds(tx, ty)
            && !sleep_button().holds(tx, ty) && !timeout_button().holds(tx, ty)
            && !back_button().holds(tx, ty),
        sim_button().holds(tx, ty) ==> !restart_button().holds(tx, ty) && !sleep_button().holds(
            tx,
            ty,
        ) && !timeout_button().holds(tx, ty) && !back_button().holds(tx, ty),
        restart_button().holds(tx, ty) ==> !sleep_button().holds(tx, ty) && !timeout_button().holds(
            tx,
            ty,
        ) && !back_button().holds(tx, ty),
        sleep_button().holds(tx, ty) ==> !timeout_button().holds(tx, ty) && !back_button().holds(
            tx,
            ty,
        ),
        timeout_button().holds(tx, ty) ==> !back_button().holds(tx, ty),
{
}

/// The times to sleep that can be chosen, in seconds; 0 is never.
pub const SLEEP_PRESETS: [u16; 7] = [0, 15, 30, 60, 120, 300, 600];

/// A time to sleep as it is shown.
pub open spec fn sleep_text(secs: u16) -> Seq<char> {
    if secs == 0 {
        "OFF"@
    } else if secs < 60 {
        dec_text(secs as nat) + "S"@
    } else {
        dec_text((secs / 60) as nat) + "M"@
    }
}

/// A time to sleep as it is shown.
pub fn sleep_label(secs: u16) -> (s: String)
    ensures
        s@ == sleep_text(secs),
{
    if secs == 0 {
        String::from_str("OFF")
    } else if secs < 60 {
        let mut s = dec_string(secs as u64);
        s.append("S");
        s
    } else {
        let mut s = dec_string((secs / 60) as u64);
        s.append("M");
        s
    }
}

/// What the configuration screen shows.
#[derive(Clone, Copy, Debug)]
pub struct ConfigInfo<'a> {
    pub fw: &'a str,
    pub board: &'a str,
    pub serial: &'a str,
    pub car: &'a str,
    pub heap_kb: i32,
    pub uptime_s: i64,
    pub brightness: u8,
    pub sim: bool,
    pub sleep_timeout_s: u16,
}

/// The car's name, a dash where there is none.
pub open spec fn car_or_dash(car: Seq<char>) -> Seq<char> {
    if car.len() == 0 {
        "—"@
    } else {
        car
    }
}

/// The free memory and the time since power-up.
pub open spec fn uptime_text(heap_kb: int, uptime_s: int) -> Seq<char> {
    let secs = uptime_s - 60 * tdiv(uptime_s, 60);
    "HEAP "@ + int_text(heap_kb) + " KB   UP "@ + int_text(tdiv(uptime_s, 60)) + ":"@ + if secs < 0 {
        int_text(secs)
    } else {
        pad_text(secs as nat, 2)
    }
}

/// A text in the middle of a button.
pub open spec fn button_text(s: Seq<char>, a: Area, size: u32) -> OpView {
    centred(s, a.x + a.w / 2, a.y + a.h / 2, size, Pal::White)
}

/// The face of a button.
pub open spec fn button_face(a: Area, p: Pal) -> OpView {
    round_at(a.x as int, a.y as int, a.w as int, a.h as int, 6, shade(p))
}

/// The configuration screen.
pub open spec fn config_screen(i: ConfigInfo) -> Seq<OpView> {
    seq![
        OpView::Clear(ground()),
        centred("PITH DDU - CONFIG"@, 240, 26, 16, Pal::White),
        button_face(back_button(), Pal::Panel),
        OpView::Triangle { x1: 41, y1: 285, x2: 56, y2: 274, x3: 56, y3: 296, colour: shade(Pal::White) },
        text_at("FW "@ + i.fw@ + "   BOARD "@ + i.board@, 40, 74, 12, Pal::Dim, Align::Left),
        text_at("S/N "@ + i.serial@, 40, 92, 12, Pal::Dim, Align::Left),
        text_at("CAR "@ + car_or_dash(i.car@), 40, 110, 12, Pal::Dim, Align::Left),
        text_at(uptime_text(i.heap_kb as int, i.uptime_s as int), 40, 128, 12, Pal::Dim, Align::Left),
        button_face(timeout_button(), Pal::Panel),
        button_text("AUTO SLEEP: "@ + sleep_text(i.sleep_timeout_s), timeout_button(), 13),
        text_at("SHIFT LED BRIGHTNESS"@, 40, 187, 12, Pal::Dim, Align::Left),
        button_face(slider(), Pal::Panel),
        round_at(40, 205, 400 * i.brightness / 100, 36, 6, shade(Pal::Cyan)),
        button_text(dec_text(i.brightness as nat) + "%"@, slider(), 14),
        button_face(
            sim_button(),
            if i.sim {
                Pal::Green
            } else {
                Pal::Panel
            },
        ),
        button_text(
            if i.sim {
                "SIM: ON"@
            } else {
                "RUN SIM"@
            },
            sim_button(),
            14,
        ),
        button_face(restart_button(), Pal::Red),
        button_text("RESTART"@, restart_button(), 14),
        button_face(sleep_button(), Pal::Panel),
        button_text("SLEEP NOW"@, sleep_button(), 14),
    ]
}

fn face(a: Area, p: Pal) -> (o: Op)
    ensures
        o@ == button_face(a, p),
{
    round(a.x, a.y, a.w, a.h, 6, pal(p))
}

fn caption(s: String, a: Area, size: u32) -> (o: Op)
    requires
        0 <= a.x <= 1000,
        0 <= a.y <= 1000,
        0 <= a.w <= 1000,
        0 <= a.h <= 1000,
    ensures
        o@ == button_text(s@, a, size),
{
    text(s, a.x + a.w / 2, a.y + a.h / 2, size, Pal::White, Align::Center)
}

/// Two texts in one.
fn joined(a: &str, b: &str) -> (s: String)
    ensures
        s@ == a@ + b@,
{
    let mut s = String::from_str(a);
    s.append(b);
    s
}

/// The free memory and the time since power-up.
fn uptime_line(heap_kb: i32, uptime_s: i64) -> (s: String)
    ensures
        s@ == uptime_text(heap_kb as int, uptime_s as int),
{
    let mut s = String::from_str("HEAP ");
    push_int(&mut s, heap_kb as i64);
    s.append(" KB   UP ");
    push_int(&mut s, uptime_s / 60);
    s.append(":");
    let secs: i64 = uptime_s % 60;
    if secs < 0 {
        push_int(&mut s, secs);
    } else {
        push_padded(&mut s, secs as u64, 2);
    }
    s
}

/// Draws the configuration screen.
pub fn render_config(info: &ConfigInfo) -> (ops: Vec<Op>)
    ensures
        op_views(ops@) == config_screen(*info),
{
    let a = areas();
    let mut ops: Vec<Op> = Vec::new();
    ops.push(Op::Clear(Colour { r: 1, g: 2, b: 1 }));
    ops.push(label("PITH DDU - CONFIG", W / 2, 26, 16, Pal::White));
    ops.push(face(a.back, Pal::Panel));
    let cx: i32 = a.back.x + a.back.w / 2;
    let cy: i32 = a.back.y + a.back.h / 2;
    ops.push(
        Op::Triangle {
            x1: cx - 9,
            y1: cy,
            x2: cx + 6,
            y2: cy - 11,
            x3: cx + 6,
            y3: cy + 11,
            colour: pal(Pal::White),
        },
    );
    let mut line1 = joined("FW ", info.fw);
    line1.append("   BOARD ");
    line1.append(info.board);
    ops.push(text(line1, 40, 74, 12, Pal::Dim, Align::Left));
    ops.push(text(joined("S/N ", info.serial), 40, 92, 12, Pal::Dim, Align::Left));
    let no_car = crate::text::same_str(info.car, "");
    proof {
        reveal_strlit("");
        assert(info.car@.len() == 0 ==> info.car@ =~= ""@);
    }
    let car = if no_car {
        "—"
    } else {
        info.car
    };
    ops.push(text(joined("CAR ", car), 40, 110, 12, Pal::Dim, Align::Left));
    ops.push(
        text(uptime_line(info.heap_kb, info.uptime_s), 40, 128, 12, Pal::Dim, Align::Left),
    );
    ops.push(face(a.timeout, Pal::Panel));
    let label_text = sleep_label(info.sleep_timeout_s);
    ops.push(caption(joined("AUTO SLEEP: ", label_text.as_str()), a.timeout, 13));
    ops.push(
        text(
            String::from_str("SHIFT LED BRIGHTNESS"),
            a.slider.x,
            a.slider.y - 18,
            12,
            Pal::Dim,
            Align::Left,
        ),
    );
    ops.push(face(a.slider, Pal::Panel));
    ops.push(
        round(
            a.slider.x,
            a.slider.y,
            a.slider.w * info.brightness as i32 / 100,
            a.slider.h,
            6,
            pal(Pal::Cyan),
        ),
    );
    let mut pct = dec_string(info.brightness as u64);
    pct.append("%");
    ops.push(caption(pct, a.slider, 14));
    ops.push(
        face(
            a.sim,
            if info.sim {
                Pal::Green
            } else {
                Pal::Panel
            },
        ),
    );
    ops.push(
        caption(
            String::from_str(
                if info.sim {
                    "SIM: ON"
                } else {
                    "RUN SIM"
                },
            ),
            a.sim,
            14,
        ),
    );
    ops.push(face(a.restart, Pal::Red));
    ops.push(caption(String::from_str("RESTART"), a.restart, 14));
    ops.push(face(a.sleep, Pal::Panel));
    ops.push(caption(String::from_str("SLEEP NOW"), a.sleep, 14));
    proof {
        assert(op_views(ops@) =~= config_screen(*info));
    }
    ops
}

/// The screen of an update that is `pct` percent done.
pub open spec fn ota_screen(pct: int) -> Seq<OpView> {
    seq![
        OpView::Clear(ground()),
        centred("FIRMWARE UPDATE"@, 240, 110, 18, Pal::White),
        centred("Flashing — do not disconnect"@, 240, 145, 12, Pal::Dim),
        round_at(60, 175, 360, 30, 6, shade(Pal::Panel)),
        round_at(60, 175, 360 * clamped(pct, 0, 100) / 100, 30, 6, shade(Pal::Cyan)),
        centred(int_text(pct) + "%"@, 240, 220, 14, Pal::White),
    ]
}

/// Draws the screen of an update.
pub fn render_ota(pct: i32) -> (ops: Vec<Op>)
    ensures
        op_views(ops@) == ota_screen(pct as int),
{
    let bar: i32 = if pct < 0 {
        0
    } else if pct > 100 {
        100
    } else {
        pct
    };
    let mut ops: Vec<Op> = Vec::new();
    ops.push(Op::Clear(Colour { r: 1, g: 2, b: 1 }));
    ops.push(label("FIRMWARE UPDATE", W / 2, 110, 18, Pal::White));
    ops.push(label("Flashing — do not disconnect", W / 2, 145, 12, Pal::Dim));
    ops.push(round(60, 175, 360, 30, 6, pal(Pal::Panel)));
    ops.push(round(60, 175, 360 * bar / 100, 30, 6, pal(Pal::Cyan)));
    let mut s = crate::text::int_string(pct as i64);
    s.append("%");
    ops.push(text(s, W / 2, 220, 14, Pal::White, Align::Center));
    proof {
        assert(op_views(ops@) =~= ota_screen(pct as int));
    }
    ops
}

/// The placeholder of a panel without a layout.
pub open spec fn no_screen() -> Seq<OpView> {
    seq![
        OpView::Clear(ground()),
        centred("No screen"@, 240, 148, 20, Pal::Dim),
        centred("Add a layout for this display in the editor"@, 240, 174, 12, Pal::Dim),
    ]
}

/// Draws the placeholder of a panel without a layout.
pub fn render_no_screen() -> (ops: Vec<Op>)
    ensures
        op_views(ops@) == no_screen(),
{
    let mut ops: Vec<Op> = Vec::new();
    ops.push(Op::Clear(Colour { r: 1, g: 2, b: 1 }));
    ops.push(label("No screen", W / 2, H / 2 - 12, 20, Pal::Dim));
    ops.push(label("Add a layout for this display in the editor", W / 2, H / 2 + 14, 12, Pal::Dim));
    proof {
        assert(op_views(ops@) =~= no_screen());
    }
    ops
}

/// A tooth of the cog: `13 * (cos, sin)` of eighths of a turn, toward zero.
pub open spec fn tooth(i: int) -> (int, int) {
    if i == 0 {
        (13, 0)
    } else if i == 1 {
        (9, 9)
    } else if i == 2 {
        (0, 13)
    } else if i == 3 {
        (-9, 9)
    } else if i == 4 {
        (-13, 0)
    } else if i == 5 {
        (-9, -9)
    } else if i == 6 {
        (0, -13)
    } else {
        (9, -9)
    }
}

const TEETH: [(i32, i32); 8] = [
    (13, 0),
    (9, 9),
    (0, 13),
    (-9, 9),
    (-13, 0),
    (-9, -9),
    (0, -13),
    (9, -9),
];

/// The cog that shows where the configuration opens.
pub open spec fn cog() -> Seq<OpView> {
    Seq::new(
        8,
        |i: int| round_at(24 + tooth(i).0 - 3, 296 + tooth(i).1 - 3, 6, 6, 1, shade(Pal::Dim)),
    ) + seq![
        OpView::Disc { x: 14, y: 286, d: 20, colour: shade(Pal::Dim) },
        OpView::Disc { x: 20, y: 292, d: 8, colour: ground() },
    ]
}

/// Draws the cog.
pub fn render_config_hint() -> (ops: Vec<Op>)
    ensures
        op_views(ops@) == cog(),
{
    let cx: i32 = 24;
    let cy: i32 = H - 24;
    let teeth = TEETH;
    let mut ops: Vec<Op> = Vec::new();
    let mut i: usize = 0;
    while i < 8
        invariant
            i <= 8,
            cx == 24,
            cy == 296,
            teeth@ == TEETH@,
            op_views(ops@) == cog().take(i as int),
        decreases 8 - i,
    {
        let (dx, dy) = teeth[i];
        let ghost before = op_views(ops@);
        proof {
            assert(dx == tooth(i as int).0 && dy == tooth(i as int).1) by {
                assert(i == 0 || i == 1 || i == 2 || i == 3 || i == 4 || i == 5 || i == 6 || i == 7);
            }
        }
        ops.push(round(cx + dx - 3, cy + dy - 3, 6, 6, 1, pal(Pal::Dim)));
        proof {
            assert(op_views(ops@) =~= before.push(cog()[i as int]));
            assert(cog().take(i + 1) =~= cog().take(i as int).push(cog()[i as int]));
        }
        i += 1;
    }
    let ghost teeth_ops = op_views(ops@);
    ops.push(Op::Disc { x: cx - 10, y: cy - 10, d: 20, colour: pal(Pal::Dim) });
    ops.push(Op::Disc { x: cx - 4, y: cy - 4, d: 8, colour: Colour { r: 1, g: 2, b: 1 } });
    proof {
        assert(op_views(ops@) =~= teeth_ops + seq![
            OpView::Disc { x: 14, y: 286, d: 20, colour: shade(Pal::Dim) },
            OpView::Disc { x: 20, y: 292, d: 8, colour: ground() },
        ]);
        assert forall|k: int| 0 <= k < 8 implies #[trigger] op_views(ops@)[k] == cog()[k] by {
            assert(op_views(ops@)[k] == teeth_ops[k]);
            assert(cog().take(8)[k] == cog()[k]);
        }
        assert(op_views(ops@) =~= cog());
    }
    ops
}

// -------------------------------------------------------------------- laws

/// The brightness is drawn on the slider as the part of it that the brightness is
/// of 100, from the left, with the number and a percent sign on it.
pub proof fn slider_shows_the_brightness(i: ConfigInfo)
    requires
        i.brightness <= 100,
    ensures
        ({
            let ops = config_screen(i);
            let a = slider();
            &&& ops[11] matches OpView::Round { x, y, w, h, .. } && x == a.x && y == a.y && w == a.w
                && h == a.h
            &&& ops[12] matches OpView::Round { x, y, w, h, .. } && x == a.x && y == a.y && h == a.h
                && 100 * w <= a.w * i.brightness < 100 * w + 100
            &&& ops[13] matches OpView::Text { s, x, y, .. } && s == dec_text(i.brightness as nat)
                + "%"@ && a.holds(x, y)
        }),
{
}

/// Each caption stands on the button that it names, and the button of the bench
/// simulation is green and says so while the simulation runs.
pub proof fn captions_stand_on_their_buttons(i: ConfigInfo)
    ensures
        ({
            let ops = config_screen(i);
            &&& ops[9] matches OpView::Text { s, x, y, .. } && s == "AUTO SLEEP: "@ + sleep_text(
                i.sleep_timeout_s,
            ) && timeout_button().holds(x, y)
            &&& ops[15] matches OpView::Text { s, x, y, .. } && s == (if i.sim {
                "SIM: ON"@
            } else {
                "RUN SIM"@
            }) && sim_button().holds(x, y)
            &&& ops[14] matches OpView::Round { x, y, w, h, colour, .. } && colour == (if i.sim {
                shade(Pal::Green)
            } else {
                shade(Pal::Panel)
            }) && sim_button().holds(x, y) && sim_button().holds(x + w - 1, y + h - 1)
            &&& ops[17] matches OpView::Text { s, x, y, .. } && s == "RESTART"@
                && restart_button().holds(x, y)
            &&& ops[19] matches OpView::Text { s, x, y, .. } && s == "SLEEP NOW"@
                && sleep_button().holds(x, y)
        }),
{
}

/// What the unit runs and which car is loaded, each behind its own mark.
pub proof fn the_unit_names_itself(i: ConfigInfo)
    ensures
        ({
            let ops = config_screen(i);
            &&& ops[4] matches OpView::Text { s, .. } && s == "FW "@ + i.fw@ + "   BOARD "@
                + i.board@
            &&& ops[5] matches OpView::Text { s, .. } && s == "S/N "@ + i.serial@
            &&& ops[6] matches OpView::Text { s, .. } && (i.car@.len() > 0 ==> s == "CAR "@ + i.car@)
                && (i.car@.len() == 0 ==> s == "CAR "@ + "—"@)
        }),
{
}

/// A time to sleep reads in seconds below a minute and in whole minutes from there;
/// none reads as off.
pub proof fn sleep_times_are_shown(m: int, s: int)
    requires
        0 <= s < 60,
        0 <= m,
        60 * m + s <= 65535,
    ensures
        sleep_text(0) == "OFF"@,
        m == 0 && s > 0 ==> sleep_text(s as u16) == dec_text(s as nat) + "S"@,
        m > 0 ==> sleep_text((60 * m + s) as u16) == dec_text(m as nat) + "M"@,
{
    let v = (60 * m + s) as u16;
    assert(v / 60 == m);
}

/// The time since power-up of `m` minutes and `s` seconds is shown as `m:ss` behind
/// the free memory.
pub proof fn uptime_is_shown_in_parts(heap_kb: int, m: int, s: int)
    requires
        m >= 0,
        0 <= s < 60,
    ensures
        uptime_text(heap_kb, 60 * m + s) == "HEAP "@ + int_text(heap_kb) + " KB   UP "@ + dec_text(
            m as nat,
        ) + ":"@ + pad_text(s as nat, 2),
{
    assert((60 * m + s) / 60 == m);
}

/// The bar of an update starts empty, is full at 100 percent, grows with the
/// percentage and never runs over.
pub proof fn update_bar_grows(p: int, q: int)
    requires
        p <= q,
    ensures
        ota_screen(p)[4] matches OpView::Round { w: a, x: xa, .. } && ota_screen(
            q,
        )[4] matches OpView::Round { w: b, .. } && ota_screen(p)[3] matches OpView::Round {
            w: full,
            x: x0,
            ..
        } && {
            &&& 0 <= a <= b <= full
            &&& xa == x0
            &&& p <= 0 ==> a == 0
            &&& q >= 100 ==> b == full
            &&& 0 <= p <= 100 ==> 100 * a <= full * p < 100 * a + 100
        },
        ota_screen(p)[5] matches OpView::Text { s, .. } && s == int_text(p) + "%"@,
{
}

/// The picture of a unit without a layout: two lines in its middle, the second of
/// which says what to do.
pub proof fn an_empty_unit_says_what_to_do()
    ensures
        no_screen().len() == 3,
        no_screen()[0] == OpView::Clear(ground()),
        no_screen()[1] == centred("No screen"@, 240, 148, 20, Pal::Dim),
        no_screen()[2] == centred(
            "Add a layout for this display in the editor"@,
            240,
            174,
            12,
            Pal::Dim,
        ),
{
}

/// The cog has eight teeth around its middle, each opposite another, a quarter turn
/// from a third and as far out; a disc covers their roots, and a hole is left in it.
pub proof fn the_cog_is_round(i: int)
    requires
        0 <= i < 8,
    ensures
        cog().len() == 10,
        cog()[i] == round_at(24 + tooth(i).0 - 3, 296 + tooth(i).1 - 3, 6, 6, 1, shade(Pal::Dim)),
        tooth(0) == (13int, 0int) && tooth(1) == (9int, 9int),
        tooth((i + 2) % 8).0 == -tooth(i).1 && tooth((i + 2) % 8).1 == tooth(i).0,
        tooth((i + 4) % 8).0 == -tooth(i).0 && tooth((i + 4) % 8).1 == -tooth(i).1,
        cog()[8] == (OpView::Disc { x: 14, y: 286, d: 20, colour: shade(Pal::Dim) }),
        cog()[9] == (OpView::Disc { x: 20, y: 292, d: 8, colour: ground() }),
{
}

/// The places that can be touched lie on the panel of 480 by 320 pixels and do not
/// overlap: a touch on the configuration means one thing. The three buttons on the right
/// are of one size and 48 pixels apart; the corner that opens the configuration is where
/// the way back is.
pub proof fn touch_areas_lie_apart(x: int, y: int)
    ensures
        back_button() == (Area { x: 20, y: 262, w: 60, h: 46 }),
        slider() == (Area { x: 40, y: 205, w: 400, h: 36 }),
        timeout_button() == (Area { x: 40, y: 140, w: 200, h: 36 }),
        hotspot() == (Area { x: 0, y: 264, w: 86, h: 56 }),
        sim_button() == (Area { x: 288, y: 56, w: 172, h: 42 }),
        restart_button() == (Area { y: (sim_button().y + 48) as i32, ..sim_button() }),
        sleep_button() == (Area { y: (restart_button().y + 48) as i32, ..restart_button() }),
        slider().holds(x, y) ==> !back_button().holds(x, y) && !timeout_button().holds(x, y)
            && !sim_button().holds(x, y) && !restart_button().holds(x, y) && !sleep_button().holds(
            x,
            y,
        ),
        timeout_button().holds(x, y) ==> !back_button().holds(x, y) && !sim_button().holds(x, y)
            && !restart_button().holds(x, y) && !sleep_button().holds(x, y),
        sim_button().holds(x, y) ==> !restart_button().holds(x, y) && !sleep_button().holds(x, y)
            && !back_button().holds(x, y),
        restart_button().holds(x, y) ==> !sleep_button().holds(x, y) && !back_button().holds(x, y),
        sleep_button().holds(x, y) ==> !back_button().holds(x, y),
{
}

/// What the configuration shows, from its title to its buttons: the four lines about the
/// unit below each other, 18 pixels apart, above the sleep time, and the brightness with
/// its slider below that.
pub proof fn the_configuration_is_laid_out(i: ConfigInfo)
    ensures
        ({
            let d = config_screen(i);
            &&& d.len() == 20
            &&& d[0] == OpView::Clear(ground())
            &&& d[1] == centred("PITH DDU - CONFIG"@, 240, 26, 16, Pal::White)
            &&& d[2] == button_face(back_button(), Pal::Panel)
            &&& d[3] == (OpView::Triangle {
                x1: 41,
                y1: 285,
                x2: 56,
                y2: 274,
                x3: 56,
                y3: 296,
                colour: shade(Pal::White),
            })
            &&& d[4] == text_at(
                "FW "@ + i.fw@ + "   BOARD "@ + i.board@,
                40,
                74,
                12,
                Pal::Dim,
                Align::Left,
            )
            &&& d[5] == text_at("S/N "@ + i.serial@, 40, 92, 12, Pal::Dim, Align::Left)
            &&& d[6] == text_at(
                "CAR "@ + car_or_dash(i.car@),
                40,
                110,
                12,
                Pal::Dim,
                Align::Left,
            )
            &&& d[7] == text_at(
                uptime_text(i.heap_kb as int, i.uptime_s as int),
                40,
                128,
                12,
                Pal::Dim,
                Align::Left,
            )
            &&& d[8] == button_face(timeout_button(), Pal::Panel)
            &&& d[9] == button_text(
                "AUTO SLEEP: "@ + sleep_text(i.sleep_timeout_s),
                timeout_button(),
                13,
            )
            &&& d[10] == text_at("SHIFT LED BRIGHTNESS"@, 40, 187, 12, Pal::Dim, Align::Left)
            &&& d[11] == button_face(slider(), Pal::Panel)
            &&& d[12] == round_at(40, 205, 4 * i.brightness, 36, 6, shade(Pal::Cyan))
            &&& d[13] == button_text(dec_text(i.brightness as nat) + "%"@, slider(), 14)
            &&& i.sim ==> d[14] == button_face(sim_button(), Pal::Green) && d[15] == button_text(
                "SIM: ON"@,
                sim_button(),
                14,
            )
            &&& !i.sim ==> d[14] == button_face(sim_button(), Pal::Panel) && d[15] == button_text(
                "RUN SIM"@,
                sim_button(),
                14,
            )
            &&& d[16] == button_face(restart_button(), Pal::Red)
            &&& d[17] == button_text("RESTART"@, restart_button(), 14)
            &&& d[18] == button_face(sleep_button(), Pal::Panel)
            &&& d[19] == button_text("SLEEP NOW"@, sleep_button(), 14)
        }),
{
    assert(400 * i.brightness / 100 == 4 * i.brightness);
}

/// What an update shows: its title, a warning, a bar of 360 pixels, and the percentage
/// as it is told; the bar is filled by as much of it as there is, no less than nothing
/// and no more than the whole.
pub proof fn the_update_is_laid_out(pct: int)
    ensures
        ({
            let d = ota_screen(pct);
            &&& d.len() == 6
            &&& d[0] == OpView::Clear(ground())
            &&& d[1] == centred("FIRMWARE UPDATE"@, 240, 110, 18, Pal::White)
            &&& d[2] == centred("Flashing — do not disconnect"@, 240, 145, 12, Pal::Dim)
            &&& d[3] == round_at(60, 175, 360, 30, 6, shade(Pal::Panel))
            &&& pct <= 0 ==> d[4] == round_at(60, 175, 0, 30, 6, shade(Pal::Cyan))
            &&& pct >= 100 ==> d[4] == round_at(60, 175, 360, 30, 6, shade(Pal::Cyan))
            &&& 0 <= pct <= 100 ==> d[4] == round_at(
                60,
                175,
                360 * pct / 100,
                30,
                6,
                shade(Pal::Cyan),
            )
            &&& d[5] == centred(int_text(pct) + "%"@, 240, 220, 14, Pal::White)
        }),
{
}

} // verus!
