//! The recovery console of the display unit: the splash of an early boot, and the menu
//! of what can be done about a unit that does not start. It says what is drawn, and
//! which action a touch means; the firmware carries the action out.

use vstd::prelude::*;
use vstd::string::StringExecFns;
use crate::ddu::draw::{hit, Area};
use crate::format::Pal;
use crate::text::{dec_string, dec_text, int_string, int_text};

verus! {

/// What a touch on the menu asks for.
#[derive(Clone, Copy, Debug, PartialEq, Eq, Structural)]
pub enum Action {
    /// Start the firmware.
    Boot,
    /// Wipe the stored layout, then start.
    ResetConfig,
    /// Show what is stored as a drive.
    MountUsb,
    /// Restart into the download mode of the chip.
    Download,
    /// Restart.
    Reboot,
}

/// The colour of a text or a face.
#[derive(Clone, Copy, Debug, PartialEq, Eq, Structural)]
pub enum Ink {
    Of(Pal),
    Black,
}

/// What is drawn. A text is centred on its point.
#[derive(Debug, PartialEq)]
pub enum Draw {
    /// Fills the panel.
    Clear(Ink),
    Text { s: String, x: i32, y: i32, size: u32, ink: Ink },
    /// A rectangle with round corners.
    Round { area: Area, radius: u32, ink: Ink },
}

/// What is drawn, as plain values.
pub enum DrawView {
    Clear(Ink),
    Text { s: Seq<char>, x: int, y: int, size: int, ink: Ink },
    Round { area: Area, radius: int, ink: Ink },
}

impl View for Draw {
    type V = DrawView;

    open spec fn view(&self) -> DrawView {
        match *self {
            Draw::Clear(ink) => DrawView::Clear(ink),
            Draw::Text { s, x, y, size, ink } => DrawView::Text {
                s: s@,
                x: x as int,
                y: y as int,
                size: size as int,
                ink,
            },
            Draw::Round { area, radius, ink } => DrawView::Round {
                area,
                radius: radius as int,
                ink,
            },
        }
    }
}

/// A drawing as plain values.
pub open spec fn draw_views(v: Seq<Draw>) -> Seq<DrawView> {
    v.map_values(|d: Draw| d@)
}

/// A text in the middle of the panel.
pub open spec fn line_at(s: Seq<char>, y: int, size: int, p: Pal) -> DrawView {
    DrawView::Text { s, x: 240, y, size, ink: Ink::Of(p) }
}

fn line(s: String, y: i32, size: u32, p: Pal) -> (d: Draw)
    ensures
        d@ == line_at(s@, y as int, size as int, p),
{
    Draw::Text { s, x: 240, y, size, ink: Ink::Of(p) }
}

// ----------------------------------------------------------------------- menu

/// How many buttons the menu has.
pub const MENU_BUTTONS: usize = 5;

/// The place of a button; the last stands for every one behind it.
pub open spec fn button_area(i: int) -> Area {
    Area {
        x: 60,
        y: (94 + 42 * if i < 4 {
            i
        } else {
            4
        }) as i32,
        w: 360,
        h: 38,
    }
}

/// The action of a button.
pub open spec fn button_action(i: int) -> Action {
    if i == 0 {
        Action::Boot
    } else if i == 1 {
        Action::ResetConfig
    } else if i == 2 {
        Action::MountUsb
    } else if i == 3 {
        Action::Download
    } else {
        Action::Reboot
    }
}

/// The text and the colour of a button.
pub open spec fn button_look(i: int) -> (Seq<char>, Pal) {
    if i == 0 {
        ("Boot firmware"@, Pal::Green)
    } else if i == 1 {
        ("Reset config"@, Pal::Amber)
    } else if i == 2 {
        ("Mount as USB drive"@, Pal::Cyan)
    } else if i == 3 {
        ("USB flash mode (download)"@, Pal::Red)
    } else {
        ("Reboot"@, Pal::White)
    }
}

/// How many buttons the menu has.
pub fn menu_button_count() -> (n: usize)
    ensures
        n == MENU_BUTTONS,
{
    MENU_BUTTONS
}

/// The place of a button, so that it can be drawn alone.
pub fn menu_button_rect(i: usize) -> (a: Area)
    ensures
        a == button_area(i as int),
{
    let k: i32 = if i < 4 {
        i as i32
    } else {
        4
    };
    Area { x: 60, y: 94 + 42 * k, w: 360, h: 38 }
}

/// The action of a button.
pub fn menu_action(i: usize) -> (a: Action)
    ensures
        a == button_action(i as int),
{
    match i {
        0 => Action::Boot,
        1 => Action::ResetConfig,
        2 => Action::MountUsb,
        3 => Action::Download,
        _ => Action::Reboot,
    }
}

/// The text and the colour of a button.
fn menu_look(i: usize) -> (r: (String, Pal))
    ensures
        (r.0@, r.1) == button_look(i as int),
{
    match i {
        0 => (String::from_str("Boot firmware"), Pal::Green),
        1 => (String::from_str("Reset config"), Pal::Amber),
        2 => (String::from_str("Mount as USB drive"), Pal::Cyan),
        3 => (String::from_str("USB flash mode (download)"), Pal::Red),
        _ => (String::from_str("Reboot"), Pal::White),
    }
}

/// The button under a point.
pub fn menu_button_at(tx: i32, ty: i32) -> (r: Option<usize>)
    ensures
        match r {
            Some(i) => i < MENU_BUTTONS && button_area(i as int).holds(tx as int, ty as int),
            None => forall|i: int|
                0 <= i < MENU_BUTTONS ==> !(#[trigger] button_area(i)).holds(tx as int, ty as int),
        },
{
    let mut i: usize = 0;
    while i < MENU_BUTTONS
        invariant
            i <= MENU_BUTTONS,
            forall|k: int|
                0 <= k < i ==> !(#[trigger] button_area(k)).holds(tx as int, ty as int),
        decreases MENU_BUTTONS - i,
    {
        if hit(menu_button_rect(i), tx, ty) {
            return Some(i);
        }
        i += 1;
    }
    None
}

/// The action that a touch means.
pub fn action_at(tx: i32, ty: i32) -> (r: Option<Action>)
    ensures
        match r {
            Some(a) => exists|i: int|
                0 <= i < MENU_BUTTONS && (#[trigger] button_area(i)).holds(tx as int, ty as int)
                    && a == button_action(i),
            None => forall|i: int|
                0 <= i < MENU_BUTTONS ==> !(#[trigger] button_area(i)).holds(tx as int, ty as int),
        },
{
    match menu_button_at(tx, ty) {
        Some(i) => {
            assert(button_area(i as int).holds(tx as int, ty as int));
            Some(menu_action(i))
        },
        None => None,
    }
}

/// No two buttons overlap and none has the action of another, so that a touch means
/// one thing.
pub proof fn touches_mean_one_thing(i: int, j: int, tx: int, ty: int)
    requires
        0 <= i < MENU_BUTTONS,
        0 <= j < MENU_BUTTONS,
    ensures
        button_area(i).holds(tx, ty) && button_area(j).holds(tx, ty) ==> i == j,
        button_action(i) == button_action(j) ==> i == j,
{
}

/// A button, as it is drawn: under a finger its face has its colour.
pub open spec fn button_drawn(i: int, pressed: bool) -> Seq<DrawView> {
    let (s, p) = button_look(i);
    let a = button_area(i);
    seq![
        DrawView::Round {
            area: a,
            radius: 8,
            ink: Ink::Of(
                if pressed {
                    p
                } else {
                    Pal::Panel
                },
            ),
        },
        DrawView::Text {
            s,
            x: 240,
            y: a.y + 19,
            size: 16,
            ink: if pressed {
                Ink::Black
            } else {
                Ink::Of(p)
            },
        },
    ]
}

/// Draws a button.
pub fn draw_menu_button(out: &mut Vec<Draw>, i: usize, pressed: bool)
    ensures
        draw_views(final(out)@) == draw_views(old(out)@) + button_drawn(i as int, pressed),
{
    let (s, p) = menu_look(i);
    let a = menu_button_rect(i);
    let (face, ink) = if pressed {
        (Ink::Of(p), Ink::Black)
    } else {
        (Ink::Of(Pal::Panel), Ink::Of(p))
    };
    out.push(Draw::Round { area: a, radius: 8, ink: face });
    out.push(Draw::Text { s, x: a.x + a.w / 2, y: a.y + a.h / 2, size: 16, ink });
    proof {
        assert(draw_views(out@) =~= draw_views(old(out)@) + button_drawn(i as int, pressed));
    }
}

/// The first `n` buttons.
pub open spec fn buttons_drawn(n: nat) -> Seq<DrawView>
    decreases n,
{
    if n == 0 {
        Seq::empty()
    } else {
        buttons_drawn((n - 1) as nat) + button_drawn(n - 1, false)
    }
}

/// The version and the slot, as the menu shows them.
pub open spec fn version_text(version: Seq<char>, slot: Seq<char>) -> Seq<char> {
    "v"@ + version + "   ("@ + slot + ")"@
}

/// The menu.
pub open spec fn menu_screen(version: Seq<char>, slot: Seq<char>, prev_fails: u8) -> Seq<DrawView> {
    seq![
        DrawView::Clear(Ink::Of(Pal::Bg)),
        line_at("RECOVERY"@, 28, 18, Pal::White),
        line_at(version_text(version, slot), 54, 12, Pal::Dim),
        if prev_fails > 0 {
            line_at(
                "boot failed "@ + dec_text(prev_fails as nat) + "x  -  pick a recovery option"@,
                82,
                12,
                Pal::Amber,
            )
        } else {
            line_at("setup / recovery"@, 82, 12, Pal::Dim)
        },
    ] + buttons_drawn(MENU_BUTTONS as nat) + seq![
        line_at(
            "USB flash mode = flash from the PC, no BOOT/RESET buttons"@,
            310,
            11,
            Pal::Dim,
        ),
    ]
}

/// Draws the menu.
pub fn render_menu(version: &str, slot: &str, prev_fails: u8) -> (out: Vec<Draw>)
    ensures
        draw_views(out@) == menu_screen(version@, slot@, prev_fails),
{
    let mut v = String::from_str("v");
    v.append(version);
    v.append("   (");
    v.append(slot);
    v.append(")");
    let mut out: Vec<Draw> = Vec::new();
    out.push(Draw::Clear(Ink::Of(Pal::Bg)));
    out.push(line(String::from_str("RECOVERY"), 28, 18, Pal::White));
    out.push(line(v, 54, 12, Pal::Dim));
    if prev_fails > 0 {
        let n = dec_string(prev_fails as u64);
        let mut m = String::from_str("boot failed ");
        m.append(n.as_str());
        m.append("x  -  pick a recovery option");
        out.push(line(m, 82, 12, Pal::Amber));
    } else {
        out.push(line(String::from_str("setup / recovery"), 82, 12, Pal::Dim));
    }
    let ghost head = draw_views(out@);
    let mut i: usize = 0;
    while i < MENU_BUTTONS
        invariant
            i <= MENU_BUTTONS,
            draw_views(out@) == head + buttons_drawn(i as nat),
        decreases MENU_BUTTONS - i,
    {
        draw_menu_button(&mut out, i, false);
        i += 1;
        proof {
            assert(head + buttons_drawn((i - 1) as nat) + button_drawn(i - 1, false) =~= head
                + buttons_drawn(i as nat));
        }
    }
    let ghost most = draw_views(out@);
    out.push(
        line(
            String::from_str("USB flash mode = flash from the PC, no BOOT/RESET buttons"),
            310,
            11,
            Pal::Dim,
        ),
    );
    proof {
        assert(draw_views(out@) =~= most + seq![out@.last()@]);
        assert(head =~= menu_screen(version@, slot@, prev_fails).take(4));
        assert(draw_views(out@) =~= menu_screen(version@, slot@, prev_fails));
    }
    out
}

// --------------------------------------------------------------------- splash

/// Where the countdown stands, so that it can be drawn alone.
pub open spec fn countdown_area() -> Area {
    Area { x: 20, y: 190, w: 440, h: 72 }
}

/// Where the countdown stands, so that it can be drawn alone.
pub fn splash_countdown_rect() -> (a: Area)
    ensures
        a == countdown_area(),
{
    Area { x: 20, y: 190, w: 440, h: 72 }
}

/// The splash without its countdown.
pub open spec fn splash_chrome(version: Seq<char>, slot: Seq<char>, prev_fails: u8) -> Seq<
    DrawView,
> {
    seq![
        DrawView::Clear(Ink::Of(Pal::Bg)),
        line_at("PITH DDU"@, 84, 40, Pal::White),
        line_at("recovery  -  v"@ + version + "  ("@ + slot + ")"@, 128, 14, Pal::Cyan),
    ] + (if prev_fails > 0 {
        seq![
            line_at(
                "previous boot failed "@ + dec_text(prev_fails as nat) + "x"@,
                160,
                12,
                Pal::Amber,
            ),
        ]
    } else {
        Seq::empty()
    }) + seq![line_at("tap screen for recovery"@, 250, 12, Pal::Dim)]
}

/// Draws the splash without its countdown.
pub fn render_splash_chrome(version: &str, slot: &str, prev_fails: u8) -> (out: Vec<Draw>)
    ensures
        draw_views(out@) == splash_chrome(version@, slot@, prev_fails),
{
    let mut v = String::from_str("recovery  -  v");
    v.append(version);
    v.append("  (");
    v.append(slot);
    v.append(")");
    let mut out: Vec<Draw> = Vec::new();
    out.push(Draw::Clear(Ink::Of(Pal::Bg)));
    out.push(line(String::from_str("PITH DDU"), 84, 40, Pal::White));
    out.push(line(v, 128, 14, Pal::Cyan));
    if prev_fails > 0 {
        let n = dec_string(prev_fails as u64);
        let mut m = String::from_str("previous boot failed ");
        m.append(n.as_str());
        m.append("x");
        out.push(line(m, 160, 12, Pal::Amber));
    }
    out.push(line(String::from_str("tap screen for recovery"), 250, 12, Pal::Dim));
    proof {
        assert(draw_views(out@) =~= splash_chrome(version@, slot@, prev_fails));
    }
    out
}

/// The countdown: its place is wiped first.
pub open spec fn splash_countdown(secs_left: int) -> Seq<DrawView> {
    seq![
        DrawView::Round { area: countdown_area(), radius: 0, ink: Ink::Of(Pal::Bg) },
        line_at(
            int_text(secs_left) + " "@ + (if secs_left == 1 {
                "second"@
            } else {
                "seconds"@
            }) + " till boot"@,
            214,
            24,
            Pal::White,
        ),
    ]
}

/// Draws the countdown.
pub fn render_splash_countdown(secs_left: i32) -> (out: Vec<Draw>)
    ensures
        draw_views(out@) == splash_countdown(secs_left as int),
{
    let mut c = int_string(secs_left as i64);
    c.append(" ");
    if secs_left == 1 {
        c.append("second");
    } else {
        c.append("seconds");
    }
    c.append(" till boot");
    let mut out: Vec<Draw> = Vec::new();
    out.push(Draw::Round { area: splash_countdown_rect(), radius: 0, ink: Ink::Of(Pal::Bg) });
    out.push(line(c, 214, 24, Pal::White));
    proof {
        assert(draw_views(out@) =~= splash_countdown(secs_left as int));
    }
    out
}

/// Draws the whole splash.
pub fn render_splash(version: &str, slot: &str, secs_left: i32, prev_fails: u8) -> (out: Vec<Draw>)
    ensures
        draw_views(out@) == splash_chrome(version@, slot@, prev_fails) + splash_countdown(
            secs_left as int,
        ),
{
    let mut out = render_splash_chrome(version, slot, prev_fails);
    let mut count = render_splash_countdown(secs_left);
    let ghost (a, b) = (out@, count@);
    out.append(&mut count);
    proof {
        assert(draw_views(a + b) =~= draw_views(a) + draw_views(b));
    }
    out
}

/// A message of two lines.
pub open spec fn message_screen(title: Seq<char>, text: Seq<char>) -> Seq<DrawView> {
    seq![
        DrawView::Clear(Ink::Of(Pal::Bg)),
        line_at(title, 144, 24, Pal::White),
        line_at(text, 180, 14, Pal::Dim),
        line_at("tap to go back"@, 296, 11, Pal::Dim),
    ]
}

/// Draws a message of two lines.
pub fn render_message(title: &str, text: &str) -> (out: Vec<Draw>)
    ensures
        draw_views(out@) == message_screen(title@, text@),
{
    let mut out: Vec<Draw> = Vec::new();
    out.push(Draw::Clear(Ink::Of(Pal::Bg)));
    out.push(line(String::from_str(title), 144, 24, Pal::White));
    out.push(line(String::from_str(text), 180, 14, Pal::Dim));
    out.push(line(String::from_str("tap to go back"), 296, 11, Pal::Dim));
    proof {
        assert(draw_views(out@) =~= message_screen(title@, text@));
    }
    out
}

// -------------------------------------------------------------------- laws

/// The buttons stand below each other, all of one size and 42 pixels apart, and each
/// says what it does.
pub proof fn buttons_say_what_they_do(i: int, j: int)
    requires
        0 <= i < j < 5,
    ensures
        button_area(j).y - button_area(i).y == 42 * (j - i),
        button_area(j).x == button_area(i).x && button_area(j).w == button_area(i).w
            && button_area(j).h == button_area(i).h,
        button_area(0) == (Area { x: 60, y: 94, w: 360, h: 38 }),
        button_action(0) == Action::Boot && button_look(0) == ("Boot firmware"@, Pal::Green),
        button_action(1) == Action::ResetConfig && button_look(1) == ("Reset config"@, Pal::Amber),
        button_action(2) == Action::MountUsb && button_look(2) == (
            "Mount as USB drive"@,
            Pal::Cyan,
        ),
        button_action(3) == Action::Download && button_look(3) == (
            "USB flash mode (download)"@,
            Pal::Red,
        ),
        button_action(4) == Action::Reboot && button_look(4) == ("Reboot"@, Pal::White),
        MENU_BUTTONS == 5,
{
}

/// A button under a finger and one without it swap the colours of their face and
/// their caption; the caption stands in the middle of the face.
pub proof fn pressed_buttons_light_up(i: int)
    requires
        0 <= i < 5,
    ensures
        ({
            let up = button_drawn(i, false);
            let down = button_drawn(i, true);
            let a = button_area(i);
            let look = button_look(i);
            &&& up.len() == 2 && down.len() == 2
            &&& up[0] == DrawView::Round { area: a, radius: 8, ink: Ink::Of(Pal::Panel) }
            &&& down[0] == DrawView::Round { area: a, radius: 8, ink: Ink::Of(look.1) }
            &&& up[1] matches DrawView::Text { s, x, y, size, ink } && {
                &&& s == look.0
                &&& 2 * x == 2 * a.x + a.w
                &&& 2 * y == 2 * a.y + a.h
                &&& size == 16
                &&& ink == Ink::Of(look.1)
            }
            &&& down[1] matches DrawView::Text { s, x, y, size, ink } && {
                &&& s == look.0
                &&& 2 * x == 2 * a.x + a.w
                &&& 2 * y == 2 * a.y + a.h
                &&& size == 16
                &&& ink == Ink::Black
            }
        }),
{
}

/// The menu shows its title, the version, why it is shown, every button in its order,
/// and what the flash mode is for. It counts the boots that failed, where one did.
pub proof fn menu_shows_every_button(
    version: Seq<char>,
    slot: Seq<char>,
    prev_fails: u8,
    i: int,
)
    requires
        0 <= i < 5,
    ensures
        ({
            let d = menu_screen(version, slot, prev_fails);
            &&& d.len() == 15
            &&& d[0] == DrawView::Clear(Ink::Of(Pal::Bg))
            &&& d[1] == line_at("RECOVERY"@, 28, 18, Pal::White)
            &&& d[2] == line_at("v"@ + version + "   ("@ + slot + ")"@, 54, 12, Pal::Dim)
            &&& prev_fails == 0 ==> d[3] == line_at("setup / recovery"@, 82, 12, Pal::Dim)
            &&& prev_fails > 0 ==> d[3] == line_at(
                "boot failed "@ + dec_text(prev_fails as nat) + "x  -  pick a recovery option"@,
                82,
                12,
                Pal::Amber,
            )
            &&& d[4 + 2 * i] == button_drawn(i, false)[0]
            &&& d[5 + 2 * i] == button_drawn(i, false)[1]
            &&& d[14] == line_at(
                "USB flash mode = flash from the PC, no BOOT/RESET buttons"@,
                310,
                11,
                Pal::Dim,
            )
        }),
{
    lemma_buttons(5, i);
}

proof fn lemma_buttons(n: nat, i: int)
    requires
        0 <= i < n,
    ensures
        buttons_drawn(n).len() == 2 * n,
        buttons_drawn(n)[2 * i] == button_drawn(i, false)[0],
        buttons_drawn(n)[2 * i + 1] == button_drawn(i, false)[1],
    decreases n,
{
    if n > 1 {
        lemma_buttons(
            (n - 1) as nat,
            if i < n - 1 {
                i
            } else {
                0
            },
        );
    } else {
        assert(buttons_drawn(0).len() == 0);
    }
}

/// The splash names the unit, its version and its slot; the boots that failed before
/// are told only where there were some.
pub proof fn splash_tells_of_failures(version: Seq<char>, slot: Seq<char>, prev_fails: u8)
    ensures
        ({
            let d = splash_chrome(version, slot, prev_fails);
            &&& d[0] == DrawView::Clear(Ink::Of(Pal::Bg))
            &&& d[1] == line_at("PITH DDU"@, 84, 40, Pal::White)
            &&& d[2] == line_at(
                "recovery  -  v"@ + version + "  ("@ + slot + ")"@,
                128,
                14,
                Pal::Cyan,
            )
            &&& prev_fails == 0 ==> d.len() == 4
            &&& prev_fails > 0 ==> d.len() == 5 && d[3] == line_at(
                "previous boot failed "@ + dec_text(prev_fails as nat) + "x"@,
                160,
                12,
                Pal::Amber,
            )
            &&& d.last() == line_at("tap screen for recovery"@, 250, 12, Pal::Dim)
        }),
{
}

/// The countdown wipes its own place and then shows the seconds in it, in the singular
/// for one; a text stands in the middle of the panel.
pub proof fn countdown_counts_seconds(secs: int)
    ensures
        ({
            let d = splash_countdown(secs);
            &&& d.len() == 2
            &&& d[0] == DrawView::Round {
                area: Area { x: 20, y: 190, w: 440, h: 72 },
                radius: 0,
                ink: Ink::Of(Pal::Bg),
            }
            &&& d[1] matches DrawView::Text { s, x, y, size, ink } && {
                &&& secs == 1 ==> s == int_text(secs) + " "@ + "second"@ + " till boot"@
                &&& secs != 1 ==> s == int_text(secs) + " "@ + "seconds"@ + " till boot"@
                &&& x == 240
                &&& 190 <= y < 190 + 72 && y == 214
                &&& size == 24
                &&& ink == Ink::Of(Pal::White)
            }
        }),
{
}

/// A message shows its title above its text, and how to get back below both.
pub proof fn messages_show_both_lines(title: Seq<char>, text: Seq<char>)
    ensures
        ({
            let d = message_screen(title, text);
            &&& d.len() == 4
            &&& d[0] == DrawView::Clear(Ink::Of(Pal::Bg))
            &&& d[1] == (DrawView::Text {
                s: title,
                x: 240,
                y: 144,
                size: 24,
                ink: Ink::Of(Pal::White),
            })
            &&& d[2] == (DrawView::Text {
                s: text,
                x: 240,
                y: 180,
                size: 14,
                ink: Ink::Of(Pal::Dim),
            })
            &&& d[3] == (DrawView::Text {
                s: "tap to go back"@,
                x: 240,
                y: 296,
                size: 11,
                ink: Ink::Of(Pal::Dim),
            })
        }),
{
}

} // verus!
