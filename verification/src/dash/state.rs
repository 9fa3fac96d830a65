//! What the dashboard has pushed to the plain display unit, which has no backlight
//! pin and one storage partition.

use vstd::prelude::*;
use vstd::string::StringExecFns;
use crate::ddu::pins::{
    in_range_or, pick, push_of, read_push, switch_or, PinsPush, PIN_MAX, REV_MAX, SIDE_MAX,
};
use crate::ddu::state::{next_ver, page_count, pages_of, text_or_empty, SCREENS};
use crate::format::clamped;
use crate::json;
use crate::json::{int_at, json_read, len_at, object, object_text, quoted, quoted_text, Doc};
use crate::store::{put_views, Put, PutView};
use crate::text::{dec_string, dec_text, int_string, int_text, owned_pairs};

verus! {

/// The firmware version that the capability reply names.
pub const FW: &'static str = "0.9.5";

/// The pins of displays, touch panels and LED strip, and the layout of the strip.
#[derive(Clone, Copy, Debug, PartialEq, Eq, Structural)]
pub struct DevicePins {
    pub sclk: i32,
    pub mosi: i32,
    pub miso: i32,
    pub dc: i32,
    pub disp1_cs: i32,
    pub disp2_cs: i32,
    pub touch1_cs: i32,
    pub touch2_cs: i32,
    pub led_din: i32,
    pub race_screen: i32,
    pub led_rev: i32,
    pub led_tc: i32,
    pub led_abs: i32,
    pub led_rgbw: i32,
}

/// The pins as the board comes.
pub open spec fn stock_pins() -> DevicePins {
    DevicePins {
        sclk: 7,
        mosi: 9,
        miso: 8,
        dc: 2,
        disp1_cs: 1,
        disp2_cs: 3,
        touch1_cs: 5,
        touch2_cs: 6,
        led_din: 43,
        race_screen: 0,
        led_rev: 12,
        led_tc: 2,
        led_abs: 2,
        led_rgbw: 1,
    }
}

impl Default for DevicePins {
    fn default() -> (r: DevicePins)
        ensures
            r == stock_pins(),
    {
        DevicePins {
            sclk: 7,
            mosi: 9,
            miso: 8,
            dc: 2,
            disp1_cs: 1,
            disp2_cs: 3,
            touch1_cs: 5,
            touch2_cs: 6,
            led_din: 43,
            race_screen: 0,
            led_rev: 12,
            led_tc: 2,
            led_abs: 2,
            led_rgbw: 1,
        }
    }
}

impl DevicePins {
    /// The pins after a push: only what the push holds and is in range changes.
    pub open spec fn pushed(self, p: PinsPush) -> DevicePins {
        DevicePins {
            sclk: in_range_or(self.sclk, p.sclk, PIN_MAX as int),
            mosi: in_range_or(self.mosi, p.mosi, PIN_MAX as int),
            miso: in_range_or(self.miso, p.miso, PIN_MAX as int),
            dc: in_range_or(self.dc, p.dc, PIN_MAX as int),
            disp1_cs: in_range_or(self.disp1_cs, p.disp1_cs, PIN_MAX as int),
            disp2_cs: in_range_or(self.disp2_cs, p.disp2_cs, PIN_MAX as int),
            touch1_cs: in_range_or(self.touch1_cs, p.touch1_cs, PIN_MAX as int),
            touch2_cs: in_range_or(self.touch2_cs, p.touch2_cs, PIN_MAX as int),
            led_din: in_range_or(self.led_din, p.led_din, PIN_MAX as int),
            race_screen: switch_or(self.race_screen, p.race_screen, p.race_screen == Some(1i64)),
            led_rev: in_range_or(self.led_rev, p.led_rev, REV_MAX as int),
            led_tc: in_range_or(self.led_tc, p.led_tc, SIDE_MAX as int),
            led_abs: in_range_or(self.led_abs, p.led_abs, SIDE_MAX as int),
            led_rgbw: switch_or(self.led_rgbw, p.led_rgbw, p.led_rgbw != Some(0i64)),
        }
    }

    /// The pins after a push.
    pub fn with_push(&self, p: &PinsPush) -> (r: DevicePins)
        ensures
            r == self.pushed(*p),
    {
        DevicePins {
            sclk: pick(self.sclk, p.sclk, PIN_MAX),
            mosi: pick(self.mosi, p.mosi, PIN_MAX),
            miso: pick(self.miso, p.miso, PIN_MAX),
            dc: pick(self.dc, p.dc, PIN_MAX),
            disp1_cs: pick(self.disp1_cs, p.disp1_cs, PIN_MAX),
            disp2_cs: pick(self.disp2_cs, p.disp2_cs, PIN_MAX),
            touch1_cs: pick(self.touch1_cs, p.touch1_cs, PIN_MAX),
            touch2_cs: pick(self.touch2_cs, p.touch2_cs, PIN_MAX),
            led_din: pick(self.led_din, p.led_din, PIN_MAX),
            race_screen: match p.race_screen {
                Some(n) => if n == 1 {
                    1
                } else {
                    0
                },
                None => self.race_screen,
            },
            led_rev: pick(self.led_rev, p.led_rev, REV_MAX),
            led_tc: pick(self.led_tc, p.led_tc, SIDE_MAX),
            led_abs: pick(self.led_abs, p.led_abs, SIDE_MAX),
            led_rgbw: match p.led_rgbw {
                Some(n) => if n != 0 {
                    1
                } else {
                    0
                },
                None => self.led_rgbw,
            },
        }
    }
}

/// The state of the display unit.
#[derive(Debug)]
pub struct AppState {
    pub pins: DevicePins,
    pub race_json: String,
    /// A screen layout has been read.
    pub has_ui: bool,
    pub ui_json: String,
    /// Counts the screen layouts that were read.
    pub ui_ver: u32,
    pub buttons_json: String,
    pub profile_json: String,
    pub car_json: String,
    pub button_pages: u8,
    /// The brightness of the rev lights in percent.
    pub brightness: u8,
    pub car_model: String,
    /// The telemetry frames since the last count that could be read.
    pub frames_ok: u32,
    /// Those that could not.
    pub frames_bad: u32,
    /// The bench simulation runs in place of telemetry.
    pub sim_on: bool,
    /// A change waits for a reboot.
    pub cfg_reboot: bool,
    /// What waits to be stored.
    pub writes: Vec<Put>,
}

/// The state as plain values.
pub struct StateView {
    pub pins: DevicePins,
    pub race_json: Seq<char>,
    pub has_ui: bool,
    pub ui_json: Seq<char>,
    pub ui_ver: u32,
    pub buttons_json: Seq<char>,
    pub profile_json: Seq<char>,
    pub car_json: Seq<char>,
    pub button_pages: u8,
    pub brightness: u8,
    pub car_model: Seq<char>,
    pub frames_ok: u32,
    pub frames_bad: u32,
    pub sim_on: bool,
    pub cfg_reboot: bool,
    pub writes: Seq<PutView>,
}

impl View for AppState {
    type V = StateView;

    open spec fn view(&self) -> StateView {
        StateView {
            pins: self.pins,
            race_json: self.race_json@,
            has_ui: self.has_ui,
            ui_json: self.ui_json@,
            ui_ver: self.ui_ver,
            buttons_json: self.buttons_json@,
            profile_json: self.profile_json@,
            car_json: self.car_json@,
            button_pages: self.button_pages,
            brightness: self.brightness,
            car_model: self.car_model@,
            frames_ok: self.frames_ok,
            frames_bad: self.frames_bad,
            sim_on: self.sim_on,
            cfg_reboot: self.cfg_reboot,
            writes: put_views(self.writes@),
        }
    }
}

/// What the storage holds.
#[derive(Debug)]
pub struct Stored {
    pub pins: Option<DevicePins>,
    pub race_json: Option<String>,
    pub ui_json: Option<String>,
    /// The stored screen layout could be read.
    pub ui_readable: bool,
    pub buttons_json: Option<String>,
    pub profile_json: Option<String>,
    pub car_json: Option<String>,
    pub bright: Option<u8>,
    pub btnpages: Option<u8>,
}

/// The state at boot, from what the storage holds.
pub open spec fn booted(d: Stored) -> StateView {
    StateView {
        pins: match d.pins {
            Some(p) => p,
            None => stock_pins(),
        },
        race_json: text_or_empty(d.race_json),
        has_ui: text_or_empty(d.ui_json).len() > 0 && d.ui_readable,
        ui_json: text_or_empty(d.ui_json),
        ui_ver: 0,
        buttons_json: text_or_empty(d.buttons_json),
        profile_json: text_or_empty(d.profile_json),
        car_json: text_or_empty(d.car_json),
        button_pages: match d.btnpages {
            Some(n) => n,
            None => 0,
        },
        brightness: match d.bright {
            Some(b) => if b > 100 {
                100
            } else {
                b
            },
            None => 43,
        },
        car_model: Seq::empty(),
        frames_ok: 0,
        frames_bad: 0,
        sim_on: false,
        cfg_reboot: false,
        writes: Seq::empty(),
    }
}

/// The pairs of the capability reply.
pub open spec fn cap_pairs(s: StateView, board: Seq<char>, serial: Seq<char>) -> Seq<
    (Seq<char>, Seq<char>),
> {
    seq![
        ("name"@, quoted_text("Pith DDU"@)),
        ("fw"@, quoted_text(FW@)),
        ("board"@, quoted_text(board)),
        ("serial"@, quoted_text(serial)),
        ("buttonPages"@, dec_text(s.button_pages as nat)),
        ("screens"@, SCREENS@),
        ("leds"@, object_text(led_pairs(s.pins))),
        ("pins"@, object_text(pin_pairs(s.pins))),
    ]
}

/// The capability reply.
pub open spec fn cap_text(s: StateView, board: Seq<char>, serial: Seq<char>) -> Seq<char> {
    object_text(cap_pairs(s, board, serial)) + "\n"@
}

/// The LEDs of the capability reply.
pub open spec fn led_pairs(p: DevicePins) -> Seq<(Seq<char>, Seq<char>)> {
    seq![
        ("rev"@, int_text(p.led_rev as int)),
        ("tc"@, int_text(p.led_tc as int)),
        ("abs"@, int_text(p.led_abs as int)),
        ("separate"@, "true"@),
    ]
}

/// The pins of the capability reply.
pub open spec fn pin_pairs(p: DevicePins) -> Seq<(Seq<char>, Seq<char>)> {
    seq![
        ("sclk"@, int_text(p.sclk as int)),
        ("mosi"@, int_text(p.mosi as int)),
        ("miso"@, int_text(p.miso as int)),
        ("dc"@, int_text(p.dc as int)),
        ("disp1_cs"@, int_text(p.disp1_cs as int)),
        ("disp2_cs"@, int_text(p.disp2_cs as int)),
        ("touch1_cs"@, int_text(p.touch1_cs as int)),
        ("touch2_cs"@, int_text(p.touch2_cs as int)),
        ("led_din"@, int_text(p.led_din as int)),
        ("race_screen"@, int_text(p.race_screen as int)),
        ("led_rev"@, int_text(p.led_rev as int)),
        ("led_tc"@, int_text(p.led_tc as int)),
        ("led_abs"@, int_text(p.led_abs as int)),
        ("led_rgbw"@, int_text(p.led_rgbw as int)),
    ]
}

/// The state after a race layout, and whether it was taken.
pub open spec fn raced(s: StateView, json: Seq<char>) -> (StateView, bool) {
    if json_read(json) is Some {
        (
            StateView {
                race_json: json,
                writes: s.writes.push(PutView::Text("racejson"@, json)),
                ..s
            },
            true,
        )
    } else {
        (s, false)
    }
}

/// The state after a profile, and whether it was taken.
pub open spec fn profiled(s: StateView, json: Seq<char>) -> (StateView, bool) {
    if json_read(json) is Some {
        (
            StateView {
                profile_json: json,
                writes: s.writes.push(PutView::Text("profjson"@, json)),
                ..s
            },
            true,
        )
    } else {
        (s, false)
    }
}

/// The state after the data of a car, and whether it was taken.
pub open spec fn carred(s: StateView, json: Seq<char>) -> (StateView, bool) {
    if json_read(json) is Some {
        (
            StateView {
                car_json: json,
                writes: s.writes.push(PutView::Text("carjson"@, json)),
                ..s
            },
            true,
        )
    } else {
        (s, false)
    }
}

/// The state after button pages, and whether they were taken.
pub open spec fn buttoned(s: StateView, json: Seq<char>) -> (StateView, bool) {
    match json_read(json) {
        Some(d) => (
            StateView {
                button_pages: pages_of(d),
                buttons_json: json,
                writes: s.writes.push(PutView::Text("btnsjson"@, json)).push(
                    PutView::U8("btnpages"@, pages_of(d)),
                ),
                ..s
            },
            true,
        ),
        None => (s, false),
    }
}

/// The state after pins, and whether they were taken.
pub open spec fn pinned(s: StateView, json: Seq<char>) -> (StateView, bool) {
    match json_read(json) {
        Some(d) => (
            StateView {
                pins: s.pins.pushed(push_of(d)),
                cfg_reboot: true,
                writes: s.writes.push(PutView::BoardPins(s.pins.pushed(push_of(d)))),
                ..s
            },
            true,
        ),
        None => (s, false),
    }
}

/// The state after a change of the brightness.
pub open spec fn lit(s: StateView, pct: int) -> StateView {
    let b = clamped(pct, 0, 100) as u8;
    StateView { brightness: b, writes: s.writes.push(PutView::U8("bright"@, b)), ..s }
}

/// The state after a screen layout that could be read, or not.
pub open spec fn shown(s: StateView, json: Seq<char>, parsed: bool) -> StateView {
    if parsed {
        StateView {
            has_ui: true,
            ui_json: json,
            ui_ver: next_ver(s.ui_ver),
            writes: s.writes.push(PutView::Text("uijson"@, json)),
            ..s
        }
    } else {
        s
    }
}

fn or_empty(s: Option<String>) -> (r: String)
    ensures
        r@ == text_or_empty(s),
{
    match s {
        Some(t) => t,
        None => {
            let r = String::new();
            proof {
                assert(r@ =~= Seq::<char>::empty());
            }
            r
        },
    }
}

impl AppState {
    /// The state at boot, from what the storage holds.
    pub fn load(d: Stored) -> (r: AppState)
        ensures
            r@ == booted(d),
    {
        let ui_json = or_empty(d.ui_json);
        let none = crate::text::same_str(ui_json.as_str(), "");
        proof {
            reveal_strlit("");
            assert(ui_json@.len() == 0 ==> ui_json@ =~= ""@);
        }
        let r = AppState {
            pins: match d.pins {
                Some(p) => p,
                None => DevicePins::default(),
            },
            race_json: or_empty(d.race_json),
            has_ui: !none && d.ui_readable,
            ui_json,
            ui_ver: 0,
            buttons_json: or_empty(d.buttons_json),
            profile_json: or_empty(d.profile_json),
            car_json: or_empty(d.car_json),
            button_pages: match d.btnpages {
                Some(n) => n,
                None => 0,
            },
            brightness: match d.bright {
                Some(b) => if b > 100 {
                    100
                } else {
                    b
                },
                None => 43,
            },
            car_model: or_empty(None),
            frames_ok: 0,
            frames_bad: 0,
            sim_on: false,
            cfg_reboot: false,
            writes: Vec::new(),
        };
        proof {
            assert(r@.writes =~= Seq::<PutView>::empty());
        }
        r
    }

    /// Notes a value to be stored.
    fn put(&mut self, p: Put)
        ensures
            final(self)@ == (StateView { writes: old(self)@.writes.push(p@), ..old(self)@ }),
    {
        let ghost before = self@;
        self.writes.push(p);
        proof {
            assert(self@.writes =~= before.writes.push(p@));
        }
    }

    /// Hands out what waits to be stored.
    pub fn take_writes(&mut self) -> (r: Vec<Put>)
        ensures
            put_views(r@) == old(self)@.writes,
            final(self)@ == (StateView { writes: Seq::empty(), ..old(self)@ }),
    {
        let mut out: Vec<Put> = Vec::new();
        std::mem::swap(&mut out, &mut self.writes);
        proof {
            assert(self@.writes =~= Seq::<PutView>::empty());
        }
        out
    }


    /// Takes a race layout; refused where it is no JSON.
    pub fn apply_race(&mut self, json: &str) -> (r: bool)
        ensures
            (final(self)@, r) == raced(old(self)@, json@),
    {
        if json::parse(json).is_none() {
            return false;
        }
        self.race_json = String::from_str(json);
        self.put(Put::Text("racejson", String::from_str(json)));
        true
    }

    /// Takes a profile; refused where it is no JSON.
    pub fn apply_profile(&mut self, json: &str) -> (r: bool)
        ensures
            (final(self)@, r) == profiled(old(self)@, json@),
    {
        if json::parse(json).is_none() {
            return false;
        }
        self.profile_json = String::from_str(json);
        self.put(Put::Text("profjson", String::from_str(json)));
        true
    }

    /// Takes the data of a car; refused where it is no JSON.
    pub fn apply_car(&mut self, json: &str) -> (r: bool)
        ensures
            (final(self)@, r) == carred(old(self)@, json@),
    {
        if json::parse(json).is_none() {
            return false;
        }
        self.car_json = String::from_str(json);
        self.put(Put::Text("carjson", String::from_str(json)));
        true
    }

    /// Takes a screen layout that could be read, or refuses one that could not.
    pub fn apply_ui(&mut self, json: &str, parsed: bool) -> (r: bool)
        ensures
            r == parsed,
            final(self)@ == shown(old(self)@, json@, parsed),
    {
        if parsed {
            self.has_ui = true;
            self.ui_json = String::from_str(json);
            self.ui_ver = if self.ui_ver == u32::MAX {
                0
            } else {
                self.ui_ver + 1
            };
            self.put(Put::Text("uijson", String::from_str(json)));
        }
        parsed
    }

    /// Takes the button pages; refused where they are no JSON.
    pub fn apply_buttons(&mut self, json: &str) -> (r: bool)
        ensures
            (final(self)@, r) == buttoned(old(self)@, json@),
    {
        let v = match json::parse(json) {
            Some(v) => v,
            None => return false,
        };
        self.button_pages = page_count(json::list_len(&v, "/pages"));
        self.buttons_json = String::from_str(json);
        let n: u8 = self.button_pages;
        self.put(Put::Text("btnsjson", String::from_str(json)));
        self.put(Put::U8("btnpages", n));
        true
    }

    /// Sets the brightness, at most 100 percent.
    pub fn set_brightness(&mut self, pct: i32)
        ensures
            final(self)@ == lit(old(self)@, pct as int),
    {
        let b: u8 = if pct < 0 {
            0
        } else if pct > 100 {
            100
        } else {
            pct as u8
        };
        self.brightness = b;
        self.put(Put::U8("bright", b));
    }

    pub fn set_car_model(&mut self, model: &str)
        ensures
            final(self)@ == (StateView { car_model: model@, ..old(self)@ }),
    {
        self.car_model = String::from_str(model);
    }

    /// Changes the pins; refused where the push is no JSON. The unit reboots to
    /// apply them.
    pub fn apply_pins(&mut self, json: &str) -> (r: bool)
        ensures
            (final(self)@, r) == pinned(old(self)@, json@),
    {
        let v = match json::parse(json) {
            Some(v) => v,
            None => return false,
        };
        let push = read_push(&v);
        self.pins = self.pins.with_push(&push);
        let p = self.pins;
        self.put(Put::BoardPins(p));
        self.cfg_reboot = true;
        true
    }

    /// The capability reply.
    pub fn cap_json(&self, board: &str, serial: &str) -> (s: String)
        ensures
            s@ == cap_text(self@, board@, serial@),
    {
        let mut kv: Vec<(&str, String)> = Vec::new();
        kv.push(("name", quoted("Pith DDU")));
        kv.push(("fw", quoted(FW)));
        kv.push(("board", quoted(board)));
        kv.push(("serial", quoted(serial)));
        kv.push(("buttonPages", dec_string(self.button_pages as u64)));
        kv.push(("screens", String::from_str(SCREENS)));
        kv.push(("leds", leds_json(&self.pins)));
        kv.push(("pins", pins_json(&self.pins)));
        proof {
            assert(owned_pairs(kv@) =~= cap_pairs(self@, board@, serial@));
        }
        let mut s = object(&kv);
        s.append("\n");
        s
    }
}

/// The LEDs of the capability reply.
fn leds_json(p: &DevicePins) -> (s: String)
    ensures
        s@ == object_text(led_pairs(*p)),
{
    let mut kv: Vec<(&str, String)> = Vec::new();
    kv.push(("rev", int_string(p.led_rev as i64)));
    kv.push(("tc", int_string(p.led_tc as i64)));
    kv.push(("abs", int_string(p.led_abs as i64)));
    kv.push(("separate", String::from_str("true")));
    proof {
        assert(owned_pairs(kv@) =~= led_pairs(*p));
    }
    object(&kv)
}

/// The pins of the capability reply.
fn pins_json(p: &DevicePins) -> (s: String)
    ensures
        s@ == object_text(pin_pairs(*p)),
{
    let mut kv: Vec<(&str, String)> = Vec::new();
    kv.push(("sclk", int_string(p.sclk as i64)));
    kv.push(("mosi", int_string(p.mosi as i64)));
    kv.push(("miso", int_string(p.miso as i64)));
    kv.push(("dc", int_string(p.dc as i64)));
    kv.push(("disp1_cs", int_string(p.disp1_cs as i64)));
    kv.push(("disp2_cs", int_string(p.disp2_cs as i64)));
    kv.push(("touch1_cs", int_string(p.touch1_cs as i64)));
    kv.push(("touch2_cs", int_string(p.touch2_cs as i64)));
    kv.push(("led_din", int_string(p.led_din as i64)));
    kv.push(("race_screen", int_string(p.race_screen as i64)));
    kv.push(("led_rev", int_string(p.led_rev as i64)));
    kv.push(("led_tc", int_string(p.led_tc as i64)));
    kv.push(("led_abs", int_string(p.led_abs as i64)));
    kv.push(("led_rgbw", int_string(p.led_rgbw as i64)));
    proof {
        assert(owned_pairs(kv@) =~= pin_pairs(*p));
    }
    object(&kv)
}

// -------------------------------------------------------------------- laws

/// Each key of a push sets the pin of its own name, where the number is that of a
/// GPIO, at most 48; the strip has at most 64 rev lights and 16 of each other kind;
/// a number out of range and a missing key leave the pin as it was.
pub proof fn keys_set_their_own_pins(pins: DevicePins, d: Doc)
    ensures
        ({
            let r = pins.pushed(push_of(d));
            &&& int_at(d, "/sclk"@) is None ==> r.sclk == pins.sclk
            &&& int_at(d, "/sclk"@) matches Some(v) ==> r.sclk == (if 0 <= v <= 48 {
                v as i32
            } else {
                pins.sclk
            })
            &&& int_at(d, "/mosi"@) is None ==> r.mosi == pins.mosi
            &&& int_at(d, "/mosi"@) matches Some(v) ==> r.mosi == (if 0 <= v <= 48 {
                v as i32
            } else {
                pins.mosi
            })
            &&& int_at(d, "/miso"@) is None ==> r.miso == pins.miso
            &&& int_at(d, "/miso"@) matches Some(v) ==> r.miso == (if 0 <= v <= 48 {
                v as i32
            } else {
                pins.miso
            })
            &&& int_at(d, "/dc"@) is None ==> r.dc == pins.dc
            &&& int_at(d, "/dc"@) matches Some(v) ==> r.dc == (if 0 <= v <= 48 {
                v as i32
            } else {
                pins.dc
            })
            &&& int_at(d, "/disp1_cs"@) is None ==> r.disp1_cs == pins.disp1_cs
            &&& int_at(d, "/disp1_cs"@) matches Some(v) ==> r.disp1_cs == (if 0 <= v <= 48 {
                v as i32
            } else {
                pins.disp1_cs
            })
            &&& int_at(d, "/disp2_cs"@) is None ==> r.disp2_cs == pins.disp2_cs
            &&& int_at(d, "/disp2_cs"@) matches Some(v) ==> r.disp2_cs == (if 0 <= v <= 48 {
                v as i32
            } else {
                pins.disp2_cs
            })
            &&& int_at(d, "/touch1_cs"@) is None ==> r.touch1_cs == pins.touch1_cs
            &&& int_at(d, "/touch1_cs"@) matches Some(v) ==> r.touch1_cs == (if 0 <= v <= 48 {
                v as i32
            } else {
                pins.touch1_cs
            })
            &&& int_at(d, "/touch2_cs"@) is None ==> r.touch2_cs == pins.touch2_cs
            &&& int_at(d, "/touch2_cs"@) matches Some(v) ==> r.touch2_cs == (if 0 <= v <= 48 {
                v as i32
            } else {
                pins.touch2_cs
            })
            &&& int_at(d, "/led_din"@) is None ==> r.led_din == pins.led_din
            &&& int_at(d, "/led_din"@) matches Some(v) ==> r.led_din == (if 0 <= v <= 48 {
                v as i32
            } else {
                pins.led_din
            })
            &&& int_at(d, "/race_screen"@) is None ==> r.race_screen == pins.race_screen
            &&& int_at(d, "/race_screen"@) == Some(1i64) ==> r.race_screen == 1
            &&& int_at(d, "/race_screen"@) matches Some(v) ==> (v != 1 ==> r.race_screen == 0)
            &&& int_at(d, "/led_rev"@) is None ==> r.led_rev == pins.led_rev
            &&& int_at(d, "/led_rev"@) matches Some(v) ==> r.led_rev == (if 0 <= v <= 64 {
                v as i32
            } else {
                pins.led_rev
            })
            &&& int_at(d, "/led_tc"@) is None ==> r.led_tc == pins.led_tc
            &&& int_at(d, "/led_tc"@) matches Some(v) ==> r.led_tc == (if 0 <= v <= 16 {
                v as i32
            } else {
                pins.led_tc
            })
            &&& int_at(d, "/led_abs"@) is None ==> r.led_abs == pins.led_abs
            &&& int_at(d, "/led_abs"@) matches Some(v) ==> r.led_abs == (if 0 <= v <= 16 {
                v as i32
            } else {
                pins.led_abs
            })
            &&& int_at(d, "/led_rgbw"@) is None ==> r.led_rgbw == pins.led_rgbw
            &&& int_at(d, "/led_rgbw"@) == Some(0i64) ==> r.led_rgbw == 0
            &&& int_at(d, "/led_rgbw"@) matches Some(v) ==> (v != 0 ==> r.led_rgbw == 1)
        }),
{
}

/// The reply names each pin and each light by its own key, and tells the unit, its
/// board and serial number and its button pages.
pub proof fn replies_name_each_pin(
    p: DevicePins,
    s: StateView,
    board: Seq<char>,
    serial: Seq<char>,
)
    ensures
        pin_pairs(p).len() == 14,
        pin_pairs(p)[0] == ("sclk"@, int_text(p.sclk as int)),
        pin_pairs(p)[1] == ("mosi"@, int_text(p.mosi as int)),
        pin_pairs(p)[2] == ("miso"@, int_text(p.miso as int)),
        pin_pairs(p)[3] == ("dc"@, int_text(p.dc as int)),
        pin_pairs(p)[4] == ("disp1_cs"@, int_text(p.disp1_cs as int)),
        pin_pairs(p)[5] == ("disp2_cs"@, int_text(p.disp2_cs as int)),
        pin_pairs(p)[6] == ("touch1_cs"@, int_text(p.touch1_cs as int)),
        pin_pairs(p)[7] == ("touch2_cs"@, int_text(p.touch2_cs as int)),
        pin_pairs(p)[8] == ("led_din"@, int_text(p.led_din as int)),
        pin_pairs(p)[9] == ("race_screen"@, int_text(p.race_screen as int)),
        pin_pairs(p)[10] == ("led_rev"@, int_text(p.led_rev as int)),
        pin_pairs(p)[11] == ("led_tc"@, int_text(p.led_tc as int)),
        pin_pairs(p)[12] == ("led_abs"@, int_text(p.led_abs as int)),
        pin_pairs(p)[13] == ("led_rgbw"@, int_text(p.led_rgbw as int)),
        led_pairs(p)[0] == ("rev"@, int_text(p.led_rev as int)),
        led_pairs(p)[1] == ("tc"@, int_text(p.led_tc as int)),
        led_pairs(p)[2] == ("abs"@, int_text(p.led_abs as int)),
        cap_pairs(s, board, serial)[2] == ("board"@, seq!['"'] + board + seq!['"']),
        cap_pairs(s, board, serial)[3] == ("serial"@, seq!['"'] + serial + seq!['"']),
        cap_pairs(s, board, serial)[4] == ("buttonPages"@, dec_text(s.button_pages as nat)),
        cap_pairs(s, board, serial)[6] == ("leds"@, object_text(led_pairs(s.pins))),
        cap_pairs(s, board, serial)[7] == ("pins"@, object_text(pin_pairs(s.pins))),
        cap_text(s, board, serial) == object_text(cap_pairs(s, board, serial)) + "\n"@,
{
}

/// A push that is JSON is taken into its own place and stored under its own name,
/// behind what waited to be stored before; nothing else changes. Any other push is
/// refused and changes nothing.
pub proof fn pushes_keep_to_their_own(s: StateView, json: Seq<char>)
    ensures
        json_read(json) is None ==> raced(s, json) == (s, false) && profiled(s, json) == (s, false)
            && carred(s, json) == (s, false) && buttoned(s, json) == (s, false) && pinned(s, json)
            == (s, false),
        json_read(json) is Some ==> {
            let (r, p, c) = (raced(s, json).0, profiled(s, json).0, carred(s, json).0);
            &&& raced(s, json).1 && profiled(s, json).1 && carred(s, json).1 && buttoned(s, json).1
                && pinned(s, json).1
            &&& r.race_json == json && p.profile_json == json && c.car_json == json
            &&& r.writes == s.writes.push(PutView::Text("racejson"@, json))
            &&& p.writes == s.writes.push(PutView::Text("profjson"@, json))
            &&& c.writes == s.writes.push(PutView::Text("carjson"@, json))
            &&& r.profile_json == s.profile_json && r.car_json == s.car_json && r.buttons_json
                == s.buttons_json && r.pins == s.pins && r.ui_json == s.ui_json
            &&& p.race_json == s.race_json && p.car_json == s.car_json && p.buttons_json
                == s.buttons_json && p.pins == s.pins && p.ui_json == s.ui_json
            &&& c.race_json == s.race_json && c.profile_json == s.profile_json && c.buttons_json
                == s.buttons_json && c.pins == s.pins && c.ui_json == s.ui_json
            &&& r.brightness == s.brightness && p.brightness == s.brightness && c.brightness
                == s.brightness
        },
{
}

/// Button pages are kept with their number, new pins wait for a reboot.
pub proof fn buttons_and_pins_are_kept(s: StateView, json: Seq<char>, d: Doc, n: nat)
    requires
        json_read(json) == Some(d),
        len_at(d, "/pages"@) == Some(n),
        n < 256,
    ensures
        buttoned(s, json).0.buttons_json == json,
        buttoned(s, json).0.button_pages == n,
        buttoned(s, json).0.pins == s.pins,
        buttoned(s, json).0.race_json == s.race_json,
        buttoned(s, json).0.writes == s.writes.push(PutView::Text("btnsjson"@, json)).push(
            PutView::U8("btnpages"@, n as u8),
        ),
        pinned(s, json).0.pins == s.pins.pushed(push_of(d)),
        pinned(s, json).0.cfg_reboot,
        pinned(s, json).0.race_json == s.race_json,
        pinned(s, json).0.buttons_json == s.buttons_json,
        pinned(s, json).0.writes == s.writes.push(PutView::BoardPins(s.pins.pushed(push_of(d)))),
{
}

/// The brightness that is set is the one that is kept and stored, within 0 to 100
/// percent; a screen layout is kept only where it could be read, and counts as a new
/// one.
pub proof fn brightness_and_screens_are_kept(s: StateView, pct: int, json: Seq<char>)
    ensures
        0 <= pct <= 100 ==> lit(s, pct).brightness == pct,
        pct < 0 ==> lit(s, pct).brightness == 0,
        pct > 100 ==> lit(s, pct).brightness == 100,
        lit(s, pct).writes == s.writes.push(PutView::U8("bright"@, lit(s, pct).brightness)),
        lit(s, pct).pins == s.pins,
        shown(s, json, false) == s,
        shown(s, json, true).ui_json == json,
        shown(s, json, true).has_ui,
        shown(s, json, true).ui_ver != s.ui_ver,
        shown(s, json, true).writes == s.writes.push(PutView::Text("uijson"@, json)),
{
}

/// At boot every setting is what was stored under its own name; what was never
/// stored has its default.
pub proof fn boot_restores_each_setting(d: Stored)
    ensures
        ({
            let s = booted(d);
            &&& d.pins matches Some(p) ==> s.pins == p
            &&& d.pins is None ==> s.pins == stock_pins()
            &&& d.race_json matches Some(t) ==> s.race_json == t@
            &&& d.ui_json matches Some(t) ==> s.ui_json == t@ && (t@.len() > 0 ==> s.has_ui
                == d.ui_readable)
            &&& d.ui_json is None ==> !s.has_ui
            &&& d.buttons_json matches Some(t) ==> s.buttons_json == t@
            &&& d.profile_json matches Some(t) ==> s.profile_json == t@
            &&& d.car_json matches Some(t) ==> s.car_json == t@
            &&& d.btnpages matches Some(n) ==> s.button_pages == n
            &&& d.bright matches Some(b) ==> (b <= 100 ==> s.brightness == b) && (b > 100
                ==> s.brightness == 100)
            &&& d.bright is None ==> s.brightness == 43
            &&& !s.sim_on && !s.cfg_reboot
        }),
{
}

/// The pins of a board as it comes, and the LEDs that it has: twelve for the revs and two
/// for each assist, with a white channel.
pub proof fn boards_come_with_their_pins()
    ensures
        ({
            let p = stock_pins();
            &&& p.sclk == 7 && p.mosi == 9 && p.miso == 8 && p.dc == 2
            &&& p.disp1_cs == 1 && p.disp2_cs == 3
            &&& p.touch1_cs == 5 && p.touch2_cs == 6
            &&& p.led_din == 43
            &&& p.race_screen == 0
            &&& p.led_rev == 12 && p.led_tc == 2 && p.led_abs == 2
            &&& p.led_rgbw == 1
        }),
{
}

/// The reply tells of the screens and of the LEDs too, in this many members; the LEDs
/// always stand apart from the screens.
pub proof fn replies_tell_of_screens_and_leds(s: StateView, board: Seq<char>, serial: Seq<char>)
    ensures
        cap_pairs(s, board, serial).len() == 8,
        cap_pairs(s, board, serial)[5] == ("screens"@, SCREENS@),
        led_pairs(s.pins).len() == 4,
        led_pairs(s.pins)[3] == ("separate"@, "true"@),
{
}

} // verus!
