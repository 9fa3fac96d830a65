//! What the dashboard has pushed to the display unit, and its settings.

use vstd::prelude::*;
use vstd::string::StringExecFns;
use crate::ddu::pins::{push_of, read_push, stock_pins, DevicePins};
use crate::format::clamped;
use crate::json;
use crate::json::{
    bool_text, boolean, json_read, len_at, object, object_text, quoted, quoted_text, Doc,
};
use crate::relatives::{wire_of, CarView, Relatives};
use crate::store::{put_views, Put, PutView};
use crate::text::{dec_string, dec_text, int_string, int_text, owned_pairs, same_str};

verus! {

/// The state of the display unit.
#[derive(Debug)]
pub struct AppState {
    pub pins: DevicePins,
    /// The race layout that was pushed last.
    pub race_json: String,
    /// A screen layout has been read.
    pub has_ui: bool,
    /// The screen layout that was pushed last.
    pub ui_json: String,
    /// Counts the screen layouts that were read.
    pub ui_ver: u32,
    /// A screen layout that waits to be read.
    pub pending_ui: Option<String>,
    /// The editor's own layout, kept for it as it is.
    pub editor_json: String,
    pub buttons_json: String,
    pub profile_json: String,
    pub car_json: String,
    /// How many pages the buttons have.
    pub button_pages: u8,
    /// The brightness of the rev lights in percent.
    pub brightness: u8,
    /// The seconds without telemetry and touch after which the unit sleeps; 0 is never.
    pub sleep_timeout_s: u16,
    pub car_model: String,
    /// The cars around the player.
    pub relatives: Relatives,
    /// The telemetry frames since the last count that could be read.
    pub frames_ok: u32,
    /// Those that could not.
    pub frames_bad: u32,
    /// The bench simulation runs in place of telemetry.
    pub sim_on: bool,
    /// A change waits for a reboot.
    pub cfg_reboot: bool,
    /// The rotation of the panels in quarter turns.
    pub disp_rot: u8,
    pub disp_flip_h: bool,
    pub disp_flip_v: bool,
    /// The panels take blue first.
    pub disp_bgr: bool,
    /// The panels show the negative.
    pub disp_inv: bool,
    /// Counts the changes of the panels' settings.
    pub disp_ver: u32,
    /// What waits to be stored.
    pub writes: Vec<Put>,
}

/// The state as plain values.
pub struct StateView {
    pub pins: DevicePins,
    pub race_json: Seq<char>,
    pub has_ui: bool,
    pub ui_json: Seq<char>,
    pub ui_ver: u32,
    pub pending_ui: Option<Seq<char>>,
    pub editor_json: Seq<char>,
    pub buttons_json: Seq<char>,
    pub profile_json: Seq<char>,
    pub car_json: Seq<char>,
    pub button_pages: u8,
    pub brightness: u8,
    pub sleep_timeout_s: u16,
    pub car_model: Seq<char>,
    pub relatives: (u8, Seq<CarView>),
    pub frames_ok: u32,
    pub frames_bad: u32,
    pub sim_on: bool,
    pub cfg_reboot: bool,
    pub disp_rot: u8,
    pub disp_flip_h: bool,
    pub disp_flip_v: bool,
    pub disp_bgr: bool,
    pub disp_inv: bool,
    pub disp_ver: u32,
    pub writes: Seq<PutView>,
}

impl View for AppState {
    type V = StateView;

    open spec fn view(&self) -> StateView {
        StateView {
            pins: self.pins,
            race_json: self.race_json@,
            has_ui: self.has_ui,
            ui_json: self.ui_json@,
            ui_ver: self.ui_ver,
            pending_ui: match self.pending_ui {
                Some(s) => Some(s@),
                None => None,
            },
            editor_json: self.editor_json@,
            buttons_json: self.buttons_json@,
            profile_json: self.profile_json@,
            car_json: self.car_json@,
            button_pages: self.button_pages,
            brightness: self.brightness,
            sleep_timeout_s: self.sleep_timeout_s,
            car_model: self.car_model@,
            relatives: (self.relatives.player, self.relatives.list()),
            frames_ok: self.frames_ok,
            frames_bad: self.frames_bad,
            sim_on: self.sim_on,
            cfg_reboot: self.cfg_reboot,
            disp_rot: self.disp_rot,
            disp_flip_h: self.disp_flip_h,
            disp_flip_v: self.disp_flip_v,
            disp_bgr: self.disp_bgr,
            disp_inv: self.disp_inv,
            disp_ver: self.disp_ver,
            writes: put_views(self.writes@),
        }
    }
}

/// What the storage holds.
#[derive(Debug)]
pub struct Stored {
    pub pins: Option<DevicePins>,
    pub race_json: Option<String>,
    pub editor_json: Option<String>,
    pub ui_json: Option<String>,
    pub buttons_json: Option<String>,
    pub profile_json: Option<String>,
    pub car_json: Option<String>,
    pub bright: Option<u8>,
    pub btnpages: Option<u8>,
    pub sleepto: Option<u16>,
    pub disprot: Option<u8>,
    pub dispflip: Option<u8>,
    pub dispcol: Option<u8>,
}

/// The text of an optional string; empty where there is none.
pub open spec fn text_or_empty(s: Option<String>) -> Seq<char> {
    match s {
        Some(t) => t@,
        None => Seq::empty(),
    }
}

/// Bit 0 of a setting, the default where there is none.
pub open spec fn bit0_or(v: Option<u8>, default: bool) -> bool {
    match v {
        Some(b) => b % 2 == 1,
        None => default,
    }
}

/// Bit 1 of a setting, the default where there is none.
pub open spec fn bit1_or(v: Option<u8>, default: bool) -> bool {
    match v {
        Some(b) => b / 2 % 2 == 1,
        None => default,
    }
}

/// The state at boot, from what the storage holds.
pub open spec fn booted(d: Stored) -> StateView {
    StateView {
        pins: match d.pins {
            Some(p) => p,
            None => stock_pins(),
        },
        race_json: text_or_empty(d.race_json),
        has_ui: false,
        ui_json: text_or_empty(d.ui_json),
        ui_ver: 0,
        pending_ui: if text_or_empty(d.ui_json).len() == 0 {
            None
        } else {
            Some(text_or_empty(d.ui_json))
        },
        editor_json: text_or_empty(d.editor_json),
        buttons_json: text_or_empty(d.buttons_json),
        profile_json: text_or_empty(d.profile_json),
        car_json: text_or_empty(d.car_json),
        button_pages: match d.btnpages {
            Some(n) => n,
            None => 0,
        },
        brightness: match d.bright {
            Some(b) => clamped(b as int, 5, 100) as u8,
            None => 43,
        },
        sleep_timeout_s: match d.sleepto {
            Some(t) => t,
            None => 30,
        },
        car_model: Seq::empty(),
        relatives: (0, Seq::empty()),
        frames_ok: 0,
        frames_bad: 0,
        sim_on: false,
        cfg_reboot: false,
        disp_rot: match d.disprot {
            Some(r) => (r % 4) as u8,
            None => 3,
        },
        disp_flip_h: bit0_or(d.dispflip, true),
        disp_flip_v: bit1_or(d.dispflip, false),
        disp_bgr: bit0_or(d.dispcol, true),
        disp_inv: bit1_or(d.dispcol, false),
        disp_ver: 0,
        writes: Seq::empty(),
    }
}

/// A counter that starts over after its highest value.
pub open spec fn next_ver(v: u32) -> u32 {
    if v == u32::MAX {
        0
    } else {
        (v + 1) as u32
    }
}

/// The number of button pages that a push holds, as far as it fits a byte.
pub open spec fn pages_of(d: Doc) -> u8 {
    match len_at(d, "/pages"@) {
        Some(n) => (n % 256) as u8,
        None => 0,
    }
}

/// Two bits in one number.
pub open spec fn two_bits(b0: bool, b1: bool) -> u8 {
    ((if b0 {
        1int
    } else {
        0int
    }) + (if b1 {
        2int
    } else {
        0int
    })) as u8
}

fn two_bits_of(b0: bool, b1: bool) -> (r: u8)
    ensures
        r == two_bits(b0, b1),
{
    (if b0 {
        1u8
    } else {
        0u8
    }) + (if b1 {
        2u8
    } else {
        0u8
    })
}

fn next_ver_of(v: u32) -> (r: u32)
    ensures
        r == next_ver(v),
{
    if v == u32::MAX {
        0
    } else {
        v + 1
    }
}

fn bit0(v: Option<u8>, default: bool) -> (r: bool)
    ensures
        r == bit0_or(v, default),
{
    match v {
        Some(b) => b % 2 == 1,
        None => default,
    }
}

fn bit1(v: Option<u8>, default: bool) -> (r: bool)
    ensures
        r == bit1_or(v, default),
{
    match v {
        Some(b) => b / 2 % 2 == 1,
        None => default,
    }
}

fn or_empty(s: Option<String>) -> (r: String)
    ensures
        r@ == text_or_empty(s),
{
    match s {
        Some(t) => t,
        None => String::new(),
    }
}

/// The pairs of the capability reply.
pub open spec fn cap_pairs(s: StateView, fw: Seq<char>, board: Seq<char>, serial: Seq<char>) -> Seq<
    (Seq<char>, Seq<char>),
> {
    seq![
        ("name"@, quoted_text("Pith DDU"@)),
        ("fw"@, quoted_text(fw)),
        ("board"@, quoted_text(board)),
        ("serial"@, quoted_text(serial)),
        ("buttonPages"@, dec_text(s.button_pages as nat)),
        ("screens"@, SCREENS@),
        ("leds"@, object_text(led_pairs(s.pins))),
        ("pins"@, object_text(pin_pairs(s.pins))),
        ("disp"@, object_text(disp_pairs(s))),
    ]
}

/// The two screens of the unit.
pub const SCREENS: &'static str =
    "[{\"role\":\"main\",\"w\":480,\"h\":320,\"touch\":true},{\"role\":\"side\",\"w\":480,\"h\":320,\"touch\":true}]";

/// The LEDs of the capability reply.
pub open spec fn led_pairs(p: DevicePins) -> Seq<(Seq<char>, Seq<char>)> {
    seq![
        ("rev"@, int_text(p.led_rev as int)),
        ("tc"@, int_text(p.led_tc as int)),
        ("abs"@, int_text(p.led_abs as int)),
        ("separate"@, "true"@),
    ]
}

/// The pins of the capability reply.
pub open spec fn pin_pairs(p: DevicePins) -> Seq<(Seq<char>, Seq<char>)> {
    seq![
        ("sclk"@, int_text(p.sclk as int)),
        ("mosi"@, int_text(p.mosi as int)),
        ("miso"@, int_text(p.miso as int)),
        ("dc"@, int_text(p.dc as int)),
        ("disp1_cs"@, int_text(p.disp1_cs as int)),
        ("disp2_cs"@, int_text(p.disp2_cs as int)),
        ("touch1_cs"@, int_text(p.touch1_cs as int)),
        ("touch2_cs"@, int_text(p.touch2_cs as int)),
        ("backlight"@, int_text(p.backlight as int)),
        ("led_din"@, int_text(p.led_din as int)),
        ("race_screen"@, int_text(p.race_screen as int)),
        ("led_rev"@, int_text(p.led_rev as int)),
        ("led_tc"@, int_text(p.led_tc as int)),
        ("led_abs"@, int_text(p.led_abs as int)),
        ("led_rgbw"@, int_text(p.led_rgbw as int)),
    ]
}

/// The panel settings of the capability reply.
pub open spec fn disp_pairs(s: StateView) -> Seq<(Seq<char>, Seq<char>)> {
    seq![
        ("rot"@, dec_text(s.disp_rot as nat)),
        ("fh"@, bool_text(s.disp_flip_h)),
        ("fv"@, bool_text(s.disp_flip_v)),
        ("bgr"@, bool_text(s.disp_bgr)),
        ("inv"@, bool_text(s.disp_inv)),
    ]
}

impl AppState {
    /// The list of cars is within its bounds.
    pub open spec fn wf(self) -> bool {
        self.relatives.wf()
    }

    /// The state at boot, from what the storage holds.
    pub fn load(d: Stored) -> (r: AppState)
        ensures
            r.wf(),
            r@ == booted(d),
    {
        let ui_json = or_empty(d.ui_json);
        let pending_ui = if is_empty(ui_json.as_str()) {
            None
        } else {
            Some(String::from_str(ui_json.as_str()))
        };
        let r = AppState {
            pins: match d.pins {
                Some(p) => p,
                None => DevicePins::default(),
            },
            race_json: or_empty(d.race_json),
            has_ui: false,
            ui_json,
            ui_ver: 0,
            pending_ui,
            editor_json: or_empty(d.editor_json),
            buttons_json: or_empty(d.buttons_json),
            profile_json: or_empty(d.profile_json),
            car_json: or_empty(d.car_json),
            button_pages: match d.btnpages {
                Some(n) => n,
                None => 0,
            },
            brightness: match d.bright {
                Some(b) => if b < 5 {
                    5
                } else if b > 100 {
                    100
                } else {
                    b
                },
                None => 43,
            },
            sleep_timeout_s: match d.sleepto {
                Some(t) => t,
                None => 30,
            },
            car_model: String::new(),
            relatives: Relatives::default(),
            frames_ok: 0,
            frames_bad: 0,
            sim_on: false,
            cfg_reboot: false,
            disp_rot: match d.disprot {
                Some(r) => r % 4,
                None => 3,
            },
            disp_flip_h: bit0(d.dispflip, true),
            disp_flip_v: bit1(d.dispflip, false),
            disp_bgr: bit0(d.dispcol, true),
            disp_inv: bit1(d.dispcol, false),
            disp_ver: 0,
            writes: Vec::new(),
        };
        proof {
            assert(r@.writes =~= Seq::<PutView>::empty());
            assert(r@.relatives.1 =~= Seq::<CarView>::empty());
            assert(r@.car_model =~= Seq::<char>::empty());
        }
        r
    }

    /// Notes a value to be stored.
    fn put(&mut self, p: Put)
        ensures
            final(self)@ == (StateView { writes: old(self)@.writes.push(p@), ..old(self)@ }),
            final(self).wf() == old(self).wf(),
    {
        let ghost before = self@;
        self.writes.push(p);
        proof {
            assert(self@.writes =~= before.writes.push(p@));
        }
    }

    /// Hands out what waits to be stored.
    pub fn take_writes(&mut self) -> (r: Vec<Put>)
        ensures
            put_views(r@) == old(self)@.writes,
            final(self)@ == (StateView { writes: Seq::empty(), ..old(self)@ }),
            final(self).wf() == old(self).wf(),
    {
        let mut out: Vec<Put> = Vec::new();
        std::mem::swap(&mut out, &mut self.writes);
        proof {
            assert(self@.writes =~= Seq::<PutView>::empty());
        }
        out
    }

    /// Changes the settings of the panels. Rotation and flips take effect at once;
    /// a change of the colours needs a reboot.
    pub fn apply_disp(&mut self, rot: u8, flip_h: bool, flip_v: bool, bgr: bool, inv: bool)
        ensures
            final(self)@ == (StateView {
                disp_rot: (rot % 4) as u8,
                disp_flip_h: flip_h,
                disp_flip_v: flip_v,
                disp_bgr: bgr,
                disp_inv: inv,
                disp_ver: next_ver(old(self)@.disp_ver),
                cfg_reboot: old(self)@.cfg_reboot || bgr != old(self)@.disp_bgr || inv != old(
                    self,
                )@.disp_inv,
                writes: old(self)@.writes.push(PutView::U8("disprot"@, (rot % 4) as u8)).push(
                    PutView::U8("dispflip"@, two_bits(flip_h, flip_v)),
                ).push(PutView::U8("dispcol"@, two_bits(bgr, inv))),
                ..old(self)@
            }),
            final(self).wf() == old(self).wf(),
    {
        let colour_changed = bgr != self.disp_bgr || inv != self.disp_inv;
        self.disp_rot = rot % 4;
        self.disp_flip_h = flip_h;
        self.disp_flip_v = flip_v;
        self.disp_bgr = bgr;
        self.disp_inv = inv;
        self.disp_ver = next_ver_of(self.disp_ver);
        self.put(Put::U8("disprot", rot % 4));
        self.put(Put::U8("dispflip", two_bits_of(flip_h, flip_v)));
        self.put(Put::U8("dispcol", two_bits_of(bgr, inv)));
        if colour_changed {
            self.cfg_reboot = true;
        }
    }


    /// Takes a race layout; refused where it is no JSON.
    pub fn apply_race(&mut self, json: &str) -> (r: bool)
        ensures
            r == (json_read(json@) is Some),
            final(self)@ == (if r {
                StateView {
                    race_json: json@,
                    writes: old(self)@.writes.push(PutView::Text("racejson"@, json@)),
                    ..old(self)@
                }
            } else {
                old(self)@
            }),
            final(self).wf() == old(self).wf(),
    {
        if json::parse(json).is_none() {
            return false;
        }
        self.race_json = String::from_str(json);
        self.put(Put::Text("racejson", String::from_str(json)));
        true
    }

    /// Takes a profile; refused where it is no JSON.
    pub fn apply_profile(&mut self, json: &str) -> (r: bool)
        ensures
            r == (json_read(json@) is Some),
            final(self)@ == (if r {
                StateView {
                    profile_json: json@,
                    writes: old(self)@.writes.push(PutView::Text("profjson"@, json@)),
                    ..old(self)@
                }
            } else {
                old(self)@
            }),
            final(self).wf() == old(self).wf(),
    {
        if json::parse(json).is_none() {
            return false;
        }
        self.profile_json = String::from_str(json);
        self.put(Put::Text("profjson", String::from_str(json)));
        true
    }

    /// Takes a screen layout. It is stored at once and read later (see
    /// [`AppState::take_pending_ui`]).
    pub fn queue_ui(&mut self, json: &str) -> (r: bool)
        ensures
            r,
            final(self)@ == (StateView {
                ui_json: json@,
                pending_ui: Some(json@),
                writes: old(self)@.writes.push(PutView::Text("uijson"@, json@)),
                ..old(self)@
            }),
            final(self).wf() == old(self).wf(),
    {
        self.ui_json = String::from_str(json);
        self.pending_ui = Some(String::from_str(json));
        self.put(Put::Text("uijson", String::from_str(json)));
        true
    }

    /// Takes the editor's layout, whatever it is.
    pub fn apply_editor(&mut self, json: &str) -> (r: bool)
        ensures
            r,
            final(self)@ == (StateView {
                editor_json: json@,
                writes: old(self)@.writes.push(PutView::Text("edjson"@, json@)),
                ..old(self)@
            }),
            final(self).wf() == old(self).wf(),
    {
        self.editor_json = String::from_str(json);
        self.put(Put::Text("edjson", String::from_str(json)));
        true
    }

    /// Hands out the screen layout that waits to be read.
    pub fn take_pending_ui(&mut self) -> (r: Option<String>)
        ensures
            match r {
                Some(s) => old(self)@.pending_ui == Some(s@),
                None => old(self)@.pending_ui is None,
            },
            final(self)@ == (StateView { pending_ui: None, ..old(self)@ }),
            final(self).wf() == old(self).wf(),
    {
        let mut out: Option<String> = None;
        std::mem::swap(&mut out, &mut self.pending_ui);
        out
    }

    /// A pending screen layout has been read, or could not be. Returns whether it
    /// is a new one to show.
    pub fn apply_pending_ui(&mut self, parsed: bool) -> (r: bool)
        ensures
            r == parsed,
            final(self)@ == (if parsed {
                StateView { has_ui: true, ui_ver: next_ver(old(self)@.ui_ver), ..old(self)@ }
            } else {
                old(self)@
            }),
            final(self).wf() == old(self).wf(),
    {
        if parsed {
            self.has_ui = true;
            self.ui_ver = next_ver_of(self.ui_ver);
        }
        parsed
    }

    /// Takes the button pages; refused where they are no JSON.
    pub fn apply_buttons(&mut self, json: &str) -> (r: bool)
        ensures
            r == (json_read(json@) is Some),
            final(self)@ == (match json_read(json@) {
                Some(d) => StateView {
                    button_pages: pages_of(d),
                    buttons_json: json@,
                    writes: old(self)@.writes.push(PutView::Text("btnsjson"@, json@)).push(
                        PutView::U8("btnpages"@, pages_of(d)),
                    ),
                    ..old(self)@
                },
                None => old(self)@,
            }),
            final(self).wf() == old(self).wf(),
    {
        let v = match json::parse(json) {
            Some(v) => v,
            None => return false,
        };
        self.button_pages = page_count(json::list_len(&v, "/pages"));
        self.buttons_json = String::from_str(json);
        let n: u8 = self.button_pages;
        self.put(Put::Text("btnsjson", String::from_str(json)));
        self.put(Put::U8("btnpages", n));
        true
    }

    /// Takes the data of a car; refused where it is no JSON. What is stored already
    /// is not written again.
    pub fn apply_car(&mut self, json: &str) -> (r: bool)
        ensures
            r == (json_read(json@) is Some),
            final(self)@ == (if r && old(self)@.car_json != json@ {
                StateView {
                    car_json: json@,
                    writes: old(self)@.writes.push(PutView::Text("carjson"@, json@)),
                    ..old(self)@
                }
            } else {
                old(self)@
            }),
            final(self).wf() == old(self).wf(),
    {
        if json::parse(json).is_none() {
            return false;
        }
        if same_str(self.car_json.as_str(), json) {
            return true;
        }
        self.car_json = String::from_str(json);
        self.put(Put::Text("carjson", String::from_str(json)));
        true
    }

    /// Sets the brightness, at least 5 and at most 100 percent. It is stored only
    /// where it changes.
    pub fn set_brightness(&mut self, pct: i32)
        ensures
            ({
                let b = clamped(pct as int, 5, 100) as u8;
                final(self)@ == (if b == old(self)@.brightness {
                    old(self)@
                } else {
                    StateView {
                        brightness: b,
                        writes: old(self)@.writes.push(PutView::U8("bright"@, b)),
                        ..old(self)@
                    }
                })
            }),
            final(self).wf() == old(self).wf(),
    {
        let b: u8 = if pct < 5 {
            5
        } else if pct > 100 {
            100
        } else {
            pct as u8
        };
        if b == self.brightness {
            return;
        }
        self.brightness = b;
        self.put(Put::U8("bright", b));
    }

    /// Sets the time to sleep. It is stored only where it changes.
    pub fn set_sleep_timeout(&mut self, secs: u16)
        ensures
            final(self)@ == (if secs == old(self)@.sleep_timeout_s {
                old(self)@
            } else {
                StateView {
                    sleep_timeout_s: secs,
                    writes: old(self)@.writes.push(PutView::U16("sleepto"@, secs)),
                    ..old(self)@
                }
            }),
            final(self).wf() == old(self).wf(),
    {
        if secs == self.sleep_timeout_s {
            return;
        }
        self.sleep_timeout_s = secs;
        self.put(Put::U16("sleepto", secs));
    }

    pub fn set_car_model(&mut self, model: &str)
        ensures
            final(self)@ == (StateView { car_model: model@, ..old(self)@ }),
            final(self).wf() == old(self).wf(),
    {
        self.car_model = String::from_str(model);
    }

    /// Takes the cars around the player; a line that cannot be read changes nothing.
    pub fn set_relatives(&mut self, line: &str)
        requires
            old(self).wf(),
        ensures
            final(self).wf(),
            final(self)@ == (match wire_of(line@) {
                Some(r) => StateView { relatives: r, ..old(self)@ },
                None => old(self)@,
            }),
    {
        match Relatives::from_wire(line) {
            Some(r) => {
                self.relatives = r;
            },
            None => {},
        }
    }

    /// Changes the pins; refused where the push is no JSON. The unit reboots to
    /// apply them.
    pub fn apply_pins(&mut self, json: &str) -> (r: bool)
        ensures
            r == (json_read(json@) is Some),
            final(self)@ == (match json_read(json@) {
                Some(d) => StateView {
                    pins: old(self)@.pins.pushed(push_of(d)),
                    cfg_reboot: true,
                    writes: old(self)@.writes.push(
                        PutView::Pins(old(self)@.pins.pushed(push_of(d))),
                    ),
                    ..old(self)@
                },
                None => old(self)@,
            }),
            final(self).wf() == old(self).wf(),
    {
        let v = match json::parse(json) {
            Some(v) => v,
            None => return false,
        };
        let push = read_push(&v);
        self.pins = self.pins.with_push(&push);
        let p = self.pins;
        self.put(Put::Pins(p));
        self.cfg_reboot = true;
        true
    }

    /// The capability reply.
    pub fn cap_json(&self, fw: &str, board: &str, serial: &str) -> (s: String)
        ensures
            s@ == object_text(cap_pairs(self@, fw@, board@, serial@)) + "\n"@,
    {
        let mut kv: Vec<(&str, String)> = Vec::new();
        kv.push(("name", quoted("Pith DDU")));
        kv.push(("fw", quoted(fw)));
        kv.push(("board", quoted(board)));
        kv.push(("serial", quoted(serial)));
        kv.push(("buttonPages", dec_string(self.button_pages as u64)));
        kv.push(("screens", String::from_str(SCREENS)));
        kv.push(("leds", leds_json(&self.pins)));
        kv.push(("pins", pins_json(&self.pins)));
        kv.push(("disp", self.disp_json()));
        proof {
            assert(owned_pairs(kv@) =~= cap_pairs(self@, fw@, board@, serial@));
        }
        let mut s = object(&kv);
        s.append("\n");
        s
    }

    /// The panel settings of the capability reply.
    fn disp_json(&self) -> (s: String)
        ensures
            s@ == object_text(disp_pairs(self@)),
    {
        let mut kv: Vec<(&str, String)> = Vec::new();
        kv.push(("rot", dec_string(self.disp_rot as u64)));
        kv.push(("fh", boolean(self.disp_flip_h)));
        kv.push(("fv", boolean(self.disp_flip_v)));
        kv.push(("bgr", boolean(self.disp_bgr)));
        kv.push(("inv", boolean(self.disp_inv)));
        proof {
            assert(owned_pairs(kv@) =~= disp_pairs(self@));
        }
        object(&kv)
    }
}

/// The number of pages, as far as it fits a byte.
pub fn page_count(len: Option<usize>) -> (r: u8)
    ensures
        r == match len {
            Some(n) => (n % 256) as u8,
            None => 0,
        },
{
    match len {
        Some(n) => (n % 256) as u8,
        None => 0,
    }
}

/// Whether a text is empty.
fn is_empty(s: &str) -> (r: bool)
    ensures
        r == (s@.len() == 0),
{
    proof {
        reveal_strlit("");
        assert(s@.len() == 0 ==> s@ =~= ""@);
    }
    same_str(s, "")
}

/// The LEDs of the capability reply.
pub fn leds_json(p: &DevicePins) -> (s: String)
    ensures
        s@ == object_text(led_pairs(*p)),
{
    let mut kv: Vec<(&str, String)> = Vec::new();
    kv.push(("rev", int_string(p.led_rev as i64)));
    kv.push(("tc", int_string(p.led_tc as i64)));
    kv.push(("abs", int_string(p.led_abs as i64)));
    kv.push(("separate", String::from_str("true")));
    proof {
        assert(owned_pairs(kv@) =~= led_pairs(*p));
    }
    object(&kv)
}

/// The pins of the capability reply.
pub fn pins_json(p: &DevicePins) -> (s: String)
    ensures
        s@ == object_text(pin_pairs(*p)),
{
    let mut kv: Vec<(&str, String)> = Vec::new();
    kv.push(("sclk", int_string(p.sclk as i64)));
    kv.push(("mosi", int_string(p.mosi as i64)));
    kv.push(("miso", int_string(p.miso as i64)));
    kv.push(("dc", int_string(p.dc as i64)));
    kv.push(("disp1_cs", int_string(p.disp1_cs as i64)));
    kv.push(("disp2_cs", int_string(p.disp2_cs as i64)));
    kv.push(("touch1_cs", int_string(p.touch1_cs as i64)));
    kv.push(("touch2_cs", int_string(p.touch2_cs as i64)));
    kv.push(("backlight", int_string(p.backlight as i64)));
    kv.push(("led_din", int_string(p.led_din as i64)));
    kv.push(("race_screen", int_string(p.race_screen as i64)));
    kv.push(("led_rev", int_string(p.led_rev as i64)));
    kv.push(("led_tc", int_string(p.led_tc as i64)));
    kv.push(("led_abs", int_string(p.led_abs as i64)));
    kv.push(("led_rgbw", int_string(p.led_rgbw as i64)));
    proof {
        assert(owned_pairs(kv@) =~= pin_pairs(*p));
    }
    object(&kv)
}

/// The brightness is never so low that the lights look dead: 5 to 100 percent at
/// boot, and after every change.
pub proof fn lights_never_go_dark(d: Stored, pct: i32)
    ensures
        5 <= booted(d).brightness <= 100,
        5 <= clamped(pct as int, 5, 100) <= 100,
{
}

/// The panel settings that are stored are those that the next boot reads.
pub proof fn disp_settings_survive(rot: u8, flip_h: bool, flip_v: bool, bgr: bool, inv: bool, d: Stored)
    requires
        d.disprot == Some((rot % 4) as u8),
        d.dispflip == Some(two_bits(flip_h, flip_v)),
        d.dispcol == Some(two_bits(bgr, inv)),
    ensures
        booted(d).disp_rot == rot % 4,
        booted(d).disp_flip_h == flip_h,
        booted(d).disp_flip_v == flip_v,
        booted(d).disp_bgr == bgr,
        booted(d).disp_inv == inv,
{
}

/// The reply names each pin and each light by its own key.
pub proof fn replies_name_each_pin(p: DevicePins)
    ensures
        pin_pairs(p).len() == 15,
        pin_pairs(p)[0] == ("sclk"@, int_text(p.sclk as int)),
        pin_pairs(p)[1] == ("mosi"@, int_text(p.mosi as int)),
        pin_pairs(p)[2] == ("miso"@, int_text(p.miso as int)),
        pin_pairs(p)[3] == ("dc"@, int_text(p.dc as int)),
        pin_pairs(p)[4] == ("disp1_cs"@, int_text(p.disp1_cs as int)),
        pin_pairs(p)[5] == ("disp2_cs"@, int_text(p.disp2_cs as int)),
        pin_pairs(p)[6] == ("touch1_cs"@, int_text(p.touch1_cs as int)),
        pin_pairs(p)[7] == ("touch2_cs"@, int_text(p.touch2_cs as int)),
        pin_pairs(p)[8] == ("backlight"@, int_text(p.backlight as int)),
        pin_pairs(p)[9] == ("led_din"@, int_text(p.led_din as int)),
        pin_pairs(p)[10] == ("race_screen"@, int_text(p.race_screen as int)),
        pin_pairs(p)[11] == ("led_rev"@, int_text(p.led_rev as int)),
        pin_pairs(p)[12] == ("led_tc"@, int_text(p.led_tc as int)),
        pin_pairs(p)[13] == ("led_abs"@, int_text(p.led_abs as int)),
        pin_pairs(p)[14] == ("led_rgbw"@, int_text(p.led_rgbw as int)),
        led_pairs(p)[0] == ("rev"@, int_text(p.led_rev as int)),
        led_pairs(p)[1] == ("tc"@, int_text(p.led_tc as int)),
        led_pairs(p)[2] == ("abs"@, int_text(p.led_abs as int)),
{
}

/// The reply tells the unit, its firmware, board and serial number, its button
/// pages and its panel settings, each under its own key.
pub proof fn replies_tell_the_unit(s: StateView, fw: Seq<char>, board: Seq<char>, serial: Seq<char>)
    ensures
        ({
            let kv = cap_pairs(s, fw, board, serial);
            &&& kv[0] == ("name"@, seq!['"'] + "Pith DDU"@ + seq!['"'])
            &&& kv[1] == ("fw"@, seq!['"'] + fw + seq!['"'])
            &&& kv[2] == ("board"@, seq!['"'] + board + seq!['"'])
            &&& kv[3] == ("serial"@, seq!['"'] + serial + seq!['"'])
            &&& kv[4] == ("buttonPages"@, dec_text(s.button_pages as nat))
            &&& kv[6] == ("leds"@, object_text(led_pairs(s.pins)))
            &&& kv[7] == ("pins"@, object_text(pin_pairs(s.pins)))
            &&& kv[8] == ("disp"@, object_text(disp_pairs(s)))
        }),
        disp_pairs(s)[0] == ("rot"@, dec_text(s.disp_rot as nat)),
        disp_pairs(s)[1] == ("fh"@, bool_text(s.disp_flip_h)),
        disp_pairs(s)[2] == ("fv"@, bool_text(s.disp_flip_v)),
        disp_pairs(s)[3] == ("bgr"@, bool_text(s.disp_bgr)),
        disp_pairs(s)[4] == ("inv"@, bool_text(s.disp_inv)),
{
}

/// At boot every setting is what was stored under its own name; a stored brightness
/// counts within 5 to 100 percent and a stored rotation within a turn. What was
/// never stored has its default, and a stored screen layout waits to be read.
pub proof fn boot_restores_each_setting(d: Stored)
    ensures
        ({
            let s = booted(d);
            &&& d.pins matches Some(p) ==> s.pins == p
            &&& d.pins is None ==> s.pins == stock_pins()
            &&& d.race_json matches Some(t) ==> s.race_json == t@
            &&& d.ui_json matches Some(t) ==> s.ui_json == t@ && (t@.len() > 0 ==> s.pending_ui
                == Some(t@))
            &&& d.ui_json is None ==> s.pending_ui is None && s.ui_json.len() == 0
            &&& d.editor_json matches Some(t) ==> s.editor_json == t@
            &&& d.buttons_json matches Some(t) ==> s.buttons_json == t@
            &&& d.profile_json matches Some(t) ==> s.profile_json == t@
            &&& d.car_json matches Some(t) ==> s.car_json == t@
            &&& d.btnpages matches Some(n) ==> s.button_pages == n
            &&& d.bright matches Some(b) ==> (5 <= b <= 100 ==> s.brightness == b) && (b < 5
                ==> s.brightness == 5) && (b > 100 ==> s.brightness == 100)
            &&& d.bright is None ==> s.brightness == 43
            &&& d.sleepto matches Some(t) ==> s.sleep_timeout_s == t
            &&& d.sleepto is None ==> s.sleep_timeout_s == 30
            &&& d.disprot matches Some(r) ==> (r < 4 ==> s.disp_rot == r)
            &&& d.disprot is None ==> s.disp_rot == 3
            &&& d.dispflip is None ==> s.disp_flip_h && !s.disp_flip_v
            &&& d.dispcol is None ==> s.disp_bgr && !s.disp_inv
            &&& d.dispflip matches Some(v) ==> s.disp_flip_h == (v % 2 == 1) && s.disp_flip_v == (v
                % 4 >= 2)
            &&& d.dispcol matches Some(v) ==> s.disp_bgr == (v % 2 == 1) && s.disp_inv == (v % 4
                >= 2)
            &&& !s.has_ui && !s.sim_on && !s.cfg_reboot
        }),
{
}

/// The reply tells of the screens and of the LEDs too, in this many members; the LEDs
/// always stand apart from the screens.
pub proof fn replies_tell_of_screens_and_leds(s: StateView, fw: Seq<char>, board: Seq<char>, serial: Seq<char>)
    ensures
        cap_pairs(s, fw, board, serial).len() == 9,
        cap_pairs(s, fw, board, serial)[5] == ("screens"@, SCREENS@),
        led_pairs(s.pins).len() == 4,
        led_pairs(s.pins)[3] == ("separate"@, "true"@),
{
}

} // verus!
