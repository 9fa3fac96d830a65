//! The two panels: what a touch does, and what each panel shows.

use vstd::prelude::*;
use crate::ddu::config::{
    areas, back_button, hotspot, restart_button, sim_button, slider,
};
use crate::ddu::draw::{hit, Area};
use crate::format::clamped;

verus! {

/// The configuration closes by itself after this long without a touch.
pub const CONFIG_MS: i64 = 8000;

/// What the race panel is used for.
#[derive(Clone, Copy, Debug, PartialEq, Eq, Structural)]
pub enum RaceMode {
    Race,
    Config,
}

/// A button of a screen layout.
#[derive(Clone, Copy, Debug, PartialEq, Eq, Structural)]
pub struct Button {
    /// The tab page it stands on.
    pub page: u8,
    /// The number of the button of the button box, from 1; 0 is none.
    pub hid: u16,
    pub area: Area,
}

/// A screen layout, as far as touch goes.
#[derive(Debug)]
pub struct Screen {
    /// The number of tabs; 0 is a screen without tabs.
    pub tabs: usize,
    pub buttons: Vec<Button>,
}

/// A screen layout as plain values.
pub struct ScreenView {
    pub tabs: nat,
    pub buttons: Seq<Button>,
}

impl View for Screen {
    type V = ScreenView;

    open spec fn view(&self) -> ScreenView {
        ScreenView { tabs: self.tabs as nat, buttons: self.buttons@ }
    }
}

/// The state of touch on a panel.
#[derive(Clone, Copy, Debug, PartialEq, Eq, Structural)]
pub struct Panel {
    /// A finger is down.
    pub down: bool,
    /// The button of the button box that is held.
    pub held: Option<usize>,
    /// The button that is lit under the finger.
    pub touched: Option<usize>,
    /// The open tab.
    pub tab: u8,
}

/// What follows from a touch.
#[derive(Clone, Copy, Debug, PartialEq, Eq, Structural)]
pub enum Action {
    /// Hold or release a button of the button box.
    Hid { bit: usize, pressed: bool },
    /// The race panel is to be drawn anew.
    RepaintRace,
    /// The side panel is to be drawn anew.
    RepaintSide,
    /// The screen layouts are to be read again.
    ReloadLayout,
    /// The panels are to be turned anew.
    Orient,
    /// Sets the brightness.
    Brightness(i32),
    /// Switches the bench simulation on or off.
    ToggleSim,
    Restart,
}

/// The state of both panels.
#[derive(Clone, Copy, Debug, PartialEq, Eq, Structural)]
pub struct Display {
    pub mode: RaceMode,
    pub last_mode: RaceMode,
    pub last_touch_ms: i64,
    pub race: Panel,
    pub side: Panel,
    pub last_ui_ver: u32,
    pub last_disp_ver: u32,
}

/// What a frame is made from.
#[derive(Clone, Copy, Debug, PartialEq, Eq)]
pub struct FrameIn {
    pub now_ms: i64,
    pub race_touch: Option<(i32, i32)>,
    pub side_touch: Option<(i32, i32)>,
    /// The tab that the touch on the race panel hits.
    pub race_tab_hit: Option<u8>,
    /// The tab that the touch on the side panel hits.
    pub side_tab_hit: Option<u8>,
    pub ui_ver: u32,
    pub disp_ver: u32,
}

// -------------------------------------------------------------------- buttons

/// Whether a button is hit, on a page (`None` for every page).
pub open spec fn is_hit(b: Button, page: Option<u8>, tx: int, ty: int) -> bool {
    &&& page matches Some(p) ==> b.page == p
    &&& b.hid != 0
    &&& b.area.holds(tx, ty)
}

/// The bit of a button in the button box.
pub open spec fn bit_of(b: Button) -> usize {
    if b.hid - 1 > 31 {
        31
    } else {
        (b.hid - 1) as usize
    }
}

/// The bit of the first button that is hit, from button `k` on.
pub open spec fn first_hit(s: Seq<Button>, page: Option<u8>, tx: int, ty: int, k: int) -> Option<
    usize,
>
    decreases s.len() - k,
{
    if k < 0 || k >= s.len() {
        None
    } else if is_hit(s[k], page, tx, ty) {
        Some(bit_of(s[k]))
    } else {
        first_hit(s, page, tx, ty, k + 1)
    }
}

/// The bit of the first button that is hit.
pub fn button_at(scr: &Screen, page: Option<u8>, tx: i32, ty: i32) -> (r: Option<usize>)
    ensures
        r == first_hit(scr@.buttons, page, tx as int, ty as int, 0),
        r matches Some(b) ==> b < 32,
{
    let mut k: usize = 0;
    while k < scr.buttons.len()
        invariant
            k <= scr.buttons@.len(),
            first_hit(scr@.buttons, page, tx as int, ty as int, 0) == first_hit(
                scr@.buttons,
                page,
                tx as int,
                ty as int,
                k as int,
            ),
        decreases scr.buttons@.len() - k,
    {
        let b = scr.buttons[k];
        let on_page = match page {
            Some(p) => b.page == p,
            None => true,
        };
        if on_page && b.hid != 0 && hit(b.area, tx, ty) {
            let bit: u16 = if b.hid - 1 > 31 {
                31
            } else {
                b.hid - 1
            };
            return Some(bit as usize);
        }
        k += 1;
    }
    None
}

// ------------------------------------------------------------- what a touch does

/// The panel after a press, and what follows: a button that is hit is held and lit.
pub open spec fn pressed(p: Panel, s: ScreenView, tx: int, ty: int) -> (Panel, Seq<Action>) {
    let page = if s.tabs > 0 {
        Some(p.tab)
    } else {
        None
    };
    match first_hit(s.buttons, page, tx, ty, 0) {
        Some(bit) => (
            Panel { held: Some(bit), touched: Some(bit), ..p },
            seq![Action::Hid { bit, pressed: true }],
        ),
        None => (p, Seq::empty()),
    }
}

/// The panel after the finger has gone, and what follows: a held button is released.
pub open spec fn lifted(p: Panel) -> (Panel, Seq<Action>) {
    (
        Panel { held: None, touched: None, ..p },
        match p.held {
            Some(bit) => seq![Action::Hid { bit, pressed: false }],
            None => Seq::empty(),
        },
    )
}

/// What a touch does on the configuration screen.
pub open spec fn config_touch(tx: int, ty: int) -> (RaceMode, Seq<Action>) {
    if back_button().holds(tx, ty) {
        (RaceMode::Race, Seq::empty())
    } else if slider().holds(tx, ty) {
        (
            RaceMode::Config,
            seq![Action::Brightness(clamped((tx - 40) * 100 / 400, 0, 100) as i32)],
        )
    } else if sim_button().holds(tx, ty) {
        (RaceMode::Config, seq![Action::ToggleSim])
    } else if restart_button().holds(tx, ty) {
        (RaceMode::Config, seq![Action::Restart])
    } else {
        (RaceMode::Config, Seq::empty())
    }
}

/// What a new touch on the race panel does.
pub open spec fn race_down(
    d: Display,
    scr: Option<ScreenView>,
    tab_hit: Option<u8>,
    tx: int,
    ty: int,
) -> (Display, Seq<Action>) {
    if d.mode == RaceMode::Config {
        let (mode, acts) = config_touch(tx, ty);
        (Display { mode, ..d }, acts)
    } else if hotspot().holds(tx, ty) {
        (Display { mode: RaceMode::Config, ..d }, Seq::empty())
    } else {
        match scr {
            None => (d, Seq::empty()),
            Some(s) => match tab_hit {
                Some(t) if s.tabs > 0 => (
                    Display { race: Panel { tab: t, ..d.race }, ..d },
                    if t != d.race.tab {
                        seq![Action::RepaintRace]
                    } else {
                        Seq::empty()
                    },
                ),
                _ => {
                    let (race, acts) = pressed(d.race, s, tx, ty);
                    (Display { race, ..d }, acts)
                },
            },
        }
    }
}

/// The race panel's part of a frame.
pub open spec fn race_step(d: Display, scr: Option<ScreenView>, f: FrameIn) -> (Display, Seq<Action>) {
    match f.race_touch {
        Some((tx, ty)) => {
            let e = Display { last_touch_ms: f.now_ms, ..d };
            if d.race.down {
                (e, Seq::empty())
            } else {
                race_down(
                    Display { race: Panel { down: true, ..e.race }, ..e },
                    scr,
                    f.race_tab_hit,
                    tx as int,
                    ty as int,
                )
            }
        },
        None => {
            let (race, acts) = lifted(Panel { down: false, ..d.race });
            (Display { race, ..d }, acts)
        },
    }
}

/// The configuration closes after a while without a touch, and a change of the mode
/// redraws the race panel.
pub open spec fn mode_step(d: Display, now_ms: int) -> (Display, Seq<Action>) {
    let mode = if d.mode == RaceMode::Config && now_ms - d.last_touch_ms > CONFIG_MS {
        RaceMode::Race
    } else {
        d.mode
    };
    (
        Display { mode, last_mode: mode, ..d },
        if mode != d.last_mode {
            seq![Action::RepaintRace]
        } else {
            Seq::empty()
        },
    )
}

/// The side panel's part of a frame. Without a screen layout only the release of a
/// held button is left.
pub open spec fn side_step(d: Display, scr: Option<ScreenView>, f: FrameIn) -> (Display, Seq<Action>) {
    match f.side_touch {
        Some((tx, ty)) => match scr {
            None => (d, Seq::empty()),
            Some(s) => if d.side.down {
                (d, Seq::empty())
            } else {
                let p = Panel { down: true, ..d.side };
                match f.side_tab_hit {
                    Some(t) if s.tabs > 0 => (
                        Display { side: Panel { tab: t, ..p }, ..d },
                        Seq::empty(),
                    ),
                    _ => {
                        let (side, acts) = pressed(p, s, tx as int, ty as int);
                        (Display { side, ..d }, acts)
                    },
                }
            },
        },
        None => {
            let p = if scr is Some {
                Panel { down: false, ..d.side }
            } else {
                d.side
            };
            let (side, acts) = lifted(p);
            (Display { side, ..d }, acts)
        },
    }
}

/// New versions of the settings and of the layouts are noted.
pub open spec fn version_step(d: Display, f: FrameIn) -> (Display, Seq<Action>) {
    (
        Display { last_ui_ver: f.ui_ver, last_disp_ver: f.disp_ver, ..d },
        (if f.disp_ver != d.last_disp_ver {
            seq![Action::Orient]
        } else {
            Seq::empty()
        }) + (if f.ui_ver != d.last_ui_ver {
            seq![Action::ReloadLayout, Action::RepaintRace, Action::RepaintSide]
        } else {
            Seq::empty()
        }),
    )
}

/// A frame: versions, race panel, mode, side panel, one after the other.
pub open spec fn framed(
    d: Display,
    race: Option<ScreenView>,
    side: Option<ScreenView>,
    f: FrameIn,
) -> (Display, Seq<Action>) {
    let (d1, a1) = version_step(d, f);
    let (d2, a2) = race_step(d1, race, f);
    let (d3, a3) = mode_step(d2, f.now_ms as int);
    let (d4, a4) = side_step(d3, side, f);
    (d4, a1 + a2 + a3 + a4)
}

/// A screen that may be missing, as plain values.
pub open spec fn opt_view(s: Option<&Screen>) -> Option<ScreenView> {
    match s {
        Some(x) => Some(x@),
        None => None,
    }
}

impl Panel {
    /// A held button is one of the button box, and only held while a finger is down.
    pub open spec fn wf(self) -> bool {
        &&& self.held matches Some(b) ==> b < 32 && self.down
        &&& self.touched matches Some(b) ==> b < 32
    }

    /// A panel that is not touched.
    pub fn new() -> (r: Panel)
        ensures
            r == (Panel { down: false, held: None, touched: None, tab: 0 }),
            r.wf(),
    {
        Panel { down: false, held: None, touched: None, tab: 0 }
    }

    /// Presses the button at a point.
    fn press(&mut self, scr: &Screen, tx: i32, ty: i32, out: &mut Vec<Action>)
        requires
            old(self).down,
            old(self).wf(),
        ensures
            ({
                let (p, acts) = pressed(*old(self), scr@, tx as int, ty as int);
                *final(self) == p && final(out)@ == old(out)@ + acts
            }),
            final(self).wf(),
    {
        let page = if scr.tabs > 0 {
            Some(self.tab)
        } else {
            None
        };
        match button_at(scr, page, tx, ty) {
            Some(bit) => {
                self.held = Some(bit);
                self.touched = Some(bit);
                let ghost before = out@;
                out.push(Action::Hid { bit, pressed: true });
                proof {
                    assert(out@ =~= before + seq![Action::Hid { bit, pressed: true }]);
                }
            },
            None => {
                proof {
                    assert(out@ + Seq::<Action>::empty() =~= out@);
                }
            },
        }
    }

    /// Releases what is held.
    fn lift(&mut self, out: &mut Vec<Action>)
        ensures
            ({
                let (p, acts) = lifted(*old(self));
                *final(self) == p && final(out)@ == old(out)@ + acts
            }),
            final(self).wf(),
    {
        let ghost before = out@;
        match self.held {
            Some(bit) => {
                out.push(Action::Hid { bit, pressed: false });
                proof {
                    assert(out@ =~= before + seq![Action::Hid { bit, pressed: false }]);
                }
            },
            None => {
                proof {
                    assert(out@ + Seq::<Action>::empty() =~= out@);
                }
            },
        }
        self.held = None;
        self.touched = None;
    }

    /// The button that is lit, as a mask of the button box.
    pub fn active_mask(&self) -> (r: u32)
        requires
            self.wf(),
        ensures
            r == match self.touched {
                Some(b) => 1u32 << b,
                None => 0,
            },
    {
        match self.touched {
            Some(b) => 1u32 << b,
            None => 0,
        }
    }
}

impl Display {
    pub open spec fn wf(self) -> bool {
        self.race.wf() && self.side.wf()
    }

    /// The panels at power-up.
    pub fn new(now_ms: i64, ui_ver: u32, disp_ver: u32) -> (r: Display)
        ensures
            r == (Display {
                mode: RaceMode::Race,
                last_mode: RaceMode::Race,
                last_touch_ms: now_ms,
                race: Panel { down: false, held: None, touched: None, tab: 0 },
                side: Panel { down: false, held: None, touched: None, tab: 0 },
                last_ui_ver: ui_ver,
                last_disp_ver: disp_ver,
            }),
            r.wf(),
    {
        Display {
            mode: RaceMode::Race,
            last_mode: RaceMode::Race,
            last_touch_ms: now_ms,
            race: Panel::new(),
            side: Panel::new(),
            last_ui_ver: ui_ver,
            last_disp_ver: disp_ver,
        }
    }

    /// A touch on the configuration screen.
    fn handle_config_touch(&mut self, tx: i32, ty: i32, out: &mut Vec<Action>)
        requires
            old(self).mode == RaceMode::Config,
        ensures
            ({
                let (mode, acts) = config_touch(tx as int, ty as int);
                *final(self) == (Display { mode, ..*old(self) }) && final(out)@ == old(out)@ + acts
            }),
    {
        let a = areas();
        let ghost before = out@;
        if hit(a.back, tx, ty) {
            self.mode = RaceMode::Race;
        } else if hit(a.slider, tx, ty) {
            let pct: i32 = (tx - a.slider.x) * 100 / a.slider.w;
            let pct: i32 = if pct > 100 {
                100
            } else {
                pct
            };
            out.push(Action::Brightness(pct));
        } else if hit(a.sim, tx, ty) {
            out.push(Action::ToggleSim);
        } else if hit(a.restart, tx, ty) {
            out.push(Action::Restart);
        }
        proof {
            assert(out@ =~= before + config_touch(tx as int, ty as int).1);
        }
    }

    /// A new touch on the race panel.
    fn race_touch(
        &mut self,
        scr: Option<&Screen>,
        tab_hit: Option<u8>,
        tx: i32,
        ty: i32,
        out: &mut Vec<Action>,
    )
        requires
            old(self).wf(),
            old(self).race.down,
        ensures
            ({
                let (d, acts) = race_down(*old(self), opt_view(scr), tab_hit, tx as int, ty as int);
                *final(self) == d && final(out)@ == old(out)@ + acts
            }),
            final(self).wf(),
    {
        let ghost before = out@;
        if self.mode == RaceMode::Config {
            self.handle_config_touch(tx, ty, out);
            return;
        }
        if hit(areas().hotspot, tx, ty) {
            self.mode = RaceMode::Config;
            proof {
                assert(out@ + Seq::<Action>::empty() =~= out@);
            }
            return;
        }
        match scr {
            None => {
                proof {
                    assert(out@ + Seq::<Action>::empty() =~= out@);
                }
            },
            Some(s) => {
                match tab_hit {
                    Some(t) => {
                        if s.tabs > 0 {
                            if t != self.race.tab {
                                self.race.tab = t;
                                out.push(Action::RepaintRace);
                                proof {
                                    assert(out@ =~= before + seq![Action::RepaintRace]);
                                }
                            } else {
                                proof {
                                    assert(out@ + Seq::<Action>::empty() =~= out@);
                                }
                            }
                            return;
                        }
                    },
                    None => {},
                }
                self.race.press(s, tx, ty, out);
            },
        }
    }

    /// Notes new versions.
    fn note_versions(&mut self, f: &FrameIn, out: &mut Vec<Action>)
        ensures
            ({
                let (d, acts) = version_step(*old(self), *f);
                *final(self) == d && final(out)@ == old(out)@ + acts
            }),
    {
        let ghost before = out@;
        if f.disp_ver != self.last_disp_ver {
            self.last_disp_ver = f.disp_ver;
            out.push(Action::Orient);
        }
        if f.ui_ver != self.last_ui_ver {
            self.last_ui_ver = f.ui_ver;
            out.push(Action::ReloadLayout);
            out.push(Action::RepaintRace);
            out.push(Action::RepaintSide);
        }
        proof {
            assert(out@ =~= before + version_step(*old(self), *f).1);
        }
    }

    /// The race panel's part of a frame.
    fn run_race(&mut self, scr: Option<&Screen>, f: &FrameIn, out: &mut Vec<Action>)
        requires
            old(self).wf(),
        ensures
            ({
                let (d, acts) = race_step(*old(self), opt_view(scr), *f);
                *final(self) == d && final(out)@ == old(out)@ + acts
            }),
            final(self).wf(),
    {
        match f.race_touch {
            Some((tx, ty)) => {
                self.last_touch_ms = f.now_ms;
                if !self.race.down {
                    self.race.down = true;
                    self.race_touch(scr, f.race_tab_hit, tx, ty, out);
                } else {
                    proof {
                        assert(out@ + Seq::<Action>::empty() =~= out@);
                    }
                }
            },
            None => {
                self.race.down = false;
                self.race.lift(out);
            },
        }
    }

    /// The change of the mode.
    fn run_mode(&mut self, now_ms: i64, out: &mut Vec<Action>)
        requires
            old(self).wf(),
            old(self).mode == RaceMode::Config ==> i64::MIN <= now_ms - old(self).last_touch_ms
                <= i64::MAX,
        ensures
            ({
                let (d, acts) = mode_step(*old(self), now_ms as int);
                *final(self) == d && final(out)@ == old(out)@ + acts
            }),
            final(self).wf(),
    {
        let ghost before = out@;
        if self.mode == RaceMode::Config && now_ms - self.last_touch_ms > CONFIG_MS {
            self.mode = RaceMode::Race;
        }
        if self.mode != self.last_mode {
            out.push(Action::RepaintRace);
            self.last_mode = self.mode;
        }
        proof {
            assert(out@ =~= before + mode_step(*old(self), now_ms as int).1);
        }
    }

    /// The side panel's part of a frame.
    fn run_side(&mut self, scr: Option<&Screen>, f: &FrameIn, out: &mut Vec<Action>)
        requires
            old(self).wf(),
        ensures
            ({
                let (d, acts) = side_step(*old(self), opt_view(scr), *f);
                *final(self) == d && final(out)@ == old(out)@ + acts
            }),
            final(self).wf(),
    {
        proof {
            assert(out@ + Seq::<Action>::empty() =~= out@);
        }
        match f.side_touch {
            Some((tx, ty)) => {
                match scr {
                    Some(s) => {
                        if !self.side.down {
                            self.side.down = true;
                            let tabbed = s.tabs > 0;
                            match f.side_tab_hit {
                                Some(t) if tabbed => {
                                    self.side.tab = t;
                                },
                                _ => {
                                    self.side.press(s, tx, ty, out);
                                },
                            }
                        }
                    },
                    None => {},
                }
            },
            None => {
                if scr.is_some() {
                    self.side.down = false;
                }
                self.side.lift(out);
            },
        }
    }

    /// Runs a frame: takes the touches in and says what follows from them, in order.
    pub fn frame(&mut self, race: Option<&Screen>, side: Option<&Screen>, f: &FrameIn) -> (acts: Vec<
        Action,
    >)
        requires
            old(self).wf(),
            old(self).mode == RaceMode::Config && f.race_touch is None ==> i64::MIN <= f.now_ms
                - old(self).last_touch_ms <= i64::MAX,
        ensures
            (*final(self), acts@) == framed(*old(self), opt_view(race), opt_view(side), *f),
            final(self).wf(),
    {
        let mut out: Vec<Action> = Vec::new();
        self.note_versions(f, &mut out);
        let ghost a1 = out@;
        proof {
            assert(a1 =~= version_step(*old(self), *f).1);
        }
        self.run_race(race, f, &mut out);
        self.run_mode(f.now_ms, &mut out);
        self.run_side(side, f, &mut out);
        out
    }
}

// ------------------------------------------------------------------ what is shown

/// What a panel shows.
#[derive(Clone, Copy, Debug, PartialEq, Eq, Structural)]
pub enum Shown {
    /// A screen layout, with its lit buttons.
    Layout { active: u32 },
    /// A page of a screen layout with tabs.
    Page { tab: u8, active: u32 },
    /// The prompt to add a layout.
    NoScreen,
    /// The configuration.
    Config,
    /// The race layout.
    Race,
}

/// The mask of a lit button.
pub open spec fn lit_mask(p: Panel) -> u32 {
    match p.touched {
        Some(b) => 1u32 << b,
        None => 0,
    }
}

/// How a screen layout is shown.
pub open spec fn layout_shown(p: Panel, s: ScreenView) -> Shown {
    if s.tabs == 0 {
        Shown::Layout { active: lit_mask(p) }
    } else {
        Shown::Page { tab: p.tab, active: lit_mask(p) }
    }
}

impl Display {
    /// What the side panel shows.
    pub fn side_shows(&self, side: Option<&Screen>) -> (r: Shown)
        requires
            self.wf(),
        ensures
            r == match opt_view(side) {
                Some(s) => layout_shown(self.side, s),
                None => Shown::NoScreen,
            },
    {
        match side {
            Some(s) => if s.tabs == 0 {
                Shown::Layout { active: self.side.active_mask() }
            } else {
                Shown::Page { tab: self.side.tab, active: self.side.active_mask() }
            },
            None => Shown::NoScreen,
        }
    }

    /// What the race panel shows.
    pub fn race_shows(&self, race: Option<&Screen>) -> (r: Shown)
        requires
            self.wf(),
        ensures
            r == if self.mode == RaceMode::Config {
                Shown::Config
            } else {
                match opt_view(race) {
                    Some(s) => layout_shown(self.race, s),
                    None => Shown::Race,
                }
            },
    {
        if self.mode == RaceMode::Config {
            return Shown::Config;
        }
        match race {
            Some(s) => if s.tabs == 0 {
                Shown::Layout { active: self.race.active_mask() }
            } else {
                Shown::Page { tab: self.race.tab, active: self.race.active_mask() }
            },
            None => Shown::Race,
        }
    }
}

/// Whether the race screen is on the first panel.
pub fn race_is_first(race_screen: i32) -> (r: bool)
    ensures
        r == (race_screen == 0),
{
    race_screen == 0
}

// ----------------------------------------------------------------------- laws

/// When no finger is on a panel, no button of it is held or lit: whatever was held
/// has been released in that frame, also where its layout was taken away meanwhile.
pub proof fn lifted_fingers_release(
    d: Display,
    race: Option<ScreenView>,
    side: Option<ScreenView>,
    f: FrameIn,
)
    ensures
        f.race_touch is None ==> ({
            let (e, acts) = framed(d, race, side, f);
            &&& e.race.held is None && e.race.touched is None && !e.race.down
            &&& d.race.held matches Some(bit) ==> acts.contains(Action::Hid { bit, pressed: false })
        }),
        f.side_touch is None ==> ({
            let (e, acts) = framed(d, race, side, f);
            &&& e.side.held is None && e.side.touched is None
            &&& d.side.held matches Some(bit) ==> acts.contains(Action::Hid { bit, pressed: false })
        }),
{
    let (d1, a1) = version_step(d, f);
    let (d2, a2) = race_step(d1, race, f);
    let (d3, a3) = mode_step(d2, f.now_ms as int);
    let (d4, a4) = side_step(d3, side, f);
    let acts = a1 + a2 + a3 + a4;
    if f.race_touch is None {
        if let Some(bit) = d.race.held {
            assert(a2[0] == Action::Hid { bit, pressed: false });
            assert(acts[a1.len() as int] == a2[0]);
        }
    }
    if f.side_touch is None {
        if let Some(bit) = d.side.held {
            assert(a4[0] == Action::Hid { bit, pressed: false });
            assert(acts[(a1 + a2 + a3).len() as int] == a4[0]);
        }
    }
}

/// A finger that stays down presses once: while it is down nothing on its panel
/// changes but the time of the last touch.
pub proof fn held_finger_presses_once(d: Display, scr: Option<ScreenView>, f: FrameIn)
    requires
        d.race.down,
        d.side.down,
        f.race_touch is Some,
        f.side_touch is Some,
    ensures
        race_step(d, scr, f).1 == Seq::<Action>::empty(),
        race_step(d, scr, f).0 == (Display { last_touch_ms: f.now_ms, ..d }),
        side_step(d, scr, f) == (d, Seq::<Action>::empty()),
{
}

/// A panel only presses a button when none of its buttons is held, so that no press
/// is left without its release.
pub proof fn presses_follow_releases(d: Display, scr: Option<ScreenView>, f: FrameIn, bit: usize)
    requires
        d.wf(),
    ensures
        race_step(d, scr, f).1.contains(Action::Hid { bit, pressed: true }) ==> d.race.held is None,
        side_step(d, scr, f).1.contains(Action::Hid { bit, pressed: true }) ==> d.side.held is None,
{
    let a = race_step(d, scr, f).1;
    let b = side_step(d, scr, f).1;
    if d.race.held is Some {
        assert(d.race.down);
        assert forall|k: int| 0 <= k < a.len() implies a[k] != (Action::Hid { bit, pressed: true }) by {}
    }
    if d.side.held is Some {
        assert(d.side.down);
        assert forall|k: int| 0 <= k < b.len() implies b[k] != (Action::Hid { bit, pressed: true }) by {}
    }
}

/// The configuration can be reached from every race screen: a new touch on its corner
/// opens it, whatever tab or button stands there.
pub proof fn config_is_reachable(d: Display, scr: Option<ScreenView>, f: FrameIn, tx: i32, ty: i32)
    requires
        d.mode == RaceMode::Race,
        !d.race.down,
        f.race_touch == Some((tx, ty)),
        hotspot().holds(tx as int, ty as int),
    ensures
        mode_step(race_step(d, scr, f).0, f.now_ms as int).0.mode == RaceMode::Config,
{
}

/// The configuration does not stay open: after eight seconds without a touch the race
/// screen is back.
pub proof fn config_closes(d: Display, scr: Option<ScreenView>, f: FrameIn)
    requires
        f.race_touch is None,
        f.now_ms - d.last_touch_ms > CONFIG_MS,
    ensures
        mode_step(race_step(d, scr, f).0, f.now_ms as int).0.mode == RaceMode::Race,
{
}

/// What a touch on the configuration screen does. The slider is 400 wide from 40 on,
/// and each four of it are one percent of brightness; the arrow in the lower left
/// goes back; of the two upper buttons on the right the first switches the bench
/// simulation and the second restarts. A touch anywhere else does nothing.
pub proof fn config_touches_do_their_own(tx: int, ty: int, pct: int)
    requires
        4 * pct <= tx - 40 < 4 * pct + 4,
    ensures
        ({
            let (mode, acts) = config_touch(tx, ty);
            let back = 20 <= tx < 80 && 262 <= ty < 308;
            let slide = 40 <= tx < 440 && 205 <= ty < 241;
            let sim = 288 <= tx < 460 && 56 <= ty < 98;
            let restart = 288 <= tx < 460 && 104 <= ty < 146;
            &&& back <==> mode == RaceMode::Race
            &&& back ==> acts.len() == 0
            &&& slide ==> acts == seq![Action::Brightness(pct as i32)] && 0 <= pct < 100
            &&& sim ==> acts == seq![Action::ToggleSim]
            &&& restart ==> acts == seq![Action::Restart]
            &&& !slide && !sim && !restart ==> acts.len() == 0
        }),
{
}

/// A press goes to the first button of the layout that stands under the finger, has
/// a number and, where the layout has tabs, is on the open tab. Its number less one
/// is the bit that is held and lit, and the press is reported. Where there is no
/// such button, nothing happens.
pub proof fn first_button_is_pressed(p: Panel, s: ScreenView, tx: int, ty: int, k: int)
    requires
        0 <= k <= s.buttons.len(),
        forall|j: int| 0 <= j < k ==> !under(#[trigger] s.buttons[j], p, s, tx, ty),
        k < s.buttons.len() ==> under(s.buttons[k], p, s, tx, ty) && s.buttons[k].hid <= 32,
    ensures
        k < s.buttons.len() ==> ({
            let bit = (s.buttons[k].hid - 1) as usize;
            &&& pressed(p, s, tx, ty).0 == (Panel { held: Some(bit), touched: Some(bit), ..p })
            &&& pressed(p, s, tx, ty).1 == seq![Action::Hid { bit, pressed: true }]
        }),
        k == s.buttons.len() ==> pressed(p, s, tx, ty) == (p, Seq::<Action>::empty()),
{
    let page = if s.tabs > 0 {
        Some(p.tab)
    } else {
        None
    };
    lemma_first_hit(s.buttons, page, tx, ty, 0, k, p, s);
}

/// A button stands under a finger and can be pressed there.
pub open spec fn under(b: Button, p: Panel, s: ScreenView, tx: int, ty: int) -> bool {
    &&& b.hid > 0
    &&& b.area.x <= tx < b.area.x + b.area.w
    &&& b.area.y <= ty < b.area.y + b.area.h
    &&& s.tabs > 0 ==> b.page == p.tab
}

proof fn lemma_first_hit(
    buttons: Seq<Button>,
    page: Option<u8>,
    tx: int,
    ty: int,
    from: int,
    k: int,
    p: Panel,
    s: ScreenView,
)
    requires
        0 <= from <= k <= buttons.len(),
        page == (if s.tabs > 0 {
            Some(p.tab)
        } else {
            None
        }),
        forall|j: int| from <= j < k ==> !under(#[trigger] buttons[j], p, s, tx, ty),
        k < buttons.len() ==> under(buttons[k], p, s, tx, ty),
    ensures
        first_hit(buttons, page, tx, ty, from) == if k < buttons.len() {
            Some(bit_of(buttons[k]))
        } else {
            None
        },
    decreases k - from,
{
    if from < k {
        assert(!under(buttons[from], p, s, tx, ty));
        lemma_first_hit(buttons, page, tx, ty, from + 1, k, p, s);
    }
}

/// A finger that comes and goes leaves a panel as it was, and presses and releases
/// the same button.
pub proof fn presses_are_released(p: Panel, s: ScreenView, tx: int, ty: int)
    requires
        p.held is None,
        p.touched is None,
    ensures
        ({
            let (q, down) = pressed(p, s, tx, ty);
            let (r, up) = lifted(q);
            &&& r == p
            &&& down.len() == up.len()
            &&& down.len() <= 1
            &&& down.len() == 1 ==> (down[0] matches Action::Hid { bit, pressed } && up[0] matches Action::Hid {
                bit: released,
                pressed: still,
            } && released == bit && pressed && !still)
        }),
{
}

/// A new touch on a tab opens that tab and presses nothing; the race panel is drawn
/// anew where the tab was not open already.
pub proof fn tabs_are_opened(d: Display, s: ScreenView, f: FrameIn, tab: u8, tx: i32, ty: i32)
    requires
        s.tabs > 0,
        d.mode == RaceMode::Race,
        !d.race.down,
        !d.side.down,
        f.race_touch == Some((tx, ty)),
        f.side_touch == Some((tx, ty)),
        f.race_tab_hit == Some(tab),
        f.side_tab_hit == Some(tab),
        !(0 <= tx < 86 && 264 <= ty < 320),
    ensures
        race_step(d, Some(s), f).0.race.tab == tab,
        race_step(d, Some(s), f).0.race.held == d.race.held,
        race_step(d, Some(s), f).1 == (if tab != d.race.tab {
            seq![Action::RepaintRace]
        } else {
            Seq::empty()
        }),
        side_step(d, Some(s), f).0.side.tab == tab,
        side_step(d, Some(s), f).0.side.held == d.side.held,
        side_step(d, Some(s), f).1.len() == 0,
{
}

/// The configuration stays open for eight seconds after the last touch and closes
/// behind them; opening and closing draw the race panel anew, and so does nothing
/// else here.
pub proof fn config_stays_eight_seconds(d: Display, now_ms: int)
    ensures
        ({
            let (e, acts) = mode_step(d, now_ms);
            &&& d.mode == RaceMode::Race ==> e.mode == RaceMode::Race
            &&& d.mode == RaceMode::Config && now_ms - d.last_touch_ms <= 8000 ==> e.mode
                == RaceMode::Config
            &&& d.mode == RaceMode::Config && now_ms - d.last_touch_ms > 8000 ==> e.mode
                == RaceMode::Race
            &&& e.last_mode == e.mode
            &&& acts == (if e.mode != d.last_mode {
                seq![Action::RepaintRace]
            } else {
                Seq::empty()
            })
            &&& e.race == d.race && e.side == d.side
        }),
{
}

/// New panel settings turn the panels, and a new layout is read and drawn on both;
/// the same version again does neither.
pub proof fn new_versions_are_noted(d: Display, f: FrameIn)
    ensures
        ({
            let (e, acts) = version_step(d, f);
            &&& e.last_ui_ver == f.ui_ver && e.last_disp_ver == f.disp_ver
            &&& acts.contains(Action::Orient) <==> f.disp_ver != d.last_disp_ver
            &&& acts.contains(Action::ReloadLayout) <==> f.ui_ver != d.last_ui_ver
            &&& acts.contains(Action::RepaintRace) <==> f.ui_ver != d.last_ui_ver
            &&& acts.contains(Action::RepaintSide) <==> f.ui_ver != d.last_ui_ver
            &&& version_step(e, f).1.len() == 0
            &&& e.race == d.race && e.side == d.side && e.mode == d.mode
        }),
{
    let (e, acts) = version_step(d, f);
    let o = if f.disp_ver != d.last_disp_ver {
        1int
    } else {
        0int
    };
    if f.disp_ver != d.last_disp_ver {
        assert(acts[0] == Action::Orient);
    }
    if f.ui_ver != d.last_ui_ver {
        assert(acts[o] == Action::ReloadLayout);
        assert(acts[o + 1] == Action::RepaintRace);
        assert(acts[o + 2] == Action::RepaintSide);
    }
}

/// A layout without tabs is shown whole and one with tabs by its open tab, with the
/// bit of the button under the finger lit and no other.
pub proof fn layouts_are_shown(p: Panel, s: ScreenView)
    ensures
        s.tabs == 0 ==> (layout_shown(p, s) matches Shown::Layout { active } && (p.touched is None
            ==> active == 0) && (p.touched matches Some(b) ==> active == 1u32 << b)),
        s.tabs > 0 ==> (layout_shown(p, s) matches Shown::Page { tab, active } && tab == p.tab && (
        p.touched is None ==> active == 0) && (p.touched matches Some(b) ==> active == 1u32 << b)),
{
}

} // verus!
