//! The pins of the display unit, and how a push from the dashboard changes them.

use vstd::prelude::*;
use crate::json;
use crate::json::{int_at, json_doc, Doc};

verus! {

/// The pins of displays, touch panels and LED strip, and the layout of the strip.
#[derive(Clone, Copy, Debug, PartialEq, Eq, Structural)]
pub struct DevicePins {
    pub sclk: i32,
    pub mosi: i32,
    pub miso: i32,
    pub dc: i32,
    pub disp1_cs: i32,
    pub disp2_cs: i32,
    pub touch1_cs: i32,
    pub touch2_cs: i32,
    /// The backlight, active high.
    pub backlight: i32,
    pub led_din: i32,
    /// Which panel shows the race screen, 0 or 1.
    pub race_screen: i32,
    pub led_rev: i32,
    pub led_tc: i32,
    pub led_abs: i32,
    /// Whether the LEDs have a white channel.
    pub led_rgbw: i32,
}

/// The pins as the board comes.
pub open spec fn stock_pins() -> DevicePins {
    DevicePins {
        sclk: 7,
        mosi: 9,
        miso: 8,
        dc: 2,
        disp1_cs: 1,
        disp2_cs: 3,
        touch1_cs: 5,
        touch2_cs: 6,
        backlight: 4,
        led_din: 43,
        race_screen: 0,
        led_rev: 12,
        led_tc: 2,
        led_abs: 2,
        led_rgbw: 1,
    }
}

impl Default for DevicePins {
    fn default() -> (r: DevicePins)
        ensures
            r == stock_pins(),
    {
        DevicePins {
            sclk: 7,
            mosi: 9,
            miso: 8,
            dc: 2,
            disp1_cs: 1,
            disp2_cs: 3,
            touch1_cs: 5,
            touch2_cs: 6,
            backlight: 4,
            led_din: 43,
            race_screen: 0,
            led_rev: 12,
            led_tc: 2,
            led_abs: 2,
            led_rgbw: 1,
        }
    }
}

/// The integers of a push; `None` for a key that is missing or holds no integer.
#[derive(Clone, Copy, Debug, PartialEq, Eq, Structural)]
pub struct PinsPush {
    pub sclk: Option<i64>,
    pub mosi: Option<i64>,
    pub miso: Option<i64>,
    pub dc: Option<i64>,
    pub disp1_cs: Option<i64>,
    pub disp2_cs: Option<i64>,
    pub touch1_cs: Option<i64>,
    pub touch2_cs: Option<i64>,
    pub backlight: Option<i64>,
    pub led_din: Option<i64>,
    pub race_screen: Option<i64>,
    pub led_rev: Option<i64>,
    pub led_tc: Option<i64>,
    pub led_abs: Option<i64>,
    pub led_rgbw: Option<i64>,
}

/// The integers of a push.
pub open spec fn push_of(d: Doc) -> PinsPush {
    PinsPush {
        sclk: int_at(d, "/sclk"@),
        mosi: int_at(d, "/mosi"@),
        miso: int_at(d, "/miso"@),
        dc: int_at(d, "/dc"@),
        disp1_cs: int_at(d, "/disp1_cs"@),
        disp2_cs: int_at(d, "/disp2_cs"@),
        touch1_cs: int_at(d, "/touch1_cs"@),
        touch2_cs: int_at(d, "/touch2_cs"@),
        backlight: int_at(d, "/backlight"@),
        led_din: int_at(d, "/led_din"@),
        race_screen: int_at(d, "/race_screen"@),
        led_rev: int_at(d, "/led_rev"@),
        led_tc: int_at(d, "/led_tc"@),
        led_abs: int_at(d, "/led_abs"@),
        led_rgbw: int_at(d, "/led_rgbw"@),
    }
}

/// Reads the integers of a push.
pub fn read_push(v: &serde_json::Value) -> (r: PinsPush)
    ensures
        r == push_of(json_doc(*v)),
{
    PinsPush {
        sclk: json::integer(v, "/sclk"),
        mosi: json::integer(v, "/mosi"),
        miso: json::integer(v, "/miso"),
        dc: json::integer(v, "/dc"),
        disp1_cs: json::integer(v, "/disp1_cs"),
        disp2_cs: json::integer(v, "/disp2_cs"),
        touch1_cs: json::integer(v, "/touch1_cs"),
        touch2_cs: json::integer(v, "/touch2_cs"),
        backlight: json::integer(v, "/backlight"),
        led_din: json::integer(v, "/led_din"),
        race_screen: json::integer(v, "/race_screen"),
        led_rev: json::integer(v, "/led_rev"),
        led_tc: json::integer(v, "/led_tc"),
        led_abs: json::integer(v, "/led_abs"),
        led_rgbw: json::integer(v, "/led_rgbw"),
    }
}

/// The pushed value where it is at least 0 and at most `max`, the current one
/// otherwise.
pub open spec fn in_range_or(cur: i32, n: Option<i64>, max: int) -> i32 {
    match n {
        Some(v) => if 0 <= v <= max {
            v as i32
        } else {
            cur
        },
        None => cur,
    }
}

/// 1 or 0 where a value was pushed, by a condition on it.
pub open spec fn switch_or(cur: i32, n: Option<i64>, on: bool) -> i32 {
    match n {
        Some(_) => if on {
            1
        } else {
            0
        },
        None => cur,
    }
}

/// The pushed value where it is in range, the current one otherwise.
pub fn pick(cur: i32, n: Option<i64>, max: i32) -> (r: i32)
    ensures
        r == in_range_or(cur, n, max as int),
{
    match n {
        Some(v) => if 0 <= v && v <= max as i64 {
            v as i32
        } else {
            cur
        },
        None => cur,
    }
}

/// The highest GPIO.
pub const PIN_MAX: i32 = 48;

/// The most rev LEDs.
pub const REV_MAX: i32 = 64;

/// The most traction-control or ABS LEDs.
pub const SIDE_MAX: i32 = 16;

impl DevicePins {
    /// The pins after a push: only what the push holds and is in range changes.
    pub open spec fn pushed(self, p: PinsPush) -> DevicePins {
        DevicePins {
            sclk: in_range_or(self.sclk, p.sclk, PIN_MAX as int),
            mosi: in_range_or(self.mosi, p.mosi, PIN_MAX as int),
            miso: in_range_or(self.miso, p.miso, PIN_MAX as int),
            dc: in_range_or(self.dc, p.dc, PIN_MAX as int),
            disp1_cs: in_range_or(self.disp1_cs, p.disp1_cs, PIN_MAX as int),
            disp2_cs: in_range_or(self.disp2_cs, p.disp2_cs, PIN_MAX as int),
            touch1_cs: in_range_or(self.touch1_cs, p.touch1_cs, PIN_MAX as int),
            touch2_cs: in_range_or(self.touch2_cs, p.touch2_cs, PIN_MAX as int),
            backlight: in_range_or(self.backlight, p.backlight, PIN_MAX as int),
            led_din: in_range_or(self.led_din, p.led_din, PIN_MAX as int),
            race_screen: switch_or(self.race_screen, p.race_screen, p.race_screen == Some(1i64)),
            led_rev: in_range_or(self.led_rev, p.led_rev, REV_MAX as int),
            led_tc: in_range_or(self.led_tc, p.led_tc, SIDE_MAX as int),
            led_abs: in_range_or(self.led_abs, p.led_abs, SIDE_MAX as int),
            led_rgbw: switch_or(self.led_rgbw, p.led_rgbw, p.led_rgbw != Some(0i64)),
        }
    }

    /// The pins after a push.
    pub fn with_push(&self, p: &PinsPush) -> (r: DevicePins)
        ensures
            r == self.pushed(*p),
    {
        DevicePins {
            sclk: pick(self.sclk, p.sclk, PIN_MAX),
            mosi: pick(self.mosi, p.mosi, PIN_MAX),
            miso: pick(self.miso, p.miso, PIN_MAX),
            dc: pick(self.dc, p.dc, PIN_MAX),
            disp1_cs: pick(self.disp1_cs, p.disp1_cs, PIN_MAX),
            disp2_cs: pick(self.disp2_cs, p.disp2_cs, PIN_MAX),
            touch1_cs: pick(self.touch1_cs, p.touch1_cs, PIN_MAX),
            touch2_cs: pick(self.touch2_cs, p.touch2_cs, PIN_MAX),
            backlight: pick(self.backlight, p.backlight, PIN_MAX),
            led_din: pick(self.led_din, p.led_din, PIN_MAX),
            race_screen: match p.race_screen {
                Some(n) => if n == 1 {
                    1
                } else {
                    0
                },
                None => self.race_screen,
            },
            led_rev: pick(self.led_rev, p.led_rev, REV_MAX),
            led_tc: pick(self.led_tc, p.led_tc, SIDE_MAX),
            led_abs: pick(self.led_abs, p.led_abs, SIDE_MAX),
            led_rgbw: match p.led_rgbw {
                Some(n) => if n != 0 {
                    1
                } else {
                    0
                },
                None => self.led_rgbw,
            },
        }
    }

    /// Every pin is a GPIO, and the strip is within its limits.
    pub open spec fn sane(self) -> bool {
        &&& 0 <= self.sclk <= PIN_MAX
        &&& 0 <= self.mosi <= PIN_MAX
        &&& 0 <= self.miso <= PIN_MAX
        &&& 0 <= self.dc <= PIN_MAX
        &&& 0 <= self.disp1_cs <= PIN_MAX
        &&& 0 <= self.disp2_cs <= PIN_MAX
        &&& 0 <= self.touch1_cs <= PIN_MAX
        &&& 0 <= self.touch2_cs <= PIN_MAX
        &&& 0 <= self.backlight <= PIN_MAX
        &&& 0 <= self.led_din <= PIN_MAX
        &&& self.race_screen == 0 || self.race_screen == 1
        &&& 0 <= self.led_rev <= REV_MAX
        &&& 0 <= self.led_tc <= SIDE_MAX
        &&& 0 <= self.led_abs <= SIDE_MAX
        &&& self.led_rgbw == 0 || self.led_rgbw == 1
    }
}

/// No push takes the pins out of range, whatever it holds.
pub proof fn pushes_stay_sane(pins: DevicePins, p: PinsPush)
    requires
        pins.sane(),
    ensures
        pins.pushed(p).sane(),
{
}

/// The same push again changes nothing more, and an empty push nothing at all.
pub proof fn push_is_idempotent(pins: DevicePins, p: PinsPush)
    ensures
        pins.pushed(p).pushed(p) == pins.pushed(p),
        p == (PinsPush {
            sclk: None,
            mosi: None,
            miso: None,
            dc: None,
            disp1_cs: None,
            disp2_cs: None,
            touch1_cs: None,
            touch2_cs: None,
            backlight: None,
            led_din: None,
            race_screen: None,
            led_rev: None,
            led_tc: None,
            led_abs: None,
            led_rgbw: None,
        }) ==> pins.pushed(p) == pins,
{
}

/// Each key of a push sets the pin of its own name, where the number is that of a
/// GPIO, at most 48; the strip has at most 64 rev lights and 16 of each other kind;
/// a number out of range and a missing key leave the pin as it was. Any number but
/// 1 gives the race screen to the first panel, and any but 0 means white LEDs.
pub proof fn keys_set_their_own_pins(pins: DevicePins, d: Doc)
    ensures
        ({
            let r = pins.pushed(push_of(d));
            &&& int_at(d, "/sclk"@) is None ==> r.sclk == pins.sclk
            &&& int_at(d, "/sclk"@) matches Some(v) ==> r.sclk == (if 0 <= v <= 48 {
                v as i32
            } else {
                pins.sclk
            })
            &&& int_at(d, "/mosi"@) is None ==> r.mosi == pins.mosi
            &&& int_at(d, "/mosi"@) matches Some(v) ==> r.mosi == (if 0 <= v <= 48 {
                v as i32
            } else {
                pins.mosi
            })
            &&& int_at(d, "/miso"@) is None ==> r.miso == pins.miso
            &&& int_at(d, "/miso"@) matches Some(v) ==> r.miso == (if 0 <= v <= 48 {
                v as i32
            } else {
                pins.miso
            })
            &&& int_at(d, "/dc"@) is None ==> r.dc == pins.dc
            &&& int_at(d, "/dc"@) matches Some(v) ==> r.dc == (if 0 <= v <= 48 {
                v as i32
            } else {
                pins.dc
            })
            &&& int_at(d, "/disp1_cs"@) is None ==> r.disp1_cs == pins.disp1_cs
            &&& int_at(d, "/disp1_cs"@) matches Some(v) ==> r.disp1_cs == (if 0 <= v <= 48 {
                v as i32
            } else {
                pins.disp1_cs
            })
            &&& int_at(d, "/disp2_cs"@) is None ==> r.disp2_cs == pins.disp2_cs
            &&& int_at(d, "/disp2_cs"@) matches Some(v) ==> r.disp2_cs == (if 0 <= v <= 48 {
                v as i32
            } else {
                pins.disp2_cs
            })
            &&& int_at(d, "/touch1_cs"@) is None ==> r.touch1_cs == pins.touch1_cs
            &&& int_at(d, "/touch1_cs"@) matches Some(v) ==> r.touch1_cs == (if 0 <= v <= 48 {
                v as i32
            } else {
                pins.touch1_cs
            })
            &&& int_at(d, "/touch2_cs"@) is None ==> r.touch2_cs == pins.touch2_cs
            &&& int_at(d, "/touch2_cs"@) matches Some(v) ==> r.touch2_cs == (if 0 <= v <= 48 {
                v as i32
            } else {
                pins.touch2_cs
            })
            &&& int_at(d, "/backlight"@) is None ==> r.backlight == pins.backlight
            &&& int_at(d, "/backlight"@) matches Some(v) ==> r.backlight == (if 0 <= v <= 48 {
                v as i32
            } else {
                pins.backlight
            })
            &&& int_at(d, "/led_din"@) is None ==> r.led_din == pins.led_din
            &&& int_at(d, "/led_din"@) matches Some(v) ==> r.led_din == (if 0 <= v <= 48 {
                v as i32
            } else {
                pins.led_din
            })
            &&& int_at(d, "/race_screen"@) is None ==> r.race_screen == pins.race_screen
            &&& int_at(d, "/race_screen"@) == Some(1i64) ==> r.race_screen == 1
            &&& int_at(d, "/race_screen"@) matches Some(v) ==> (v != 1 ==> r.race_screen == 0)
            &&& int_at(d, "/led_rev"@) is None ==> r.led_rev == pins.led_rev
            &&& int_at(d, "/led_rev"@) matches Some(v) ==> r.led_rev == (if 0 <= v <= 64 {
                v as i32
            } else {
                pins.led_rev
            })
            &&& int_at(d, "/led_tc"@) is None ==> r.led_tc == pins.led_tc
            &&& int_at(d, "/led_tc"@) matches Some(v) ==> r.led_tc == (if 0 <= v <= 16 {
                v as i32
            } else {
                pins.led_tc
            })
            &&& int_at(d, "/led_abs"@) is None ==> r.led_abs == pins.led_abs
            &&& int_at(d, "/led_abs"@) matches Some(v) ==> r.led_abs == (if 0 <= v <= 16 {
                v as i32
            } else {
                pins.led_abs
            })
            &&& int_at(d, "/led_rgbw"@) is None ==> r.led_rgbw == pins.led_rgbw
            &&& int_at(d, "/led_rgbw"@) == Some(0i64) ==> r.led_rgbw == 0
            &&& int_at(d, "/led_rgbw"@) matches Some(v) ==> (v != 0 ==> r.led_rgbw == 1)
        }),
{
}

/// The pins of a board as it comes, and the LEDs that it has: twelve for the revs and two
/// for each assist, with a white channel.
pub proof fn boards_come_with_their_pins()
    ensures
        ({
            let p = stock_pins();
            &&& p.sclk == 7 && p.mosi == 9 && p.miso == 8 && p.dc == 2 && p.backlight == 4
            &&& p.disp1_cs == 1 && p.disp2_cs == 3
            &&& p.touch1_cs == 5 && p.touch2_cs == 6
            &&& p.led_din == 43
            &&& p.race_screen == 0
            &&& p.led_rev == 12 && p.led_tc == 2 && p.led_abs == 2
            &&& p.led_rgbw == 1
        }),
{
}

} // verus!
