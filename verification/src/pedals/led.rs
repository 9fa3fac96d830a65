//! The status LED of the pedal board: one colour per state, and a heartbeat.

use vstd::prelude::*;

verus! {

/// A colour.
#[derive(Clone, Copy, Debug, PartialEq, Eq, Structural)]
pub struct Rgb {
    pub r: u8,
    pub g: u8,
    pub b: u8,
}

/// The colour of a state: purple while an update runs, red while the drive is
/// armed, green with a host, yellow without one.
pub open spec fn state_colour(ota: bool, armed: bool, mounted: bool) -> Rgb {
    if ota {
        Rgb { r: 40, g: 0, b: 40 }
    } else if armed {
        Rgb { r: 60, g: 0, b: 0 }
    } else if mounted {
        Rgb { r: 0, g: 50, b: 0 }
    } else {
        Rgb { r: 50, g: 40, b: 0 }
    }
}

/// The colour of a board that has started but does not run its loop yet: white.
pub open spec fn boot_colour() -> Rgb {
    Rgb { r: 40, g: 40, b: 40 }
}

/// Dark.
pub open spec fn dark() -> Rgb {
    Rgb { r: 0, g: 0, b: 0 }
}

/// The heartbeat: the last tenth of every second is dark.
pub open spec fn beat_on(now_ms: int) -> bool {
    now_ms < 0 || now_ms / 100 % 10 != 9
}

/// The LED, by the colour it shows.
#[derive(Clone, Copy, Debug, PartialEq, Eq, Structural)]
pub struct Led {
    pub cur: Rgb,
}

impl Led {
    /// The LED at power-up, dark.
    pub fn new() -> (r: Led)
        ensures
            r.cur == dark(),
    {
        Led { cur: Rgb { r: 0, g: 0, b: 0 } }
    }

    /// The LED of a board that starts, and the colour to show before anything else is
    /// done, so that a crash during the start can be told from one that never began.
    pub fn boot() -> (r: (Led, Rgb))
        ensures
            r.0.cur == boot_colour(),
            r.1 == boot_colour(),
    {
        let white = Rgb { r: 40, g: 40, b: 40 };
        let mut led = Led::new();
        led.show(white);
        (led, white)
    }

    /// The colour to show; `None` where it is shown already.
    pub fn show(&mut self, rgb: Rgb) -> (r: Option<Rgb>)
        ensures
            final(self).cur == rgb,
            r == if old(self).cur == rgb {
                None
            } else {
                Some(rgb)
            },
    {
        if self.cur == rgb {
            None
        } else {
            self.cur = rgb;
            Some(rgb)
        }
    }

    /// The colour to show now; `None` where it is shown already.
    pub fn tick(&mut self, now_ms: i64, ota: bool, armed: bool, mounted: bool) -> (r: Option<Rgb>)
        ensures
            final(self).cur == if beat_on(now_ms as int) {
                state_colour(ota, armed, mounted)
            } else {
                dark()
            },
            r == if final(self).cur == old(self).cur {
                None
            } else {
                Some(final(self).cur)
            },
    {
        let base = if ota {
            Rgb { r: 40, g: 0, b: 40 }
        } else if armed {
            Rgb { r: 60, g: 0, b: 0 }
        } else if mounted {
            Rgb { r: 0, g: 50, b: 0 }
        } else {
            Rgb { r: 50, g: 40, b: 0 }
        };
        if now_ms < 0 || now_ms / 100 % 10 != 9 {
            self.show(base)
        } else {
            self.show(Rgb { r: 0, g: 0, b: 0 })
        }
    }
}

/// The colours of the states differ from each other, from that of the start and from
/// dark, so that the state can be told from the LED.
pub proof fn colours_tell_states_apart(
    ota: bool,
    armed: bool,
    mounted: bool,
    ota2: bool,
    armed2: bool,
    mounted2: bool,
)
    ensures
        boot_colour() != dark(),
        state_colour(ota, armed, mounted) != dark(),
        state_colour(ota, armed, mounted) != boot_colour(),
        state_colour(ota, armed, mounted) == state_colour(ota2, armed2, mounted2) ==> ota == ota2
            && (!ota ==> armed == armed2) && (!ota && !armed ==> mounted == mounted2),
{
}

/// The colours of the states: purple for an update whatever else is, red for an armed
/// drive, green with a host and yellow without. They blink: the LED is dark for the
/// last 100 of every 1000 milliseconds.
pub proof fn states_have_their_colours(armed: bool, mounted: bool, s: int, ms: int)
    requires
        s >= 0,
        0 <= ms < 1000,
    ensures
        ({
            let c = state_colour(true, armed, mounted);
            c.r > 0 && c.g == 0 && c.b == c.r
        }),
        ({
            let c = state_colour(false, true, mounted);
            c.r > 0 && c.g == 0 && c.b == 0
        }),
        ({
            let c = state_colour(false, false, true);
            c.r == 0 && c.g > 0 && c.b == 0
        }),
        ({
            let c = state_colour(false, false, false);
            c.r > 0 && c.g > 0 && c.b == 0
        }),
        beat_on(1000 * s + ms) <==> ms < 900,
{
    assert((1000 * s + ms) / 100 == 10 * s + ms / 100);
}

/// The shades of the states, none of them at full brightness: purple, red, green and
/// yellow; white while it boots, and nothing where it is dark.
pub proof fn states_have_their_shades(armed: bool, mounted: bool)
    ensures
        state_colour(true, armed, mounted) == (Rgb { r: 40, g: 0, b: 40 }),
        state_colour(false, true, mounted) == (Rgb { r: 60, g: 0, b: 0 }),
        state_colour(false, false, true) == (Rgb { r: 0, g: 50, b: 0 }),
        state_colour(false, false, false) == (Rgb { r: 50, g: 40, b: 0 }),
        boot_colour() == (Rgb { r: 40, g: 40, b: 40 }),
        dark() == (Rgb { r: 0, g: 0, b: 0 }),
{
}

} // verus!
