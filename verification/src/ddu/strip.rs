//! The LED strip of the display unit: the rev lights, then those of traction control
//! and ABS.

use vstd::prelude::*;
use crate::ddu::pins::DevicePins;
use crate::pedals::led::Rgb;
use crate::shift::{rgb_fits, rgb_of, segment_rgb, CarData, RevCfg};
use crate::simhub::Telemetry;

verus! {

/// How the strip is laid out.
#[derive(Clone, Copy, Debug, PartialEq, Eq, Structural)]
pub struct StripLayout {
    pub rgbw: bool,
    pub rev_count: i32,
    pub tc_first: i32,
    pub tc_count: i32,
    pub abs_first: i32,
    pub abs_count: i32,
    pub led_count: i32,
}

/// A number, 0 where it is negative.
pub open spec fn at_least_0(v: int) -> int {
    if v < 0 {
        0
    } else {
        v
    }
}

/// The number of rev lights: 12 where none is set.
pub open spec fn rev_leds(p: DevicePins) -> int {
    if p.led_rev > 0 {
        p.led_rev as int
    } else {
        12
    }
}

/// The number of all LEDs.
pub open spec fn all_leds(p: DevicePins) -> int {
    rev_leds(p) + at_least_0(p.led_tc as int) + at_least_0(p.led_abs as int)
}

/// The layout that the pins ask for.
pub open spec fn layout_of(p: DevicePins) -> StripLayout {
    let rev = rev_leds(p);
    let tc = at_least_0(p.led_tc as int);
    let abs = at_least_0(p.led_abs as int);
    StripLayout {
        rgbw: p.led_rgbw != 0,
        rev_count: rev as i32,
        tc_first: rev as i32,
        tc_count: tc as i32,
        abs_first: (rev + tc) as i32,
        abs_count: abs as i32,
        led_count: (rev + tc + abs) as i32,
    }
}

/// Whether the strip that the pins ask for can be laid out at all.
pub fn can_lay_out(p: &DevicePins) -> (r: bool)
    ensures
        r == (all_leds(*p) <= i32::MAX),
{
    let rev: i64 = if p.led_rev > 0 {
        p.led_rev as i64
    } else {
        12
    };
    let tc: i64 = if p.led_tc > 0 {
        p.led_tc as i64
    } else {
        0
    };
    let abs: i64 = if p.led_abs > 0 {
        p.led_abs as i64
    } else {
        0
    };
    rev + tc + abs <= 2_147_483_647
}

impl StripLayout {
    /// The parts follow each other and fill the strip.
    pub open spec fn wf(self) -> bool {
        &&& self.rev_count > 0
        &&& self.tc_count >= 0
        &&& self.abs_count >= 0
        &&& self.tc_first == self.rev_count
        &&& self.abs_first == self.tc_first + self.tc_count
        &&& self.led_count == self.abs_first + self.abs_count
    }

    /// Lays the strip out.
    pub fn new(p: &DevicePins) -> (r: StripLayout)
        requires
            all_leds(*p) <= i32::MAX,
        ensures
            r == layout_of(*p),
            r.wf(),
    {
        let rev: i32 = if p.led_rev > 0 {
            p.led_rev
        } else {
            12
        };
        let tc: i32 = if p.led_tc > 0 {
            p.led_tc
        } else {
            0
        };
        let abs: i32 = if p.led_abs > 0 {
            p.led_abs
        } else {
            0
        };
        StripLayout {
            rgbw: p.led_rgbw != 0,
            rev_count: rev,
            tc_first: rev,
            tc_count: tc,
            abs_first: rev + tc,
            abs_count: abs,
            led_count: rev + tc + abs,
        }
    }
}

/// The channels of 0xRRGGBB.
pub open spec fn channels(c: u32) -> Rgb {
    Rgb { r: (c / 0x1_0000 % 256) as u8, g: (c / 0x100 % 256) as u8, b: (c % 256) as u8 }
}

/// The channels of 0xRRGGBB.
pub fn hex2rgb(c: u32) -> (r: Rgb)
    ensures
        r == channels(c),
{
    Rgb { r: (c / 0x1_0000 % 256) as u8, g: (c / 0x100 % 256) as u8, b: (c % 256) as u8 }
}

/// What an LED is sent.
#[derive(Clone, Copy, Debug, PartialEq, Eq, Structural)]
pub struct Pixel {
    pub r: u32,
    pub g: u32,
    pub b: u32,
}

/// A colour at a brightness in percent.
pub open spec fn dimmed(c: Rgb, bright: u8) -> Pixel {
    Pixel {
        r: (c.r * bright / 100) as u32,
        g: (c.g * bright / 100) as u32,
        b: (c.b * bright / 100) as u32,
    }
}

/// A colour at a brightness in percent.
pub fn dim(c: Rgb, bright: u8) -> (r: Pixel)
    ensures
        r == dimmed(c, bright),
{
    proof {
        assert(c.r * bright <= 255 * 255) by (nonlinear_arith)
            requires
                c.r <= 255,
                bright <= 255,
        ;
        assert(c.g * bright <= 255 * 255) by (nonlinear_arith)
            requires
                c.g <= 255,
                bright <= 255,
        ;
        assert(c.b * bright <= 255 * 255) by (nonlinear_arith)
            requires
                c.b <= 255,
                bright <= 255,
        ;
    }
    Pixel {
        r: c.r as u32 * bright as u32 / 100,
        g: c.g as u32 * bright as u32 / 100,
        b: c.b as u32 * bright as u32 / 100,
    }
}

/// Amber while traction control acts, dark otherwise.
pub open spec fn tc_colour(t: Telemetry) -> Rgb {
    if t.tc_active > 0 {
        Rgb { r: 255, g: 80, b: 0 }
    } else {
        Rgb { r: 0, g: 0, b: 0 }
    }
}

/// Blue while the ABS acts, dark otherwise.
pub open spec fn abs_colour(t: Telemetry) -> Rgb {
    if t.abs_active > 0 {
        Rgb { r: 0, g: 150, b: 255 }
    } else {
        Rgb { r: 0, g: 0, b: 0 }
    }
}

/// The rev bar that is shown where no car is loaded.
pub open spec fn stock_bar() -> RevCfg {
    RevCfg {
        start_pct: 50,
        flash_pct: 98,
        n_green: 6,
        n_red: 3,
        n_blue: 3,
        col_green: 0x00FF00,
        col_red: 0xFF0000,
        col_blue: 0x0050FF,
        col_flash: 0x0050FF,
    }
}

/// The colour of an LED of the strip.
pub open spec fn led_colour(l: StripLayout, t: Telemetry, car: CarData, now_ms: int, i: int) -> Rgb {
    if i < l.tc_first {
        channels(rgb_of(t, i, l.rev_count as int, stock_bar(), car, now_ms))
    } else if i < l.abs_first {
        tc_colour(t)
    } else {
        abs_colour(t)
    }
}

/// Whether the numbers of a frame stay within range.
pub open spec fn strip_fits(l: StripLayout, t: Telemetry, car: CarData) -> bool {
    forall|i: int|
        0 <= i < l.rev_count ==> #[trigger] rgb_fits(t, i, l.rev_count as int, stock_bar(), car)
}

/// Whether the numbers of a frame stay within range.
pub fn can_light_strip(l: &StripLayout, t: &Telemetry, car: &CarData) -> (r: bool)
    requires
        l.wf(),
        car.wf(),
    ensures
        r == strip_fits(*l, *t, *car),
{
    let cfg = RevCfg::default();
    let mut i: i32 = 0;
    while i < l.rev_count
        invariant
            0 <= i <= l.rev_count,
            car.wf(),
            cfg == stock_bar(),
            forall|j: int|
                0 <= j < i ==> #[trigger] rgb_fits(*t, j, l.rev_count as int, stock_bar(), *car),
        decreases l.rev_count - i,
    {
        if !crate::shift::can_light(t, i, l.rev_count, &cfg, car) {
            assert(!rgb_fits(*t, i as int, l.rev_count as int, stock_bar(), *car));
            return false;
        }
        i += 1;
    }
    true
}

/// What the LEDs of the strip are sent.
pub fn frame(l: &StripLayout, t: &Telemetry, car: &CarData, bright: u8, now_ms: i64) -> (px: Vec<Pixel>)
    requires
        l.wf(),
        car.wf(),
        strip_fits(*l, *t, *car),
    ensures
        px@ == Seq::new(
            l.led_count as nat,
            |i: int| dimmed(led_colour(*l, *t, *car, now_ms as int, i), bright),
        ),
{
    let cfg = RevCfg::default();
    let tc = if t.tc_active > 0 {
        Rgb { r: 255, g: 80, b: 0 }
    } else {
        Rgb { r: 0, g: 0, b: 0 }
    };
    let abs = if t.abs_active > 0 {
        Rgb { r: 0, g: 150, b: 255 }
    } else {
        Rgb { r: 0, g: 0, b: 0 }
    };
    let mut px: Vec<Pixel> = Vec::new();
    let mut i: i32 = 0;
    while i < l.led_count
        invariant
            0 <= i <= l.led_count,
            l.wf(),
            car.wf(),
            strip_fits(*l, *t, *car),
            cfg == stock_bar(),
            tc == tc_colour(*t),
            abs == abs_colour(*t),
            px@ == Seq::new(
                i as nat,
                |j: int| dimmed(led_colour(*l, *t, *car, now_ms as int, j), bright),
            ),
        decreases l.led_count - i,
    {
        let c = if i < l.tc_first {
            assert(rgb_fits(*t, i as int, l.rev_count as int, stock_bar(), *car));
            hex2rgb(segment_rgb(t, i, l.rev_count, &cfg, car, now_ms))
        } else if i < l.abs_first {
            tc
        } else {
            abs
        };
        px.push(dim(c, bright));
        i += 1;
        proof {
            assert(px@ =~= Seq::new(
                i as nat,
                |j: int| dimmed(led_colour(*l, *t, *car, now_ms as int, j), bright),
            ));
        }
    }
    px
}

/// A step of the self-test: all LEDs red, green, then blue; then a white one that
/// runs along the strip. Its colours and how long they are shown; `None` once the
/// test is over.
pub fn selftest_step(k: i32, led_count: i32) -> (r: Option<(Vec<Pixel>, u32)>)
    requires
        k >= 0,
        0 < led_count,
        led_count + 3 <= i32::MAX,
    ensures
        match r {
            Some((px, ms)) => k < 3 + led_count && px@ == selftest_pixels(
                k as int,
                led_count as nat,
            ) && ms == if k < 3 {
                220
            } else {
                45int
            },
            None => k >= 3 + led_count,
        },
{
    if k >= 3 + led_count {
        return None;
    }
    let mut px: Vec<Pixel> = Vec::new();
    let mut i: i32 = 0;
    while i < led_count
        invariant
            0 <= i <= led_count,
            k >= 0,
            px@ == selftest_pixels(k as int, led_count as nat).take(i as int),
        decreases led_count - i,
    {
        let ghost all = selftest_pixels(k as int, led_count as nat);
        let p = if k == 0 {
            Pixel { r: 255, g: 0, b: 0 }
        } else if k == 1 {
            Pixel { r: 0, g: 255, b: 0 }
        } else if k == 2 {
            Pixel { r: 0, g: 0, b: 255 }
        } else if i == k - 3 {
            Pixel { r: 255, g: 255, b: 255 }
        } else {
            Pixel { r: 0, g: 0, b: 0 }
        };
        px.push(p);
        proof {
            assert(all.take(i + 1) =~= all.take(i as int).push(all[i as int]));
        }
        i += 1;
    }
    proof {
        let all = selftest_pixels(k as int, led_count as nat);
        assert(all.take(led_count as int) =~= all);
    }
    Some(
        (
            px,
            if k < 3 {
                220
            } else {
                45
            },
        ),
    )
}

/// The colours of a step of the self-test.
pub open spec fn selftest_pixels(k: int, led_count: nat) -> Seq<Pixel> {
    Seq::new(
        led_count,
        |i: int|
            if k == 0 {
                Pixel { r: 255, g: 0, b: 0 }
            } else if k == 1 {
                Pixel { r: 0, g: 255, b: 0 }
            } else if k == 2 {
                Pixel { r: 0, g: 0, b: 255 }
            } else if i == k - 3 {
                Pixel { r: 255, g: 255, b: 255 }
            } else {
                Pixel { r: 0, g: 0, b: 0 }
            },
    )
}

/// At full brightness a colour is sent as it is, and never brighter at less.
pub proof fn dimming_only_dims(c: Rgb, bright: u8)
    requires
        bright <= 100,
    ensures
        dimmed(c, 100) == (Pixel { r: c.r as u32, g: c.g as u32, b: c.b as u32 }),
        dimmed(c, bright).r <= c.r,
        dimmed(c, bright).g <= c.g,
        dimmed(c, bright).b <= c.b,
{
    assert(c.r * bright <= c.r * 100) by (nonlinear_arith)
        requires
            bright <= 100,
            c.r >= 0,
    ;
    assert(c.g * bright <= c.g * 100) by (nonlinear_arith)
        requires
            bright <= 100,
            c.g >= 0,
    ;
    assert(c.b * bright <= c.b * 100) by (nonlinear_arith)
        requires
            bright <= 100,
            c.b >= 0,
    ;
    assert(0 <= c.r * bright && 0 <= c.g * bright && 0 <= c.b * bright) by (nonlinear_arith)
        requires
            c.r >= 0,
            c.g >= 0,
            c.b >= 0,
            bright >= 0,
    ;
}

/// The strip in parts, as the pins ask for it: first the rev lights, as many as are
/// set or else twelve, each in its colour of the rev bar; then the lights of
/// traction control, amber while it acts and dark otherwise; then those of the ABS,
/// blue while it acts and dark otherwise.
pub proof fn strip_parts_show_their_own(
    p: DevicePins,
    t: Telemetry,
    car: CarData,
    now_ms: int,
    i: int,
    rev: int,
)
    requires
        all_leds(p) <= i32::MAX,
        p.led_rev > 0 ==> rev == p.led_rev,
        p.led_rev <= 0 ==> rev == 12,
        p.led_tc >= 0,
        p.led_abs >= 0,
        0 <= i < rev + p.led_tc + p.led_abs,
    ensures
        ({
            let l = layout_of(p);
            let c = led_colour(l, t, car, now_ms, i);
            &&& l.led_count == rev + p.led_tc + p.led_abs
            &&& l.rgbw == (p.led_rgbw != 0)
            &&& i < rev ==> c.r * 0x1_0000 + c.g * 0x100 + c.b == rgb_of(
                t,
                i,
                rev,
                stock_bar(),
                car,
                now_ms,
            ) % 0x100_0000
            &&& rev <= i < rev + p.led_tc && t.tc_active > 0 ==> c.r == 255 && c.g == 80 && c.b == 0
            &&& rev <= i < rev + p.led_tc && t.tc_active <= 0 ==> c.r == 0 && c.g == 0 && c.b == 0
            &&& rev + p.led_tc <= i && t.abs_active > 0 ==> c.r == 0 && c.g == 150 && c.b == 255
            &&& rev + p.led_tc <= i && t.abs_active <= 0 ==> c.r == 0 && c.g == 0 && c.b == 0
        }),
{
    let v = rgb_of(t, i, rev, stock_bar(), car, now_ms);
    assert((v / 0x1_0000 % 256) * 0x1_0000 + (v / 0x100 % 256) * 0x100 + v % 256 == v % 0x100_0000);
}

/// Each channel is dimmed by itself: it is sent as the share of it that the
/// brightness is of 100, rounded down.
pub proof fn channels_are_dimmed_alike(c: Rgb, bright: u8)
    ensures
        ({
            let p = dimmed(c, bright);
            &&& 100 * p.r <= c.r * bright < 100 * p.r + 100
            &&& 100 * p.g <= c.g * bright < 100 * p.g + 100
            &&& 100 * p.b <= c.b * bright < 100 * p.b + 100
        }),
{
    assert(0 <= c.r * bright <= 65025 && 0 <= c.g * bright <= 65025 && 0 <= c.b * bright <= 65025)
        by (nonlinear_arith)
        requires
            0 <= c.r <= 255,
            0 <= c.g <= 255,
            0 <= c.b <= 255,
            0 <= bright <= 255,
    ;
}

/// The self-test lights every LED in red, in green and in blue, and then each LED
/// in turn in white while all the others are dark.
pub proof fn selftest_lights_every_led(k: int, i: int, n: nat)
    requires
        0 <= i < n,
        0 <= k < 3 + n,
    ensures
        ({
            let p = selftest_pixels(k, n)[i];
            &&& selftest_pixels(k, n).len() == n
            &&& p.r == 255 <==> k == 0 || k == 3 + i
            &&& p.g == 255 <==> k == 1 || k == 3 + i
            &&& p.b == 255 <==> k == 2 || k == 3 + i
            &&& p.r != 255 ==> p.r == 0
            &&& p.g != 255 ==> p.g == 0
            &&& p.b != 255 ==> p.b == 0
        }),
{
}

/// The bar as it comes: it starts at half the shift speed and flashes at 98 percent of
/// it; six LEDs are green, three red and three blue, and it flashes blue.
pub proof fn bars_come_with_three_colours()
    ensures
        ({
            let b = stock_bar();
            &&& b.start_pct == 50 && b.flash_pct == 98
            &&& b.n_green == 6 && b.n_red == 3 && b.n_blue == 3
            &&& b.n_green + b.n_red + b.n_blue == 12
            &&& b.col_green == 0x00FF00 && b.col_red == 0xFF0000 && b.col_blue == 0x0050FF
            &&& b.col_flash == b.col_blue
        }),
{
}

} // verus!
