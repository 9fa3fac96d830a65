//! Shift lights: the colour of each rev-bar LED for the current telemetry. The
//! time is an argument, so the LED strip and the on-screen strip that share this
//! function strobe together.

use vstd::prelude::*;
use crate::format::{clamped, tdiv};
use crate::simhub::Telemetry;

verus! {

/// The physical rev LEDs.
pub const CAR_LED_MAX: usize = 12;

/// The gears a car has data for: R, N, 1..9.
pub const CAR_GEARS: usize = 11;

/// Half the period of the shift-light flash.
pub const FLASH_MS: i64 = 100;

/// The progressive rev bar that is shown where no car is loaded. Colours are 0xRRGGBB.
#[derive(Clone, Copy, Debug, PartialEq, Eq, Structural)]
pub struct RevCfg {
    /// The bar starts to light here (% of the shift RPM).
    pub start_pct: u8,
    /// The whole bar strobes from here on.
    pub flash_pct: u8,
    pub n_green: u8,
    pub n_red: u8,
    pub n_blue: u8,
    pub col_green: u32,
    pub col_red: u32,
    pub col_blue: u32,
    pub col_flash: u32,
}

impl Default for RevCfg {
    /// Fills from half the shift RPM and strobes blue at the top.
    fn default() -> (r: RevCfg)
        ensures
            r == (RevCfg {
                start_pct: 50,
                flash_pct: 98,
                n_green: 6,
                n_red: 3,
                n_blue: 3,
                col_green: 0x00FF00,
                col_red: 0xFF0000,
                col_blue: 0x0050FF,
                col_flash: 0x0050FF,
            }),
    {
        RevCfg {
            start_pct: 50,
            flash_pct: 98,
            n_green: 6,
            n_red: 3,
            n_blue: 3,
            col_green: 0x00FF00,
            col_red: 0xFF0000,
            col_blue: 0x0050FF,
            col_flash: 0x0050FF,
        }
    }
}

/// The shift-light data of one car. Invalid until a car is loaded.
#[derive(Clone, Debug)]
pub struct CarData {
    pub valid: bool,
    /// At most [`CAR_LED_MAX`].
    pub led_count: usize,
    /// The interval of the redline blink; 0 for a car that does not blink.
    pub blink_ms: u16,
    /// The colour of each LED.
    pub led_color: [u32; 12],
    /// The redline of each gear.
    pub redline: [u16; 11],
    /// The RPM from which an LED is lit, per gear and LED; 0 for never.
    pub thresh: [[u16; 12]; 11],
    pub name: String,
}

/// The shift-light data of a car as plain values.
pub struct CarDataView {
    pub valid: bool,
    pub led_count: int,
    pub blink_ms: u16,
    pub led_color: Seq<u32>,
    pub redline: Seq<u16>,
    pub thresh: Seq<Seq<u16>>,
    pub name: Seq<char>,
}

impl View for CarData {
    type V = CarDataView;

    open spec fn view(&self) -> CarDataView {
        CarDataView {
            valid: self.valid,
            led_count: self.led_count as int,
            blink_ms: self.blink_ms,
            led_color: self.led_color@,
            redline: self.redline@,
            thresh: Seq::new(11, |g: int| self.thresh@[g]@),
            name: self.name@,
        }
    }
}

impl CarData {
    /// A valid car has no more LEDs than the strip.
    pub open spec fn wf(self) -> bool {
        self.led_count <= CAR_LED_MAX
    }
}

/// No car: not valid, without a name, LEDs, colours or thresholds.
pub open spec fn no_car() -> CarDataView {
    CarDataView {
        valid: false,
        led_count: 0,
        blink_ms: 100,
        led_color: Seq::new(12, |i: int| 0u32),
        redline: Seq::new(11, |i: int| 0u16),
        thresh: Seq::new(11, |g: int| Seq::new(12, |i: int| 0u16)),
        name: ""@,
    }
}

impl Default for CarData {
    fn default() -> (r: CarData)
        ensures
            r.wf(),
            r@ == no_car(),
    {
        let r = CarData {
            valid: false,
            led_count: 0,
            blink_ms: 100,
            led_color: [0; 12],
            redline: [0; 11],
            thresh: [[0; 12]; 11],
            name: String::new(),
        };
        proof {
            reveal_strlit("");
            assert(r.name@ =~= ""@);
            assert(r.led_color@ =~= Seq::new(12, |i: int| 0u32));
            assert(r.redline@ =~= Seq::new(11, |i: int| 0u16));
            assert forall|g: int| 0 <= g < 11 implies (#[trigger] r.thresh@[g])@ == Seq::new(
                12,
                |i: int| 0u16,
            ) by {
                assert(r.thresh@[g]@ =~= Seq::new(12, |i: int| 0u16));
            }
            assert(r@.thresh =~= no_car().thresh);
        }
        r
    }
}

/// The place of a gear byte among the gears: R, N, 1..9. Anything else counts as
/// neutral.
pub open spec fn gear_place(g: u8) -> int {
    if g == 0x52 {
        0
    } else if 0x31 <= g <= 0x39 {
        2 + (g - 0x31)
    } else {
        1
    }
}

/// The place of a gear byte among the gears.
pub fn gear_index(g: u8) -> (r: usize)
    ensures
        r == gear_place(g),
        r < CAR_GEARS,
{
    if g == 0x52 {
        0
    } else if 0x31 <= g && g <= 0x39 {
        2 + (g - 0x31) as usize
    } else {
        1
    }
}

/// The shift RPM: the reported value, else 93 % of the maximum; 0 where neither
/// is plausible.
pub open spec fn shift_rpm(t: Telemetry) -> int {
    if t.shift_rpm > 4200 {
        t.shift_rpm as int
    } else if t.max_rpm > 4200 {
        t.max_rpm * 93 / 100
    } else {
        0
    }
}

/// The shift RPM can be computed in 32 bits.
pub open spec fn shift_rpm_fits(t: Telemetry) -> bool {
    t.shift_rpm <= 4200 && t.max_rpm > 4200 ==> t.max_rpm * 93 <= i32::MAX
}

/// The shift RPM.
pub fn shift_rpm_of(t: &Telemetry) -> (r: i32)
    requires
        shift_rpm_fits(*t),
    ensures
        r == shift_rpm(*t),
        r >= 0,
{
    if t.shift_rpm > 4200 {
        t.shift_rpm
    } else if t.max_rpm > 4200 {
        t.max_rpm * 93 / 100
    } else {
        0
    }
}

/// A strobe of half-period `half` is on at `now`.
pub open spec fn strobe_on(now: int, half: int) -> bool {
    tdiv(now, half) % 2 != 0
}

/// How far the LEDs of a car with fewer LEDs than the strip are moved in, to
/// stand in the middle.
pub open spec fn lead_in(count: int, led_count: int) -> int {
    if count > led_count {
        (count - led_count) / 2
    } else {
        0
    }
}

/// The colour of LED `i` of `count` for a loaded car: at or over the redline the
/// whole bar blinks (or holds, where the car does not blink); below it an LED
/// is lit from its threshold on.
pub open spec fn car_rgb(t: Telemetry, i: int, count: int, car: CarData, now_ms: int) -> u32 {
    let g = gear_place(t.gear);
    let rl = car.redline@[g] as int;
    let ci = i - lead_in(count, car.led_count as int);
    if !(0 <= ci < car.led_count) {
        0
    } else if rl > 0 && t.rpm >= rl {
        if car.blink_ms == 0 || strobe_on(now_ms, car.blink_ms as int) {
            car.led_color@[ci]
        } else {
            0
        }
    } else if car.thresh@[g]@[ci] > 0 && t.rpm >= car.thresh@[g]@[ci] {
        car.led_color@[ci]
    } else {
        0
    }
}

/// The RPM at which the bar starts to light.
pub open spec fn start_rpm(shift: int, start_pct: int) -> int {
    shift * start_pct / 100
}

/// How many LEDs of `count` the bar has lit.
pub open spec fn lit_count(rpm: int, shift: int, start_pct: int, count: int) -> int {
    let start = start_rpm(shift, start_pct);
    let span = shift - start;
    if span > 0 {
        clamped(tdiv((rpm - start) * count, span), 0, count)
    } else {
        0
    }
}

/// The engine speed in percent of the shift RPM; 0 where there is no shift RPM.
pub open spec fn shift_pct(rpm: int, shift: int) -> int {
    if shift > 0 {
        tdiv(rpm * 100, shift)
    } else {
        0
    }
}

/// The colour of LED `i` of `count` of the progressive bar.
pub open spec fn bar_rgb(t: Telemetry, i: int, count: int, cfg: RevCfg, now_ms: int) -> u32 {
    let shift = shift_rpm(t);
    if shift_pct(t.rpm as int, shift) >= cfg.flash_pct {
        if strobe_on(now_ms, FLASH_MS as int) {
            cfg.col_flash
        } else {
            0
        }
    } else if i >= lit_count(t.rpm as int, shift, cfg.start_pct as int, count) {
        0
    } else if i < cfg.n_green {
        cfg.col_green
    } else if i < cfg.n_green + cfg.n_red {
        cfg.col_red
    } else {
        cfg.col_blue
    }
}

/// The colour of LED `i` of a rev bar of `count` LEDs; 0 is off.
pub open spec fn rgb_of(
    t: Telemetry,
    i: int,
    count: int,
    cfg: RevCfg,
    car: CarData,
    now_ms: int,
) -> u32 {
    if count <= 0 {
        0
    } else if car.valid {
        car_rgb(t, i, count, car, now_ms)
    } else {
        bar_rgb(t, i, count, cfg, now_ms)
    }
}

/// `v` is within 32 bits.
pub open spec fn in_i32(v: int) -> bool {
    i32::MIN <= v <= i32::MAX
}

/// The colours of the progressive bar can be computed in 32 bits.
pub open spec fn bar_fits(t: Telemetry, count: int, cfg: RevCfg) -> bool {
    let shift = shift_rpm(t);
    let start = start_rpm(shift, cfg.start_pct as int);
    &&& shift_rpm_fits(t)
    &&& in_i32(shift * cfg.start_pct)
    &&& shift > start ==> in_i32(t.rpm - start) && in_i32((t.rpm - start) * count)
    &&& shift > 0 ==> in_i32(t.rpm * 100)
}

/// The colour can be computed in 32 bits.
pub open spec fn rgb_fits(t: Telemetry, i: int, count: int, cfg: RevCfg, car: CarData) -> bool {
    if count <= 0 {
        true
    } else if car.valid {
        in_i32(i - lead_in(count, car.led_count as int))
    } else {
        bar_fits(t, count, cfg)
    }
}

/// Whether a 64-bit value is within 32 bits.
fn within(v: i64) -> (r: bool)
    ensures
        r == in_i32(v as int),
{
    -2_147_483_648 <= v && v <= 2_147_483_647
}

/// Whether the colour can be computed in 32 bits.
pub fn can_light(t: &Telemetry, i: i32, count: i32, cfg: &RevCfg, car: &CarData) -> (r: bool)
    requires
        car.wf(),
    ensures
        r == rgb_fits(*t, i as int, count as int, *cfg, *car),
{
    if count <= 0 {
        return true;
    }
    if car.valid {
        let led: i32 = car.led_count as i32;
        let off: i32 = if count > led {
            (count - led) / 2
        } else {
            0
        };
        return within(i as i64 - off as i64);
    }
    if t.shift_rpm <= 4200 && t.max_rpm > 4200 && !within(t.max_rpm as i64 * 93) {
        return false;
    }
    let shift: i64 = shift_rpm_of(t) as i64;
    proof {
        assert(0 <= shift * cfg.start_pct <= 2_147_483_647 * 255) by (nonlinear_arith)
            requires
                0 <= shift <= 2_147_483_647,
                0 <= cfg.start_pct <= 255,
        ;
    }
    let scaled: i64 = shift * cfg.start_pct as i64;
    if !within(scaled) {
        return false;
    }
    let start: i64 = scaled / 100;
    if shift > start {
        let over: i64 = t.rpm as i64 - start;
        if !within(over) {
            return false;
        }
        proof {
            assert(-2_147_483_648 * 2_147_483_647 <= over * count <= 2_147_483_647 * 2_147_483_647)
                by (nonlinear_arith)
                requires
                    -2_147_483_648 <= over <= 2_147_483_647,
                    0 < count <= 2_147_483_647,
            ;
        }
        if !within(over * count as i64) {
            return false;
        }
    }
    shift <= 0 || within(t.rpm as i64 * 100)
}

/// Whether a strobe of half-period `half` is on at `now`.
fn strobe(now: i64, half: i64) -> (r: bool)
    requires
        half > 0,
    ensures
        r == strobe_on(now as int, half as int),
{
    let q: i64 = now / half;
    q % 2 != 0
}

/// The colour (0xRRGGBB, 0 is off) of LED `i` of a rev bar of `count` LEDs: a
/// loaded car's own thresholds and colours, or else the progressive bar `cfg`.
pub fn segment_rgb(
    t: &Telemetry,
    i: i32,
    count: i32,
    cfg: &RevCfg,
    car: &CarData,
    now_ms: i64,
) -> (r: u32)
    requires
        car.wf(),
        rgb_fits(*t, i as int, count as int, *cfg, *car),
    ensures
        r == rgb_of(*t, i as int, count as int, *cfg, *car, now_ms as int),
{
    if count <= 0 {
        return 0;
    }
    if car.valid {
        let gi = gear_index(t.gear);
        let rl: i32 = car.redline[gi] as i32;
        let led: i32 = car.led_count as i32;
        let off: i32 = if count > led {
            (count - led) / 2
        } else {
            0
        };
        let ci: i32 = i - off;
        if ci < 0 || ci >= led {
            return 0;
        }
        let c: usize = ci as usize;
        if rl > 0 && t.rpm >= rl {
            return if car.blink_ms == 0 || strobe(now_ms, car.blink_ms as i64) {
                car.led_color[c]
            } else {
                0
            };
        }
        let th: u16 = car.thresh[gi][c];
        return if th > 0 && t.rpm >= th as i32 {
            car.led_color[c]
        } else {
            0
        };
    }
    let shift: i32 = shift_rpm_of(t);
    let start: i32 = shift * cfg.start_pct as i32 / 100;
    proof {
        assert(shift * cfg.start_pct >= 0) by (nonlinear_arith)
            requires
                shift >= 0,
                cfg.start_pct >= 0,
        ;
    }
    let span: i32 = shift - start;
    let mut lit: i32 = 0;
    if span > 0 {
        let q: i32 = (t.rpm - start) * count / span;
        lit = if q < 0 {
            0
        } else if q > count {
            count
        } else {
            q
        };
    }
    let pct: i32 = if shift > 0 {
        t.rpm * 100 / shift
    } else {
        0
    };
    if pct >= cfg.flash_pct as i32 {
        return if strobe(now_ms, FLASH_MS) {
            cfg.col_flash
        } else {
            0
        };
    }
    if i >= lit {
        0
    } else if i < cfg.n_green as i32 {
        cfg.col_green
    } else if i < cfg.n_green as i32 + cfg.n_red as i32 {
        cfg.col_red
    } else {
        cfg.col_blue
    }
}

/// Revving up never puts out an LED of the progressive bar before it flashes:
/// the number of lit LEDs grows with the engine speed.
pub proof fn rev_bar_grows(rpm1: int, rpm2: int, shift: int, start_pct: int, count: int)
    requires
        rpm1 <= rpm2,
        count >= 0,
    ensures
        lit_count(rpm1, shift, start_pct, count) <= lit_count(rpm2, shift, start_pct, count),
{
    let start = start_rpm(shift, start_pct);
    let span = shift - start;
    if span > 0 {
        let a = (rpm1 - start) * count;
        let b = (rpm2 - start) * count;
        assert(a <= b) by (nonlinear_arith)
            requires
                a == (rpm1 - start) * count,
                b == (rpm2 - start) * count,
                rpm1 <= rpm2,
                count >= 0,
        ;
        lemma_tdiv_ordered(a, b, span);
    }
}

/// Rounding toward zero keeps the order.
proof fn lemma_tdiv_ordered(a: int, b: int, d: int)
    requires
        a <= b,
        d > 0,
    ensures
        tdiv(a, d) <= tdiv(b, d),
{
    if a >= 0 {
        vstd::arithmetic::div_mod::lemma_div_is_ordered(a, b, d);
    } else if b < 0 {
        vstd::arithmetic::div_mod::lemma_div_is_ordered(-b, -a, d);
    } else {
        vstd::arithmetic::div_mod::lemma_div_pos_is_pos(-a, d);
        vstd::arithmetic::div_mod::lemma_div_pos_is_pos(b, d);
    }
}

// -------------------------------------------------------------------- laws

/// `n` is the whole part of `a / d`, for numbers that are not negative.
proof fn lemma_part_is(a: int, d: int, n: int)
    requires
        d > 0,
        n * d <= a < (n + 1) * d,
    ensures
        a / d == n,
{
    let r = a - n * d;
    assert((n + 1) * d == n * d + d) by (nonlinear_arith);
    assert(a == d * n + r) by (nonlinear_arith)
        requires
            r == a - n * d,
    ;
    vstd::arithmetic::div_mod::lemma_fundamental_div_mod_converse(a, d, n, r);
}

/// A quotient reaches a number above 0 exactly where the dividend reaches that many
/// times the divisor.
proof fn lemma_quotient_reaches(a: int, d: int, n: int)
    requires
        d > 0,
        n > 0,
    ensures
        tdiv(a, d) >= n <==> a >= n * d,
{
    if a >= 0 {
        let q = a / d;
        vstd::arithmetic::div_mod::lemma_fundamental_div_mod(a, d);
        vstd::arithmetic::div_mod::lemma_mod_bound(a, d);
        assert(q >= n <==> a >= n * d) by (nonlinear_arith)
            requires
                a == d * q + a % d,
                0 <= a % d < d,
                d > 0,
        ;
    } else {
        vstd::arithmetic::div_mod::lemma_div_pos_is_pos(-a, d);
        assert(n * d > 0) by (nonlinear_arith)
            requires
                n > 0,
                d > 0,
        ;
    }
}

/// A strobe is off for its first half-period, on for the second, and so on in turn.
pub proof fn strobes_alternate(now: int, half: int, k: int)
    requires
        half > 0,
        k >= 0,
        k * half <= now < (k + 1) * half,
    ensures
        strobe_on(now, half) <==> k % 2 == 1,
        strobe_on(now + half, half) <==> !strobe_on(now, half),
{
    lemma_part_is(now, half, k);
    assert((k + 1) * half <= now + half < (k + 2) * half && now >= 0) by (nonlinear_arith)
        requires
            k * half <= now < (k + 1) * half,
            k >= 0,
            half > 0,
    ;
    lemma_part_is(now + half, half, k + 1);
}

/// The lights of a loaded car. `lead` LEDs of the strip stay dark on the left, half
/// of those the car does not use, rounded down; behind them stand the car's LEDs in
/// order. `g` is the place of the gear: reverse, neutral, first to ninth. Below the
/// redline an LED of the car shows its own colour from its own threshold for the
/// gear on and is dark before that, or always where it has no threshold. From the
/// redline on every LED shows its own colour, at all times where the car does not
/// blink and otherwise in every second interval.
pub proof fn car_leds_show_their_colours(
    t: Telemetry,
    i: int,
    count: int,
    cfg: RevCfg,
    car: CarData,
    now_ms: int,
    lead: int,
    g: int,
)
    requires
        car.valid,
        car.wf(),
        0 < count,
        0 <= i < count,
        count > car.led_count ==> 2 * lead <= count - car.led_count < 2 * lead + 2,
        count <= car.led_count ==> lead == 0,
        t.gear == 'R' as u8 ==> g == 0,
        '1' as u8 <= t.gear <= '9' as u8 ==> g == 2 + (t.gear - '1' as u8),
        t.gear != 'R' as u8 && !('1' as u8 <= t.gear <= '9' as u8) ==> g == 1,
    ensures
        ({
            let r = rgb_of(t, i, count, cfg, car, now_ms);
            let own = i - lead;
            let redline = car.redline@[g];
            let over = redline > 0 && t.rpm >= redline;
            let from = car.thresh@[g]@[own];
            &&& own < 0 || own >= car.led_count ==> r == 0
            &&& 0 <= own < car.led_count && !over && from > 0 && t.rpm >= from ==> r
                == car.led_color@[own]
            &&& 0 <= own < car.led_count && !over && (from == 0 || t.rpm < from) ==> r == 0
            &&& 0 <= own < car.led_count && over && car.blink_ms == 0 ==> r == car.led_color@[own]
            &&& 0 <= own < car.led_count && over && car.blink_ms > 0 ==> r == (if strobe_on(
                now_ms,
                car.blink_ms as int,
            ) {
                car.led_color@[own]
            } else {
                0
            })
        }),
{
    assert(lead_in(count, car.led_count as int) == lead);
    assert(gear_place(t.gear) == g);
}

/// Two LEDs of a loaded car that are lit at one time and whose colours differ show
/// different colours.
pub proof fn lit_leds_keep_apart(
    t: Telemetry,
    i: int,
    j: int,
    count: int,
    cfg: RevCfg,
    car: CarData,
    now_ms: int,
    lead: int,
)
    requires
        car.valid,
        car.wf(),
        0 < count,
        count > car.led_count ==> 2 * lead <= count - car.led_count < 2 * lead + 2,
        count <= car.led_count ==> lead == 0,
        lead <= i < lead + car.led_count,
        lead <= j < lead + car.led_count,
        car.led_color@[i - lead] != car.led_color@[j - lead],
        rgb_of(t, i, count, cfg, car, now_ms) != 0,
        rgb_of(t, j, count, cfg, car, now_ms) != 0,
    ensures
        rgb_of(t, i, count, cfg, car, now_ms) != rgb_of(t, j, count, cfg, car, now_ms),
        rgb_of(t, i, count, cfg, car, now_ms) == car.led_color@[i - lead],
{
    assert(lead_in(count, car.led_count as int) == lead);
}

/// The progressive bar. `shift` is the reported shift RPM, or else 93 % of the
/// maximum, and `start` the configured share of it, both rounded down. Before it
/// flashes, LED `i` of `count` is lit exactly where the engine has gone through
/// `i + 1` of `count` equal parts of the way from `start` to `shift`. The first
/// lit LEDs are green, the next red, the last blue.
pub proof fn bar_fills_in_proportion(
    t: Telemetry,
    i: int,
    count: int,
    cfg: RevCfg,
    car: CarData,
    now_ms: int,
    shift: int,
    start: int,
)
    requires
        !car.valid,
        0 <= i < count,
        t.shift_rpm > 4200 ==> shift == t.shift_rpm,
        t.shift_rpm <= 4200 && t.max_rpm > 4200 ==> 100 * shift <= t.max_rpm * 93 < 100 * shift + 100,
        t.shift_rpm > 4200 || t.max_rpm > 4200,
        100 * start <= shift * cfg.start_pct < 100 * start + 100,
        start < shift,
        cfg.flash_pct > 0,
        t.rpm * 100 < cfg.flash_pct * shift,
    ensures
        ({
            let r = rgb_of(t, i, count, cfg, car, now_ms);
            let lit = (t.rpm - start) * count >= (i + 1) * (shift - start);
            &&& !lit ==> r == 0
            &&& lit && i < cfg.n_green ==> r == cfg.col_green
            &&& lit && cfg.n_green <= i < cfg.n_green + cfg.n_red ==> r == cfg.col_red
            &&& lit && i >= cfg.n_green + cfg.n_red ==> r == cfg.col_blue
        }),
{
    assert(shift_rpm(t) == shift);
    assert(start_rpm(shift, cfg.start_pct as int) == start);
    lemma_quotient_reaches(t.rpm * 100, shift, cfg.flash_pct as int);
    lemma_quotient_reaches((t.rpm - start) * count, shift - start, i + 1);
}

/// From the configured share of the shift RPM on, the whole progressive bar shows
/// the flash colour for 100 ms in every 200 ms and is dark between.
pub proof fn bar_flashes(
    t: Telemetry,
    i: int,
    count: int,
    cfg: RevCfg,
    car: CarData,
    now_ms: int,
    shift: int,
)
    requires
        !car.valid,
        0 < count,
        t.shift_rpm > 4200 ==> shift == t.shift_rpm,
        t.shift_rpm <= 4200 && t.max_rpm > 4200 ==> 100 * shift <= t.max_rpm * 93 < 100 * shift + 100,
        t.shift_rpm > 4200 || t.max_rpm > 4200,
        cfg.flash_pct > 0,
        t.rpm * 100 >= cfg.flash_pct * shift,
    ensures
        rgb_of(t, i, count, cfg, car, now_ms) == if strobe_on(now_ms, 100) {
            cfg.col_flash
        } else {
            0
        },
{
    assert(shift_rpm(t) == shift);
    lemma_quotient_reaches(t.rpm * 100, shift, cfg.flash_pct as int);
}

/// Without a plausible shift RPM and maximum the progressive bar stays dark.
pub proof fn bar_needs_a_shift_rpm(
    t: Telemetry,
    i: int,
    count: int,
    cfg: RevCfg,
    car: CarData,
    now_ms: int,
)
    requires
        !car.valid,
        t.shift_rpm <= 4200,
        t.max_rpm <= 4200,
        cfg.flash_pct > 0,
        i >= 0,
    ensures
        rgb_of(t, i, count, cfg, car, now_ms) == 0,
{
    assert(0 * (cfg.start_pct as int) == 0) by (nonlinear_arith);
}

/// Without a car there is no LED, every threshold is 0, and the blinking has its usual
/// pace of 100 milliseconds.
pub proof fn no_car_lights_nothing(gear: int, i: int)
    requires
        0 <= gear < 11,
        0 <= i < 12,
    ensures
        ({
            let c = no_car();
            &&& !c.valid && c.led_count == 0 && c.blink_ms == 100
            &&& c.led_color.len() == 12 && c.led_color[i] == 0
            &&& c.redline.len() == 11 && c.redline[gear] == 0
            &&& c.thresh.len() == 11 && c.thresh[gear].len() == 12 && c.thresh[gear][i] == 0
            &&& c.name.len() == 0
        }),
{
    reveal_strlit("");
}

/// Where there are no segments, none is lit; with some, a valid car has them show its
/// own thresholds, and without one they show the bar.
pub proof fn segments_follow_the_car(
    t: Telemetry,
    i: int,
    count: int,
    cfg: RevCfg,
    car: CarData,
    now_ms: int,
)
    ensures
        count <= 0 ==> rgb_of(t, i, count, cfg, car, now_ms) == 0,
        count > 0 && car.valid ==> rgb_of(t, i, count, cfg, car, now_ms) == car_rgb(
            t,
            i,
            count,
            car,
            now_ms,
        ),
        count > 0 && !car.valid ==> rgb_of(t, i, count, cfg, car, now_ms) == bar_rgb(
            t,
            i,
            count,
            cfg,
            now_ms,
        ),
{
}

/// The places of the gears in a car's lists: reverse, neutral, and the gears from 1 to 9;
/// any other is neutral.
pub proof fn gears_have_their_places(g: u8)
    ensures
        gear_place('R' as u8) == 0,
        gear_place('N' as u8) == 1,
        '1' as u8 <= g && g <= '9' as u8 ==> gear_place(g) == 1 + (g - '0' as u8),
        g != 'R' as u8 && (g < '1' as u8 || g > '9' as u8) ==> gear_place(g) == 1,
{
}

} // verus!
