//! The touch panels: from raw readings to points on the screen.

use vstd::prelude::*;
use crate::ddu::draw::{H, W};
use crate::format::{clamped, tdiv};

verus! {

/// The readings at the edges of a panel. Down the panel they fall.
pub const X_MIN: i32 = 300;

pub const X_MAX: i32 = 3900;

pub const Y_MIN: i32 = 3900;

pub const Y_MAX: i32 = 300;

/// A touch presses at least this hard.
pub const Z_PRESS: i32 = 250;

/// A reading of the touch controller, from the two bytes behind its command: 12 bits
/// behind a leading one.
pub fn reading(b1: u8, b2: u8) -> (r: u16)
    ensures
        r == (b1 * 256 + b2) / 8 % 4096,
        r < 4096,
{
    (b1 as u16 * 256 + b2 as u16) / 8 % 4096
}

/// A reading between its edges, in thousandths.
pub open spec fn thousandths(v: int, min: int, max: int) -> int {
    if min < max {
        clamped(tdiv((v - min) * 1000, max - min), 0, 1000)
    } else {
        clamped(tdiv((min - v) * 1000, min - max), 0, 1000)
    }
}

/// The point of a touch: the panel is turned, so that its X runs down the screen and
/// its Y across it.
pub open spec fn touch_point(rx: int, ry: int) -> (int, int) {
    (
        thousandths(ry, Y_MIN as int, Y_MAX as int) * (W - 1) / 1000,
        (1000 - thousandths(rx, X_MIN as int, X_MAX as int)) * (H - 1) / 1000,
    )
}

/// The point of a touch, from the readings of its pressure and its place; `None`
/// where nothing presses.
pub fn touch(z1: u16, z2: u16, rx: u16, ry: u16) -> (r: Option<(i32, i32)>)
    requires
        rx < 4096,
        ry < 4096,
    ensures
        match r {
            Some((x, y)) => z1 + 4095 - z2 >= Z_PRESS && (x as int, y as int) == touch_point(
                rx as int,
                ry as int,
            ),
            None => z1 + 4095 - z2 < Z_PRESS,
        },
{
    let z: i32 = z1 as i32 + 4095 - z2 as i32;
    if z < Z_PRESS {
        return None;
    }
    let qx: i32 = (rx as i32 - X_MIN) * 1000 / (X_MAX - X_MIN);
    let qy: i32 = (Y_MIN - ry as i32) * 1000 / (Y_MIN - Y_MAX);
    let nx: i32 = if qx < 0 {
        0
    } else if qx > 1000 {
        1000
    } else {
        qx
    };
    let ny: i32 = if qy < 0 {
        0
    } else if qy > 1000 {
        1000
    } else {
        qy
    };
    Some((ny * (W - 1) / 1000, (1000 - nx) * (H - 1) / 1000))
}

/// A touch is always a point on the screen, and the corners of the panel are those of
/// the screen.
pub proof fn touches_are_on_screen(rx: int, ry: int)
    ensures
        0 <= touch_point(rx, ry).0 < W,
        0 <= touch_point(rx, ry).1 < H,
        touch_point(X_MAX as int, Y_MIN as int) == (0int, 0int),
        touch_point(X_MIN as int, Y_MAX as int) == (W - 1, H - 1),
{
}

/// A turn of the picture.
#[derive(Clone, Copy, Debug, PartialEq, Eq, Structural)]
pub enum Turn {
    Deg0,
    Deg90,
    Deg180,
    Deg270,
}

/// The turn of a setting; only its two low bits count.
pub fn turn(rot: u8) -> (t: Turn)
    ensures
        t == match rot % 4 {
            0 => Turn::Deg0,
            1 => Turn::Deg90,
            2 => Turn::Deg180,
            _ => Turn::Deg270,
        },
{
    let r: u8 = rot % 4;
    if r == 0 {
        Turn::Deg0
    } else if r == 1 {
        Turn::Deg90
    } else if r == 2 {
        Turn::Deg180
    } else {
        Turn::Deg270
    }
}

// -------------------------------------------------------------------- laws

/// A touch is placed in proportion. `across` and `down` are how many whole
/// thousandths of the way from one edge of the panel to the other the readings have
/// come: the Y reading falls from 3900 at the left edge to 300 at the right, and the
/// X reading rises from 300 at the lower edge to 3900 at the upper one. A reading
/// past an edge counts as on it.
pub proof fn touches_are_in_proportion(rx: int, ry: int, across: int, up: int)
    requires
        ry > 3900 ==> across == 0,
        ry < 300 ==> across == 1000,
        300 <= ry <= 3900 ==> across * 3600 <= (3900 - ry) * 1000 < (across + 1) * 3600,
        rx < 300 ==> up == 0,
        rx > 3900 ==> up == 1000,
        300 <= rx <= 3900 ==> up * 3600 <= (rx - 300) * 1000 < (up + 1) * 3600,
    ensures
        ({
            let (x, y) = touch_point(rx, ry);
            &&& 1000 * x <= across * 479 < 1000 * x + 1000
            &&& 1000 * y <= (1000 - up) * 319 < 1000 * y + 1000
        }),
{
    assert(thousandths(ry, 3900, 300) == across);
    assert(thousandths(rx, 300, 3900) == up);
}

/// A finger that moves to the right never moves its point to the left, and one that
/// moves down never moves it up.
pub proof fn touches_follow_the_finger(rx1: int, ry1: int, rx2: int, ry2: int)
    requires
        ry2 <= ry1,
        rx2 <= rx1,
    ensures
        touch_point(rx1, ry1).0 <= touch_point(rx2, ry2).0,
        touch_point(rx1, ry1).1 <= touch_point(rx2, ry2).1,
        touch_point(rx1, ry1).0 == touch_point(rx2, ry1).0,
        touch_point(rx1, ry1).1 == touch_point(rx1, ry2).1,
{
}

} // verus!
