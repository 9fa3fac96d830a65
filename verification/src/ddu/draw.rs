//! Drawing as data: a screen is a list of shapes and texts, which the panel driver
//! draws in order.

use vstd::prelude::*;
use vstd::string::StringExecFns;
use crate::format::Pal;

verus! {

/// The size of a panel.
pub const W: i32 = 480;

pub const H: i32 = 320;

/// A colour with 5, 6 and 5 bits.
#[derive(Clone, Copy, Debug, PartialEq, Eq, Structural)]
pub struct Colour {
    pub r: u8,
    pub g: u8,
    pub b: u8,
}

/// The colour next to one with 8 bits per channel.
pub open spec fn colour565(r: u8, g: u8, b: u8) -> Colour {
    Colour { r: (r / 8) as u8, g: (g / 4) as u8, b: (b / 8) as u8 }
}

/// The colour of a palette entry.
pub open spec fn shade(p: Pal) -> Colour {
    colour565(p.channels().0, p.channels().1, p.channels().2)
}

/// The colour of 0xRRGGBB.
pub open spec fn shade888(c: u32) -> Colour {
    colour565((c / 0x1_0000 % 256) as u8, (c / 0x100 % 256) as u8, (c % 256) as u8)
}

/// The background.
pub open spec fn ground() -> Colour {
    Colour { r: 1, g: 2, b: 1 }
}

/// The colour next to one with 8 bits per channel.
pub fn rgb(r: u8, g: u8, b: u8) -> (c: Colour)
    ensures
        c == colour565(r, g, b),
{
    Colour { r: r / 8, g: g / 4, b: b / 8 }
}

/// The colour of a palette entry.
pub fn pal(p: Pal) -> (c: Colour)
    ensures
        c == shade(p),
{
    let (r, g, b) = p.rgb888();
    rgb(r, g, b)
}

/// The colour of 0xRRGGBB.
pub fn rgb888(c: u32) -> (r: Colour)
    ensures
        r == shade888(c),
{
    rgb((c / 0x1_0000 % 256) as u8, (c / 0x100 % 256) as u8, (c % 256) as u8)
}

/// Where a text stands from its point, across; down it is always centred.
#[derive(Clone, Copy, Debug, PartialEq, Eq, Structural)]
pub enum Align {
    Left,
    Center,
}

/// The fonts.
#[derive(Clone, Copy, Debug, PartialEq, Eq, Structural)]
pub enum Font {
    Fixed13,
    Bold12,
    Bold18,
    Bold24,
    Large32,
}

/// The font of a text of that pixel height.
pub open spec fn font_for(size: u32) -> Font {
    if size <= 11 {
        Font::Fixed13
    } else if size <= 15 {
        Font::Bold12
    } else if size <= 23 {
        Font::Bold18
    } else if size <= 33 {
        Font::Bold24
    } else {
        Font::Large32
    }
}

/// The font of a text of that pixel height.
pub fn font(size: u32) -> (f: Font)
    ensures
        f == font_for(size),
{
    if size <= 11 {
        Font::Fixed13
    } else if size <= 15 {
        Font::Bold12
    } else if size <= 23 {
        Font::Bold18
    } else if size <= 33 {
        Font::Bold24
    } else {
        Font::Large32
    }
}

/// What is drawn.
#[derive(Debug, PartialEq)]
pub enum Op {
    /// Fills the panel.
    Clear(Colour),
    Text { s: String, x: i32, y: i32, font: Font, colour: Colour, align: Align },
    Rect { x: i32, y: i32, w: u32, h: u32, colour: Colour },
    /// A rectangle with round corners.
    Round { x: i32, y: i32, w: u32, h: u32, radius: u32, colour: Colour },
    /// A filled circle, by the corner of its box.
    Disc { x: i32, y: i32, d: u32, colour: Colour },
    /// A circle of one pixel.
    Ring { x: i32, y: i32, d: u32, colour: Colour },
    /// A filled triangle.
    Triangle { x1: i32, y1: i32, x2: i32, y2: i32, x3: i32, y3: i32, colour: Colour },
}

/// What is drawn, as plain values.
pub enum OpView {
    Clear(Colour),
    Text { s: Seq<char>, x: int, y: int, font: Font, colour: Colour, align: Align },
    Rect { x: int, y: int, w: int, h: int, colour: Colour },
    Round { x: int, y: int, w: int, h: int, radius: int, colour: Colour },
    Disc { x: int, y: int, d: int, colour: Colour },
    Ring { x: int, y: int, d: int, colour: Colour },
    Triangle { x1: int, y1: int, x2: int, y2: int, x3: int, y3: int, colour: Colour },
}

impl View for Op {
    type V = OpView;

    open spec fn view(&self) -> OpView {
        match *self {
            Op::Clear(c) => OpView::Clear(c),
            Op::Text { s, x, y, font, colour, align } => OpView::Text {
                s: s@,
                x: x as int,
                y: y as int,
                font,
                colour,
                align,
            },
            Op::Rect { x, y, w, h, colour } => OpView::Rect {
                x: x as int,
                y: y as int,
                w: w as int,
                h: h as int,
                colour,
            },
            Op::Round { x, y, w, h, radius, colour } => OpView::Round {
                x: x as int,
                y: y as int,
                w: w as int,
                h: h as int,
                radius: radius as int,
                colour,
            },
            Op::Disc { x, y, d, colour } => OpView::Disc {
                x: x as int,
                y: y as int,
                d: d as int,
                colour,
            },
            Op::Ring { x, y, d, colour } => OpView::Ring {
                x: x as int,
                y: y as int,
                d: d as int,
                colour,
            },
            Op::Triangle { x1, y1, x2, y2, x3, y3, colour } => OpView::Triangle {
                x1: x1 as int,
                y1: y1 as int,
                x2: x2 as int,
                y2: y2 as int,
                x3: x3 as int,
                y3: y3 as int,
                colour,
            },
        }
    }
}

/// A drawing as plain values.
pub open spec fn op_views(v: Seq<Op>) -> Seq<OpView> {
    v.map_values(|o: Op| o@)
}

/// A side of a shape: 0 where it is negative.
pub open spec fn side(v: int) -> int {
    if v < 0 {
        0
    } else {
        v
    }
}

/// A text.
pub open spec fn text_at(s: Seq<char>, x: int, y: int, size: u32, p: Pal, align: Align) -> OpView {
    OpView::Text { s, x, y, font: font_for(size), colour: shade(p), align }
}

/// A text in the middle.
pub open spec fn centred(s: Seq<char>, x: int, y: int, size: u32, p: Pal) -> OpView {
    text_at(s, x, y, size, p, Align::Center)
}

/// A rectangle.
pub open spec fn rect_at(x: int, y: int, w: int, h: int, p: Pal) -> OpView {
    OpView::Rect { x, y, w: side(w), h: side(h), colour: shade(p) }
}

/// A rectangle with round corners.
pub open spec fn round_at(x: int, y: int, w: int, h: int, radius: int, c: Colour) -> OpView {
    OpView::Round { x, y, w: side(w), h: side(h), radius, colour: c }
}

fn side_of(v: i32) -> (r: u32)
    ensures
        r == side(v as int),
{
    if v < 0 {
        0
    } else {
        v as u32
    }
}

/// Draws a text.
pub fn text(s: String, x: i32, y: i32, size: u32, p: Pal, align: Align) -> (o: Op)
    ensures
        o@ == text_at(s@, x as int, y as int, size, p, align),
{
    Op::Text { s, x, y, font: font(size), colour: pal(p), align }
}

/// Draws a text in the middle.
pub fn label(s: &str, x: i32, y: i32, size: u32, p: Pal) -> (o: Op)
    ensures
        o@ == centred(s@, x as int, y as int, size, p),
{
    text(String::from_str(s), x, y, size, p, Align::Center)
}

/// Draws a rectangle.
pub fn rect(x: i32, y: i32, w: i32, h: i32, p: Pal) -> (o: Op)
    ensures
        o@ == rect_at(x as int, y as int, w as int, h as int, p),
{
    Op::Rect { x, y, w: side_of(w), h: side_of(h), colour: pal(p) }
}

/// Draws a rectangle with round corners.
pub fn round(x: i32, y: i32, w: i32, h: i32, radius: u32, c: Colour) -> (o: Op)
    ensures
        o@ == round_at(x as int, y as int, w as int, h as int, radius as int, c),
{
    Op::Round { x, y, w: side_of(w), h: side_of(h), radius, colour: c }
}

/// A place on a panel.
#[derive(Clone, Copy, Debug, PartialEq, Eq, Structural)]
pub struct Area {
    pub x: i32,
    pub y: i32,
    pub w: i32,
    pub h: i32,
}

impl Area {
    /// Whether a point is in the area; its right and lower edges are not.
    pub open spec fn holds(self, tx: int, ty: int) -> bool {
        self.x <= tx < self.x + self.w && self.y <= ty < self.y + self.h
    }
}

/// Whether a point is in an area.
pub fn hit(p: Area, tx: i32, ty: i32) -> (r: bool)
    ensures
        r == p.holds(tx as int, ty as int),
{
    tx >= p.x && (tx as i64) < p.x as i64 + p.w as i64 && ty >= p.y && (ty as i64) < p.y as i64
        + p.h as i64
}

/// Every channel of a colour is within its bits.
pub proof fn colours_fit(r: u8, g: u8, b: u8)
    ensures
        colour565(r, g, b).r < 32,
        colour565(r, g, b).g < 64,
        colour565(r, g, b).b < 32,
{
}

/// The shown colour keeps the high bits of each channel, so that each is the eighth
/// or the fourth part of the full one, rounded down: red from the highest byte of a
/// 0xRRGGBB number, green from the middle one, blue from the lowest.
pub proof fn channels_keep_their_places(r: u8, g: u8, b: u8, p: Pal)
    ensures
        ({
            let c = shade888((0x1_0000 * r + 0x100 * g + b) as u32);
            &&& 8 * c.r <= r < 8 * c.r + 8
            &&& 4 * c.g <= g < 4 * c.g + 4
            &&& 8 * c.b <= b < 8 * c.b + 8
            &&& p.channels() == (r, g, b) ==> shade(p) == c
            &&& shade(Pal::Rgb(r, g, b)) == c
        }),
{
    let n = (0x1_0000 * r + 0x100 * g + b) as u32;
    assert(n / 0x1_0000 == r && n / 0x100 == 0x100 * r + g);
    assert(n % 256 == b);
    assert((0x100 * r + g) % 256 == g);
}

/// A text is drawn in a font no larger for a smaller height: the fonts grow with it.
pub proof fn fonts_grow(a: u32, b: u32)
    requires
        a <= b,
    ensures
        font_for(b) == Font::Fixed13 ==> font_for(a) == Font::Fixed13 && b <= 11,
        font_for(b) == Font::Bold12 ==> (font_for(a) == Font::Fixed13 <==> a <= 11) && b <= 15,
        font_for(b) == Font::Bold18 ==> (font_for(a) == Font::Bold18 <==> a > 15) && b <= 23,
        font_for(b) == Font::Bold24 ==> (font_for(a) == Font::Bold24 <==> a > 23) && b <= 33,
        font_for(a) == Font::Large32 ==> font_for(b) == Font::Large32 && a > 33,
{
}

/// A point is in an area exactly where it is as far right as its left edge and as
/// low as its upper edge, and moving the area moves it along.
pub proof fn areas_hold_their_points(a: Area, b: Area, dx: int, dy: int, tx: int, ty: int)
    requires
        b.x == a.x + dx,
        b.y == a.y + dy,
        b.w == a.w,
        b.h == a.h,
    ensures
        a.holds(tx, ty) <==> b.holds(tx + dx, ty + dy),
        a.w > 0 && a.h > 0 ==> a.holds(a.x as int, a.y as int) && a.holds(
            a.x + a.w - 1,
            a.y + a.h - 1,
        ),
        !a.holds(a.x - 1, ty) && !a.holds(a.x + a.w, ty),
        !a.holds(tx, a.y - 1) && !a.holds(tx, a.y + a.h),
{
}

} // verus!
