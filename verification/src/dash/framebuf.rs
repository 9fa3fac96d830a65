//! The picture of a panel in memory. It is drawn here and sent to the panel in one
//! go, or the part of it that changed.

use vstd::prelude::*;
use crate::ddu::draw::Colour;
use crate::format::{abs, clamped};

verus! {

/// A picture, row by row.
#[derive(Debug)]
pub struct FrameBuf {
    pub data: Vec<Colour>,
    pub w: i32,
    pub h: i32,
}

/// The place of a point in the rows.
pub open spec fn place(w: int, x: int, y: int) -> int {
    y * w + x
}

proof fn lemma_place(w: int, h: int, x: int, y: int)
    requires
        0 <= x < w,
        0 <= y < h,
    ensures
        0 <= place(w, x, y) < w * h,
        y * w <= w * h,
        0 <= y * w,
{
    assert(0 <= y * w + x < w * h && 0 <= y * w <= w * h) by (nonlinear_arith)
        requires
            0 <= x < w,
            0 <= y < h,
    ;
}

proof fn lemma_places_differ(w: int, x1: int, y1: int, x2: int, y2: int)
    requires
        0 <= x1 < w,
        0 <= x2 < w,
        0 <= y1,
        0 <= y2,
        place(w, x1, y1) == place(w, x2, y2),
    ensures
        x1 == x2,
        y1 == y2,
{
    assert(y1 == y2) by (nonlinear_arith)
        requires
            0 <= x1 < w,
            0 <= x2 < w,
            y1 * w + x1 == y2 * w + x2,
    ;
}

/// A colour over another, with 256ths of it.
pub open spec fn blended(bg: Colour, fg: Colour, a: int) -> Colour {
    Colour {
        r: ((bg.r * (256 - a) + fg.r * a) / 256) as u8,
        g: ((bg.g * (256 - a) + fg.g * a) / 256) as u8,
        b: ((bg.b * (256 - a) + fg.b * a) / 256) as u8,
    }
}

/// A channel over another.
fn blend_channel(bg: u8, fg: u8, a: u16) -> (r: u8)
    requires
        a <= 256,
    ensures
        r == (bg * (256 - a) + fg * a) / 256,
{
    proof {
        assert(0 <= bg * (256 - a) + fg * a <= 255 * 256) by (nonlinear_arith)
            requires
                0 <= a <= 256,
                0 <= bg <= 255,
                0 <= fg <= 255,
        ;
        assert(0 <= bg * (256 - a) && 0 <= fg * a) by (nonlinear_arith)
            requires
                0 <= a <= 256,
                0 <= bg,
                0 <= fg,
        ;
    }
    ((bg as u32 * (256 - a as u32) + fg as u32 * a as u32) / 256) as u8
}

/// A colour over another.
pub fn blend(bg: Colour, fg: Colour, a: u16) -> (c: Colour)
    requires
        a <= 256,
    ensures
        c == blended(bg, fg, a as int),
{
    Colour {
        r: blend_channel(bg.r, fg.r, a),
        g: blend_channel(bg.g, fg.g, a),
        b: blend_channel(bg.b, fg.b, a),
    }
}

/// None of it leaves the colour below, all of it covers it, and the result is never
/// outside the two.
pub proof fn blending_is_between(bg: Colour, fg: Colour, a: int)
    requires
        0 <= a <= 256,
    ensures
        blended(bg, fg, 0) == bg,
        blended(bg, fg, 256) == fg,
        bg.r <= fg.r ==> bg.r <= blended(bg, fg, a).r <= fg.r,
        bg.g <= fg.g ==> bg.g <= blended(bg, fg, a).g <= fg.g,
        bg.b <= fg.b ==> bg.b <= blended(bg, fg, a).b <= fg.b,
{
    lemma_between(bg.r as int, fg.r as int, a);
    lemma_between(bg.g as int, fg.g as int, a);
    lemma_between(bg.b as int, fg.b as int, a);
    lemma_ends(bg.r as int, fg.r as int);
    lemma_ends(bg.g as int, fg.g as int);
    lemma_ends(bg.b as int, fg.b as int);
}

proof fn lemma_ends(p: int, q: int)
    ensures
        (p * (256 - 0int) + q * 0int) / 256 == p,
        (p * (256 - 256int) + q * 256int) / 256 == q,
{
    assert(q * 0 == 0 && p * (256 - 256int) == 0) by (nonlinear_arith);
}

proof fn lemma_between(p: int, q: int, a: int)
    requires
        0 <= a <= 256,
        0 <= p <= 255,
        0 <= q <= 255,
    ensures
        0 <= (p * (256 - a) + q * a) / 256 <= 255,
        p <= q ==> p <= (p * (256 - a) + q * a) / 256 <= q,
{
    assert(0 <= (p * (256 - a) + q * a) / 256 <= 255) by (nonlinear_arith)
        requires
            0 <= a <= 256,
            0 <= p <= 255,
            0 <= q <= 255,
    ;
    if p <= q {
        assert(256 * p <= p * (256 - a) + q * a <= 256 * q) by (nonlinear_arith)
            requires
                0 <= a <= 256,
                p <= q,
        ;
    }
}

impl FrameBuf {
    /// The picture has all its points.
    pub open spec fn wf(self) -> bool {
        &&& self.w >= 0
        &&& self.h >= 0
        &&& self.w * self.h <= i32::MAX
        &&& self.data@.len() == self.w * self.h
    }

    /// A point is on the picture.
    pub open spec fn shows(self, x: int, y: int) -> bool {
        0 <= x < self.w && 0 <= y < self.h
    }

    /// The colour of a point.
    pub open spec fn pixel(self, x: int, y: int) -> Colour {
        self.data@[place(self.w as int, x, y)]
    }

    /// A picture of that size.
    pub open spec fn sized(self, o: FrameBuf) -> bool {
        self.w == o.w && self.h == o.h && self.wf()
    }

    /// A black picture.
    pub fn new(w: i32, h: i32) -> (r: FrameBuf)
        requires
            0 <= w,
            0 <= h,
            w * h <= i32::MAX,
        ensures
            r.wf(),
            r.w == w,
            r.h == h,
            forall|x: int, y: int|
                r.shows(x, y) ==> #[trigger] r.pixel(x, y) == (Colour { r: 0, g: 0, b: 0 }),
    {
        proof {
            assert(0 <= w * h) by (nonlinear_arith)
                requires
                    0 <= w,
                    0 <= h,
            ;
        }
        let n: usize = (w * h) as usize;
        let black = Colour { r: 0, g: 0, b: 0 };
        let mut data: Vec<Colour> = Vec::new();
        let mut k: usize = 0;
        while k < n
            invariant
                k <= n,
                data@.len() == k,
                forall|j: int| 0 <= j < k ==> #[trigger] data@[j] == black,
            decreases n - k,
        {
            data.push(black);
            k += 1;
        }
        let r = FrameBuf { data, w, h };
        proof {
            assert forall|x: int, y: int| r.shows(x, y) implies #[trigger] r.pixel(x, y) == black by {
                lemma_place(w as int, h as int, x, y);
            }
        }
        r
    }

    /// Sets a point; one that is not on the picture is ignored.
    pub fn put(&mut self, x: i32, y: i32, c: Colour)
        requires
            old(self).wf(),
        ensures
            final(self).sized(*old(self)),
            forall|u: int, v: int|
                old(self).shows(u, v) ==> #[trigger] final(self).pixel(u, v) == if u == x && v == y {
                    c
                } else {
                    old(self).pixel(u, v)
                },
    {
        if x >= 0 && y >= 0 && x < self.w && y < self.h {
            proof {
                lemma_place(self.w as int, self.h as int, x as int, y as int);
            }
            let i: usize = (y * self.w + x) as usize;
            let ghost before = *self;
            self.data.set(i, c);
            proof {
                assert forall|u: int, v: int| before.shows(u, v) implies #[trigger] self.pixel(u, v)
                    == if u == x && v == y {
                    c
                } else {
                    before.pixel(u, v)
                } by {
                    lemma_place(self.w as int, self.h as int, u, v);
                    if place(self.w as int, u, v) == i {
                        lemma_places_differ(self.w as int, u, v, x as int, y as int);
                    }
                }
            }
        }
    }

    /// The colour of a point that is on the picture.
    pub fn get(&self, x: i32, y: i32) -> (c: Colour)
        requires
            self.wf(),
            self.shows(x as int, y as int),
        ensures
            c == self.pixel(x as int, y as int),
    {
        proof {
            lemma_place(self.w as int, self.h as int, x as int, y as int);
        }
        self.data[(y * self.w + x) as usize]
    }

    /// Lays a colour over a point; one that is not on the picture is ignored.
    fn lay(&mut self, x: i32, y: i32, c: Colour, a: u16)
        requires
            old(self).wf(),
            a <= 256,
        ensures
            final(self).sized(*old(self)),
            forall|u: int, v: int|
                old(self).shows(u, v) ==> #[trigger] final(self).pixel(u, v) == if u == x && v == y {
                    blended(old(self).pixel(u, v), c, a as int)
                } else {
                    old(self).pixel(u, v)
                },
    {
        if x >= 0 && y >= 0 && x < self.w && y < self.h {
            let under = self.get(x, y);
            self.put(x, y, blend(under, c, a));
        }
    }

    /// Fills the picture.
    pub fn clear(&mut self, c: Colour)
        requires
            old(self).wf(),
        ensures
            final(self).sized(*old(self)),
            forall|u: int, v: int| old(self).shows(u, v) ==> #[trigger] final(self).pixel(u, v) == c,
    {
        let mut k: usize = 0;
        while k < self.data.len()
            invariant
                k <= self.data@.len(),
                self.w == old(self).w,
                self.h == old(self).h,
                self.data@.len() == old(self).data@.len(),
                old(self).wf(),
                forall|j: int| 0 <= j < k ==> #[trigger] self.data@[j] == c,
            decreases self.data@.len() - k,
        {
            self.data.set(k, c);
            k += 1;
        }
        proof {
            assert forall|u: int, v: int| old(self).shows(u, v) implies #[trigger] self.pixel(u, v)
                == c by {
                lemma_place(self.w as int, self.h as int, u, v);
            }
        }
    }

    /// Fills a rectangle, as far as it is on the picture.
    pub fn fill_solid(&mut self, x: i32, y: i32, width: u32, height: u32, c: Colour)
        requires
            old(self).wf(),
        ensures
            final(self).sized(*old(self)),
            forall|u: int, v: int|
                old(self).shows(u, v) ==> #[trigger] final(self).pixel(u, v) == if x <= u < x + width
                    && y <= v < y + height {
                    c
                } else {
                    old(self).pixel(u, v)
                },
    {
        let x0: i32 = if x < 0 {
            0
        } else {
            x
        };
        let y0: i32 = if y < 0 {
            0
        } else {
            y
        };
        let xe: i64 = x as i64 + width as i64;
        let ye: i64 = y as i64 + height as i64;
        let x1: i64 = if xe < self.w as i64 {
            xe
        } else {
            self.w as i64
        };
        let y1: i64 = if ye < self.h as i64 {
            ye
        } else {
            self.h as i64
        };
        let mut v: i64 = y0 as i64;
        while v < y1
            invariant
                y0 <= v,
                v <= y1 || v == y0,
                y1 <= self.h,
                x1 <= self.w,
                self.sized(*old(self)),
                0 <= x0,
                0 <= y0,
                x0 == if x < 0 { 0 } else { x as int },
                y0 == if y < 0 { 0 } else { y as int },
                forall|p: int, q: int|
                    old(self).shows(p, q) ==> #[trigger] self.pixel(p, q) == if x0 <= p < x1 && y0 <= q
                        < v {
                        c
                    } else {
                        old(self).pixel(p, q)
                    },
            decreases y1 - v,
        {
            let mut u: i64 = x0 as i64;
            while u < x1
                invariant
                    x0 <= u,
                    u <= x1 || u == x0,
                    y0 <= v < y1,
                    y1 <= self.h,
                    x1 <= self.w,
                    self.sized(*old(self)),
                    0 <= x0,
                    0 <= y0,
                    forall|p: int, q: int|
                        old(self).shows(p, q) ==> #[trigger] self.pixel(p, q) == if x0 <= p < x1
                            && y0 <= q < v || q == v && x0 <= p < u {
                            c
                        } else {
                            old(self).pixel(p, q)
                        },
                decreases x1 - u,
            {
                self.put(u as i32, v as i32, c);
                u += 1;
            }
            v += 1;
        }
    }

    /// Fills a rectangle point by point, row by row, until the colours run out.
    pub fn fill_contiguous(&mut self, x: i32, y: i32, width: u32, height: u32, colors: &[Colour])
        requires
            old(self).wf(),
            x + width <= i32::MAX,
            y + height <= i32::MAX,
        ensures
            final(self).sized(*old(self)),
            forall|u: int, v: int|
                old(self).shows(u, v) ==> #[trigger] final(self).pixel(u, v) == if x <= u < x + width
                    && y <= v < y + height && place(width as int, u - x, v - y) < colors@.len() {
                    colors@[place(width as int, u - x, v - y)]
                } else {
                    old(self).pixel(u, v)
                },
    {
        let xe: i32 = (x as i64 + width as i64) as i32;
        let ye: i32 = (y as i64 + height as i64) as i32;
        let mut k: usize = 0;
        let mut v: i32 = y;
        proof {
            assert(place(width as int, 0, 0) == 0) by (nonlinear_arith);
        }
        while v < ye
            invariant
                y <= v <= ye,
                xe == x + width,
                ye == y + height,
                k <= colors@.len(),
                k == place(width as int, 0, v - y),
                self.sized(*old(self)),
                forall|p: int, q: int|
                    old(self).shows(p, q) ==> #[trigger] self.pixel(p, q) == if x <= p < xe && y <= q
                        < v && place(width as int, p - x, q - y) < colors@.len() {
                        colors@[place(width as int, p - x, q - y)]
                    } else {
                        old(self).pixel(p, q)
                    },
            decreases ye - v,
        {
            let mut u: i32 = x;
            while u < xe
                invariant
                    x <= u <= xe,
                    y <= v < ye,
                    xe == x + width,
                    ye == y + height,
                    k <= colors@.len(),
                    k == place(width as int, u - x, v - y),
                    self.sized(*old(self)),
                    forall|p: int, q: int|
                        old(self).shows(p, q) ==> #[trigger] self.pixel(p, q) == if (x <= p < xe && y
                            <= q < v || q == v && x <= p < u) && place(width as int, p - x, q - y)
                            < colors@.len() {
                            colors@[place(width as int, p - x, q - y)]
                        } else {
                            old(self).pixel(p, q)
                        },
                decreases xe - u,
            {
                if k >= colors.len() {
                    proof {
                        assert forall|p: int, q: int| old(self).shows(p, q) && x <= p < xe && y <= q
                            < ye && (q > v || q == v && p >= u) implies #[trigger] place(
                            width as int,
                            p - x,
                            q - y,
                        ) >= colors@.len() by {
                            lemma_later(width as int, u - x, v - y, p - x, q - y);
                        }
                        assert forall|p: int, q: int| old(self).shows(p, q) implies #[trigger] self.pixel(
                            p,
                            q,
                        ) == if x <= p < x + width && y <= q < y + height && place(
                            width as int,
                            p - x,
                            q - y,
                        ) < colors@.len() {
                            colors@[place(width as int, p - x, q - y)]
                        } else {
                            old(self).pixel(p, q)
                        } by {
                            if x <= p < xe && y <= q < ye && (q > v || q == v && p >= u) {
                                assert(place(width as int, p - x, q - y) >= colors@.len());
                            }
                        }
                    }
                    return;
                }
                self.put(u, v, colors[k]);
                k += 1;
                u += 1;
            }
            proof {
                assert(place(width as int, width as int, v - y) == place(
                    width as int,
                    0,
                    v + 1 - y,
                )) by (nonlinear_arith);
            }
            v += 1;
        }
    }
}

/// A later point of the rows stands later.
proof fn lemma_later(w: int, x1: int, y1: int, x2: int, y2: int)
    requires
        0 <= x1 <= w,
        0 <= x2 < w,
        0 <= y1,
        y2 > y1 || y2 == y1 && x2 >= x1,
    ensures
        place(w, x2, y2) >= place(w, x1, y1),
{
    if y2 > y1 {
        assert(y2 * w >= y1 * w + w) by (nonlinear_arith)
            requires
                y2 >= y1 + 1,
                w >= 0,
        ;
    }
}

// -------------------------------------------------------------- part of a picture

/// A part of a picture, its corners in it.
#[derive(Clone, Copy, Debug, PartialEq, Eq, Structural)]
pub struct Window {
    pub x0: i32,
    pub y0: i32,
    pub x1: i32,
    pub y1: i32,
}

/// The part of a window that is on a picture.
pub open spec fn clipped(f: FrameBuf, r: Window) -> Window {
    Window {
        x0: if r.x0 < 0 {
            0
        } else {
            r.x0
        },
        y0: if r.y0 < 0 {
            0
        } else {
            r.y0
        },
        x1: if r.x1 > f.w - 1 {
            (f.w - 1) as i32
        } else {
            r.x1
        },
        y1: if r.y1 > f.h - 1 {
            (f.h - 1) as i32
        } else {
            r.y1
        },
    }
}

/// The rows of a window, up to a row.
pub open spec fn rows(f: FrameBuf, r: Window, n: nat) -> Seq<Colour>
    decreases n,
{
    if n == 0 {
        Seq::empty()
    } else {
        rows(f, r, (n - 1) as nat) + Seq::new(
            (r.x1 - r.x0 + 1) as nat,
            |i: int| f.pixel(r.x0 + i, r.y0 + n - 1),
        )
    }
}

impl FrameBuf {
    /// The points of a window, row by row, as far as they are on the picture; `None`
    /// where none is.
    pub fn window(&self, r: Window) -> (out: Option<(Window, Vec<Colour>)>)
        requires
            self.wf(),
        ensures
            ({
                let c = clipped(*self, r);
                match out {
                    Some((win, px)) => c.x0 <= c.x1 && c.y0 <= c.y1 && win == c && px@ == rows(
                        *self,
                        c,
                        (c.y1 - c.y0 + 1) as nat,
                    ),
                    None => c.x1 < c.x0 || c.y1 < c.y0,
                }
            }),
    {
        let c = Window {
            x0: if r.x0 < 0 {
                0
            } else {
                r.x0
            },
            y0: if r.y0 < 0 {
                0
            } else {
                r.y0
            },
            x1: if r.x1 > self.w - 1 {
                self.w - 1
            } else {
                r.x1
            },
            y1: if r.y1 > self.h - 1 {
                self.h - 1
            } else {
                r.y1
            },
        };
        if c.x1 < c.x0 || c.y1 < c.y0 {
            return None;
        }
        let mut px: Vec<Colour> = Vec::new();
        let mut v: i32 = c.y0;
        while v <= c.y1
            invariant
                self.wf(),
                c == clipped(*self, r),
                c.x0 <= c.x1,
                c.y0 <= c.y1,
                c.y0 <= v <= c.y1 + 1,
                px@ == rows(*self, c, (v - c.y0) as nat),
            decreases c.y1 + 1 - v,
        {
            let mut u: i32 = c.x0;
            let ghost before = px@;
            let ghost row = Seq::new(
                (c.x1 - c.x0 + 1) as nat,
                |i: int| self.pixel(c.x0 + i, v as int),
            );
            while u <= c.x1
                invariant
                    self.wf(),
                    c == clipped(*self, r),
                    c.x0 <= c.x1,
                    c.y0 <= v <= c.y1,
                    c.x0 <= u <= c.x1 + 1,
                    row == Seq::new(
                        (c.x1 - c.x0 + 1) as nat,
                        |i: int| self.pixel(c.x0 + i, v as int),
                    ),
                    px@ == before + row.take(u - c.x0),
                decreases c.x1 + 1 - u,
            {
                px.push(self.get(u, v));
                proof {
                    assert(row.take(u + 1 - c.x0) =~= row.take(u - c.x0).push(row[u - c.x0]));
                    assert(px@ =~= before + row.take(u + 1 - c.x0));
                }
                u += 1;
            }
            proof {
                assert(row.take(u - c.x0) =~= row);
                let n = (v + 1 - c.y0) as nat;
                assert(rows(*self, c, n) =~= before + row);
            }
            v += 1;
        }
        Some((c, px))
    }
}

// ------------------------------------------------------------------ touch marker

/// How the marker of a touch is drawn: its opacity in 256ths and its ring.
pub struct Marker {
    pub dot: int,
    pub ring: int,
    pub radius: int,
}

/// The marker at a stage of its fading: `fade` goes from `fade_max` to 0.
pub open spec fn marker_of(fade: u8, fade_max: u8) -> Marker {
    let m = if fade_max < 1 {
        1int
    } else {
        fade_max as int
    };
    let frac = clamped(fade * 256 / m, 0, 256);
    Marker {
        dot: frac * 120 / 256,
        ring: if frac < 255 {
            frac
        } else {
            255
        },
        radius: 13 + (m - fade) * 3,
    }
}

/// A point is in the dot.
pub open spec fn in_dot(dx: int, dy: int) -> bool {
    dx * dx + dy * dy <= 81
}

/// A point is on the crosshair.
pub open spec fn on_cross(dx: int, dy: int, arm: int) -> bool {
    dy == 0 && abs(dx) <= arm || dx == 0 && abs(dy) <= arm
}

/// A point is on the ring.
pub open spec fn on_ring(dx: int, dy: int, radius: int) -> bool {
    &&& abs(dx) <= radius + 1
    &&& abs(dy) <= radius + 1
    &&& (radius - 1) * (radius - 1) <= dx * dx + dy * dy <= (radius + 1) * (radius + 1)
}

/// The colour of the marker.
pub open spec fn accent() -> Colour {
    Colour { r: 0, g: 63, b: 31 }
}

/// White.
pub open spec fn white() -> Colour {
    Colour { r: 31, g: 63, b: 31 }
}

/// A colour under the marker.
pub open spec fn marked(under: Colour, m: Marker, dx: int, dy: int) -> Colour {
    let a = if in_dot(dx, dy) {
        blended(under, accent(), m.dot)
    } else {
        under
    };
    let b = if on_cross(dx, dy, 12) {
        white()
    } else {
        a
    };
    if on_ring(dx, dy, m.radius) {
        blended(b, accent(), m.ring)
    } else {
        b
    }
}

impl FrameBuf {
    /// Lays the accent over all points at offsets up to `reach` that lie on a disc,
    /// between two squared distances.
    fn lay_band(&mut self, cx: i32, cy: i32, reach: i32, r0: i32, r1: i32, a: u16)
        requires
            old(self).wf(),
            -1000 <= reach <= 1000,
            a <= 256,
        ensures
            final(self).sized(*old(self)),
            forall|u: int, v: int|
                old(self).shows(u, v) ==> #[trigger] final(self).pixel(u, v) == if in_band(
                    u - cx,
                    v - cy,
                    reach as int,
                    r0 as int,
                    r1 as int,
                ) {
                    blended(old(self).pixel(u, v), accent(), a as int)
                } else {
                    old(self).pixel(u, v)
                },
    {
        let c = Colour { r: 0, g: 63, b: 31 };
        let mut dy: i32 = -reach;
        while dy <= reach
            invariant
                -reach <= dy,
                dy <= reach + 1 || dy == -reach,
                -1000 <= reach <= 1000,
                a <= 256,
                c == accent(),
                self.sized(*old(self)),
                forall|u: int, v: int|
                    old(self).shows(u, v) ==> #[trigger] self.pixel(u, v) == if v - cy < dy && in_band(
                        u - cx,
                        v - cy,
                        reach as int,
                        r0 as int,
                        r1 as int,
                    ) {
                        blended(old(self).pixel(u, v), accent(), a as int)
                    } else {
                        old(self).pixel(u, v)
                    },
            decreases reach + 1 - dy,
        {
            let mut dx: i32 = -reach;
            while dx <= reach
                invariant
                    -reach <= dx <= reach + 1,
                    -reach <= dy <= reach,
                    -1000 <= reach <= 1000,
                    a <= 256,
                    c == accent(),
                    self.sized(*old(self)),
                    forall|u: int, v: int|
                        old(self).shows(u, v) ==> #[trigger] self.pixel(u, v) == if (v - cy < dy || v
                            - cy == dy && u - cx < dx) && in_band(
                            u - cx,
                            v - cy,
                            reach as int,
                            r0 as int,
                            r1 as int,
                        ) {
                            blended(old(self).pixel(u, v), accent(), a as int)
                        } else {
                            old(self).pixel(u, v)
                        },
                decreases reach + 1 - dx,
            {
                proof {
                    assert(0 <= dx * dx <= 1_000_000 && 0 <= dy * dy <= 1_000_000) by (nonlinear_arith)
                        requires
                            -1000 <= dx <= 1000,
                            -1000 <= dy <= 1000,
                    ;
                }
                let d2: i32 = dx * dx + dy * dy;
                let x: i64 = cx as i64 + dx as i64;
                let y: i64 = cy as i64 + dy as i64;
                if d2 >= r0 && d2 <= r1 && 0 <= x && x < self.w as i64 && 0 <= y && y < self.h as i64 {
                    self.lay(x as i32, y as i32, c, a);
                }
                dx += 1;
            }
            dy += 1;
        }
    }

    /// Draws a cross of white or another colour.
    fn cross(&mut self, cx: i32, cy: i32, arm: i32, c: Colour)
        requires
            old(self).wf(),
            0 <= arm <= 1000,
        ensures
            final(self).sized(*old(self)),
            forall|u: int, v: int|
                old(self).shows(u, v) ==> #[trigger] final(self).pixel(u, v) == if on_cross(
                    u - cx,
                    v - cy,
                    arm as int,
                ) {
                    c
                } else {
                    old(self).pixel(u, v)
                },
    {
        let mut k: i32 = -arm;
        while k <= arm
            invariant
                -arm <= k <= arm + 1,
                0 <= arm <= 1000,
                self.sized(*old(self)),
                forall|u: int, v: int|
                    old(self).shows(u, v) ==> #[trigger] self.pixel(u, v) == if v == cy && -arm <= u
                        - cx < k || u == cx && -arm <= v - cy < k {
                        c
                    } else {
                        old(self).pixel(u, v)
                    },
            decreases arm + 1 - k,
        {
            let x: i64 = cx as i64 + k as i64;
            let y: i64 = cy as i64 + k as i64;
            if 0 <= x && x < self.w as i64 {
                self.put(x as i32, cy, c);
            }
            if 0 <= y && y < self.h as i64 {
                self.put(cx, y as i32, c);
            }
            k += 1;
        }
    }

    /// Draws the marker of a touch: a dot, a crosshair, and a ring that grows while it
    /// fades.
    pub fn draw_touch_marker(&mut self, cx: i32, cy: i32, fade: u8, fade_max: u8)
        requires
            old(self).wf(),
        ensures
            final(self).sized(*old(self)),
            forall|u: int, v: int|
                old(self).shows(u, v) ==> #[trigger] final(self).pixel(u, v) == marked(
                    old(self).pixel(u, v),
                    marker_of(fade, fade_max),
                    u - cx,
                    v - cy,
                ),
    {
        let m: i32 = if fade_max < 1 {
            1
        } else {
            fade_max as i32
        };
        let f: i32 = fade as i32;
        proof {
            assert(0 <= f * 256 / (m as int) <= 255 * 256) by (nonlinear_arith)
                requires
                    0 <= f <= 255,
                    m >= 1,
            ;
        }
        let q: i32 = f * 256 / m;
        let frac: u16 = if q > 256 {
            256
        } else {
            q as u16
        };
        let dot: u16 = (frac as u32 * 120 / 256) as u16;
        let ring: u16 = if frac < 255 {
            frac
        } else {
            255
        };
        let rr: i32 = 13 + (m - f) * 3;
        let ghost start = *self;
        self.lay_band(cx, cy, 9, 0, 81, dot);
        let ghost one = *self;
        self.cross(cx, cy, 12, Colour { r: 31, g: 63, b: 31 });
        let ghost two = *self;
        proof {
            assert(0 <= (rr - 1) * (rr - 1) <= 1_000_000 && 0 <= (rr + 1) * (rr + 1) <= 1_000_000)
                by (nonlinear_arith)
                requires
                    -900 <= rr <= 900,
            ;
        }
        self.lay_band(cx, cy, rr + 1, (rr - 1) * (rr - 1), (rr + 1) * (rr + 1), ring);
        proof {
            let mk = marker_of(fade, fade_max);
            assert forall|u: int, v: int| start.shows(u, v) implies #[trigger] self.pixel(u, v)
                == marked(start.pixel(u, v), mk, u - cx, v - cy) by {
                let dx = u - cx;
                let dy = v - cy;
                lemma_dot(dx, dy);
                assert(one.pixel(u, v) == if in_dot(dx, dy) {
                    blended(start.pixel(u, v), accent(), mk.dot)
                } else {
                    start.pixel(u, v)
                });
                assert(two.pixel(u, v) == if on_cross(dx, dy, 12) {
                    white()
                } else {
                    one.pixel(u, v)
                });
                assert(in_band(
                    dx,
                    dy,
                    rr + 1,
                    ((rr - 1) * (rr - 1)) as int,
                    ((rr + 1) * (rr + 1)) as int,
                ) == on_ring(dx, dy, mk.radius));
            }
        }
    }
}

/// A point is within reach, between two squared distances.
pub open spec fn in_band(dx: int, dy: int, reach: int, r0: int, r1: int) -> bool {
    &&& abs(dx) <= reach
    &&& abs(dy) <= reach
    &&& r0 <= dx * dx + dy * dy <= r1
}

proof fn lemma_dot(dx: int, dy: int)
    ensures
        in_band(dx, dy, 9, 0, 81) == in_dot(dx, dy),
{
    assert(0 <= dx * dx && 0 <= dy * dy) by (nonlinear_arith);
    if abs(dx) > 9 {
        assert(dx * dx > 81) by (nonlinear_arith)
            requires
                dx > 9 || dx < -9,
        ;
    }
    if abs(dy) > 9 {
        assert(dy * dy > 81) by (nonlinear_arith)
            requires
                dy > 9 || dy < -9,
        ;
    }
}

// -------------------------------------------------------------------- touch test

/// A point of the touch test before the marker: the reference crosses, the grid, the
/// ground.
pub open spec fn test_pixel(w: int, h: int, u: int, v: int) -> Colour {
    if on_cross(u - 8, v - 8, 7) || on_cross(u - (w - 8), v - 8, 7) || on_cross(u - 8, v - (h - 8), 7)
        || on_cross(u - (w - 8), v - (h - 8), 7) || on_cross(u - w / 2, v - h / 2, 7) {
        Colour { r: 31, g: 24, b: 0 }
    } else if u % 60 == 0 || v % 60 == 0 {
        Colour { r: 5, g: 10, b: 16 }
    } else {
        Colour { r: 2, g: 4, b: 6 }
    }
}

impl FrameBuf {
    /// Draws the grid of the touch test.
    fn grid(&mut self)
        requires
            old(self).wf(),
        ensures
            final(self).sized(*old(self)),
            forall|u: int, v: int|
                old(self).shows(u, v) ==> #[trigger] final(self).pixel(u, v) == if u % 60 == 0 || v
                    % 60 == 0 {
                    Colour { r: 5, g: 10, b: 16 }
                } else {
                    old(self).pixel(u, v)
                },
    {
        let c = Colour { r: 5, g: 10, b: 16 };
        let mut v: i32 = 0;
        while v < self.h
            invariant
                0 <= v <= self.h,
                self.sized(*old(self)),
                c == (Colour { r: 5, g: 10, b: 16 }),
                forall|p: int, q: int|
                    old(self).shows(p, q) ==> #[trigger] self.pixel(p, q) == if q < v && (p % 60 == 0
                        || q % 60 == 0) {
                        c
                    } else {
                        old(self).pixel(p, q)
                    },
            decreases self.h - v,
        {
            let mut u: i32 = 0;
            while u < self.w
                invariant
                    0 <= u <= self.w,
                    0 <= v < self.h,
                    self.sized(*old(self)),
                    c == (Colour { r: 5, g: 10, b: 16 }),
                    forall|p: int, q: int|
                        old(self).shows(p, q) ==> #[trigger] self.pixel(p, q) == if (q < v || q == v
                            && p < u) && (p % 60 == 0 || q % 60 == 0) {
                            c
                        } else {
                            old(self).pixel(p, q)
                        },
                decreases self.w - u,
            {
                if u % 60 == 0 || v % 60 == 0 {
                    self.put(u, v, c);
                }
                u += 1;
            }
            v += 1;
        }
    }

    /// Draws the touch test: a grid, five crosses to aim at, and the marker of the
    /// last touch.
    pub fn render_touch_test(&mut self, mark: Option<(i32, i32)>, fade: u8, fade_max: u8)
        requires
            old(self).wf(),
        ensures
            final(self).sized(*old(self)),
            forall|u: int, v: int|
                old(self).shows(u, v) ==> #[trigger] final(self).pixel(u, v) == {
                    let plain = test_pixel(old(self).w as int, old(self).h as int, u, v);
                    match mark {
                        Some((mx, my)) if fade > 0 => marked(
                            plain,
                            marker_of(fade, fade_max),
                            u - mx,
                            v - my,
                        ),
                        _ => plain,
                    }
                },
    {
        let w: i32 = self.w;
        let h: i32 = self.h;
        let c = Colour { r: 31, g: 24, b: 0 };
        self.clear(Colour { r: 2, g: 4, b: 6 });
        self.grid();
        self.cross(8, 8, 7, c);
        self.cross(w - 8, 8, 7, c);
        self.cross(8, h - 8, 7, c);
        self.cross(w - 8, h - 8, 7, c);
        self.cross(w / 2, h / 2, 7, c);
        let ghost plain = *self;
        proof {
            assert forall|u: int, v: int| old(self).shows(u, v) implies #[trigger] plain.pixel(u, v)
                == test_pixel(w as int, h as int, u, v) by {}
        }
        match mark {
            Some((mx, my)) => if fade > 0 {
                self.draw_touch_marker(mx, my, fade, fade_max);
            },
            None => {},
        }
    }
}

// -------------------------------------------------------------------- laws

/// A channel that is laid over another is the mean of the two by their shares,
/// rounded down.
pub proof fn blending_is_a_mean(bg: Colour, fg: Colour, a: int)
    requires
        0 <= a <= 256,
    ensures
        ({
            let c = blended(bg, fg, a);
            &&& 256 * c.r <= bg.r * (256 - a) + fg.r * a < 256 * c.r + 256
            &&& 256 * c.g <= bg.g * (256 - a) + fg.g * a < 256 * c.g + 256
            &&& 256 * c.b <= bg.b * (256 - a) + fg.b * a < 256 * c.b + 256
        }),
{
    lemma_between(bg.r as int, fg.r as int, a);
    lemma_between(bg.g as int, fg.g as int, a);
    lemma_between(bg.b as int, fg.b as int, a);
}

/// A point is in the part of a window that is on a picture exactly where it is in
/// the window and on the picture.
pub proof fn clipping_keeps_what_is_shown(f: FrameBuf, r: Window, x: int, y: int)
    requires
        f.w >= 0,
        f.h >= 0,
    ensures
        ({
            let c = clipped(f, r);
            (c.x0 <= x <= c.x1 && c.y0 <= y <= c.y1) <==> (r.x0 <= x <= r.x1 && r.y0 <= y <= r.y1
                && f.shows(x, y))
        }),
{
}

/// The points of a window come row by row from the top and from left to right.
pub proof fn windows_come_row_by_row(f: FrameBuf, r: Window, n: nat, u: int, v: int)
    requires
        r.x0 <= r.x1,
        0 <= v < n,
        0 <= u <= r.x1 - r.x0,
    ensures
        rows(f, r, n).len() == n * (r.x1 - r.x0 + 1),
        rows(f, r, n)[v * (r.x1 - r.x0 + 1) + u] == f.pixel(r.x0 + u, r.y0 + v),
    decreases n,
{
    let w = r.x1 - r.x0 + 1;
    let m = (n - 1) as nat;
    let front = rows(f, r, m);
    lemma_rows_len(f, r, m);
    lemma_rows_len(f, r, n);
    assert(0 <= v * w + u < n * w && (v < m ==> v * w + u < m * w)) by (nonlinear_arith)
        requires
            0 <= v < n,
            0 <= u < w,
            m == n - 1,
    ;
    if v < m {
        windows_come_row_by_row(f, r, m, u, v);
    }
}

proof fn lemma_rows_len(f: FrameBuf, r: Window, n: nat)
    requires
        r.x0 <= r.x1,
    ensures
        rows(f, r, n).len() == n * (r.x1 - r.x0 + 1),
    decreases n,
{
    let w = r.x1 - r.x0 + 1;
    if n > 0 {
        lemma_rows_len(f, r, (n - 1) as nat);
        assert((n - 1) * w + w == n * w) by (nonlinear_arith);
    } else {
        assert(0 * w == 0) by (nonlinear_arith);
    }
}

/// The marker fades and spreads: with every stage its dot and its ring are no
/// stronger than before and its ring is three points wider. A fresh marker has a
/// ring of 13 points, and one that has faded out leaves no dot and no ring.
pub proof fn markers_fade_and_spread(fade: u8, fade_max: u8)
    requires
        0 < fade <= fade_max,
    ensures
        ({
            let now = marker_of(fade, fade_max);
            let next = marker_of((fade - 1) as u8, fade_max);
            &&& next.radius == now.radius + 3
            &&& next.dot <= now.dot
            &&& next.ring <= now.ring
            &&& marker_of(fade_max, fade_max) == (Marker { dot: 120, ring: 255, radius: 13 })
            &&& marker_of(0, fade_max).dot == 0 && marker_of(0, fade_max).ring == 0
        }),
{
    let m = fade_max as int;
    vstd::arithmetic::div_mod::lemma_div_is_ordered((fade - 1) * 256, fade * 256, m);
    vstd::arithmetic::div_mod::lemma_div_multiples_vanish(256, m);
    assert(fade_max * 256 / m == 256) by {
        assert(fade_max * 256 == 256 * m);
    }
    assert(0int / m == 0) by {
        vstd::arithmetic::div_mod::lemma_div_of0(m);
    }
}

/// The marker looks the same on every side of the touch.
pub proof fn markers_are_symmetric(under: Colour, m: Marker, dx: int, dy: int)
    ensures
        marked(under, m, -dx, dy) == marked(under, m, dx, dy),
        marked(under, m, dx, -dy) == marked(under, m, dx, dy),
        marked(under, m, dy, dx) == marked(under, m, dx, dy),
{
    assert((-dx) * (-dx) == dx * dx && (-dy) * (-dy) == dy * dy) by (nonlinear_arith);
}

/// Far from a touch nothing is marked; at the touch itself stands the crosshair, and
/// within nine points of it, beside the crosshair, the dot.
pub proof fn markers_stay_near(under: Colour, m: Marker, dx: int, dy: int)
    requires
        m.radius >= 13,
    ensures
        dx > m.radius + 1 || dy > m.radius + 1 ==> marked(under, m, dx, dy) == under,
        marked(under, m, 0, 0) == white(),
        0 < dx <= 12 ==> marked(under, m, dx, 0) == white() || on_ring(dx, 0, m.radius),
        dx != 0 && dy != 0 && dx * dx + dy * dy <= 81 ==> marked(under, m, dx, dy) == blended(
            under,
            accent(),
            m.dot,
        ),
{
    assert(0 <= dx * dx && 0 <= dy * dy) by (nonlinear_arith);
    assert((m.radius - 1) * (m.radius - 1) >= 144) by (nonlinear_arith)
        requires
            m.radius >= 13,
    ;
    if dx > m.radius + 1 {
        assert(dx * dx > 81) by (nonlinear_arith)
            requires
                dx > 14,
        ;
    }
    if dy > m.radius + 1 {
        assert(dy * dy > 81) by (nonlinear_arith)
            requires
                dy > 14,
        ;
    }
}

/// The touch test has its crosses in the four corners and in the middle, and grid
/// lines every 60 points; the crosses lie on top.
pub proof fn touch_test_has_its_marks(w: int, h: int)
    requires
        w >= 120,
        h >= 120,
    ensures
        test_pixel(w, h, 8, 8) == (Colour { r: 31, g: 24, b: 0 }),
        test_pixel(w, h, w - 8, 8) == (Colour { r: 31, g: 24, b: 0 }),
        test_pixel(w, h, 8, h - 8) == (Colour { r: 31, g: 24, b: 0 }),
        test_pixel(w, h, w - 8, h - 8) == (Colour { r: 31, g: 24, b: 0 }),
        test_pixel(w, h, w / 2, h / 2) == (Colour { r: 31, g: 24, b: 0 }),
        forall|v: int|
            0 <= v < h && v != h / 2 && !(1 <= v <= 15) && !(h - 15 <= v <= h - 1) && !(h / 2 - 7
                <= v <= h / 2 + 7) ==> #[trigger] test_pixel(w, h, 60, v) == (Colour {
                r: 5,
                g: 10,
                b: 16,
            }),
        test_pixel(w, h, 1, 1) == (Colour { r: 2, g: 4, b: 6 }),
{
}

/// A ring is a band between two squared distances from its middle, within its reach.
pub proof fn rings_are_bands(dx: int, dy: int, reach: int, r0: int, r1: int)
    ensures
        in_band(dx, dy, reach, r0, r1) <==> -reach <= dx <= reach && -reach <= dy <= reach && dx
            * dx + dy * dy >= r0 && dx * dx + dy * dy <= r1,
{
}

/// The two colours of a marker at their full depth: white has every channel, the accent
/// all but red.
pub proof fn marker_colours_are_full()
    ensures
        white() == (Colour { r: 31, g: 63, b: 31 }),
        accent() == (Colour { r: 0, g: 63, b: 31 }),
{
}

} // verus!
