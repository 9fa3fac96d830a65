//! Value formats, colour rules and palette tokens of the on-screen modules.
//! A preview and a device that share these functions show the same text and
//! pick the same colour.

use vstd::prelude::*;
use crate::text::{
    chars_of, dec_text, int_text, pad_text, push_dec, push_int, push_padded, same,
};
use vstd::slice::slice_subrange;
use vstd::string::StringExecFns;

verus! {

/// How a raw value is shown.
#[derive(Copy, Clone, PartialEq, Eq, Debug, Structural)]
pub enum Fmt {
    /// Integer, value / scale.
    Int,
    /// One decimal, value / scale.
    Fixed1,
    /// Two decimals, value / scale.
    Fixed2,
    /// Lap time m:ss.mmm of a value in milliseconds.
    Time,
    /// Sector time s.mmm of a value in milliseconds.
    Sector,
    /// Signed seconds with four decimals of a value in 0.1 ms units.
    Delta,
    /// Plain integer for counts and codes: the value as it is, whatever the scale.
    Str,
}

/// The comparison of a colour rule.
#[derive(Copy, Clone, PartialEq, Eq, Debug, Structural)]
pub enum RuleOp {
    Lt,
    Le,
    Eq,
    Ge,
    Gt,
}

/// A palette colour.
#[derive(Copy, Clone, PartialEq, Eq, Debug, Structural)]
pub enum Pal {
    Bg,
    Panel,
    White,
    Dim,
    Green,
    Amber,
    Red,
    Cyan,
    Blue,
    Purple,
    /// A colour of the user's own.
    Rgb(u8, u8, u8),
}

impl Fmt {
    /// The format that a token names; `Int` where it names none.
    pub open spec fn named(s: Seq<char>) -> Fmt {
        if s == "fixed1"@ {
            Fmt::Fixed1
        } else if s == "fixed2"@ {
            Fmt::Fixed2
        } else if s == "time"@ {
            Fmt::Time
        } else if s == "sector"@ {
            Fmt::Sector
        } else if s == "delta"@ {
            Fmt::Delta
        } else if s == "string"@ {
            Fmt::Str
        } else {
            Fmt::Int
        }
    }

    /// The token of a format.
    pub open spec fn token(self) -> Seq<char> {
        match self {
            Fmt::Int => "int"@,
            Fmt::Fixed1 => "fixed1"@,
            Fmt::Fixed2 => "fixed2"@,
            Fmt::Time => "time"@,
            Fmt::Sector => "sector"@,
            Fmt::Delta => "delta"@,
            Fmt::Str => "string"@,
        }
    }

    /// Reads a format token.
    pub fn from_str(s: &str) -> (r: Fmt)
        ensures
            r == Fmt::named(s@),
    {
        let v = chars_of(s);
        let t = v.as_slice();
        if same(t, "fixed1") {
            Fmt::Fixed1
        } else if same(t, "fixed2") {
            Fmt::Fixed2
        } else if same(t, "time") {
            Fmt::Time
        } else if same(t, "sector") {
            Fmt::Sector
        } else if same(t, "delta") {
            Fmt::Delta
        } else if same(t, "string") {
            Fmt::Str
        } else {
            Fmt::Int
        }
    }

    /// The token of this format.
    pub fn as_str(self) -> (r: &'static str)
        ensures
            r@ == self.token(),
    {
        match self {
            Fmt::Int => "int",
            Fmt::Fixed1 => "fixed1",
            Fmt::Fixed2 => "fixed2",
            Fmt::Time => "time",
            Fmt::Sector => "sector",
            Fmt::Delta => "delta",
            Fmt::Str => "string",
        }
    }
}

/// Reading the token of a format gives that format.
pub proof fn fmt_token_round_trip(f: Fmt)
    ensures
        Fmt::named(f.token()) == f,
{
    reveal_strlit("int");
    reveal_strlit("fixed1");
    reveal_strlit("fixed2");
    reveal_strlit("time");
    reveal_strlit("sector");
    reveal_strlit("delta");
    reveal_strlit("string");
    assert("int"@.len() == 3);
    assert("time"@.len() == 4);
    assert("delta"@.len() == 5);
    assert("fixed1"@.len() == 6);
    assert("fixed2"@.len() == 6);
    assert("sector"@.len() == 6);
    assert("string"@.len() == 6);
    assert("fixed1"@[5] == '1');
    assert("fixed2"@[5] == '2');
    assert("sector"@[5] == 'r');
    assert("string"@[5] == 'g');
}

impl RuleOp {
    /// The comparison that a token names; `Gt` where it names none.
    pub open spec fn named(s: Seq<char>) -> RuleOp {
        if s == "<"@ {
            RuleOp::Lt
        } else if s == "<="@ {
            RuleOp::Le
        } else if s == "=="@ {
            RuleOp::Eq
        } else if s == ">="@ {
            RuleOp::Ge
        } else {
            RuleOp::Gt
        }
    }

    /// The token of a comparison.
    pub open spec fn token(self) -> Seq<char> {
        match self {
            RuleOp::Lt => "<"@,
            RuleOp::Le => "<="@,
            RuleOp::Eq => "=="@,
            RuleOp::Ge => ">="@,
            RuleOp::Gt => ">"@,
        }
    }

    /// What the comparison says of a value and the value of the rule.
    pub open spec fn holds(self, v: int, rule_v: int) -> bool {
        match self {
            RuleOp::Lt => v < rule_v,
            RuleOp::Le => v <= rule_v,
            RuleOp::Eq => v == rule_v,
            RuleOp::Ge => v >= rule_v,
            RuleOp::Gt => v > rule_v,
        }
    }

    /// Reads a comparison token.
    pub fn from_str(s: &str) -> (r: RuleOp)
        ensures
            r == RuleOp::named(s@),
    {
        let v = chars_of(s);
        let t = v.as_slice();
        if same(t, "<") {
            RuleOp::Lt
        } else if same(t, "<=") {
            RuleOp::Le
        } else if same(t, "==") {
            RuleOp::Eq
        } else if same(t, ">=") {
            RuleOp::Ge
        } else {
            RuleOp::Gt
        }
    }

    /// The token of this comparison.
    pub fn as_str(self) -> (r: &'static str)
        ensures
            r@ == self.token(),
    {
        match self {
            RuleOp::Lt => "<",
            RuleOp::Le => "<=",
            RuleOp::Eq => "==",
            RuleOp::Ge => ">=",
            RuleOp::Gt => ">",
        }
    }

    /// Compares a raw value with the value of a rule.
    pub fn matches(self, v: i32, rule_v: i32) -> (r: bool)
        ensures
            r == self.holds(v as int, rule_v as int),
    {
        match self {
            RuleOp::Lt => v < rule_v,
            RuleOp::Le => v <= rule_v,
            RuleOp::Eq => v == rule_v,
            RuleOp::Ge => v >= rule_v,
            RuleOp::Gt => v > rule_v,
        }
    }
}

/// Reading the token of a comparison gives that comparison.
pub proof fn op_token_round_trip(op: RuleOp)
    ensures
        RuleOp::named(op.token()) == op,
{
    reveal_strlit("<");
    reveal_strlit("<=");
    reveal_strlit("==");
    reveal_strlit(">=");
    reveal_strlit(">");
    assert("<"@.len() == 1);
    assert(">"@.len() == 1);
    assert("<="@.len() == 2);
    assert("=="@.len() == 2);
    assert(">="@.len() == 2);
    assert("<"@[0] == '<');
    assert(">"@[0] == '>');
    assert("<="@[0] == '<');
    assert("=="@[0] == '=');
    assert(">="@[0] == '>');
}

// ------------------------------------------------------------- hex colours

/// An ASCII hexadecimal digit.
pub open spec fn is_hex(c: char) -> bool {
    ('0' <= c && c <= '9') || ('a' <= c && c <= 'f') || ('A' <= c && c <= 'F')
}

/// The value of a hexadecimal digit.
pub open spec fn hex_val(c: char) -> int {
    if '0' <= c && c <= '9' {
        c as int - '0' as int
    } else if 'a' <= c && c <= 'f' {
        c as int - 'a' as int + 10
    } else {
        c as int - 'A' as int + 10
    }
}

/// The text without a `#` in front of it.
pub open spec fn after_hash(s: Seq<char>) -> Seq<char> {
    if s.len() > 0 && s[0] == '#' {
        s.skip(1)
    } else {
        s
    }
}

/// The colour that "#rrggbb" or "rrggbb" denotes.
pub open spec fn hex_colour(s: Seq<char>) -> Option<(int, int, int)> {
    let h = after_hash(s);
    if h.len() == 6 && (forall|i: int| 0 <= i < 6 ==> is_hex(#[trigger] h[i])) {
        Some(
            (
                16 * hex_val(h[0]) + hex_val(h[1]),
                16 * hex_val(h[2]) + hex_val(h[3]),
                16 * hex_val(h[4]) + hex_val(h[5]),
            ),
        )
    } else {
        None
    }
}

/// The value of a hexadecimal digit; `None` for any other character.
pub fn hex_digit(c: char) -> (r: Option<u8>)
    ensures
        match r {
            Some(v) => is_hex(c) && v == hex_val(c) && v < 16,
            None => !is_hex(c),
        },
{
    if '0' <= c && c <= '9' {
        Some((c as u32 - 48) as u8)
    } else if 'a' <= c && c <= 'f' {
        Some((c as u32 - 97 + 10) as u8)
    } else if 'A' <= c && c <= 'F' {
        Some((c as u32 - 65 + 10) as u8)
    } else {
        None
    }
}

/// The byte that two hexadecimal digits denote.
fn hex_pair(a: char, b: char) -> (r: Option<u8>)
    ensures
        match r {
            Some(v) => is_hex(a) && is_hex(b) && v == 16 * hex_val(a) + hex_val(b),
            None => !is_hex(a) || !is_hex(b),
        },
{
    match (hex_digit(a), hex_digit(b)) {
        (Some(x), Some(y)) => Some(16 * x + y),
        _ => None,
    }
}

/// Reads "#rrggbb" or "rrggbb".
pub fn parse_hex(s: &str) -> (r: Option<(u8, u8, u8)>)
    ensures
        match r {
            Some((r8, g8, b8)) => hex_colour(s@) == Some((r8 as int, g8 as int, b8 as int)),
            None => hex_colour(s@) is None,
        },
{
    let v = chars_of(s);
    let from: usize = if v.len() > 0 && v[0] == '#' {
        1
    } else {
        0
    };
    let h = slice_subrange(v.as_slice(), from, v.len());
    proof {
        assert(h@ =~= after_hash(s@));
    }
    if h.len() != 6 {
        return None;
    }
    match (hex_pair(h[0], h[1]), hex_pair(h[2], h[3]), hex_pair(h[4], h[5])) {
        (Some(r8), Some(g8), Some(b8)) => Some((r8, g8, b8)),
        _ => None,
    }
}

// ----------------------------------------------------------------- palette

impl Pal {
    /// The colour that a token names: a palette token, or a hexadecimal colour,
    /// or else white.
    pub open spec fn named(s: Seq<char>) -> Pal {
        if s == "bg"@ {
            Pal::Bg
        } else if s == "panel"@ {
            Pal::Panel
        } else if s == "dim"@ {
            Pal::Dim
        } else if s == "green"@ {
            Pal::Green
        } else if s == "amber"@ {
            Pal::Amber
        } else if s == "red"@ {
            Pal::Red
        } else if s == "cyan"@ {
            Pal::Cyan
        } else if s == "blue"@ {
            Pal::Blue
        } else if s == "purple"@ {
            Pal::Purple
        } else if s == "white"@ {
            Pal::White
        } else {
            match hex_colour(s) {
                Some((r, g, b)) => Pal::Rgb(r as u8, g as u8, b as u8),
                None => Pal::White,
            }
        }
    }

    /// The token of a named colour; "custom" for any other.
    pub open spec fn token(self) -> Seq<char> {
        match self {
            Pal::Bg => "bg"@,
            Pal::Panel => "panel"@,
            Pal::White => "white"@,
            Pal::Dim => "dim"@,
            Pal::Green => "green"@,
            Pal::Amber => "amber"@,
            Pal::Red => "red"@,
            Pal::Cyan => "cyan"@,
            Pal::Blue => "blue"@,
            Pal::Purple => "purple"@,
            Pal::Rgb(..) => "custom"@,
        }
    }

    /// The 8-bit sRGB channels of a colour.
    pub open spec fn channels(self) -> (u8, u8, u8) {
        match self {
            Pal::Bg => (8, 10, 14),
            Pal::Panel => (28, 32, 40),
            Pal::White => (235, 238, 245),
            Pal::Dim => (120, 128, 140),
            Pal::Green => (40, 220, 90),
            Pal::Amber => (255, 180, 40),
            Pal::Red => (240, 60, 60),
            Pal::Cyan => (40, 210, 230),
            Pal::Blue => (60, 130, 255),
            Pal::Purple => (180, 110, 255),
            Pal::Rgb(r, g, b) => (r, g, b),
        }
    }

    /// Reads a palette token or a hexadecimal colour.
    pub fn from_str(s: &str) -> (r: Pal)
        ensures
            r == Pal::named(s@),
    {
        let v = chars_of(s);
        let t = v.as_slice();
        if same(t, "bg") {
            Pal::Bg
        } else if same(t, "panel") {
            Pal::Panel
        } else if same(t, "dim") {
            Pal::Dim
        } else if same(t, "green") {
            Pal::Green
        } else if same(t, "amber") {
            Pal::Amber
        } else if same(t, "red") {
            Pal::Red
        } else if same(t, "cyan") {
            Pal::Cyan
        } else if same(t, "blue") {
            Pal::Blue
        } else if same(t, "purple") {
            Pal::Purple
        } else if same(t, "white") {
            Pal::White
        } else {
            match parse_hex(s) {
                Some((r, g, b)) => Pal::Rgb(r, g, b),
                None => Pal::White,
            }
        }
    }

    /// The token of this colour; "custom" where it has none.
    pub fn as_str(self) -> (r: &'static str)
        ensures
            r@ == self.token(),
    {
        match self {
            Pal::Bg => "bg",
            Pal::Panel => "panel",
            Pal::White => "white",
            Pal::Dim => "dim",
            Pal::Green => "green",
            Pal::Amber => "amber",
            Pal::Red => "red",
            Pal::Cyan => "cyan",
            Pal::Blue => "blue",
            Pal::Purple => "purple",
            Pal::Rgb(..) => "custom",
        }
    }

    /// The 8-bit sRGB channels of this colour.
    pub fn rgb888(self) -> (r: (u8, u8, u8))
        ensures
            r == self.channels(),
    {
        match self {
            Pal::Bg => (8, 10, 14),
            Pal::Panel => (28, 32, 40),
            Pal::White => (235, 238, 245),
            Pal::Dim => (120, 128, 140),
            Pal::Green => (40, 220, 90),
            Pal::Amber => (255, 180, 40),
            Pal::Red => (240, 60, 60),
            Pal::Cyan => (40, 210, 230),
            Pal::Blue => (60, 130, 255),
            Pal::Purple => (180, 110, 255),
            Pal::Rgb(r, g, b) => (r, g, b),
        }
    }
}

/// Reading the token of a named colour gives that colour.
pub proof fn pal_token_round_trip(p: Pal)
    requires
        !(p is Rgb),
    ensures
        Pal::named(p.token()) == p,
{
    reveal_strlit("bg");
    reveal_strlit("panel");
    reveal_strlit("white");
    reveal_strlit("dim");
    reveal_strlit("green");
    reveal_strlit("amber");
    reveal_strlit("red");
    reveal_strlit("cyan");
    reveal_strlit("blue");
    reveal_strlit("purple");
    assert("panel"@[0] == 'p');
    assert("white"@[0] == 'w');
    assert("green"@[0] == 'g');
    assert("amber"@[0] == 'a');
    assert("dim"@[0] == 'd');
    assert("red"@[0] == 'r');
    assert("cyan"@[0] == 'c');
    assert("blue"@[0] == 'b');
}

// ------------------------------------------------------------------ values

/// The value of a channel that has no reading. It is shown as `--`.
pub const NA: i32 = -2_000_000_000;

/// The quotient of `a` and `b` rounded toward zero, for a positive `b`.
pub open spec fn tdiv(a: int, b: int) -> int {
    if a >= 0 {
        a / b
    } else {
        -((-a) / b)
    }
}

/// The absolute value.
pub open spec fn abs(v: int) -> int {
    if v < 0 {
        -v
    } else {
        v
    }
}

/// `v` brought into the range from `lo` to `hi`.
pub open spec fn clamped(v: int, lo: int, hi: int) -> int {
    if v < lo {
        lo
    } else if v > hi {
        hi
    } else {
        v
    }
}

/// The scale that is divided by: 1 in place of one that is not positive.
pub open spec fn scale_of(scale: int) -> int {
    if scale <= 0 {
        1
    } else {
        scale
    }
}

/// Signed seconds with four decimals, clamped to 9.9999 either way.
pub open spec fn delta_text(v: int) -> Seq<char> {
    let a = abs(clamped(v, -99999, 99999));
    seq![if v >= 0 { '+' } else { '-' }] + dec_text((a / 10000) as nat) + seq!['.'] + pad_text(
        (a % 10000) as nat,
        4,
    )
}

/// What a raw value is shown as.
pub open spec fn shown(v: int, fmt: Fmt, scale: int, unit: Seq<char>) -> Seq<char> {
    let sc = scale_of(scale);
    if v == NA {
        "--"@
    } else {
        match fmt {
            Fmt::Time => if v <= 0 {
                "--:--.---"@
            } else {
                dec_text((v / 60000) as nat) + seq![':'] + pad_text((v / 1000 % 60) as nat, 2) + seq!['.']
                    + pad_text((v % 1000) as nat, 3) + unit
            },
            Fmt::Sector => if v <= 0 {
                "--.---"@
            } else {
                dec_text((v / 1000) as nat) + seq!['.'] + pad_text((v % 1000) as nat, 3) + unit
            },
            Fmt::Delta => delta_text(v),
            Fmt::Fixed1 => int_text(tdiv(v, sc)) + seq!['.'] + dec_text(
                (abs(v) * 10 / sc % 10) as nat,
            ) + unit,
            Fmt::Fixed2 => int_text(tdiv(v, sc)) + seq!['.'] + pad_text(
                (abs(v) * 100 / sc % 100) as nat,
                2,
            ) + unit,
            Fmt::Int => int_text(tdiv(v, sc)) + unit,
            Fmt::Str => int_text(v) + unit,
        }
    }
}

/// The value can be shown in that format: its decimals are computed in 32 bits.
pub open spec fn showable(v: int, fmt: Fmt) -> bool {
    v == NA || match fmt {
        Fmt::Fixed1 => abs(v) * 10 <= i32::MAX,
        Fmt::Fixed2 => abs(v) * 100 <= i32::MAX,
        _ => true,
    }
}

/// Whether the value can be shown in that format.
pub fn can_show(v: i32, fmt: Fmt) -> (r: bool)
    ensures
        r == showable(v as int, fmt),
{
    v == NA || match fmt {
        Fmt::Fixed1 => -214_748_364 <= v && v <= 214_748_364,
        Fmt::Fixed2 => -21_474_836 <= v && v <= 21_474_836,
        _ => true,
    }
}

/// Shows a raw value in a format, with `unit` behind it. An integer and the fixed-point
/// formats are divided by `scale`.
pub fn format(v: i32, fmt: Fmt, scale: i32, unit: &str) -> (s: String)
    requires
        showable(v as int, fmt),
    ensures
        s@ == shown(v as int, fmt, scale as int, unit@),
{
    if v == NA {
        return String::from_str("--");
    }
    let sc: i32 = if scale <= 0 {
        1
    } else {
        scale
    };
    let mut s = String::new();
    match fmt {
        Fmt::Time => {
            if v <= 0 {
                return String::from_str("--:--.---");
            }
            push_dec(&mut s, (v / 60000) as u64);
            s.push(':');
            push_padded(&mut s, (v / 1000 % 60) as u64, 2);
            s.push('.');
            push_padded(&mut s, (v % 1000) as u64, 3);
            s.append(unit);
        },
        Fmt::Sector => {
            if v <= 0 {
                return String::from_str("--.---");
            }
            push_dec(&mut s, (v / 1000) as u64);
            s.push('.');
            push_padded(&mut s, (v % 1000) as u64, 3);
            s.append(unit);
        },
        Fmt::Delta => {
            let c: i32 = if v < -99999 {
                -99999
            } else if v > 99999 {
                99999
            } else {
                v
            };
            let a: i32 = if c < 0 {
                -c
            } else {
                c
            };
            s.push(
                if v >= 0 {
                    '+'
                } else {
                    '-'
                },
            );
            push_dec(&mut s, (a / 10000) as u64);
            s.push('.');
            push_padded(&mut s, (a % 10000) as u64, 4);
        },
        Fmt::Fixed1 => {
            let a: i32 = if v < 0 {
                -v
            } else {
                v
            };
            push_int(&mut s, (v / sc) as i64);
            s.push('.');
            push_dec(&mut s, (a * 10 / sc % 10) as u64);
            s.append(unit);
        },
        Fmt::Fixed2 => {
            let a: i32 = if v < 0 {
                -v
            } else {
                v
            };
            push_int(&mut s, (v / sc) as i64);
            s.push('.');
            push_padded(&mut s, (a * 100 / sc % 100) as u64, 2);
            s.append(unit);
        },
        Fmt::Int => {
            push_int(&mut s, (v / sc) as i64);
            s.append(unit);
        },
        Fmt::Str => {
            push_int(&mut s, v as i64);
            s.append(unit);
        },
    }
    proof {
        assert(s@ =~= shown(v as int, fmt, scale as int, unit@));
    }
    s
}

// -------------------------------------------------------------------- laws

/// `n` is the whole part of `a / d`.
proof fn lemma_whole_part(a: int, d: int, n: int)
    requires
        d > 0,
        n * d <= a < (n + 1) * d,
    ensures
        a / d == n,
{
    let r = a - n * d;
    assert((n + 1) * d == n * d + d) by (nonlinear_arith);
    assert(a == d * n + r) by (nonlinear_arith)
        requires
            r == a - n * d,
    ;
    vstd::arithmetic::div_mod::lemma_fundamental_div_mod_converse(a, d, n, r);
}

/// A lap time of `m` minutes, `s` seconds and `ms` milliseconds is shown as
/// `m:ss.mmm`, a sector time of `s` seconds and `ms` milliseconds as `s.mmm`, both
/// with the unit behind them; a time that is not above 0 is shown as dashes. The
/// scale plays no part.
pub proof fn times_are_shown_in_parts(m: int, s: int, ms: int, scale: int, unit: Seq<char>)
    requires
        m >= 0,
        0 <= s < 60,
        0 <= ms < 1000,
        m > 0 || s > 0 || ms > 0,
    ensures
        shown(60000 * m + 1000 * s + ms, Fmt::Time, scale, unit) == dec_text(m as nat) + seq![':']
            + pad_text(s as nat, 2) + seq!['.'] + pad_text(ms as nat, 3) + unit,
        s > 0 || ms > 0 ==> shown(1000 * s + ms, Fmt::Sector, scale, unit) == dec_text(s as nat)
            + seq!['.'] + pad_text(ms as nat, 3) + unit,
        forall|v: int|
            v <= 0 && v != -2_000_000_000 ==> #[trigger] shown(v, Fmt::Time, scale, unit)
                == "--:--.---"@,
        forall|v: int|
            v <= 0 && v != -2_000_000_000 ==> #[trigger] shown(v, Fmt::Sector, scale, unit)
                == "--.---"@,
{
    let v = 60000 * m + 1000 * s + ms;
    assert(v / 60000 == m && v / 1000 == 60 * m + s && v % 1000 == ms);
    assert((60 * m + s) % 60 == s);
}

/// A delta of `s` seconds and `f` ten-thousandths is shown with its sign, the
/// seconds and four decimals; one of ten seconds or more is shown as 9.9999. The
/// scale and the unit play no part.
pub proof fn deltas_are_shown_signed(s: int, f: int, scale: int, unit: Seq<char>)
    requires
        0 <= s < 10,
        0 <= f < 10000,
    ensures
        ({
            let v = 10000 * s + f;
            let digits = dec_text(s as nat) + seq!['.'] + pad_text(f as nat, 4);
            &&& shown(v, Fmt::Delta, scale, unit) == seq!['+'] + digits
            &&& v > 0 ==> shown(-v, Fmt::Delta, scale, unit) == seq!['-'] + digits
        }),
        forall|v: int|
            v >= 100000 ==> #[trigger] shown(v, Fmt::Delta, scale, unit) == shown(
                99999,
                Fmt::Delta,
                scale,
                unit,
            ),
        forall|v: int|
            v <= -100000 && v != -2_000_000_000 ==> #[trigger] shown(v, Fmt::Delta, scale, unit)
                == shown(-99999, Fmt::Delta, scale, unit),
{
    let v = 10000 * s + f;
    assert(v / 10000 == s && v % 10000 == f);
    let digits = dec_text(s as nat) + seq!['.'] + pad_text(f as nat, 4);
    assert(shown(v, Fmt::Delta, scale, unit) =~= seq!['+'] + digits);
    if v > 0 {
        assert(shown(-v, Fmt::Delta, scale, unit) =~= seq!['-'] + digits);
    }
}

/// A value that is not negative is shown with its decimals cut off, not rounded:
/// `n` whole, tenth or hundredth parts of the scale are in it and no more, and they
/// are shown with a point before the last none, one or two digits.
pub proof fn decimals_are_cut(v: int, scale: int, unit: Seq<char>, whole: int, part: int, n: int)
    requires
        v >= 0,
        scale > 0,
        whole >= 0,
        n == 1 || n == 10 || n == 100,
        0 <= part < n,
        (n * whole + part) * scale <= n * v < (n * whole + part + 1) * scale,
    ensures
        n == 1 ==> shown(v, Fmt::Int, scale, unit) == int_text(whole) + unit,
        n == 10 ==> shown(v, Fmt::Fixed1, scale, unit) == int_text(whole) + seq!['.'] + dec_text(
            part as nat,
        ) + unit,
        n == 100 ==> shown(v, Fmt::Fixed2, scale, unit) == int_text(whole) + seq!['.'] + pad_text(
            part as nat,
            2,
        ) + unit,
{
    let k = n * whole + part;
    lemma_whole_part(n * v, scale, k);
    assert(whole * scale <= v < (whole + 1) * scale) by (nonlinear_arith)
        requires
            k == n * whole + part,
            k * scale <= n * v < (k + 1) * scale,
            0 <= part < n,
            scale > 0,
            n > 0,
    {
        assert(n * (whole * scale) <= k * scale);
        assert((k + 1) * scale <= n * ((whole + 1) * scale));
    }
    lemma_whole_part(v, scale, whole);
    assert(v * 10 == 10 * v && v * 100 == 100 * v);
    if n == 10 {
        assert(k % 10 == part);
    } else if n == 100 {
        assert(k % 100 == part);
    }
}

/// A negative value is shown as its opposite with a minus sign in front, where it
/// is at least one whole scale; a smaller one loses its sign.
pub proof fn negatives_mirror(v: int, fmt: Fmt, scale: int, unit: Seq<char>)
    requires
        v > 0,
        scale > 0,
        v != 2_000_000_000,
        fmt == Fmt::Int || fmt == Fmt::Fixed1 || fmt == Fmt::Fixed2,
    ensures
        v >= scale ==> shown(-v, fmt, scale, unit) == seq!['-'] + shown(v, fmt, scale, unit),
        v < scale ==> shown(-v, fmt, scale, unit) == shown(v, fmt, scale, unit),
{
    let q = v / scale;
    vstd::arithmetic::div_mod::lemma_fundamental_div_mod(v, scale);
    vstd::arithmetic::div_mod::lemma_mod_bound(v, scale);
    assert(v >= scale ==> q > 0) by (nonlinear_arith)
        requires
            v == scale * q + v % scale,
            0 <= v % scale < scale,
    ;
    if v < scale {
        vstd::arithmetic::div_mod::lemma_basic_div(v, scale);
        assert(tdiv(-v, scale) == 0);
        assert(tdiv(v, scale) == 0);
    } else {
        assert(int_text(-q) =~= seq!['-'] + int_text(q));
        assert(tdiv(-v, scale) == -q);
        assert(shown(-v, fmt, scale, unit) =~= seq!['-'] + shown(v, fmt, scale, unit));
    }
}

/// A channel without a reading is shown as two dashes in every format; a scale that
/// is not positive counts as 1; a count or code is shown as it is, whatever the
/// scale.
pub proof fn scales_and_gaps(v: int, fmt: Fmt, scale: int, other: int, unit: Seq<char>)
    ensures
        shown(-2_000_000_000, fmt, scale, unit) == "--"@,
        scale <= 0 ==> shown(v, fmt, scale, unit) == shown(v, fmt, 1, unit),
        shown(v, Fmt::Str, scale, unit) == shown(v, Fmt::Str, other, unit),
        v != -2_000_000_000 ==> shown(v, Fmt::Str, scale, unit) == int_text(v) + unit,
        v != -2_000_000_000 ==> shown(v, Fmt::Int, 1, unit) == int_text(v) + unit,
{
    assert(v / 1 == v);
    assert((-v) / 1 == -v);
}

/// What the tokens of the formats mean.
pub proof fn format_tokens_mean_formats()
    ensures
        Fmt::named("int"@) == Fmt::Int,
        Fmt::named("fixed1"@) == Fmt::Fixed1,
        Fmt::named("fixed2"@) == Fmt::Fixed2,
        Fmt::named("time"@) == Fmt::Time,
        Fmt::named("sector"@) == Fmt::Sector,
        Fmt::named("delta"@) == Fmt::Delta,
        Fmt::named("string"@) == Fmt::Str,
        forall|s: Seq<char>|
            s != "fixed1"@ && s != "fixed2"@ && s != "time"@ && s != "sector"@ && s != "delta"@ && s
                != "string"@ ==> #[trigger] Fmt::named(s) == Fmt::Int,
{
    fmt_token_round_trip(Fmt::Int);
    fmt_token_round_trip(Fmt::Fixed1);
    fmt_token_round_trip(Fmt::Fixed2);
    fmt_token_round_trip(Fmt::Time);
    fmt_token_round_trip(Fmt::Sector);
    fmt_token_round_trip(Fmt::Delta);
    fmt_token_round_trip(Fmt::Str);
}

/// A rule compares as its token says, the value on the left and the value of the
/// rule on the right; an unknown token compares as `>`.
pub proof fn rules_compare_as_written(s: Seq<char>, v: int, rule_v: int)
    ensures
        RuleOp::named("<"@).holds(v, rule_v) <==> v < rule_v,
        RuleOp::named("<="@).holds(v, rule_v) <==> v <= rule_v,
        RuleOp::named("=="@).holds(v, rule_v) <==> v == rule_v,
        RuleOp::named(">="@).holds(v, rule_v) <==> v >= rule_v,
        RuleOp::named(">"@).holds(v, rule_v) <==> v > rule_v,
        s != "<"@ && s != "<="@ && s != "=="@ && s != ">="@ ==> (RuleOp::named(s).holds(v, rule_v)
            <==> v > rule_v),
        RuleOp::Lt.holds(v, rule_v) <==> !RuleOp::Ge.holds(v, rule_v),
        RuleOp::Gt.holds(v, rule_v) <==> !RuleOp::Le.holds(v, rule_v),
        RuleOp::Eq.holds(v, rule_v) <==> RuleOp::Le.holds(v, rule_v) && RuleOp::Ge.holds(v, rule_v),
{
    op_token_round_trip(RuleOp::Lt);
    op_token_round_trip(RuleOp::Le);
    op_token_round_trip(RuleOp::Eq);
    op_token_round_trip(RuleOp::Ge);
    op_token_round_trip(RuleOp::Gt);
}

/// The colours that the palette tokens name.
pub proof fn palette_tokens_mean_colours()
    ensures
        Pal::named("bg"@).channels() == (8u8, 10u8, 14u8),
        Pal::named("panel"@).channels() == (28u8, 32u8, 40u8),
        Pal::named("white"@).channels() == (235u8, 238u8, 245u8),
        Pal::named("dim"@).channels() == (120u8, 128u8, 140u8),
        Pal::named("green"@).channels() == (40u8, 220u8, 90u8),
        Pal::named("amber"@).channels() == (255u8, 180u8, 40u8),
        Pal::named("red"@).channels() == (240u8, 60u8, 60u8),
        Pal::named("cyan"@).channels() == (40u8, 210u8, 230u8),
        Pal::named("blue"@).channels() == (60u8, 130u8, 255u8),
        Pal::named("purple"@).channels() == (180u8, 110u8, 255u8),
{
    pal_token_round_trip(Pal::Bg);
    pal_token_round_trip(Pal::Panel);
    pal_token_round_trip(Pal::White);
    pal_token_round_trip(Pal::Dim);
    pal_token_round_trip(Pal::Green);
    pal_token_round_trip(Pal::Amber);
    pal_token_round_trip(Pal::Red);
    pal_token_round_trip(Pal::Cyan);
    pal_token_round_trip(Pal::Blue);
    pal_token_round_trip(Pal::Purple);
}

/// The hexadecimal digit of `v`, in small or capital letters.
pub open spec fn hex_char(v: u8, capital: bool) -> char {
    if v < 10 {
        (48 + v) as char
    } else if capital {
        (55 + v) as char
    } else {
        (87 + v) as char
    }
}

/// Six hexadecimal digits, in small or capital letters and with or without a `#`,
/// are read as red, green and blue, the high digit of each first.
pub proof fn hex_colours_are_read(r: u8, g: u8, b: u8, capital: bool)
    ensures
        ({
            let digits = seq![
                hex_char(r / 16, capital),
                hex_char(r % 16, capital),
                hex_char(g / 16, capital),
                hex_char(g % 16, capital),
                hex_char(b / 16, capital),
                hex_char(b % 16, capital),
            ];
            &&& hex_colour(digits) == Some((r as int, g as int, b as int))
            &&& hex_colour(seq!['#'] + digits) == Some((r as int, g as int, b as int))
            &&& Pal::named(seq!['#'] + digits) == Pal::Rgb(r, g, b)
        }),
{
    let digits = seq![
        hex_char(r / 16, capital),
        hex_char(r % 16, capital),
        hex_char(g / 16, capital),
        hex_char(g % 16, capital),
        hex_char(b / 16, capital),
        hex_char(b % 16, capital),
    ];
    assert forall|i: int| 0 <= i < 6 implies is_hex(#[trigger] digits[i]) by {}
    assert(digits[0] != '#');
    assert(after_hash(digits) == digits);
    assert((seq!['#'] + digits).skip(1) =~= digits);
    let s = seq!['#'] + digits;
    assert(s[0] == '#' && s.len() == 7);
    reveal_strlit("bg");
    reveal_strlit("panel");
    reveal_strlit("white");
    reveal_strlit("dim");
    reveal_strlit("green");
    reveal_strlit("amber");
    reveal_strlit("red");
    reveal_strlit("cyan");
    reveal_strlit("blue");
    reveal_strlit("purple");
}

/// A text that is neither a palette token nor six hexadecimal digits names white.
pub proof fn unknown_colours_are_white(s: Seq<char>)
    requires
        s.len() > 7,
    ensures
        hex_colour(s) is None,
        Pal::named(s) == Pal::White,
{
    reveal_strlit("bg");
    reveal_strlit("panel");
    reveal_strlit("white");
    reveal_strlit("dim");
    reveal_strlit("green");
    reveal_strlit("amber");
    reveal_strlit("red");
    reveal_strlit("cyan");
    reveal_strlit("blue");
    reveal_strlit("purple");
}

} // verus!
