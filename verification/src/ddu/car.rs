//! The shift-light data of a car, as the dashboard pushes it.

use vstd::prelude::*;
use vstd::string::StringExecFns;
use crate::format::{hex_digit, hex_val, is_hex};
use crate::json;
use crate::json::{int_at, json_doc, json_read, leaf_at, len_at, text_at, Doc, Leaf, LeafView};
use crate::shift::{no_car, CarData, CarDataView, CAR_LED_MAX};
use crate::text::{chars_of, dec_text, push_dec, same, string_of, trim, trimmed};

verus! {

// ------------------------------------------------------------------- numbers

/// The value of hex digits.
pub open spec fn hex_number(s: Seq<char>) -> int
    decreases s.len(),
{
    if s.len() == 0 {
        0
    } else {
        16 * hex_number(s.drop_last()) + hex_val(s.last())
    }
}

/// Whether all characters are hex digits.
pub open spec fn all_hex(s: Seq<char>) -> bool {
    forall|i: int| 0 <= i < s.len() ==> is_hex(#[trigger] s[i])
}

/// The text behind one leading character, where it is there.
pub open spec fn past(s: Seq<char>, c: char) -> Seq<char> {
    if s.len() > 0 && s[0] == c {
        s.drop_first()
    } else {
        s
    }
}

/// The colour 0xRRGGBB of `#AARRGGBB` or `#RRGGBB`, the `#` optional and the alpha
/// dropped; black where it is no hex number of 32 bits.
pub open spec fn colour_of(s: Seq<char>) -> u32 {
    let t = past(past(s, '#'), '+');
    if t.len() > 0 && all_hex(t) && hex_number(t) <= u32::MAX {
        (hex_number(t) % 0x100_0000) as u32
    } else {
        0
    }
}

/// The text behind one leading character, where it is there.
fn past_of<'a>(s: &'a [char], c: char) -> (r: &'a [char])
    ensures
        r@ == past(s@, c),
{
    if s.len() > 0 && s[0] == c {
        let r = vstd::slice::slice_subrange(s, 1, s.len());
        proof {
            assert(r@ =~= s@.drop_first());
        }
        r
    } else {
        s
    }
}

proof fn lemma_hex_grows(s: Seq<char>, k: int)
    requires
        all_hex(s),
        0 <= k <= s.len(),
    ensures
        0 <= hex_number(s.take(k)) <= hex_number(s),
    decreases s.len(),
{
    if k < s.len() {
        let t = s.drop_last();
        assert(all_hex(t));
        lemma_hex_grows(t, k);
        assert(t.take(k) =~= s.take(k));
        assert(is_hex(s[s.len() - 1]));
    } else {
        assert(s.take(k) =~= s);
        if s.len() > 0 {
            let t = s.drop_last();
            assert(all_hex(t));
            lemma_hex_grows(t, 0);
            assert(t.take(0) =~= Seq::<char>::empty());
            assert(is_hex(s[s.len() - 1]));
        }
    }
}

/// Reads a colour.
pub fn parse_hex(s: &str) -> (r: u32)
    ensures
        r == colour_of(s@),
{
    let c = chars_of(s);
    let t = past_of(past_of(c.as_slice(), '#'), '+');
    if t.len() == 0 {
        return 0;
    }
    let mut v: u64 = 0;
    let mut k: usize = 0;
    proof {
        assert(t@.take(0) =~= Seq::<char>::empty());
    }
    while k < t.len()
        invariant
            k <= t@.len(),
            t@ == past(past(s@, '#'), '+'),
            t@.len() > 0,
            all_hex(t@.take(k as int)),
            v == hex_number(t@.take(k as int)),
            v <= u32::MAX,
        decreases t@.len() - k,
    {
        let ghost u = t@.take(k + 1);
        proof {
            assert(u.drop_last() =~= t@.take(k as int));
            assert(u.last() == t@[k as int]);
        }
        match hex_digit(t[k]) {
            None => {
                assert(!is_hex(t@[k as int]));
                return 0;
            },
            Some(d) => {
                v = 16 * v + d as u64;
                proof {
                    assert forall|i: int| 0 <= i < u.len() implies is_hex(#[trigger] u[i]) by {
                        if i < k {
                            assert(u[i] == t@.take(k as int)[i]);
                        }
                    }
                }
                if v > 0xFFFF_FFFF {
                    proof {
                        if all_hex(t@) {
                            lemma_hex_grows(t@, k + 1);
                        }
                    }
                    return 0;
                }
            },
        }
        k += 1;
    }
    proof {
        assert(t@.take(k as int) =~= t@);
    }
    (v % 0x100_0000) as u32
}

/// The low 16 bits of a number.
fn low16(v: i64) -> (r: u16)
    ensures
        r == v as int % 65536,
{
    let m: i64 = v % 65536;
    if m < 0 {
        (m + 65536) as u16
    } else {
        m as u16
    }
}

// -------------------------------------------------------------------- source

/// The keys of the gears.
pub open spec fn gear_key(g: int) -> char {
    if g == 0 {
        'R'
    } else if g == 1 {
        'N'
    } else {
        crate::text::digit_char(g - 1)
    }
}

/// What a push holds for one gear.
#[derive(Debug)]
pub struct GearSource {
    pub redline: Option<i64>,
    /// The RPM of each LED that is kept.
    pub steps: Vec<Option<i64>>,
}

/// What a push holds, as far as it is looked at.
#[derive(Debug)]
pub struct CarSource {
    pub name: Option<String>,
    pub led_number: Option<i64>,
    pub blink: Option<i64>,
    /// The colour of each LED that is kept.
    pub colours: Vec<Option<String>>,
    /// The gears R, N, 1 to 9.
    pub gears: Vec<GearSource>,
}

/// What a push holds for one gear, as plain values.
pub struct GearView {
    pub redline: Option<i64>,
    pub steps: Seq<Option<i64>>,
}

/// What a push holds, as plain values.
pub struct SourceView {
    pub name: Option<Seq<char>>,
    pub led_number: Option<i64>,
    pub blink: Option<i64>,
    pub colours: Seq<Option<Seq<char>>>,
    pub gears: Seq<GearView>,
}

/// An optional string as plain values.
pub open spec fn opt_text(s: Option<String>) -> Option<Seq<char>> {
    match s {
        Some(t) => Some(t@),
        None => None,
    }
}

impl View for GearSource {
    type V = GearView;

    open spec fn view(&self) -> GearView {
        GearView { redline: self.redline, steps: self.steps@ }
    }
}

impl View for CarSource {
    type V = SourceView;

    open spec fn view(&self) -> SourceView {
        SourceView {
            name: opt_text(self.name),
            led_number: self.led_number,
            blink: self.blink,
            colours: self.colours@.map_values(|s: Option<String>| opt_text(s)),
            gears: self.gears@.map_values(|g: GearSource| g@),
        }
    }
}

/// The number of LEDs that a push announces.
pub open spec fn announced(led_number: Option<i64>) -> int {
    match led_number {
        Some(n) => if n > 0 {
            n as int
        } else {
            0
        },
        None => 0,
    }
}

/// The number of LEDs that are kept.
pub open spec fn kept_leds(led_number: Option<i64>) -> int {
    if announced(led_number) > CAR_LED_MAX {
        CAR_LED_MAX as int
    } else {
        announced(led_number)
    }
}

/// The first LEDs, which are left out where there are more than fit.
pub open spec fn skipped_leds(led_number: Option<i64>) -> int {
    announced(led_number) - kept_leds(led_number)
}

/// The place of item `k` of a list.
pub open spec fn item_at(list: Seq<char>, k: int) -> Seq<char> {
    list + "/"@ + dec_text(k as nat)
}

/// The place of the list of a gear.
pub open spec fn gear_at(g: int) -> Seq<char> {
    "/ledRpm/0/"@ + seq![gear_key(g)]
}

/// What a push holds for a gear.
pub open spec fn gear_of(d: Doc, g: int, n: int, skip: int) -> GearView {
    let list = gear_at(g);
    let there = len_at(d, "/ledRpm"@) is Some && leaf_at(d, "/ledRpm/0"@) == LeafView::Dict
        && len_at(d, list) is Some;
    GearView {
        redline: if there {
            int_at(d, item_at(list, 0))
        } else {
            None
        },
        steps: Seq::new(
            n as nat,
            |i: int|
                if there {
                    int_at(d, item_at(list, skip + i + 1))
                } else {
                    None
                },
        ),
    }
}

/// What a push holds. The first item of the colours and of a gear's list belongs to
/// the redline, the others to the LEDs.
pub open spec fn source_of(d: Doc) -> SourceView {
    let led_number = int_at(d, "/ledNumber"@);
    let n = kept_leds(led_number);
    let skip = skipped_leds(led_number);
    SourceView {
        name: text_at(d, "/carName"@),
        led_number,
        blink: int_at(d, "/redlineBlinkInterval"@),
        colours: Seq::new(
            n as nat,
            |i: int|
                if len_at(d, "/ledColor"@) is Some {
                    text_at(d, item_at("/ledColor"@, skip + i + 1))
                } else {
                    None
                },
        ),
        gears: Seq::new(11, |g: int| gear_of(d, g, n, skip)),
    }
}

/// The place of item `k` of a list.
fn item_pointer(list: &str, k: u64) -> (s: String)
    ensures
        s@ == item_at(list@, k as int),
{
    let mut s = String::from_str(list);
    s.append("/");
    push_dec(&mut s, k);
    proof {
        assert(s@ =~= item_at(list@, k as int));
    }
    s
}

/// The key of a gear.
fn gear_key_of(g: usize) -> (c: char)
    requires
        g < 11,
    ensures
        c == gear_key(g as int),
{
    if g == 0 {
        'R'
    } else if g == 1 {
        'N'
    } else {
        (0x2Fu8 + g as u8) as char
    }
}

/// Reads what a push holds for a gear.
fn read_gear(v: &serde_json::Value, table: bool, g: usize, n: usize, skip: u64) -> (r: GearSource)
    requires
        g < 11,
        n <= 12,
        skip <= i64::MAX,
        table == (len_at(json_doc(*v), "/ledRpm"@) is Some && leaf_at(json_doc(*v), "/ledRpm/0"@)
            == LeafView::Dict),
    ensures
        r@ == gear_of(json_doc(*v), g as int, n as int, skip as int),
{
    let mut list = String::from_str("/ledRpm/0/");
    list.push(gear_key_of(g));
    proof {
        assert(list@ =~= gear_at(g as int));
    }
    let there = table && json::list_len(v, list.as_str()).is_some();
    let redline: Option<i64> = if there {
        json::integer(v, item_pointer(list.as_str(), 0).as_str())
    } else {
        None
    };
    let mut steps: Vec<Option<i64>> = Vec::new();
    let mut i: usize = 0;
    let ghost d = json_doc(*v);
    while i < n
        invariant
            i <= n,
            n <= 12,
            skip <= i64::MAX,
            list@ == gear_at(g as int),
            d == json_doc(*v),
            steps@.len() == i,
            forall|j: int|
                0 <= j < i ==> #[trigger] steps@[j] == if there {
                    int_at(d, item_at(list@, skip + j + 1))
                } else {
                    None
                },
        decreases n - i,
    {
        let x: Option<i64> = if there {
            json::integer(v, item_pointer(list.as_str(), skip + i as u64 + 1).as_str())
        } else {
            None
        };
        steps.push(x);
        i += 1;
    }
    let r = GearSource { redline, steps };
    proof {
        assert(r@.steps =~= gear_of(d, g as int, n as int, skip as int).steps);
    }
    r
}

/// Reads what a push holds.
pub fn read_source(v: &serde_json::Value) -> (r: CarSource)
    ensures
        r@ == source_of(json_doc(*v)),
{
    let ghost d = json_doc(*v);
    let led_number = json::integer(v, "/ledNumber");
    let raw: u64 = match led_number {
        Some(x) => if x > 0 {
            x as u64
        } else {
            0
        },
        None => 0,
    };
    let n: usize = if raw > 12 {
        12
    } else {
        raw as usize
    };
    let skip: u64 = raw - n as u64;
    let has_colours = json::list_len(v, "/ledColor").is_some();
    let mut colours: Vec<Option<String>> = Vec::new();
    let mut i: usize = 0;
    while i < n
        invariant
            i <= n,
            n <= 12,
            skip <= i64::MAX,
            d == json_doc(*v),
            has_colours == (len_at(d, "/ledColor"@) is Some),
            colours@.len() == i,
            forall|j: int|
                0 <= j < i ==> opt_text(#[trigger] colours@[j]) == if has_colours {
                    text_at(d, item_at("/ledColor"@, skip + j + 1))
                } else {
                    None
                },
        decreases n - i,
    {
        let x: Option<String> = if has_colours {
            json::text(v, item_pointer("/ledColor", skip + i as u64 + 1).as_str())
        } else {
            None
        };
        colours.push(x);
        i += 1;
    }
    let table = json::list_len(v, "/ledRpm").is_some() && matches!(json::at(v, "/ledRpm/0"), Leaf::Dict);
    let mut gears: Vec<GearSource> = Vec::new();
    let mut g: usize = 0;
    while g < 11
        invariant
            g <= 11,
            n <= 12,
            skip <= i64::MAX,
            d == json_doc(*v),
            table == (len_at(d, "/ledRpm"@) is Some && leaf_at(d, "/ledRpm/0"@) == LeafView::Dict),
            gears@.len() == g,
            forall|j: int|
                0 <= j < g ==> (#[trigger] gears@[j])@ == gear_of(d, j, n as int, skip as int),
        decreases 11 - g,
    {
        gears.push(read_gear(v, table, g, n, skip));
        g += 1;
    }
    let r = CarSource {
        name: json::text(v, "/carName"),
        led_number,
        blink: json::integer(v, "/redlineBlinkInterval"),
        colours,
        gears,
    };
    proof {
        let s = source_of(d);
        assert(r@.colours =~= s.colours);
        assert(r@.gears =~= s.gears);
    }
    r
}

// ----------------------------------------------------------------------- car

/// The blink interval of a push: 0 for none, from 20 to 65535 ms otherwise, 100 where
/// the push says nothing.
pub open spec fn blink_of(blink: Option<i64>) -> u16 {
    match blink {
        None => 100,
        Some(b) => if b <= 0 {
            0
        } else if b < 20 {
            20
        } else if b > 65535 {
            65535
        } else {
            b as u16
        },
    }
}

/// The value of an optional number, its low 16 bits; 0 where there is none.
pub open spec fn rpm_of(v: Option<i64>) -> u16 {
    match v {
        Some(x) => (x as int % 65536) as u16,
        None => 0,
    }
}

/// The car that a push describes; `None` where it has no LEDs.
pub open spec fn car_of(s: SourceView) -> Option<CarDataView> {
    let n = kept_leds(s.led_number);
    if n == 0 {
        None
    } else {
        Some(
            CarDataView {
                valid: true,
                led_count: n,
                blink_ms: blink_of(s.blink),
                led_color: Seq::new(
                    12,
                    |i: int|
                        if i < n {
                            match s.colours[i] {
                                Some(t) => colour_of(t),
                                None => 0,
                            }
                        } else {
                            0u32
                        },
                ),
                redline: Seq::new(11, |g: int| rpm_of(s.gears[g].redline)),
                thresh: Seq::new(
                    11,
                    |g: int|
                        Seq::new(
                            12,
                            |i: int|
                                if i < n {
                                    rpm_of(s.gears[g].steps[i])
                                } else {
                                    0u16
                                },
                        ),
                ),
                name: match s.name {
                    Some(t) => if t.len() > 23 {
                        t.take(23)
                    } else {
                        t
                    },
                    None => Seq::empty(),
                },
            },
        )
    }
}

/// A push holds as many colours and steps as LEDs are kept.
pub open spec fn is_complete(s: SourceView) -> bool {
    &&& s.colours.len() == kept_leds(s.led_number)
    &&& s.gears.len() == 11
    &&& forall|g: int|
        0 <= g < 11 ==> (#[trigger] s.gears[g]).steps.len() == kept_leds(s.led_number)
}

fn rpm(v: Option<i64>) -> (r: u16)
    ensures
        r == rpm_of(v),
{
    match v {
        Some(x) => low16(x),
        None => 0,
    }
}

/// The steps of a gear, 0 for the LEDs that are not there.
fn steps_of(g: &GearSource, n: usize) -> (r: [u16; 12])
    requires
        n <= 12,
        g.steps@.len() == n,
    ensures
        r@ == Seq::new(
            12,
            |i: int|
                if i < n {
                    rpm_of(g@.steps[i])
                } else {
                    0u16
                },
        ),
{
    let mut r: [u16; 12] = [0; 12];
    let mut i: usize = 0;
    while i < n
        invariant
            i <= n,
            n <= 12,
            g.steps@.len() == n,
            r@.len() == 12,
            forall|j: int|
                0 <= j < 12 ==> #[trigger] r@[j] == if j < i {
                    rpm_of(g.steps@[j])
                } else {
                    0u16
                },
        decreases n - i,
    {
        r[i] = rpm(g.steps[i]);
        i += 1;
    }
    proof {
        assert(r@ =~= Seq::new(
            12,
            |i: int|
                if i < n {
                    rpm_of(g@.steps[i])
                } else {
                    0u16
                },
        ));
    }
    r
}

/// Builds the car that a push describes.
pub fn build_car(s: &CarSource) -> (r: Option<CarData>)
    requires
        is_complete(s@),
    ensures
        match r {
            Some(c) => c.wf() && car_of(s@) == Some(c@),
            None => car_of(s@) is None,
        },
{
    let n: usize = s.colours.len();
    if n == 0 {
        return None;
    }
    let mut c = CarData::default();
    c.valid = true;
    c.led_count = n;
    c.blink_ms = match s.blink {
        None => 100,
        Some(b) => if b <= 0 {
            0
        } else if b < 20 {
            20
        } else if b > 65_535 {
            65_535
        } else {
            b as u16
        },
    };
    match &s.name {
        Some(t) => {
            let all = chars_of(t.as_str());
            let end: usize = if all.len() > 23 {
                23
            } else {
                all.len()
            };
            c.name = string_of(vstd::slice::slice_subrange(all.as_slice(), 0, end));
            proof {
                assert(all@.subrange(0, end as int) =~= if t@.len() > 23 {
                    t@.take(23)
                } else {
                    t@
                });
            }
        },
        None => {
            proof {
                reveal_strlit("");
                assert(c.name@ =~= Seq::<char>::empty());
            }
        },
    }
    let ghost name = c.name@;
    let ghost blink = c.blink_ms;
    let mut i: usize = 0;
    while i < n
        invariant
            i <= n,
            n <= 12,
            n == s.colours@.len(),
            n == kept_leds(s.led_number),
            c.valid && c.led_count == n && c.blink_ms == blink && c.name@ == name,
            forall|j: int|
                0 <= j < 12 ==> #[trigger] c.led_color@[j] == if j < i {
                    match s@.colours[j] {
                        Some(t) => colour_of(t),
                        None => 0,
                    }
                } else {
                    0u32
                },
        decreases n - i,
    {
        assert(s@.colours[i as int] == opt_text(s.colours@[i as int]));
        match &s.colours[i] {
            Some(t) => {
                c.led_color[i] = parse_hex(t.as_str());
            },
            None => {},
        }
        i += 1;
    }
    let ghost colours = c.led_color@;
    let mut g: usize = 0;
    while g < 11
        invariant
            g <= 11,
            n <= 12,
            is_complete(s@),
            n == kept_leds(s.led_number),
            c.valid && c.led_count == n && c.blink_ms == blink && c.name@ == name && c.led_color@
                == colours,
            forall|j: int| 0 <= j < g ==> #[trigger] c.redline@[j] == rpm_of(s@.gears[j].redline),
            forall|j: int|
                0 <= j < g ==> (#[trigger] c.thresh@[j])@ == Seq::new(
                    12,
                    |i: int|
                        if i < n {
                            rpm_of(s@.gears[j].steps[i])
                        } else {
                            0u16
                        },
                ),
        decreases 11 - g,
    {
        assert(s@.gears[g as int] == s.gears@[g as int]@);
        c.redline[g] = rpm(s.gears[g].redline);
        c.thresh[g] = steps_of(&s.gears[g], n);
        g += 1;
    }
    proof {
        let v = car_of(s@)->0;
        assert(c@.led_color =~= v.led_color);
        assert(c@.redline =~= v.redline);
        assert forall|j: int| 0 <= j < 11 implies #[trigger] c@.thresh[j] == v.thresh[j] by {
            assert(c.thresh@[j]@ =~= v.thresh[j]);
        }
        assert(c@.thresh =~= v.thresh);
        assert(c@.name =~= v.name);
    }
    Some(c)
}

proof fn lemma_source_is_complete(d: Doc)
    ensures
        is_complete(source_of(d)),
{
}

/// The car in a push; `None` where the push is no JSON or has no LEDs.
pub open spec fn pushed_car(json: Seq<char>) -> Option<CarDataView> {
    match json_read(json) {
        Some(d) => car_of(source_of(d)),
        None => None,
    }
}

/// Reads the car in a push.
pub fn parse_car(json: &str) -> (r: Option<CarData>)
    ensures
        match r {
            Some(c) => c.wf() && pushed_car(json@) == Some(c@),
            None => pushed_car(json@) is None,
        },
{
    match json::parse(json) {
        None => None,
        Some(v) => {
            let s = read_source(&v);
            proof {
                lemma_source_is_complete(json_doc(v));
            }
            build_car(&s)
        },
    }
}

/// A push that clears the car.
pub open spec fn clears(json: Seq<char>) -> bool {
    trim(json).len() == 0 || trim(json) == "{}"@
}

/// A copy of a car.
fn copy_of(c: &CarData) -> (r: CarData)
    ensures
        r@ == c@,
        r.wf() == c.wf(),
{
    let r = CarData {
        valid: c.valid,
        led_count: c.led_count,
        blink_ms: c.blink_ms,
        led_color: c.led_color,
        redline: c.redline,
        thresh: c.thresh,
        name: String::from_str(c.name.as_str()),
    };
    proof {
        assert(r@.thresh =~= c@.thresh);
    }
    r
}

/// The car that is loaded, if any.
#[derive(Debug)]
pub struct LoadedCar {
    pub car: Option<CarData>,
}

impl LoadedCar {
    pub open spec fn wf(self) -> bool {
        self.car matches Some(c) ==> c.wf()
    }

    /// The loaded car as plain values.
    pub open spec fn now(self) -> Option<CarDataView> {
        match self.car {
            Some(c) => Some(c@),
            None => None,
        }
    }

    pub fn new() -> (r: LoadedCar)
        ensures
            r.wf(),
            r.now() is None,
    {
        LoadedCar { car: None }
    }

    /// Takes a push: an empty one clears the car, one that holds a car loads it, any
    /// other is refused and changes nothing.
    pub fn apply_car_json(&mut self, json: &str) -> (r: bool)
        requires
            old(self).wf(),
        ensures
            final(self).wf(),
            r == (clears(json@) || pushed_car(json@) is Some),
            final(self).now() == if clears(json@) {
                None
            } else if pushed_car(json@) is Some {
                pushed_car(json@)
            } else {
                old(self).now()
            },
    {
        let all = chars_of(json);
        let t = trimmed(all.as_slice());
        if t.len() == 0 || same(t, "{}") {
            self.car = None;
            return true;
        }
        match parse_car(json) {
            Some(c) => {
                self.car = Some(c);
                true
            },
            None => false,
        }
    }

    /// The loaded car; no car where none is loaded.
    pub fn current_car(&self) -> (r: CarData)
        requires
            self.wf(),
        ensures
            r.wf(),
            match self.now() {
                Some(c) => r@ == c,
                None => r@ == no_car(),
            },
    {
        match &self.car {
            Some(c) => copy_of(c),
            None => CarData::default(),
        }
    }
}

/// Where a car has more LEDs than the strip, it is the upper ones, next to the
/// redline, that are kept: the last LED that is kept is the last of the car.
pub proof fn upper_leds_are_kept(led_number: Option<i64>)
    requires
        announced(led_number) > 0,
    ensures
        1 <= kept_leds(led_number) <= 12,
        skipped_leds(led_number) + kept_leds(led_number) == announced(led_number),
        announced(led_number) <= 12 ==> skipped_leds(led_number) == 0,
{
}

/// An alpha channel makes no difference to a colour: only the last six digits count.
pub proof fn alpha_is_dropped(rgb: Seq<char>, a1: char, a0: char)
    requires
        rgb.len() == 6,
        all_hex(rgb),
        is_hex(a1),
        is_hex(a0),
    ensures
        colour_of(seq!['#', a1, a0] + rgb) == colour_of(seq!['#'] + rgb),
{
    let t = seq![a1, a0] + rgb;
    let s1 = seq!['#', a1, a0] + rgb;
    let s2 = seq!['#'] + rgb;
    assert(s1.drop_first() =~= t);
    assert(s2.drop_first() =~= rgb);
    assert(t[0] == a1);
    assert(rgb[0] != '+') by {
        assert(is_hex(rgb[0]));
    }
    assert forall|i: int| 0 <= i < t.len() implies is_hex(#[trigger] t[i]) by {
        if i >= 2 {
            assert(t[i] == rgb[i - 2]);
        }
    }
    lemma_bound(rgb);
    assert(t.skip(2) =~= rgb);
    lemma_lead(t);
}

/// 16 to the `n`.
spec fn pow16(n: nat) -> int
    decreases n,
{
    if n == 0 {
        1
    } else {
        16 * pow16((n - 1) as nat)
    }
}

proof fn lemma_bound(s: Seq<char>)
    requires
        all_hex(s),
    ensures
        0 <= hex_number(s) < pow16(s.len()),
        s.len() == 6 ==> pow16(s.len()) == 0x100_0000,
        s.len() == 8 ==> pow16(s.len()) == 0x1_0000_0000,
    decreases s.len(),
{
    reveal_with_fuel(pow16, 9);
    if s.len() > 0 {
        let t = s.drop_last();
        assert(all_hex(t));
        lemma_bound(t);
        assert(is_hex(s[s.len() - 1]));
    }
}

/// The digits before the last six weigh multiples of 0x100_0000.
proof fn lemma_lead(t: Seq<char>)
    requires
        t.len() == 8,
        all_hex(t),
    ensures
        hex_number(t) == 0x100_0000 * hex_number(t.take(2)) + hex_number(t.skip(2)),
        0 <= hex_number(t) < 0x1_0000_0000,
{
    lemma_bound(t);
    lemma_parts(t, 8);
    assert(t.take(8) =~= t);
    assert(t.subrange(2, 8) =~= t.skip(2));
    reveal_with_fuel(pow16, 9);
}

proof fn lemma_parts(t: Seq<char>, n: int)
    requires
        2 <= n <= t.len(),
    ensures
        hex_number(t.take(n)) == pow16((n - 2) as nat) * hex_number(t.take(2)) + hex_number(
            t.subrange(2, n),
        ),
    decreases n,
{
    if n == 2 {
        assert(t.subrange(2, 2) =~= Seq::<char>::empty());
    } else {
        lemma_parts(t, n - 1);
        assert(t.take(n).drop_last() =~= t.take(n - 1));
        assert(t.subrange(2, n).drop_last() =~= t.subrange(2, n - 1));
        let p = pow16((n - 3) as nat);
        let h = hex_number(t.take(2));
        assert(pow16((n - 2) as nat) == 16 * p);
        assert(16 * (p * h) == (16 * p) * h) by (nonlinear_arith);
    }
}

/// The digits of a hexadecimal number are weighed by place: one digit more makes it
/// sixteen times as large and adds the digit.
pub proof fn hex_digits_are_weighed(s: Seq<char>, c: char)
    ensures
        hex_number(s.push(c)) == 16 * hex_number(s) + hex_val(c),
        hex_number(Seq::<char>::empty()) == 0,
{
    assert(s.push(c).drop_last() =~= s);
}

/// Six digits, with or without a `#`, are the red, the green and the blue of a
/// colour, two digits each.
pub proof fn colours_are_read(s: Seq<char>)
    requires
        s.len() == 6,
        forall|i: int| 0 <= i < 6 ==> is_hex(#[trigger] s[i]),
    ensures
        ({
            let c = 0x1_0000 * (16 * hex_val(s[0]) + hex_val(s[1])) + 0x100 * (16 * hex_val(s[2])
                + hex_val(s[3])) + (16 * hex_val(s[4]) + hex_val(s[5]));
            &&& colour_of(s) == c
            &&& colour_of(seq!['#'] + s) == c
        }),
{
    lemma_six(s);
    lemma_plain_colour(s);
}

proof fn lemma_plain_colour(s: Seq<char>)
    requires
        s.len() == 6,
        all_hex(s),
    ensures
        colour_of(s) == hex_number(s),
        colour_of(seq!['#'] + s) == hex_number(s),
{
    let h = seq!['#'] + s;
    let n = hex_number(s);
    lemma_bound(s);
    assert(0 <= n < 0x100_0000);
    assert(n % 0x100_0000 == n);
    assert(is_hex(s[0]));
    assert(h.drop_first() =~= s);
    assert(past(h, '#') == s);
    assert(past(s, '#') == s);
    assert(past(s, '+') == s);
}

proof fn lemma_six(s: Seq<char>)
    requires
        s.len() == 6,
    ensures
        hex_number(s) == 0x10_0000 * hex_val(s[0]) + 0x1_0000 * hex_val(s[1]) + 0x1000 * hex_val(s[2])
            + 0x100 * hex_val(s[3]) + 16 * hex_val(s[4]) + hex_val(s[5]),
{
    assert(s.take(1).drop_last() =~= Seq::<char>::empty());
    assert(hex_number(Seq::<char>::empty()) == 0);
    assert(hex_number(s.take(1)) == hex_val(s[0]));
    assert(s.take(2).drop_last() =~= s.take(1));
    assert(hex_number(s.take(2)) == 16 * hex_number(s.take(1)) + hex_val(s[1]));
    assert(s.take(3).drop_last() =~= s.take(2));
    assert(hex_number(s.take(3)) == 16 * hex_number(s.take(2)) + hex_val(s[2]));
    assert(s.take(4).drop_last() =~= s.take(3));
    assert(hex_number(s.take(4)) == 16 * hex_number(s.take(3)) + hex_val(s[3]));
    assert(s.take(5).drop_last() =~= s.take(4));
    assert(hex_number(s.take(5)) == 16 * hex_number(s.take(4)) + hex_val(s[4]));
    assert(s.drop_last() =~= s.take(5));
}

/// A text that holds anything but hexadecimal digits behind its `#` is black.
pub proof fn other_texts_are_black(s: Seq<char>, i: int)
    requires
        2 <= i < s.len(),
        !is_hex(s[i]),
    ensures
        colour_of(s) == 0,
{
    let t = past(past(s, '#'), '+');
    let k = s.len() - t.len();
    assert(t[i - k] == s[i]);
}

/// A push with LEDs gives a car: as many LEDs as it announces, but no more than
/// twelve, each with its own colour and, for each gear, its own RPM; the redline of
/// each gear; and the first 23 characters of the name. What the push leaves out is
/// 0 or empty.
pub proof fn cars_hold_what_was_pushed(s: SourceView, i: int, g: int)
    requires
        is_complete(s),
        s.led_number matches Some(n) && n > 0,
        0 <= i < 12,
        0 <= g < 11,
    ensures
        ({
            let n = s.led_number->0;
            let kept = if n <= 12 {
                n as int
            } else {
                12
            };
            &&& car_of(s) matches Some(c) && {
                &&& c.valid
                &&& c.led_count == kept
                &&& i < kept && s.colours[i] is Some ==> c.led_color[i] == colour_of(s.colours[i]->0)
                &&& i >= kept || s.colours[i] is None ==> c.led_color[i] == 0
                &&& i < kept && s.gears[g].steps[i] is Some && 0 <= s.gears[g].steps[i]->0 < 65536
                    ==> c.thresh[g][i] == s.gears[g].steps[i]->0
                &&& i >= kept || s.gears[g].steps[i] is None ==> c.thresh[g][i] == 0
                &&& s.gears[g].redline is Some && 0 <= s.gears[g].redline->0 < 65536
                    ==> c.redline[g] == s.gears[g].redline->0
                &&& s.gears[g].redline is None ==> c.redline[g] == 0
                &&& s.name is Some && s.name->0.len() <= 23 ==> c.name == s.name->0
                &&& s.name is Some && s.name->0.len() > 23 ==> c.name == s.name->0.take(23)
                &&& s.name is None ==> c.name.len() == 0
            }
        }),
{
}

/// A push without LEDs is no car.
pub proof fn cars_need_leds(s: SourceView)
    requires
        s.led_number is None || s.led_number->0 <= 0,
    ensures
        car_of(s) is None,
{
}

/// The blink interval: 100 ms where the push says nothing, none for 0 or less, and
/// otherwise what it says, but no less than 20 ms.
pub proof fn blink_intervals(b: i64)
    ensures
        blink_of(None) == 100,
        b <= 0 ==> blink_of(Some(b)) == 0,
        0 < b <= 20 ==> blink_of(Some(b)) == 20,
        20 <= b <= 65535 ==> blink_of(Some(b)) == b,
        b >= 65535 ==> blink_of(Some(b)) == 65535,
{
}

/// Where the numbers of a push stand. The colours and the list of a gear begin with
/// the item of the redline; LED `i` of those that are kept is item `i + 1` behind
/// those that are skipped, which are the first ones where there are more than
/// twelve. The gears are R, N and 1 to 9.
pub proof fn leds_are_read_from_their_places(d: Doc, n: i64, i: int, g: int, skip: int)
    requires
        int_at(d, "/ledNumber"@) == Some(n),
        n > 0,
        n <= 12 ==> skip == 0,
        n > 12 ==> skip == n - 12,
        0 <= i < n - skip,
        0 <= g < 11,
        len_at(d, "/ledColor"@) is Some,
        len_at(d, "/ledRpm"@) is Some,
        leaf_at(d, "/ledRpm/0"@) == LeafView::Dict,
        len_at(
            d,
            "/ledRpm/0/"@ + seq![
                if g == 0 {
                    'R'
                } else if g == 1 {
                    'N'
                } else {
                    (47 + g) as char
                },
            ],
        ) is Some,
    ensures
        ({
            let key = if g == 0 {
                'R'
            } else if g == 1 {
                'N'
            } else {
                (47 + g) as char
            };
            let list = "/ledRpm/0/"@ + seq![key];
            let s = source_of(d);
            &&& s.colours[i] == text_at(d, "/ledColor"@ + "/"@ + dec_text((skip + i + 1) as nat))
            &&& s.gears[g].redline == int_at(d, list + "/"@ + dec_text(0))
            &&& s.gears[g].steps[i] == int_at(d, list + "/"@ + dec_text((skip + i + 1) as nat))
            &&& s.name == text_at(d, "/carName"@)
            &&& s.blink == int_at(d, "/redlineBlinkInterval"@)
        }),
{
}

/// An empty push, or an empty object, takes the car away; blanks around it make no
/// difference.
pub proof fn empty_pushes_clear(before: Seq<char>, behind: Seq<char>)
    requires
        forall|i: int| 0 <= i < before.len() ==> crate::text::is_white(#[trigger] before[i]),
        forall|i: int| 0 <= i < behind.len() ==> crate::text::is_white(#[trigger] behind[i]),
    ensures
        clears(before + Seq::<char>::empty() + behind),
        clears(before + "{}"@ + behind),
{
    reveal_strlit("{}");
    crate::text::trimming_keeps_the_middle(before, Seq::<char>::empty(), behind);
    crate::text::trimming_keeps_the_middle(before, "{}"@, behind);
}

} // verus!
