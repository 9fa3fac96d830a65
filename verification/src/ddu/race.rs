//! The race screen: the layout that the dashboard pushes, and how it is drawn.

use vstd::prelude::*;
use vstd::string::StringExecFns;
use crate::ddu::car::opt_text;
use crate::ddu::draw::{
    centred, ground, label, op_views, pal, rect, rect_at, rgb888, round, round_at, shade, shade888,
    text, text_at, Align, Colour, Op, OpView,
};
use crate::ddu::strip::stock_bar;
use crate::format::{clamped, shown, showable, tdiv, Fmt, Pal, RuleOp};
use crate::json;
use crate::json::{int_at, json_doc, json_read, len_at, Doc};
use crate::le::signed;
use crate::order::{
    all_below, as_ints, key_ints, lemma_sort_items, sort_by, stable_sort, stable_sort_sorts,
};
use crate::registry::{
    field_def, field_id_from_str, field_named, field_value, format_of, is_field,
    label_of,
};
use crate::shift::{bar_fits, bar_rgb, can_light, in_i32, segment_rgb, CarData, RevCfg};
use crate::simhub::Telemetry;
use crate::text::{dec_text, int_string, int_text, push_dec, same_str};

verus! {

// -------------------------------------------------------------------- modules

/// What a module shows.
#[derive(Clone, Copy, Debug, PartialEq, Eq, Structural)]
pub enum Kind {
    Stat,
    Gear,
    GearSpeed,
    RpmStrip,
    TyreGrid,
    TcDual,
    Sectors,
    LapPair,
    Bar,
    TrackMap,
    Flag,
    Position,
}

/// The kind of that name; a plain number where the name is unknown.
pub open spec fn kind_named(s: Seq<char>) -> Kind {
    if s == "gear"@ {
        Kind::Gear
    } else if s == "gearSpeed"@ {
        Kind::GearSpeed
    } else if s == "rpmStrip"@ {
        Kind::RpmStrip
    } else if s == "tyreGrid"@ {
        Kind::TyreGrid
    } else if s == "tcDual"@ {
        Kind::TcDual
    } else if s == "sectors"@ {
        Kind::Sectors
    } else if s == "lapPair"@ {
        Kind::LapPair
    } else if s == "bar"@ {
        Kind::Bar
    } else if s == "map"@ {
        Kind::TrackMap
    } else if s == "flag"@ {
        Kind::Flag
    } else if s == "position"@ {
        Kind::Position
    } else {
        Kind::Stat
    }
}

/// The kind of that name.
pub fn kind_of(s: &str) -> (k: Kind)
    ensures
        k == kind_named(s@),
{
    if same_str(s, "gear") {
        Kind::Gear
    } else if same_str(s, "gearSpeed") {
        Kind::GearSpeed
    } else if same_str(s, "rpmStrip") {
        Kind::RpmStrip
    } else if same_str(s, "tyreGrid") {
        Kind::TyreGrid
    } else if same_str(s, "tcDual") {
        Kind::TcDual
    } else if same_str(s, "sectors") {
        Kind::Sectors
    } else if same_str(s, "lapPair") {
        Kind::LapPair
    } else if same_str(s, "bar") {
        Kind::Bar
    } else if same_str(s, "map") {
        Kind::TrackMap
    } else if same_str(s, "flag") {
        Kind::Flag
    } else if same_str(s, "position") {
        Kind::Position
    } else {
        Kind::Stat
    }
}

/// A module of the race screen.
#[derive(Debug)]
pub struct Module {
    pub kind: Kind,
    pub field: usize,
    pub label: String,
    pub fmt: Fmt,
    pub unit: String,
    pub scale: i32,
    pub base: Pal,
    /// The first rule that matches gives the colour.
    pub rules: Vec<(RuleOp, i32, Pal)>,
    /// 0 top, 1 left, 2 centre, 3 right, 4 bottom.
    pub zone: usize,
    pub order: i32,
}

/// A module as plain values.
pub struct ModuleView {
    pub kind: Kind,
    pub field: int,
    pub label: Seq<char>,
    pub fmt: Fmt,
    pub unit: Seq<char>,
    pub scale: int,
    pub base: Pal,
    pub rules: Seq<(RuleOp, i32, Pal)>,
    pub zone: int,
    pub order: int,
}

impl View for Module {
    type V = ModuleView;

    open spec fn view(&self) -> ModuleView {
        ModuleView {
            kind: self.kind,
            field: self.field as int,
            label: self.label@,
            fmt: self.fmt,
            unit: self.unit@,
            scale: self.scale as int,
            base: self.base,
            rules: self.rules@,
            zone: self.zone as int,
            order: self.order as int,
        }
    }
}

/// The modules of a screen.
#[derive(Debug)]
pub struct RaceLayout {
    pub mods: Vec<Module>,
}

impl View for RaceLayout {
    type V = Seq<ModuleView>;

    open spec fn view(&self) -> Seq<ModuleView> {
        self.mods@.map_values(|m: Module| m@)
    }
}

impl Default for RaceLayout {
    fn default() -> (r: RaceLayout)
        ensures
            r@ == Seq::<ModuleView>::empty(),
    {
        let r = RaceLayout { mods: Vec::new() };
        proof {
            assert(r@ =~= Seq::<ModuleView>::empty());
        }
        r
    }
}

// --------------------------------------------------------------------- source

/// What a push holds of a colour rule.
#[derive(Debug)]
pub struct RuleSource {
    pub op: Option<String>,
    pub v: Option<i64>,
    pub c: Option<String>,
}

/// What a push holds of a module.
#[derive(Debug)]
pub struct ModSource {
    pub f: Option<String>,
    pub fmt_t: Option<String>,
    pub fmt_sc: Option<i64>,
    pub fmt_u: Option<String>,
    pub l: Option<String>,
    pub b: Option<String>,
    pub k: Option<String>,
    pub z: Option<i64>,
    pub o: Option<i64>,
    /// The first rules, at most four.
    pub rules: Vec<RuleSource>,
}

/// A rule of a push as plain values.
pub struct RuleView {
    pub op: Option<Seq<char>>,
    pub v: Option<i64>,
    pub c: Option<Seq<char>>,
}

/// A module of a push as plain values.
pub struct ModView {
    pub f: Option<Seq<char>>,
    pub fmt_t: Option<Seq<char>>,
    pub fmt_sc: Option<i64>,
    pub fmt_u: Option<Seq<char>>,
    pub l: Option<Seq<char>>,
    pub b: Option<Seq<char>>,
    pub k: Option<Seq<char>>,
    pub z: Option<i64>,
    pub o: Option<i64>,
    pub rules: Seq<RuleView>,
}

impl View for RuleSource {
    type V = RuleView;

    open spec fn view(&self) -> RuleView {
        RuleView { op: opt_text(self.op), v: self.v, c: opt_text(self.c) }
    }
}

impl View for ModSource {
    type V = ModView;

    open spec fn view(&self) -> ModView {
        ModView {
            f: opt_text(self.f),
            fmt_t: opt_text(self.fmt_t),
            fmt_sc: self.fmt_sc,
            fmt_u: opt_text(self.fmt_u),
            l: opt_text(self.l),
            b: opt_text(self.b),
            k: opt_text(self.k),
            z: self.z,
            o: self.o,
            rules: self.rules@.map_values(|r: RuleSource| r@),
        }
    }
}

/// The place of a module.
pub open spec fn module_at(i: int) -> Seq<char> {
    "/mods/"@ + dec_text(i as nat)
}

/// The place of a rule.
pub open spec fn rule_at(i: int, j: int) -> Seq<char> {
    module_at(i) + "/r/"@ + dec_text(j as nat)
}

/// What a push holds of rule `j` of module `i`.
pub open spec fn rule_source_of(d: Doc, i: int, j: int) -> RuleView {
    RuleView {
        op: json::text_at(d, rule_at(i, j) + "/op"@),
        v: int_at(d, rule_at(i, j) + "/v"@),
        c: json::text_at(d, rule_at(i, j) + "/c"@),
    }
}

/// How many rules of module `i` count.
pub open spec fn rule_count(d: Doc, i: int) -> nat {
    match len_at(d, module_at(i) + "/r"@) {
        Some(n) => if n > 4 {
            4
        } else {
            n
        },
        None => 0,
    }
}

/// What a push holds of module `i`.
pub open spec fn mod_source_of(d: Doc, i: int) -> ModView {
    let m = module_at(i);
    ModView {
        f: json::text_at(d, m + "/f"@),
        fmt_t: json::text_at(d, m + "/fmt/t"@),
        fmt_sc: int_at(d, m + "/fmt/sc"@),
        fmt_u: json::text_at(d, m + "/fmt/u"@),
        l: json::text_at(d, m + "/l"@),
        b: json::text_at(d, m + "/b"@),
        k: json::text_at(d, m + "/k"@),
        z: int_at(d, m + "/z"@),
        o: int_at(d, m + "/o"@),
        rules: Seq::new(rule_count(d, i), |j: int| rule_source_of(d, i, j)),
    }
}

/// The place of a member.
fn member(at: &str, name: &str) -> (s: String)
    ensures
        s@ == at@ + name@,
{
    let mut s = String::from_str(at);
    s.append(name);
    s
}

/// Reads a rule of a push.
fn read_rule(v: &serde_json::Value, at: &str, j: usize, Ghost(i): Ghost<int>) -> (r: RuleSource)
    requires
        at@ == module_at(i),
    ensures
        r@ == rule_source_of(json_doc(*v), i, j as int),
{
    let mut p = String::from_str(at);
    p.append("/r/");
    push_dec(&mut p, j as u64);
    proof {
        assert(p@ =~= rule_at(i, j as int));
    }
    RuleSource {
        op: json::text(v, member(p.as_str(), "/op").as_str()),
        v: json::integer(v, member(p.as_str(), "/v").as_str()),
        c: json::text(v, member(p.as_str(), "/c").as_str()),
    }
}

/// Reads a module of a push.
pub fn read_module(v: &serde_json::Value, i: usize) -> (r: ModSource)
    ensures
        r@ == mod_source_of(json_doc(*v), i as int),
{
    let ghost d = json_doc(*v);
    let mut at = String::from_str("/mods/");
    push_dec(&mut at, i as u64);
    proof {
        assert(at@ =~= module_at(i as int));
    }
    let n: usize = match json::list_len(v, member(at.as_str(), "/r").as_str()) {
        Some(n) => if n > 4 {
            4
        } else {
            n
        },
        None => 0,
    };
    let mut rules: Vec<RuleSource> = Vec::new();
    let mut j: usize = 0;
    while j < n
        invariant
            j <= n,
            d == json_doc(*v),
            at@ == module_at(i as int),
            rules@.len() == j,
            forall|q: int| 0 <= q < j ==> (#[trigger] rules@[q])@ == rule_source_of(d, i as int, q),
        decreases n - j,
    {
        rules.push(read_rule(v, at.as_str(), j, Ghost(i as int)));
        j += 1;
    }
    let r = ModSource {
        f: json::text(v, member(at.as_str(), "/f").as_str()),
        fmt_t: json::text(v, member(at.as_str(), "/fmt/t").as_str()),
        fmt_sc: json::integer(v, member(at.as_str(), "/fmt/sc").as_str()),
        fmt_u: json::text(v, member(at.as_str(), "/fmt/u").as_str()),
        l: json::text(v, member(at.as_str(), "/l").as_str()),
        b: json::text(v, member(at.as_str(), "/b").as_str()),
        k: json::text(v, member(at.as_str(), "/k").as_str()),
        z: json::integer(v, member(at.as_str(), "/z").as_str()),
        o: json::integer(v, member(at.as_str(), "/o").as_str()),
        rules,
    };
    proof {
        assert(r@.rules =~= mod_source_of(d, i as int).rules);
    }
    r
}

// -------------------------------------------------------------------- reading

/// The low 32 bits of a number, as a signed one.
pub open spec fn low32(v: i64) -> int {
    signed(v as int % 0x1_0000_0000, 0x8000_0000)
}

/// The low 32 bits of a number, as a signed one.
pub fn low32_of(v: i64) -> (r: i32)
    ensures
        r == low32(v),
{
    let m: i64 = v % 0x1_0000_0000;
    let u: i64 = if m < 0 {
        m + 0x1_0000_0000
    } else {
        m
    };
    if u < 0x8000_0000 {
        u as i32
    } else {
        (u - 0x1_0000_0000) as i32
    }
}

/// A text, or a default.
pub open spec fn text_or(s: Option<Seq<char>>, default: Seq<char>) -> Seq<char> {
    match s {
        Some(t) => t,
        None => default,
    }
}

/// The field of a module; 0 where it has none.
pub open spec fn field_of(f: Option<Seq<char>>) -> int {
    match f {
        Some(name) => field_named(name, 1),
        None => 0,
    }
}

/// The scale that a push holds, where it is positive; else that of the field, or 1.
pub open spec fn scale_of(sc: Option<i64>, field: int) -> int {
    match sc {
        Some(v) => if low32(v) > 0 {
            low32(v)
        } else {
            default_scale(field)
        },
        None => default_scale(field),
    }
}

/// The scale of a field, or 1.
pub open spec fn default_scale(field: int) -> int {
    if is_field(field) {
        format_of(field).1 as int
    } else {
        1
    }
}

/// The format of a field, or a plain integer.
pub open spec fn default_fmt(field: int) -> Fmt {
    if is_field(field) {
        format_of(field).0
    } else {
        Fmt::Int
    }
}

/// The label of a field; none for what is no field.
pub open spec fn default_label(field: int) -> Seq<char> {
    if is_field(field) {
        label_of(field)
    } else {
        Seq::empty()
    }
}

/// A rule that a push describes.
pub open spec fn rule_of(r: RuleView) -> (RuleOp, i32, Pal) {
    (
        RuleOp::named(text_or(r.op, ">"@)),
        match r.v {
            Some(v) => low32(v) as i32,
            None => 0,
        },
        Pal::named(text_or(r.c, "red"@)),
    )
}

/// The module that a push describes. What it leaves out comes from its field.
pub open spec fn module_of(m: ModView) -> ModuleView {
    let field = field_of(m.f);
    ModuleView {
        kind: kind_named(text_or(m.k, "stat"@)),
        field,
        label: text_or(m.l, default_label(field)),
        fmt: match m.fmt_t {
            Some(t) => Fmt::named(t),
            None => default_fmt(field),
        },
        unit: text_or(m.fmt_u, Seq::empty()),
        scale: scale_of(m.fmt_sc, field),
        base: Pal::named(text_or(m.b, "white"@)),
        rules: m.rules.map_values(|r: RuleView| rule_of(r)),
        zone: match m.z {
            Some(z) => clamped(z as int, 0, 4),
            None => 0,
        },
        order: match m.o {
            Some(o) => low32(o),
            None => 0,
        },
    }
}

/// A text, or a default.
fn or_text<'a>(s: &'a Option<String>, default: &'a str) -> (r: &'a str)
    ensures
        r@ == text_or(opt_text(*s), default@),
{
    match s {
        Some(t) => t.as_str(),
        None => default,
    }
}

/// A text, or an empty one.
fn or_nothing(s: &Option<String>) -> (r: String)
    ensures
        r@ == text_or(opt_text(*s), Seq::empty()),
{
    match s {
        Some(t) => String::from_str(t.as_str()),
        None => {
            let r = String::new();
            proof {
                assert(r@ =~= Seq::<char>::empty());
            }
            r
        },
    }
}

/// Builds the module that a push describes.
pub fn build_module(m: &ModSource) -> (r: Module)
    ensures
        r@ == module_of(m@),
{
    let field: usize = match &m.f {
        Some(name) => field_id_from_str(name.as_str()),
        None => 0,
    };
    let def = field_def(field);
    let fmt = match &m.fmt_t {
        Some(t) => Fmt::from_str(t.as_str()),
        None => match def {
            Some(d) => d.fmt,
            None => Fmt::Int,
        },
    };
    let fallback: i32 = match def {
        Some(d) => d.scale,
        None => 1,
    };
    let scale: i32 = match m.fmt_sc {
        Some(v) => {
            let s: i32 = low32_of(v);
            if s > 0 {
                s
            } else {
                fallback
            }
        },
        None => fallback,
    };
    let label = match &m.l {
        Some(t) => String::from_str(t.as_str()),
        None => match def {
            Some(d) => String::from_str(d.label),
            None => String::new(),
        },
    };
    proof {
        assert(label@ =~= text_or(opt_text(m.l), default_label(field as int)));
    }
    let mut rules: Vec<(RuleOp, i32, Pal)> = Vec::new();
    let mut j: usize = 0;
    while j < m.rules.len()
        invariant
            j <= m.rules@.len(),
            rules@.len() == j,
            forall|q: int| 0 <= q < j ==> #[trigger] rules@[q] == rule_of(m.rules@[q]@),
        decreases m.rules@.len() - j,
    {
        let s = &m.rules[j];
        let op = RuleOp::from_str(or_text(&s.op, ">"));
        let val: i32 = match s.v {
            Some(v) => low32_of(v),
            None => 0,
        };
        let col = Pal::from_str(or_text(&s.c, "red"));
        rules.push((op, val, col));
        j += 1;
    }
    let zone: usize = match m.z {
        Some(z) => if z < 0 {
            0
        } else if z > 4 {
            4
        } else {
            z as usize
        },
        None => 0,
    };
    let order: i32 = match m.o {
        Some(o) => low32_of(o),
        None => 0,
    };
    let r = Module {
        kind: kind_of(or_text(&m.k, "stat")),
        field,
        label,
        fmt,
        unit: or_nothing(&m.fmt_u),
        scale,
        base: Pal::from_str(or_text(&m.b, "white")),
        rules,
        zone,
        order,
    };
    proof {
        assert(r@.rules =~= module_of(m@).rules);
    }
    r
}

/// The layout in a push; `None` where it is no JSON or has no list of modules.
pub open spec fn layout_of(json: Seq<char>) -> Option<Seq<ModuleView>> {
    match json_read(json) {
        Some(d) => match len_at(d, "/mods"@) {
            Some(n) => Some(Seq::new(n, |i: int| module_of(mod_source_of(d, i)))),
            None => None,
        },
        None => None,
    }
}

/// Reads the layout in a push.
pub fn parse_race(json: &str) -> (r: Option<RaceLayout>)
    ensures
        match r {
            Some(l) => layout_of(json@) == Some(l@),
            None => layout_of(json@) is None,
        },
{
    let v = match json::parse(json) {
        Some(v) => v,
        None => return None,
    };
    let ghost d = json_doc(v);
    let n: usize = match json::list_len(&v, "/mods") {
        Some(n) => n,
        None => return None,
    };
    let mut mods: Vec<Module> = Vec::new();
    let mut i: usize = 0;
    while i < n
        invariant
            i <= n,
            d == json_doc(v),
            mods@.len() == i,
            forall|q: int| 0 <= q < i ==> (#[trigger] mods@[q])@ == module_of(mod_source_of(d, q)),
        decreases n - i,
    {
        let s = read_module(&v, i);
        mods.push(build_module(&s));
        i += 1;
    }
    let r = RaceLayout { mods };
    proof {
        assert(r@ =~= Seq::new(n as nat, |i: int| module_of(mod_source_of(d, i))));
    }
    Some(r)
}

// -------------------------------------------------------------------- colours

/// The colour of a value: that of the first rule that matches, or the base.
pub open spec fn ruled(rules: Seq<(RuleOp, i32, Pal)>, raw: int, base: Pal) -> Pal
    decreases rules.len(),
{
    if rules.len() == 0 {
        base
    } else if rules[0].0.holds(raw, rules[0].1 as int) {
        rules[0].2
    } else {
        ruled(rules.drop_first(), raw, base)
    }
}

impl Module {
    /// The colour of a value.
    pub fn color(&self, raw: i32) -> (p: Pal)
        ensures
            p == ruled(self@.rules, raw as int, self.base),
    {
        let mut k: usize = 0;
        let ghost all = self.rules@;
        proof {
            assert(all.skip(0) =~= all);
        }
        while k < self.rules.len()
            invariant
                k <= self.rules@.len(),
                all == self.rules@,
                ruled(all, raw as int, self.base) == ruled(
                    all.skip(k as int),
                    raw as int,
                    self.base,
                ),
            decreases self.rules@.len() - k,
        {
            proof {
                assert(all.skip(k as int)[0] == all[k as int]);
                assert(all.skip(k as int).drop_first() =~= all.skip(k + 1));
            }
            let (op, v, c) = self.rules[k];
            if op.matches(raw, v) {
                return c;
            }
            k += 1;
        }
        self.base
    }
}

// -------------------------------------------------------------------- drawing

/// Where a module is drawn.
#[derive(Clone, Copy, Debug, PartialEq, Eq, Structural)]
pub struct Cell {
    pub x: i32,
    pub y: i32,
    pub w: i32,
    pub h: i32,
}

impl Cell {
    /// On a panel.
    pub open spec fn wf(self) -> bool {
        0 <= self.x <= 1000 && 0 <= self.y <= 1000 && 0 <= self.w <= 1000 && 0 <= self.h <= 1000
    }
}

/// A segment of the rev bar.
pub open spec fn segment(t: Telemetry, c: Cell, now_ms: int, i: int) -> OpView {
    let rgb = bar_rgb(t, i, 12, stock_bar(), now_ms);
    round_at(
        c.x + i * (c.w / 12) + 1,
        c.y + 4,
        c.w / 12 - 2,
        c.h - 8,
        3,
        if rgb == 0 {
            shade(Pal::Panel)
        } else {
            shade888(rgb)
        },
    )
}

/// The colour of a sector: green where it is no slower than the best.
pub open spec fn sector_shade(ms: int, best: int) -> Pal {
    if ms > 0 && best > 0 && ms <= best {
        Pal::Green
    } else {
        Pal::Amber
    }
}

/// The colour of a tyre by its temperature.
pub open spec fn tyre_shade(temp: int) -> Pal {
    if temp > 95 {
        Pal::Red
    } else if temp > 80 {
        Pal::Amber
    } else {
        Pal::Green
    }
}

/// The character of a gear; neutral where there is none.
pub open spec fn gear_char(g: u8) -> char {
    if g == 0 {
        'N'
    } else {
        g as char
    }
}

/// A sector.
pub open spec fn sector_op(c: Cell, i: int, ms: int, best: int) -> OpView {
    let w = c.w / 3;
    centred(
        shown(ms, Fmt::Sector, 1, Seq::empty()),
        c.x + i * w + w / 2,
        c.y + c.h / 2,
        12,
        sector_shade(ms, best),
    )
}

/// A tyre: its box and its temperature.
pub open spec fn tyre_ops(c: Cell, i: int, temp: int) -> Seq<OpView> {
    let w = c.w / 2;
    let h = c.h / 2;
    let x = c.x + (i % 2) * w;
    let y = c.y + (i / 2) * h;
    seq![
        round_at(x + 2, y + 2, w - 4, h - 4, 4, shade(Pal::Panel)),
        centred(int_text(temp), x + w / 2, y + h / 2, 14, tyre_shade(temp)),
    ]
}

/// How far a bar is filled, in percent.
pub open spec fn fill_pct(raw: int, scale: int) -> int {
    if scale > 0 {
        clamped(tdiv(raw * 100, scale), 0, 100)
    } else {
        0
    }
}

/// How a module is drawn.
pub open spec fn module_ops(m: ModuleView, t: Telemetry, c: Cell, now_ms: int) -> Seq<OpView> {
    let cx = c.x + c.w / 2;
    let raw = t.value(m.field) as int;
    let colour = ruled(m.rules, raw, m.base);
    match m.kind {
        Kind::RpmStrip => Seq::new(12, |i: int| segment(t, c, now_ms, i)),
        Kind::Gear => seq![
            centred(seq![gear_char(t.gear)], cx, c.y + c.h / 2 - 6, 40, Pal::White),
        ],
        Kind::GearSpeed => seq![
            centred(seq![gear_char(t.gear)], cx, c.y + c.h / 2 - 6, 40, Pal::White),
            centred(int_text(t.speed_kmh as int), cx, c.y + c.h - 26, 24, Pal::White),
            centred("KM/H"@, cx, c.y + c.h - 8, 11, Pal::Dim),
        ],
        Kind::Position => seq![
            centred(m.label, cx, c.y + 12, 11, Pal::Dim),
            centred(
                "P"@ + int_text(t.position as int) + "/"@ + int_text(t.field_size as int),
                cx,
                c.y + c.h / 2 + 4,
                22,
                Pal::White,
            ),
        ],
        Kind::TcDual => seq![
            centred("TC"@, c.x + c.w / 4, c.y + 12, 11, Pal::Dim),
            centred("ABS"@, c.x + 3 * c.w / 4, c.y + 12, 11, Pal::Dim),
            centred(int_text(t.tc as int), c.x + c.w / 4, c.y + c.h / 2 + 6, 22, Pal::White),
            centred(int_text(t.abs as int), c.x + 3 * c.w / 4, c.y + c.h / 2 + 6, 22, Pal::White),
        ],
        Kind::LapPair => seq![
            centred("CURRENT"@, cx, c.y + 10, 11, Pal::Dim),
            centred(
                shown(t.cur_lap_ms as int, Fmt::Time, 1, Seq::empty()),
                cx,
                c.y + c.h / 4 + 6,
                18,
                Pal::White,
            ),
            centred("BEST"@, cx, c.y + c.h / 2 + 8, 11, Pal::Dim),
            centred(
                shown(t.best_lap_ms as int, Fmt::Time, 1, Seq::empty()),
                cx,
                c.y + 3 * c.h / 4 + 4,
                18,
                Pal::Cyan,
            ),
        ],
        Kind::Sectors => seq![
            sector_op(c, 0, t.s1_ms as int, t.bs1_ms as int),
            sector_op(c, 1, t.s2_ms as int, t.bs2_ms as int),
            sector_op(c, 2, t.s3_ms as int, t.bs3_ms as int),
        ],
        Kind::Bar => seq![
            text_at(m.label, c.x + 4, c.y + 10, 11, Pal::Dim, Align::Left),
            rect_at(c.x + 4, c.y + c.h / 2, c.w - 8, c.h / 3, Pal::Panel),
            rect_at(
                c.x + 4,
                c.y + c.h / 2,
                tdiv((c.w - 8) * fill_pct(raw, m.scale), 100),
                c.h / 3,
                colour,
            ),
        ],
        Kind::TyreGrid => tyre_ops(c, 0, t.tt_fl_m as int) + tyre_ops(c, 1, t.tt_fr_m as int)
            + tyre_ops(c, 2, t.tt_rl_m as int) + tyre_ops(c, 3, t.tt_rr_m as int),
        Kind::Flag => seq![round_at(c.x + 4, c.y + 4, c.w - 8, c.h - 8, 4, shade(colour))],
        Kind::TrackMap => seq![
            OpView::Ring {
                x: cx - c.h / 3,
                y: c.y + c.h / 6,
                d: if c.h / 3 < 1 {
                    1
                } else {
                    c.h / 3
                },
                colour: shade(Pal::Dim),
            },
        ],
        Kind::Stat => seq![
            centred(m.label, cx, c.y + 11, 11, Pal::Dim),
            centred(shown(raw, m.fmt, m.scale, m.unit), cx, c.y + c.h / 2 + 6, 22, colour),
        ],
    }
}

/// The numbers of a module stay within 32 bits.
pub open spec fn module_fits(m: ModuleView, t: Telemetry) -> bool {
    match m.kind {
        Kind::RpmStrip => bar_fits(t, 12, stock_bar()),
        Kind::Bar => m.scale > 0 ==> in_i32(t.value(m.field) * 100),
        Kind::Stat => showable(t.value(m.field) as int, m.fmt),
        _ => true,
    }
}

/// Whether the numbers of a module stay within 32 bits.
fn can_draw_module(m: &Module, t: &Telemetry) -> (r: bool)
    ensures
        r == module_fits(m@, *t),
{
    match m.kind {
        Kind::RpmStrip => {
            let cfg = RevCfg::default();
            let car = CarData::default();
            can_light(t, 0, 12, &cfg, &car)
        },
        Kind::Bar => {
            let v: i64 = field_value(t, m.field) as i64 * 100;
            m.scale <= 0 || (-2_147_483_648 <= v && v <= 2_147_483_647)
        },
        Kind::Stat => crate::format::can_show(field_value(t, m.field), m.fmt),
        _ => true,
    }
}

/// The text of one character.
fn one_char(c: char) -> (s: String)
    ensures
        s@ == seq![c],
{
    let mut s = String::new();
    s.push(c);
    proof {
        assert(s@ =~= seq![c]);
    }
    s
}

/// Shows a time.
fn time_text(ms: i32, fmt: Fmt) -> (s: String)
    requires
        fmt == Fmt::Time || fmt == Fmt::Sector,
    ensures
        s@ == shown(ms as int, fmt, 1, Seq::empty()),
{
    proof {
        reveal_strlit("");
        assert(""@ =~= Seq::<char>::empty());
    }
    crate::format::format(ms, fmt, 1, "")
}

/// Draws the rev bar.
fn draw_strip(t: &Telemetry, c: Cell, now_ms: i64) -> (ops: Vec<Op>)
    requires
        c.wf(),
        bar_fits(*t, 12, stock_bar()),
    ensures
        op_views(ops@) == Seq::new(12, |i: int| segment(*t, c, now_ms as int, i)),
{
    let cfg = RevCfg::default();
    let car = CarData::default();
    let sw: i32 = c.w / 12;
    let mut ops: Vec<Op> = Vec::new();
    let mut i: i32 = 0;
    while i < 12
        invariant
            0 <= i <= 12,
            c.wf(),
            sw == c.w / 12,
            cfg == stock_bar(),
            car.wf(),
            !car.valid,
            bar_fits(*t, 12, stock_bar()),
            op_views(ops@) == Seq::new(i as nat, |j: int| segment(*t, c, now_ms as int, j)),
        decreases 12 - i,
    {
        let rgb: u32 = segment_rgb(t, i, 12, &cfg, &car, now_ms);
        let col = if rgb == 0 {
            pal(Pal::Panel)
        } else {
            rgb888(rgb)
        };
        let ghost before = op_views(ops@);
        proof {
            assert(0 <= i * sw <= 12 * 84) by (nonlinear_arith)
                requires
                    0 <= i <= 12,
                    0 <= sw <= 84,
            ;
        }
        ops.push(round(c.x + i * sw + 1, c.y + 4, sw - 2, c.h - 8, 3, col));
        i += 1;
        proof {
            assert(op_views(ops@) =~= before.push(segment(*t, c, now_ms as int, i - 1)));
            assert(op_views(ops@) =~= Seq::new(i as nat, |j: int| segment(*t, c, now_ms as int, j)));
        }
    }
    ops
}

/// Draws a sector.
fn draw_sector(c: Cell, i: i32, ms: i32, best: i32) -> (o: Op)
    requires
        c.wf(),
        0 <= i < 3,
    ensures
        o@ == sector_op(c, i as int, ms as int, best as int),
{
    let w: i32 = c.w / 3;
    let p = if ms > 0 && best > 0 && ms <= best {
        Pal::Green
    } else {
        Pal::Amber
    };
    proof {
        assert(0 <= i * w <= 3 * 334) by (nonlinear_arith)
            requires
                0 <= i < 3,
                0 <= w <= 334,
        ;
    }
    text(time_text(ms, Fmt::Sector), c.x + i * w + w / 2, c.y + c.h / 2, 12, p, Align::Center)
}

/// Draws a tyre.
fn draw_tyre(ops: &mut Vec<Op>, c: Cell, i: i32, temp: i32)
    requires
        c.wf(),
        0 <= i < 4,
    ensures
        op_views(final(ops)@) == op_views(old(ops)@) + tyre_ops(c, i as int, temp as int),
{
    let w: i32 = c.w / 2;
    let h: i32 = c.h / 2;
    let col: i32 = i % 2;
    let row: i32 = i / 2;
    proof {
        assert(0 <= col * w <= 500 && 0 <= row * h <= 500) by (nonlinear_arith)
            requires
                0 <= col <= 1,
                0 <= row <= 1,
                0 <= w <= 500,
                0 <= h <= 500,
        ;
    }
    let x: i32 = c.x + col * w;
    let y: i32 = c.y + row * h;
    let p = if temp > 95 {
        Pal::Red
    } else if temp > 80 {
        Pal::Amber
    } else {
        Pal::Green
    };
    let ghost before = op_views(ops@);
    ops.push(round(x + 2, y + 2, w - 4, h - 4, 4, pal(Pal::Panel)));
    ops.push(text(int_string(temp as i64), x + w / 2, y + h / 2, 14, p, Align::Center));
    proof {
        assert(op_views(ops@) =~= before + tyre_ops(c, i as int, temp as int));
    }
}

/// Draws a bar.
fn draw_bar(m: &Module, raw: i32, c: Cell) -> (ops: Vec<Op>)
    requires
        c.wf(),
        m.scale > 0 ==> in_i32(raw * 100),
    ensures
        op_views(ops@) == seq![
            text_at(m@.label, c.x + 4, c.y + 10, 11, Pal::Dim, Align::Left),
            rect_at(c.x + 4, c.y + c.h / 2, c.w - 8, c.h / 3, Pal::Panel),
            rect_at(
                c.x + 4,
                c.y + c.h / 2,
                tdiv((c.w - 8) * fill_pct(raw as int, m.scale as int), 100),
                c.h / 3,
                ruled(m@.rules, raw as int, m.base),
            ),
        ],
{
    let pct: i32 = if m.scale > 0 {
        let q: i32 = raw * 100 / m.scale;
        if q < 0 {
            0
        } else if q > 100 {
            100
        } else {
            q
        }
    } else {
        0
    };
    proof {
        assert(-800 <= (c.w - 8) * pct <= 99200) by (nonlinear_arith)
            requires
                0 <= pct <= 100,
                0 <= c.w <= 1000,
        ;
    }
    let mut ops: Vec<Op> = Vec::new();
    ops.push(
        text(String::from_str(m.label.as_str()), c.x + 4, c.y + 10, 11, Pal::Dim, Align::Left),
    );
    ops.push(rect(c.x + 4, c.y + c.h / 2, c.w - 8, c.h / 3, Pal::Panel));
    ops.push(rect(c.x + 4, c.y + c.h / 2, (c.w - 8) * pct / 100, c.h / 3, m.color(raw)));
    ops
}

/// Draws a module.
fn draw_module(m: &Module, t: &Telemetry, c: Cell, now_ms: i64) -> (ops: Vec<Op>)
    requires
        c.wf(),
        module_fits(m@, *t),
    ensures
        op_views(ops@) == module_ops(m@, *t, c, now_ms as int),
{
    let cx: i32 = c.x + c.w / 2;
    let raw: i32 = field_value(t, m.field);
    let mut ops: Vec<Op> = Vec::new();
    match m.kind {
        Kind::RpmStrip => {
            return draw_strip(t, c, now_ms);
        },
        Kind::Gear | Kind::GearSpeed => {
            let g = if t.gear == 0 {
                'N'
            } else {
                t.gear as char
            };
            ops.push(text(one_char(g), cx, c.y + c.h / 2 - 6, 40, Pal::White, Align::Center));
            if m.kind == Kind::GearSpeed {
                ops.push(
                    text(
                        int_string(t.speed_kmh as i64),
                        cx,
                        c.y + c.h - 26,
                        24,
                        Pal::White,
                        Align::Center,
                    ),
                );
                ops.push(label("KM/H", cx, c.y + c.h - 8, 11, Pal::Dim));
            }
        },
        Kind::Position => {
            ops.push(label(m.label.as_str(), cx, c.y + 12, 11, Pal::Dim));
            let mut s = String::from_str("P");
            s.append(int_string(t.position as i64).as_str());
            s.append("/");
            s.append(int_string(t.field_size as i64).as_str());
            ops.push(text(s, cx, c.y + c.h / 2 + 4, 22, Pal::White, Align::Center));
        },
        Kind::TcDual => {
            ops.push(label("TC", c.x + c.w / 4, c.y + 12, 11, Pal::Dim));
            ops.push(label("ABS", c.x + 3 * c.w / 4, c.y + 12, 11, Pal::Dim));
            ops.push(
                text(
                    int_string(t.tc as i64),
                    c.x + c.w / 4,
                    c.y + c.h / 2 + 6,
                    22,
                    Pal::White,
                    Align::Center,
                ),
            );
            ops.push(
                text(
                    int_string(t.abs as i64),
                    c.x + 3 * c.w / 4,
                    c.y + c.h / 2 + 6,
                    22,
                    Pal::White,
                    Align::Center,
                ),
            );
        },
        Kind::LapPair => {
            ops.push(label("CURRENT", cx, c.y + 10, 11, Pal::Dim));
            ops.push(
                text(
                    time_text(t.cur_lap_ms, Fmt::Time),
                    cx,
                    c.y + c.h / 4 + 6,
                    18,
                    Pal::White,
                    Align::Center,
                ),
            );
            ops.push(label("BEST", cx, c.y + c.h / 2 + 8, 11, Pal::Dim));
            ops.push(
                text(
                    time_text(t.best_lap_ms, Fmt::Time),
                    cx,
                    c.y + 3 * c.h / 4 + 4,
                    18,
                    Pal::Cyan,
                    Align::Center,
                ),
            );
        },
        Kind::Sectors => {
            ops.push(draw_sector(c, 0, t.s1_ms, t.bs1_ms));
            ops.push(draw_sector(c, 1, t.s2_ms, t.bs2_ms));
            ops.push(draw_sector(c, 2, t.s3_ms, t.bs3_ms));
        },
        Kind::Bar => {
            return draw_bar(m, raw, c);
        },
        Kind::TyreGrid => {
            draw_tyre(&mut ops, c, 0, t.tt_fl_m);
            draw_tyre(&mut ops, c, 1, t.tt_fr_m);
            draw_tyre(&mut ops, c, 2, t.tt_rl_m);
            draw_tyre(&mut ops, c, 3, t.tt_rr_m);
        },
        Kind::Flag => {
            ops.push(round(c.x + 4, c.y + 4, c.w - 8, c.h - 8, 4, pal(m.color(raw))));
        },
        Kind::TrackMap => {
            let d: i32 = c.h / 3;
            ops.push(
                Op::Ring {
                    x: cx - d,
                    y: c.y + c.h / 6,
                    d: if d < 1 {
                        1
                    } else {
                        d as u32
                    },
                    colour: pal(Pal::Dim),
                },
            );
        },
        Kind::Stat => {
            ops.push(label(m.label.as_str(), cx, c.y + 11, 11, Pal::Dim));
            let s = crate::format::format(raw, m.fmt, m.scale, m.unit.as_str());
            ops.push(text(s, cx, c.y + c.h / 2 + 6, 22, m.color(raw), Align::Center));
        },
    }
    proof {
        assert(op_views(ops@) =~= module_ops(m@, *t, c, now_ms as int));
    }
    ops
}

// ---------------------------------------------------------------------- zones

/// A zone of the screen; its modules stand side by side where it is horizontal, one
/// above the other otherwise.
#[derive(Clone, Copy, Debug, PartialEq, Eq, Structural)]
pub struct Zone {
    pub x: i32,
    pub y: i32,
    pub w: i32,
    pub h: i32,
    pub horiz: bool,
}

/// The zones: top, left, centre, right, bottom.
pub open spec fn zone_of(z: int) -> Zone {
    if z == 0 {
        Zone { x: 0, y: 2, w: 480, h: 42, horiz: true }
    } else if z == 1 {
        Zone { x: 4, y: 50, w: 128, h: 220, horiz: false }
    } else if z == 2 {
        Zone { x: 136, y: 50, w: 208, h: 220, horiz: false }
    } else if z == 3 {
        Zone { x: 348, y: 50, w: 128, h: 220, horiz: false }
    } else {
        Zone { x: 0, y: 276, w: 480, h: 42, horiz: true }
    }
}

/// The zones.
pub fn zone(z: usize) -> (r: Zone)
    requires
        z < 5,
    ensures
        r == zone_of(z as int),
{
    if z == 0 {
        Zone { x: 0, y: 2, w: 480, h: 42, horiz: true }
    } else if z == 1 {
        Zone { x: 4, y: 50, w: 128, h: 220, horiz: false }
    } else if z == 2 {
        Zone { x: 136, y: 50, w: 208, h: 220, horiz: false }
    } else if z == 3 {
        Zone { x: 348, y: 50, w: 128, h: 220, horiz: false }
    } else {
        Zone { x: 0, y: 276, w: 480, h: 42, horiz: true }
    }
}

/// The cell of module `i` of `n` in a zone.
pub open spec fn cell_of(z: Zone, i: int, n: int) -> Cell {
    if z.horiz {
        Cell { x: (z.x + z.w * i / n) as i32, y: z.y, w: (z.w as int / n) as i32, h: z.h }
    } else {
        Cell { x: z.x, y: (z.y + z.h * i / n) as i32, w: z.w, h: (z.h as int / n) as i32 }
    }
}

proof fn lemma_share(w: int, i: int, n: int)
    requires
        0 <= w <= 480,
        0 <= i < n,
    ensures
        0 <= w * i <= w * n,
        0 <= w * i / n <= w,
        0 <= w / n <= w,
        w * i / n + w / n <= w,
{
    assert(0 <= w * i <= w * n) by (nonlinear_arith)
        requires
            0 <= w,
            0 <= i < n,
    ;
    assert(0 <= w * i / n <= w) by (nonlinear_arith)
        requires
            0 <= w * i <= w * n,
            n > 0,
    ;
    assert(0 <= w / n <= w) by (nonlinear_arith)
        requires
            0 <= w,
            n > 0,
    ;
    assert(w * i / n + w / n <= w) by (nonlinear_arith)
        requires
            0 <= w,
            0 <= i < n,
    {
        let a = w * i / n;
        let b = w / n;
        assert(n * a <= w * i);
        assert(n * b <= w);
        assert(n * (a + b) <= w * i + w);
        assert(w * i + w == w * (i + 1));
        assert(w * (i + 1) <= w * n);
    }
}

/// The cell of a module.
fn cell(z: Zone, i: i32, n: i32, Ghost(k): Ghost<int>) -> (c: Cell)
    requires
        0 <= k < 5,
        z == zone_of(k),
        0 <= i < n,
        480 * n <= i32::MAX,
    ensures
        c == cell_of(z, i as int, n as int),
        c.wf(),
{
    proof {
        lemma_share(z.w as int, i as int, n as int);
        lemma_share(z.h as int, i as int, n as int);
        assert(z.w * n <= 480 * n && z.h * n <= 480 * n) by (nonlinear_arith)
            requires
                z.w <= 480,
                z.h <= 480,
                n > 0,
        ;
    }
    if z.horiz {
        Cell { x: z.x + z.w * i / n, y: z.y, w: z.w / n, h: z.h }
    } else {
        Cell { x: z.x, y: z.y + z.h * i / n, w: z.w, h: z.h / n }
    }
}

/// The cells of a zone stay within it and do not overlap.
pub proof fn cells_tile_their_zone(z: int, i: int, n: int)
    requires
        0 <= z < 5,
        0 <= i < n,
    ensures
        ({
            let a = zone_of(z);
            let c = cell_of(a, i, n);
            &&& a.x <= c.x && c.x + c.w <= a.x + a.w
            &&& a.y <= c.y && c.y + c.h <= a.y + a.h
            &&& i + 1 < n ==> ({
                let d = cell_of(a, i + 1, n);
                if a.horiz {
                    c.x + c.w <= d.x
                } else {
                    c.y + c.h <= d.y
                }
            })
        }),
{
    let a = zone_of(z);
    lemma_share(a.w as int, i, n);
    lemma_share(a.h as int, i, n);
    if i + 1 < n {
        lemma_share(a.w as int, i + 1, n);
        lemma_share(a.h as int, i + 1, n);
        lemma_step(a.w as int, i, n);
        lemma_step(a.h as int, i, n);
    }
}

proof fn lemma_step(w: int, i: int, n: int)
    requires
        0 <= w <= 480,
        0 <= i < n,
    ensures
        w * i / n + w / n <= w * (i + 1) / n,
{
    assert(w * i / n + w / n <= w * (i + 1) / n) by (nonlinear_arith)
        requires
            0 <= w,
            0 <= i < n,
    {
        let a = w * i / n;
        let b = w / n;
        assert(n * a <= w * i);
        assert(n * b <= w);
        assert(n * (a + b) <= w * (i + 1));
    }
}

/// The modules of a zone, in the order they came.
pub open spec fn in_zone(mods: Seq<ModuleView>, z: int, n: nat) -> Seq<int>
    decreases n,
{
    if n == 0 {
        Seq::empty()
    } else {
        let front = in_zone(mods, z, (n - 1) as nat);
        if mods[n - 1].zone == z {
            front.push(n - 1)
        } else {
            front
        }
    }
}

/// The order numbers of the modules.
pub open spec fn orders(mods: Seq<ModuleView>) -> Seq<int> {
    mods.map_values(|m: ModuleView| m.order)
}

/// The modules of a zone in the order they are drawn.
pub open spec fn arranged(mods: Seq<ModuleView>, z: int) -> Seq<int> {
    stable_sort(in_zone(mods, z, mods.len()), orders(mods))
}

/// The drawing of the first `k` modules of a zone.
pub open spec fn zone_ops(
    mods: Seq<ModuleView>,
    t: Telemetry,
    now_ms: int,
    z: int,
    ids: Seq<int>,
    k: nat,
) -> Seq<OpView>
    decreases k,
{
    if k == 0 {
        Seq::empty()
    } else {
        zone_ops(mods, t, now_ms, z, ids, (k - 1) as nat) + module_ops(
            mods[ids[k - 1]],
            t,
            cell_of(zone_of(z), k - 1, ids.len() as int),
            now_ms,
        )
    }
}

/// The drawing of the first `z` zones, on a cleared panel.
pub open spec fn screen_ops(mods: Seq<ModuleView>, t: Telemetry, now_ms: int, z: nat) -> Seq<OpView>
    decreases z,
{
    if z == 0 {
        seq![OpView::Clear(ground())]
    } else {
        let ids = arranged(mods, z - 1);
        screen_ops(mods, t, now_ms, (z - 1) as nat) + zone_ops(
            mods,
            t,
            now_ms,
            z - 1,
            ids,
            ids.len(),
        )
    }
}

/// The modules of a zone.
fn pick_zone(layout: &RaceLayout, z: usize) -> (r: Vec<usize>)
    ensures
        as_ints(r@) == in_zone(layout@, z as int, layout@.len()),
        all_below(as_ints(r@), layout.mods@.len() as int),
        r@.len() <= layout.mods@.len(),
{
    let mut out: Vec<usize> = Vec::new();
    let mut k: usize = 0;
    proof {
        assert(as_ints(out@) =~= Seq::<int>::empty());
    }
    while k < layout.mods.len()
        invariant
            k <= layout.mods@.len(),
            as_ints(out@) == in_zone(layout@, z as int, k as nat),
            all_below(as_ints(out@), layout.mods@.len() as int),
            out@.len() <= k,
        decreases layout.mods@.len() - k,
    {
        assert(layout@[k as int] == layout.mods@[k as int]@);
        if layout.mods[k].zone == z {
            let ghost before = as_ints(out@);
            out.push(k);
            proof {
                assert(as_ints(out@) =~= before.push(k as int));
            }
        }
        k += 1;
    }
    out
}

/// Appends a drawing.
fn append(ops: &mut Vec<Op>, more: Vec<Op>)
    ensures
        op_views(final(ops)@) == op_views(old(ops)@) + op_views(more@),
{
    let ghost before = op_views(ops@);
    let mut m = more;
    ops.append(&mut m);
    proof {
        assert(op_views(ops@) =~= before + op_views(more@));
    }
}

/// Whether the numbers of a layout stay within 32 bits.
pub open spec fn layout_fits(mods: Seq<ModuleView>, t: Telemetry) -> bool {
    480 * mods.len() <= i32::MAX && forall|k: int|
        0 <= k < mods.len() ==> module_fits(#[trigger] mods[k], t)
}

/// Whether the numbers of a layout stay within 32 bits.
pub fn can_draw(layout: &RaceLayout, t: &Telemetry) -> (r: bool)
    ensures
        r == layout_fits(layout@, *t),
{
    if layout.mods.len() > 4_473_924 {
        return false;
    }
    let mut k: usize = 0;
    while k < layout.mods.len()
        invariant
            k <= layout.mods@.len(),
            480 * layout.mods@.len() <= i32::MAX,
            forall|j: int| 0 <= j < k ==> module_fits(#[trigger] layout@[j], *t),
        decreases layout.mods@.len() - k,
    {
        assert(layout@[k as int] == layout.mods@[k as int]@);
        if !can_draw_module(&layout.mods[k], t) {
            return false;
        }
        k += 1;
    }
    true
}

/// Draws a zone.
fn draw_zone(layout: &RaceLayout, t: &Telemetry, now_ms: i64, z: usize) -> (ops: Vec<Op>)
    requires
        z < 5,
        layout_fits(layout@, *t),
    ensures
        ({
            let ids = arranged(layout@, z as int);
            op_views(ops@) == zone_ops(layout@, *t, now_ms as int, z as int, ids, ids.len())
        }),
{
    let mods = &layout.mods;
    let picked = pick_zone(layout, z);
    let mut keys: Vec<i64> = Vec::new();
    let mut k: usize = 0;
    while k < mods.len()
        invariant
            k <= mods@.len(),
            *mods == layout.mods,
            keys@.len() == k,
            forall|j: int| 0 <= j < k ==> #[trigger] keys@[j] == mods@[j].order,
        decreases mods@.len() - k,
    {
        keys.push(mods[k].order as i64);
        k += 1;
    }
    proof {
        assert(key_ints(keys@) =~= orders(layout@));
    }
    let ids = sort_by(&picked, &keys);
    let ghost order = arranged(layout@, z as int);
    let n: i32 = ids.len() as i32;
    let zn = zone(z);
    let mut ops: Vec<Op> = Vec::new();
    let mut i: usize = 0;
    proof {
        assert(as_ints(ids@) == order);
        assert(op_views(ops@) =~= Seq::<OpView>::empty());
    }
    while i < ids.len()
        invariant
            i <= ids@.len(),
            z < 5,
            zn == zone_of(z as int),
            *mods == layout.mods,
            n == ids@.len(),
            480 * n <= i32::MAX,
            layout_fits(layout@, *t),
            as_ints(ids@) == order,
            all_below(order, mods@.len() as int),
            op_views(ops@) == zone_ops(layout@, *t, now_ms as int, z as int, order, i as nat),
        decreases ids@.len() - i,
    {
        let id: usize = ids[i];
        assert(order[i as int] == id);
        assert(layout@[id as int] == mods@[id as int]@);
        let c = cell(zn, i as i32, n, Ghost(z as int));
        let more = draw_module(&mods[id], t, c, now_ms);
        append(&mut ops, more);
        i += 1;
    }
    ops
}

/// Draws the race screen.
pub fn render_race(layout: &RaceLayout, t: &Telemetry, now_ms: i64) -> (ops: Vec<Op>)
    requires
        layout_fits(layout@, *t),
    ensures
        op_views(ops@) == screen_ops(layout@, *t, now_ms as int, 5),
{
    let mut ops: Vec<Op> = Vec::new();
    ops.push(Op::Clear(Colour { r: 1, g: 2, b: 1 }));
    proof {
        assert(op_views(ops@) =~= seq![OpView::Clear(ground())]);
    }
    let mut z: usize = 0;
    while z < 5
        invariant
            z <= 5,
            layout_fits(layout@, *t),
            op_views(ops@) == screen_ops(layout@, *t, now_ms as int, z as nat),
        decreases 5 - z,
    {
        let more = draw_zone(layout, t, now_ms, z);
        append(&mut ops, more);
        z += 1;
    }
    ops
}

/// The modules of a zone are drawn in the order of their order numbers, and each
/// exactly once.
pub proof fn zone_is_arranged(mods: Seq<ModuleView>, z: int)
    ensures
        crate::order::ordered(arranged(mods, z), orders(mods)),
        arranged(mods, z).no_duplicates(),
        forall|k: int|
            0 <= k < mods.len() && mods[k].zone == z <==> #[trigger] arranged(mods, z).contains(k),
{
    let ids = in_zone(mods, z, mods.len());
    lemma_in_zone(mods, z, mods.len());
    stable_sort_sorts(ids, orders(mods));
    lemma_sort_items(ids, orders(mods));
    assert forall|k: int| 0 <= k < mods.len() && mods[k].zone == z <==> #[trigger] arranged(
        mods,
        z,
    ).contains(k) by {
        assert(arranged(mods, z).contains(k) <==> ids.contains(k));
    }
}

proof fn lemma_in_zone(mods: Seq<ModuleView>, z: int, n: nat)
    requires
        n <= mods.len(),
    ensures
        in_zone(mods, z, n).no_duplicates(),
        forall|k: int| #[trigger] in_zone(mods, z, n).contains(k) <==> 0 <= k < n && mods[k].zone == z,
    decreases n,
{
    if n > 0 {
        let m = (n - 1) as nat;
        let front = in_zone(mods, z, m);
        let all = in_zone(mods, z, n);
        lemma_in_zone(mods, z, m);
        assert(!front.contains(n - 1));
        assert forall|k: int| #[trigger] all.contains(k) <==> 0 <= k < n && mods[k].zone == z by {
            if mods[n - 1].zone == z {
                assert(all == front.push(n - 1));
                if all.contains(k) {
                    let j = choose|j: int| 0 <= j < all.len() && all[j] == k;
                    if j < front.len() {
                        assert(front[j] == k);
                        assert(front.contains(k));
                    }
                }
                if front.contains(k) {
                    let j = choose|j: int| 0 <= j < front.len() && front[j] == k;
                    assert(all[j] == k);
                }
                assert(all[front.len() as int] == n - 1);
            } else {
                assert(front.contains(k) <==> 0 <= k < m && mods[k].zone == z);
            }
        }
        if mods[n - 1].zone == z {
            assert forall|i: int, j: int| 0 <= i < all.len() && 0 <= j < all.len() && i != j implies all[i]
                != all[j] by {
                if i < front.len() {
                    assert(front.contains(front[i]));
                }
                if j < front.len() {
                    assert(front.contains(front[j]));
                }
            }
        }
    }
}

// ------------------------------------------------------------- what is shown

/// `n` is the whole part of `a / d`.
proof fn lemma_whole_part(a: int, d: int, n: int)
    requires
        d > 0,
        n * d <= a < (n + 1) * d,
    ensures
        a / d == n,
{
    let r = a - n * d;
    assert((n + 1) * d == n * d + d) by (nonlinear_arith);
    assert(a == d * n + r) by (nonlinear_arith)
        requires
            r == a - n * d,
    ;
    vstd::arithmetic::div_mod::lemma_fundamental_div_mod_converse(a, d, n, r);
}

/// The share of a value in its scale, in percent.
proof fn lemma_share_of_scale(raw: int, scale: int)
    requires
        scale > 0,
    ensures
        raw <= 0 ==> tdiv(raw * 100, scale) <= 0,
        raw >= scale ==> tdiv(raw * 100, scale) >= 100,
        raw >= 0 ==> tdiv(raw * 100, scale) == (raw * 100) / scale,
{
    if raw < 0 {
        vstd::arithmetic::div_mod::lemma_div_pos_is_pos(-(raw * 100), scale);
    } else {
        if raw == 0 {
            vstd::arithmetic::div_mod::lemma_div_of0(scale);
        }
        if raw >= scale {
            vstd::arithmetic::div_mod::lemma_div_is_ordered(scale * 100, raw * 100, scale);
            vstd::arithmetic::div_mod::lemma_div_multiples_vanish(100, scale);
            assert(scale * 100 == 100 * scale);
        }
    }
}

/// A bar grows with its value. It lies on a panel of the width of the cell less 8
/// and starts where the panel starts; it is empty for a value of 0 or less, covers
/// the panel for a value that has reached the scale, and between the two covers the
/// whole percentage `pct` of it that the value has of the scale.
pub proof fn bars_fill_with_their_value(
    m: ModuleView,
    t: Telemetry,
    c: Cell,
    now_ms: int,
    pct: int,
)
    requires
        m.kind == Kind::Bar,
        m.scale > 0,
        c.w >= 8,
        t.value(m.field) >= 0 ==> pct * m.scale <= t.value(m.field) * 100 < (pct + 1) * m.scale,
    ensures
        ({
            let ops = module_ops(m, t, c, now_ms);
            let v = t.value(m.field);
            &&& ops.len() == 3
            &&& ops[1] matches OpView::Rect { x, y, w, h, colour } && ops[2] matches OpView::Rect {
                x: fx,
                y: fy,
                w: fw,
                h: fh,
                colour: fc,
            } && {
                &&& x == c.x + 4 && w == c.w - 8
                &&& fx == x && fy == y && fh == h
                &&& 0 <= fw <= w
                &&& v <= 0 ==> fw == 0
                &&& v >= m.scale ==> fw == w
                &&& 0 <= v <= m.scale ==> 100 * fw <= w * pct < 100 * fw + 100
            }
        }),
{
    let raw = t.value(m.field) as int;
    let w = c.w - 8;
    lemma_share_of_scale(raw, m.scale);
    if raw >= 0 {
        lemma_whole_part(raw * 100, m.scale, pct);
    }
    let p = fill_pct(raw, m.scale);
    assert(0 <= w * p <= w * 100) by (nonlinear_arith)
        requires
            0 <= p <= 100,
            w >= 0,
    ;
    if 0 <= raw <= m.scale {
        assert(0 <= pct <= 100) by (nonlinear_arith)
            requires
                pct * m.scale <= raw * 100 < (pct + 1) * m.scale,
                0 <= raw <= m.scale,
                m.scale > 0,
        ;
        assert(p == pct);
    }
    if raw <= 0 {
        assert(p == 0);
        assert(w * 0 == 0);
    }
    if raw >= m.scale {
        assert(p == 100);
    }
}

/// The filled part of a bar never shrinks as its value rises.
pub proof fn bars_never_shrink(m: ModuleView, t1: Telemetry, t2: Telemetry, c: Cell, now_ms: int)
    requires
        m.kind == Kind::Bar,
        m.scale > 0,
        c.w >= 8,
        t1.value(m.field) <= t2.value(m.field),
    ensures
        module_ops(m, t1, c, now_ms)[2] matches OpView::Rect { w: w1, .. } && module_ops(
            m,
            t2,
            c,
            now_ms,
        )[2] matches OpView::Rect { w: w2, .. } && w1 <= w2,
{
    let a = t1.value(m.field) as int;
    let b = t2.value(m.field) as int;
    lemma_share_of_scale(a, m.scale);
    lemma_share_of_scale(b, m.scale);
    if a >= 0 {
        vstd::arithmetic::div_mod::lemma_div_is_ordered(a * 100, b * 100, m.scale);
    }
    let p = fill_pct(a, m.scale);
    let q = fill_pct(b, m.scale);
    assert(0 <= p <= q <= 100);
    let w = c.w - 8;
    assert(0 <= w * p <= w * q) by (nonlinear_arith)
        requires
            0 <= p <= q,
            w >= 0,
    ;
    vstd::arithmetic::div_mod::lemma_div_is_ordered(w * p, w * q, 100);
}

/// A value has the colour of the first rule that it meets, and the base colour where
/// it meets none; the rules behind the first that is met play no part.
pub proof fn first_rule_gives_the_colour(
    rules: Seq<(RuleOp, i32, Pal)>,
    raw: int,
    base: Pal,
    k: int,
)
    requires
        0 <= k <= rules.len(),
        forall|j: int| 0 <= j < k ==> !(#[trigger] rules[j]).0.holds(raw, rules[j].1 as int),
        k < rules.len() ==> rules[k].0.holds(raw, rules[k].1 as int),
    ensures
        ruled(rules, raw, base) == if k < rules.len() {
            rules[k].2
        } else {
            base
        },
    decreases rules.len(),
{
    if rules.len() > 0 && k > 0 {
        assert(!rules[0].0.holds(raw, rules[0].1 as int));
        let more = rules.drop_first();
        assert forall|j: int| 0 <= j < k - 1 implies !(#[trigger] more[j]).0.holds(
            raw,
            more[j].1 as int,
        ) by {
            assert(more[j] == rules[j + 1]);
        }
        first_rule_gives_the_colour(more, raw, base, k - 1);
    }
}

/// A number module shows the number of its own field in its own format under its
/// label, in the colour that its rules give it; a bar and a flag take that colour
/// too.
pub proof fn modules_take_their_rules_colour(m: ModuleView, t: Telemetry, c: Cell, now_ms: int)
    ensures
        ({
            let ops = module_ops(m, t, c, now_ms);
            let v = t.value(m.field) as int;
            let own = shade(ruled(m.rules, v, m.base));
            &&& m.kind == Kind::Stat ==> ops.len() == 2 && (ops[0] matches OpView::Text {
                s,
                x,
                y,
                ..
            } && ops[1] matches OpView::Text { s: s2, x: x2, y: y2, colour, .. } && {
                &&& s == m.label
                &&& s2 == shown(v, m.fmt, m.scale, m.unit)
                &&& colour == own
                &&& x2 == x
                &&& c.h >= 12 ==> y < y2
            })
            &&& m.kind == Kind::Bar ==> (ops[2] matches OpView::Rect { colour, .. } && colour == own)
                && (ops[0] matches OpView::Text { s, .. } && s == m.label) && (
            ops[1] matches OpView::Rect { colour, .. } && colour == shade(Pal::Panel))
            &&& m.kind == Kind::Flag ==> ops.len() == 1 && (ops[0] matches OpView::Round {
                colour,
                ..
            } && colour == own)
        }),
{
}

/// The gear stands in the middle, with the speed and its unit below it; without a
/// gear the letter of neutral is shown. The position stands before the size of the
/// field, behind a P and divided by a stroke.
pub proof fn gears_and_places_are_shown(m: ModuleView, t: Telemetry, c: Cell, now_ms: int)
    requires
        c.h >= 60,
    ensures
        ({
            let ops = module_ops(m, t, c, now_ms);
            let gear = if t.gear == 0 {
                'N'
            } else {
                t.gear as char
            };
            &&& m.kind == Kind::Gear ==> ops.len() == 1 && (ops[0] matches OpView::Text { s, x, .. }
                && s == seq![gear] && x == c.x + c.w / 2)
            &&& m.kind == Kind::GearSpeed ==> ops.len() == 3 && (ops[0] matches OpView::Text {
                s,
                x,
                y,
                ..
            } && ops[1] matches OpView::Text { s: s1, y: y1, .. } && ops[2] matches OpView::Text {
                s: s2,
                y: y2,
                ..
            } && {
                &&& s == seq![gear] && x == c.x + c.w / 2
                &&& s1 == int_text(t.speed_kmh as int)
                &&& s2 == "KM/H"@
                &&& y < y1 < y2
            })
            &&& m.kind == Kind::Position ==> ops.len() == 2 && (ops[1] matches OpView::Text { s, .. }
                && s == "P"@ + int_text(t.position as int) + "/"@ + int_text(t.field_size as int))
                && (ops[0] matches OpView::Text { s, .. } && s == m.label)
        }),
{
}

/// Traction control stands on the left under its name, ABS on the right under its
/// own.
pub proof fn assists_stand_under_their_names(m: ModuleView, t: Telemetry, c: Cell, now_ms: int)
    requires
        m.kind == Kind::TcDual,
        c.w >= 4,
        c.h >= 20,
    ensures
        ({
            let ops = module_ops(m, t, c, now_ms);
            &&& ops.len() == 4
            &&& ops[0] matches OpView::Text { s, x, y, .. } && ops[1] matches OpView::Text {
                s: s1,
                x: x1,
                ..
            } && ops[2] matches OpView::Text { s: tc, x: tcx, y: tcy, .. }
                && ops[3] matches OpView::Text { s: a, x: ax, y: ay, .. } && {
                &&& s == "TC"@ && tc == int_text(t.tc as int)
                &&& s1 == "ABS"@ && a == int_text(t.abs as int)
                &&& tcx == x && ax == x1 && x < x1
                &&& y < tcy && ay == tcy
            }
        }),
{
}

/// The lap that is being driven stands on top under its name, the best lap below
/// under its own.
pub proof fn laps_stand_under_their_names(m: ModuleView, t: Telemetry, c: Cell, now_ms: int)
    requires
        m.kind == Kind::LapPair,
        c.h >= 60,
    ensures
        ({
            let ops = module_ops(m, t, c, now_ms);
            &&& ops.len() == 4
            &&& ops[0] matches OpView::Text { s, y, .. } && ops[1] matches OpView::Text {
                s: cur,
                y: cy,
                ..
            } && ops[2] matches OpView::Text { s: s2, y: y2, .. } && ops[3] matches OpView::Text {
                s: best,
                y: by,
                colour,
                ..
            } && {
                &&& s == "CURRENT"@
                &&& cur == shown(t.cur_lap_ms as int, Fmt::Time, 1, Seq::empty())
                &&& s2 == "BEST"@
                &&& best == shown(t.best_lap_ms as int, Fmt::Time, 1, Seq::empty())
                &&& y < cy < y2 < by
                &&& colour == shade(Pal::Cyan)
            }
        }),
{
}

/// The sectors stand side by side in order. Each shows its own time, in green where
/// it has been driven and is no slower than its own best, and in amber otherwise.
pub proof fn sectors_stand_in_order(m: ModuleView, t: Telemetry, c: Cell, now_ms: int)
    requires
        m.kind == Kind::Sectors,
        c.w >= 3,
    ensures
        ({
            let ops = module_ops(m, t, c, now_ms);
            let green = shade(Pal::Green);
            let amber = shade(Pal::Amber);
            &&& ops.len() == 3
            &&& ops[0] matches OpView::Text { s, x, colour, .. } && ops[1] matches OpView::Text {
                s: s1,
                x: x1,
                colour: c1,
                ..
            } && ops[2] matches OpView::Text { s: s2, x: x2, colour: c2, .. } && {
                &&& s == shown(t.s1_ms as int, Fmt::Sector, 1, Seq::empty())
                &&& s1 == shown(t.s2_ms as int, Fmt::Sector, 1, Seq::empty())
                &&& s2 == shown(t.s3_ms as int, Fmt::Sector, 1, Seq::empty())
                &&& x < x1 < x2
                &&& colour == if 0 < t.s1_ms <= t.bs1_ms {
                    green
                } else {
                    amber
                }
                &&& c1 == if 0 < t.s2_ms <= t.bs2_ms {
                    green
                } else {
                    amber
                }
                &&& c2 == if 0 < t.s3_ms <= t.bs3_ms {
                    green
                } else {
                    amber
                }
            }
        }),
{
}

/// The tyres stand as they stand on the car: front above rear, left beside right.
/// Each shows the temperature of its own middle, in red above 95 degrees, in amber
/// above 80, and in green up to that.
pub proof fn tyres_stand_as_on_the_car(m: ModuleView, t: Telemetry, c: Cell, now_ms: int)
    requires
        m.kind == Kind::TyreGrid,
        c.w >= 2,
        c.h >= 2,
    ensures
        ({
            let ops = module_ops(m, t, c, now_ms);
            &&& ops.len() == 8
            &&& ops[1] matches OpView::Text { s: fl, x: flx, y: fly, colour: flc, .. }
                && ops[3] matches OpView::Text { s: fr, x: frx, y: fry, colour: frc, .. }
                && ops[5] matches OpView::Text { s: rl, x: rlx, y: rly, colour: rlc, .. }
                && ops[7] matches OpView::Text { s: rr, x: rrx, y: rry, colour: rrc, .. } && {
                &&& fl == int_text(t.tt_fl_m as int) && fr == int_text(t.tt_fr_m as int)
                &&& rl == int_text(t.tt_rl_m as int) && rr == int_text(t.tt_rr_m as int)
                &&& flx == rlx && frx == rrx && flx < frx
                &&& fly == fry && rly == rry && fly < rly
                &&& flc == heat(t.tt_fl_m as int) && frc == heat(t.tt_fr_m as int)
                &&& rlc == heat(t.tt_rl_m as int) && rrc == heat(t.tt_rr_m as int)
            }
        }),
        forall|d: int| d > 95 <==> #[trigger] heat(d) == shade(Pal::Red),
        forall|d: int| 80 < d <= 95 <==> #[trigger] heat(d) == shade(Pal::Amber),
        forall|d: int| d <= 80 <==> #[trigger] heat(d) == shade(Pal::Green),
{
    let ops = module_ops(m, t, c, now_ms);
    assert(ops[1] == tyre_ops(c, 0, t.tt_fl_m as int)[1]);
    assert(ops[3] == tyre_ops(c, 1, t.tt_fr_m as int)[1]);
    assert(ops[5] == tyre_ops(c, 2, t.tt_rl_m as int)[1]);
    assert(ops[7] == tyre_ops(c, 3, t.tt_rr_m as int)[1]);
    assert(0 * (c.w / 2) == 0 && 1 * (c.w / 2) == c.w / 2);
    assert(0 * (c.h / 2) == 0 && 1 * (c.h / 2) == c.h / 2);
}

/// The drawn colour of a tyre of that temperature.
pub open spec fn heat(temp: int) -> Colour {
    if temp > 95 {
        shade(Pal::Red)
    } else if temp > 80 {
        shade(Pal::Amber)
    } else {
        shade(Pal::Green)
    }
}

/// The rev strip has twelve segments side by side, each in the colour that the rev
/// bar gives it, and in the panel's colour where the rev bar is dark.
pub proof fn rev_strip_shows_the_bar(
    m: ModuleView,
    t: Telemetry,
    c: Cell,
    now_ms: int,
    i: int,
    cfg: RevCfg,
)
    requires
        m.kind == Kind::RpmStrip,
        0 <= i < 12,
        c.w >= 36,
        cfg.start_pct == 50 && cfg.flash_pct == 98 && cfg.n_green == 6 && cfg.n_red == 3
            && cfg.n_blue == 3 && cfg.col_green == 0x00FF00 && cfg.col_red == 0xFF0000
            && cfg.col_blue == 0x0050FF && cfg.col_flash == 0x0050FF,
    ensures
        ({
            let ops = module_ops(m, t, c, now_ms);
            let rgb = bar_rgb(t, i, 12, cfg, now_ms);
            &&& ops.len() == 12
            &&& ops[i] matches OpView::Round { x, w, colour, .. } && {
                &&& colour == if rgb == 0 {
                    shade(Pal::Panel)
                } else {
                    shade888(rgb)
                }
                &&& c.x < x && x + w < c.x + c.w
                &&& i < 11 ==> (ops[i + 1] matches OpView::Round { x: x2, .. } && x + w < x2)
            }
        }),
{
    assert(cfg == stock_bar());
    let ops = module_ops(m, t, c, now_ms);
    let k = c.w as int / 12;
    assert(0 <= i * k && i * k + k <= 12 * k && (i + 1) * k == i * k + k) by (nonlinear_arith)
        requires
            0 <= i < 12,
            k >= 0,
    ;
    assert(ops[i] == segment(t, c, now_ms, i));
    if i < 11 {
        assert(ops[i + 1] == segment(t, c, now_ms, i + 1));
    }
}

/// The zones stand on the panel without overlapping: the first on top, the fifth at
/// the bottom, and between them the second on the left, the third in the middle and
/// the fourth on the right.
pub proof fn zones_keep_apart()
    ensures
        ({
            let (top, left, centre) = (zone_of(0), zone_of(1), zone_of(2));
            let (right, bottom) = (zone_of(3), zone_of(4));
            &&& top.horiz && bottom.horiz && !left.horiz && !centre.horiz && !right.horiz
            &&& top.x == 0 && top.w == 480 && bottom.x == 0 && bottom.w == 480
            &&& 0 <= top.y && top.y + top.h <= left.y && left.y + left.h <= bottom.y && bottom.y
                + bottom.h <= 320
            &&& left.y == centre.y && left.h == centre.h && right.y == centre.y && right.h
                == centre.h
            &&& 0 <= left.x && left.x + left.w <= centre.x && centre.x + centre.w <= right.x
                && right.x + right.w <= 480
            &&& left.w == right.w && left.w < centre.w
            &&& top.h == bottom.h
        }),
{
}

/// The modules of a zone share it alike: side by side in a horizontal zone and one
/// above the other in any other, each as long as the zone allows, the first at its
/// start, and as wide as the zone across.
pub proof fn cells_share_alike(z: int, i: int, n: int)
    requires
        0 <= z < 5,
        0 <= i < n,
    ensures
        ({
            let a = zone_of(z);
            let c = cell_of(a, i, n);
            &&& a.horiz ==> n * c.w <= a.w < n * (c.w + 1) && c.y == a.y && c.h == a.h
            &&& !a.horiz ==> n * c.h <= a.h < n * (c.h + 1) && c.x == a.x && c.w == a.w
            &&& i == 0 ==> c.x == a.x && c.y == a.y
            &&& a.horiz ==> n * (c.x - a.x) <= a.w * i < n * (c.x - a.x + 1)
            &&& !a.horiz ==> n * (c.y - a.y) <= a.h * i < n * (c.y - a.y + 1)
        }),
{
    let a = zone_of(z);
    let size = if a.horiz {
        a.w as int
    } else {
        a.h as int
    };
    lemma_share(a.w as int, i, n);
    lemma_share(a.h as int, i, n);
    vstd::arithmetic::div_mod::lemma_fundamental_div_mod(size, n);
    vstd::arithmetic::div_mod::lemma_mod_bound(size, n);
    vstd::arithmetic::div_mod::lemma_fundamental_div_mod(size * i, n);
    vstd::arithmetic::div_mod::lemma_mod_bound(size * i, n);
    let q = size / n;
    let p = size * i / n;
    assert(n * (q + 1) == n * q + n && n * (p + 1) == n * p + n) by (nonlinear_arith);
    if i == 0 {
        assert(size * 0 == 0) by (nonlinear_arith);
        vstd::arithmetic::div_mod::lemma_div_of0(n);
    }
}

/// Every module of a layout whose zone is on the screen is drawn: its drawing
/// stands whole in that of the screen, in the cell of its place in the zone.
pub proof fn every_module_is_drawn(
    mods: Seq<ModuleView>,
    t: Telemetry,
    now_ms: int,
    z: int,
    k: int,
) -> (at: int)
    requires
        0 <= z < 5,
        0 <= k < arranged(mods, z).len(),
    ensures
        ({
            let all = screen_ops(mods, t, now_ms, 5);
            let ids = arranged(mods, z);
            let own = module_ops(
                mods[ids[k]],
                t,
                cell_of(zone_of(z), k, ids.len() as int),
                now_ms,
            );
            &&& 1 <= at && at + own.len() <= all.len()
            &&& all.subrange(at, at + own.len()) == own
            &&& all[0] == OpView::Clear(ground())
        }),
{
    let ids = arranged(mods, z);
    let own = module_ops(mods[ids[k]], t, cell_of(zone_of(z), k, ids.len() as int), now_ms);
    let in_zone_at = lemma_zone_holds(mods, t, now_ms, z, ids, k, ids.len());
    let below = screen_ops(mods, t, now_ms, z as nat);
    let upto_z = screen_ops(mods, t, now_ms, (z + 1) as nat);
    let part = zone_ops(mods, t, now_ms, z, ids, ids.len());
    assert(upto_z == below + part);
    let at = below.len() + in_zone_at;
    assert(upto_z.subrange(at, at + own.len()) =~= part.subrange(
        in_zone_at,
        in_zone_at + own.len(),
    ));
    lemma_screen_grows(mods, t, now_ms, z as nat, 0);
    lemma_screen_grows(mods, t, now_ms, 5, (z + 1) as nat);
    let all = screen_ops(mods, t, now_ms, 5);
    lemma_screen_grows(mods, t, now_ms, 5, 0);
    assert(all.subrange(at, at + own.len()) =~= upto_z.subrange(at, at + own.len())) by {
        assert(all.take(upto_z.len() as int) == upto_z);
        assert forall|j: int| 0 <= j < own.len() implies all[at + j] == #[trigger] upto_z[at + j] by {
            assert(all.take(upto_z.len() as int)[at + j] == all[at + j]);
        }
    }
    assert(all.take(1)[0] == all[0]);
    at
}

proof fn lemma_zone_holds(
    mods: Seq<ModuleView>,
    t: Telemetry,
    now_ms: int,
    z: int,
    ids: Seq<int>,
    k: int,
    n: nat,
) -> (at: int)
    requires
        0 <= k < n <= ids.len(),
    ensures
        ({
            let all = zone_ops(mods, t, now_ms, z, ids, n);
            let own = module_ops(
                mods[ids[k]],
                t,
                cell_of(zone_of(z), k, ids.len() as int),
                now_ms,
            );
            &&& 0 <= at && at + own.len() <= all.len()
            &&& all.subrange(at, at + own.len()) == own
        }),
    decreases n,
{
    let m = (n - 1) as nat;
    let front = zone_ops(mods, t, now_ms, z, ids, m);
    let all = zone_ops(mods, t, now_ms, z, ids, n);
    let own = module_ops(mods[ids[k]], t, cell_of(zone_of(z), k, ids.len() as int), now_ms);
    if k == m {
        let at = front.len() as int;
        assert(all == front + own);
        assert(all.subrange(at, at + own.len()) =~= own);
        at
    } else {
        let at = lemma_zone_holds(mods, t, now_ms, z, ids, k, m);
        assert(all.subrange(at, at + own.len()) =~= front.subrange(at, at + own.len()));
        at
    }
}

proof fn lemma_screen_grows(mods: Seq<ModuleView>, t: Telemetry, now_ms: int, n: nat, m: nat)
    requires
        m <= n,
    ensures
        screen_ops(mods, t, now_ms, m).len() <= screen_ops(mods, t, now_ms, n).len(),
        screen_ops(mods, t, now_ms, n).take(screen_ops(mods, t, now_ms, m).len() as int)
            == screen_ops(mods, t, now_ms, m),
    decreases n,
{
    let a = screen_ops(mods, t, now_ms, m);
    let b = screen_ops(mods, t, now_ms, n);
    if m == n {
        assert(b.take(b.len() as int) =~= b);
    } else {
        let c = screen_ops(mods, t, now_ms, (n - 1) as nat);
        lemma_screen_grows(mods, t, now_ms, (n - 1) as nat, m);
        assert(b.take(a.len() as int) =~= c.take(a.len() as int));
    }
}

/// What the kinds of modules are called; any other name is a plain number.
pub proof fn kinds_have_their_names()
    ensures
        kind_named("gear"@) == Kind::Gear,
        kind_named("gearSpeed"@) == Kind::GearSpeed,
        kind_named("rpmStrip"@) == Kind::RpmStrip,
        kind_named("tyreGrid"@) == Kind::TyreGrid,
        kind_named("tcDual"@) == Kind::TcDual,
        kind_named("sectors"@) == Kind::Sectors,
        kind_named("lapPair"@) == Kind::LapPair,
        kind_named("bar"@) == Kind::Bar,
        kind_named("map"@) == Kind::TrackMap,
        kind_named("flag"@) == Kind::Flag,
        kind_named("position"@) == Kind::Position,
        kind_named("stat"@) == Kind::Stat,
{
    reveal_strlit("gear");
    reveal_strlit("gearSpeed");
    reveal_strlit("rpmStrip");
    reveal_strlit("tyreGrid");
    reveal_strlit("tcDual");
    reveal_strlit("sectors");
    reveal_strlit("lapPair");
    reveal_strlit("bar");
    reveal_strlit("map");
    reveal_strlit("flag");
    reveal_strlit("position");
    reveal_strlit("stat");
    assert("gear"@[0] == 'g' && "flag"@[0] == 'f' && "stat"@[0] == 's');
    assert("rpmStrip"@[0] == 'r' && "tyreGrid"@[0] == 't' && "position"@[0] == 'p');
    assert("sectors"@[0] == 's' && "lapPair"@[0] == 'l');
    assert("bar"@[0] == 'b' && "map"@[0] == 'm');
    assert("tcDual"@.len() == 6 && "gearSpeed"@.len() == 9);
    assert("stat"@.len() == 4 && "gear"@.len() == 4 && "flag"@.len() == 4);
    assert("rpmStrip"@.len() == 8 && "tyreGrid"@.len() == 8 && "position"@.len() == 8);
    assert("sectors"@.len() == 7 && "lapPair"@.len() == 7);
    assert("bar"@.len() == 3 && "map"@.len() == 3);
}

/// A module of a push: its field by name, its zone brought into the five there are,
/// and what it leaves out taken from its field or, without one, from the plain
/// number: white, unscaled, without a unit. A rule that leaves something out is
/// red above 0.
pub proof fn modules_are_read_from_pushes(m: ModView, k: int)
    requires
        0 <= k < m.rules.len(),
    ensures
        ({
            let r = module_of(m);
            &&& m.f is None ==> r.field == 0
            &&& m.f matches Some(f) ==> (r.field != 0 ==> crate::registry::name_of(r.field) == f)
            &&& m.z is None ==> r.zone == 0
            &&& m.z matches Some(z) ==> (0 <= z <= 4 ==> r.zone == z)
            &&& m.z matches Some(z) ==> (z < 0 ==> r.zone == 0)
            &&& m.z matches Some(z) ==> (z > 4 ==> r.zone == 4)
            &&& m.b is None ==> r.base == Pal::named("white"@)
            &&& m.b matches Some(b) ==> r.base == Pal::named(b)
            &&& m.l matches Some(l) ==> r.label == l
            &&& m.fmt_u is None ==> r.unit.len() == 0
            &&& m.fmt_u matches Some(u) ==> r.unit == u
            &&& m.fmt_t matches Some(f) ==> r.fmt == Fmt::named(f)
            &&& m.fmt_t is None && r.field > 0 ==> r.fmt == format_of(r.field).0
            &&& m.fmt_t is None && r.field == 0 ==> r.fmt == Fmt::Int
            &&& m.fmt_sc matches Some(v) ==> (0 < v <= i32::MAX ==> r.scale == v)
            &&& m.fmt_sc is None && r.field == 0 ==> r.scale == 1
            &&& m.fmt_sc is None && r.field > 0 ==> r.scale == format_of(r.field).1
            &&& m.o is None ==> r.order == 0
            &&& m.o matches Some(o) ==> (i32::MIN <= o <= i32::MAX ==> r.order == o)
            &&& r.rules.len() == m.rules.len()
            &&& m.rules[k].op is None ==> r.rules[k].0 == RuleOp::named(">"@)
            &&& m.rules[k].op matches Some(op) ==> r.rules[k].0 == RuleOp::named(op)
            &&& m.rules[k].v is None ==> r.rules[k].1 == 0
            &&& m.rules[k].v matches Some(v) ==> (i32::MIN <= v <= i32::MAX ==> r.rules[k].1 == v)
            &&& m.rules[k].c is None ==> r.rules[k].2 == Pal::named("red"@)
            &&& m.rules[k].c matches Some(c) ==> r.rules[k].2 == Pal::named(c)
        }),
{
    if let Some(f) = m.f {
        crate::registry::names_are_looked_up(f, 1);
    }
}

/// Where the parts of a push stand: the modules below `/mods`, as many as there are
/// and in their order, each member of a module under its own key, and its rules below
/// `r`, no more than four of them.
pub proof fn layouts_are_read_from_their_places(
    json: Seq<char>,
    d: Doc,
    n: nat,
    i: int,
    rules: nat,
    j: int,
)
    requires
        json_read(json) == Some(d),
        len_at(d, "/mods"@) == Some(n),
        0 <= i < n,
        len_at(d, "/mods/"@ + dec_text(i as nat) + "/r"@) == Some(rules),
        0 <= j < rules && j < 4,
    ensures
        ({
            let m = mod_source_of(d, i);
            let at = "/mods/"@ + dec_text(i as nat);
            let rule = at + "/r/"@ + dec_text(j as nat);
            &&& layout_of(json) matches Some(layout) && layout.len() == n && layout[i] == module_of(m)
            &&& m.f == json::text_at(d, at + "/f"@)
            &&& m.fmt_t == json::text_at(d, at + "/fmt/t"@)
            &&& m.fmt_sc == int_at(d, at + "/fmt/sc"@)
            &&& m.fmt_u == json::text_at(d, at + "/fmt/u"@)
            &&& m.l == json::text_at(d, at + "/l"@)
            &&& m.b == json::text_at(d, at + "/b"@)
            &&& m.k == json::text_at(d, at + "/k"@)
            &&& m.z == int_at(d, at + "/z"@)
            &&& m.o == int_at(d, at + "/o"@)
            &&& m.rules.len() <= 4 && (rules <= 4 ==> m.rules.len() == rules)
            &&& rules > 4 ==> m.rules.len() == 4
            &&& m.rules[j].op == json::text_at(d, rule + "/op"@)
            &&& m.rules[j].v == int_at(d, rule + "/v"@)
            &&& m.rules[j].c == json::text_at(d, rule + "/c"@)
        }),
{
}

/// A push that is no JSON, or holds no list of modules, is no layout; a module
/// without a list of rules has none.
pub proof fn other_pushes_are_no_layouts(json: Seq<char>, d: Doc, i: int)
    ensures
        json_read(json) is None ==> layout_of(json) is None,
        json_read(json) == Some(d) && len_at(d, "/mods"@) is None ==> layout_of(json) is None,
        len_at(d, "/mods/"@ + dec_text(i as nat) + "/r"@) is None ==> mod_source_of(
            d,
            i,
        ).rules.len() == 0,
{
}

/// The zones of the panel of 480 by 320 pixels: a strip along its top and one along its
/// bottom, filled from left to right, and three columns between them, filled downwards,
/// the middle one the widest.
pub proof fn zones_have_their_places()
    ensures
        zone_of(0) == (Zone { x: 0, y: 2, w: 480, h: 42, horiz: true }),
        zone_of(1) == (Zone { x: 4, y: 50, w: 128, h: 220, horiz: false }),
        zone_of(2) == (Zone { x: 136, y: 50, w: 208, h: 220, horiz: false }),
        zone_of(3) == (Zone { x: 348, y: 50, w: 128, h: 220, horiz: false }),
        zone_of(4) == (Zone { x: 0, y: 276, w: 480, h: 42, horiz: true }),
{
}

/// Where the texts of a module stand in its cell, and how large they are: a value in the
/// middle, its caption at the top, a pair beside or below each other.
pub proof fn texts_stand_in_their_cells(m: ModuleView, t: Telemetry, c: Cell, now_ms: int)
    ensures
        ({
            let d = module_ops(m, t, c, now_ms);
            let cx = c.x + c.w / 2;
            let mid = c.y + c.h / 2;
            let left = c.x + c.w / 4;
            let right = c.x + 3 * c.w / 4;
            let raw = t.value(m.field) as int;
            &&& m.kind == Kind::Gear || m.kind == Kind::GearSpeed ==> d[0] == centred(
                seq![gear_char(t.gear)],
                cx,
                mid - 6,
                40,
                Pal::White,
            )
            &&& m.kind == Kind::GearSpeed ==> d.len() == 3 && d[1] == centred(
                int_text(t.speed_kmh as int),
                cx,
                c.y + c.h - 26,
                24,
                Pal::White,
            ) && d[2] == centred("KM/H"@, cx, c.y + c.h - 8, 11, Pal::Dim)
            &&& m.kind == Kind::Position ==> d.len() == 2 && d[0] == centred(
                m.label,
                cx,
                c.y + 12,
                11,
                Pal::Dim,
            ) && d[1] == centred(
                "P"@ + int_text(t.position as int) + "/"@ + int_text(t.field_size as int),
                cx,
                mid + 4,
                22,
                Pal::White,
            )
            &&& m.kind == Kind::TcDual ==> d.len() == 4 && d[0] == centred(
                "TC"@,
                left,
                c.y + 12,
                11,
                Pal::Dim,
            ) && d[1] == centred("ABS"@, right, c.y + 12, 11, Pal::Dim) && d[2] == centred(
                int_text(t.tc as int),
                left,
                mid + 6,
                22,
                Pal::White,
            ) && d[3] == centred(int_text(t.abs as int), right, mid + 6, 22, Pal::White)
            &&& m.kind == Kind::LapPair ==> d.len() == 4 && d[0] == centred(
                "CURRENT"@,
                cx,
                c.y + 10,
                11,
                Pal::Dim,
            ) && d[1] == centred(
                shown(t.cur_lap_ms as int, Fmt::Time, 1, Seq::empty()),
                cx,
                c.y + c.h / 4 + 6,
                18,
                Pal::White,
            ) && d[2] == centred("BEST"@, cx, mid + 8, 11, Pal::Dim) && d[3] == centred(
                shown(t.best_lap_ms as int, Fmt::Time, 1, Seq::empty()),
                cx,
                c.y + 3 * c.h / 4 + 4,
                18,
                Pal::Cyan,
            )
            &&& m.kind == Kind::Stat ==> d.len() == 2 && d[0] == centred(
                m.label,
                cx,
                c.y + 11,
                11,
                Pal::Dim,
            ) && d[1] == centred(
                shown(raw, m.fmt, m.scale, m.unit),
                cx,
                mid + 6,
                22,
                ruled(m.rules, raw, m.base),
            )
        }),
{
}

/// Where the shapes of a module stand in its cell: the bar below its caption, the flag
/// all over it, the ring of the track in its middle, and the twelve segments of the rev
/// strip beside each other with a gap of two pixels.
pub proof fn shapes_stand_in_their_cells(
    m: ModuleView,
    t: Telemetry,
    c: Cell,
    now_ms: int,
    i: int,
)
    requires
        0 <= i < 12,
    ensures
        ({
            let d = module_ops(m, t, c, now_ms);
            let colour = ruled(m.rules, t.value(m.field) as int, m.base);
            &&& m.kind == Kind::Bar ==> d.len() == 3 && d[0] == text_at(
                m.label,
                c.x + 4,
                c.y + 10,
                11,
                Pal::Dim,
                Align::Left,
            ) && d[1] == rect_at(c.x + 4, c.y + c.h / 2, c.w - 8, c.h / 3, Pal::Panel)
            &&& m.kind == Kind::Flag ==> d == seq![
                round_at(c.x + 4, c.y + 4, c.w - 8, c.h - 8, 4, shade(colour)),
            ]
            &&& m.kind == Kind::TrackMap && c.h >= 3 ==> d == seq![
                OpView::Ring {
                    x: c.x + c.w / 2 - c.h / 3,
                    y: c.y + c.h / 6,
                    d: c.h / 3,
                    colour: shade(Pal::Dim),
                },
            ]
            &&& m.kind == Kind::RpmStrip ==> d.len() == 12 && (bar_rgb(
                t,
                i,
                12,
                stock_bar(),
                now_ms,
            ) == 0 ==> d[i] == round_at(
                c.x + i * (c.w / 12) + 1,
                c.y + 4,
                c.w / 12 - 2,
                c.h - 8,
                3,
                shade(Pal::Panel),
            )) && (bar_rgb(t, i, 12, stock_bar(), now_ms) != 0 ==> d[i] == round_at(
                c.x + i * (c.w / 12) + 1,
                c.y + 4,
                c.w / 12 - 2,
                c.h - 8,
                3,
                shade888(bar_rgb(t, i, 12, stock_bar(), now_ms)),
            ))
        }),
{
}

/// The temperature of a tyre stands in the middle of its quarter of the cell, on a face
/// that leaves two pixels to every side.
pub proof fn tyres_fill_their_quarters(c: Cell, i: int, temp: int)
    requires
        0 <= i < 4,
    ensures
        ({
            let d = tyre_ops(c, i, temp);
            let x = if i == 0 || i == 2 { c.x as int } else { c.x + c.w / 2 };
            let y = if i == 0 || i == 1 { c.y as int } else { c.y + c.h / 2 };
            &&& d.len() == 2
            &&& d[0] == round_at(x + 2, y + 2, c.w / 2 - 4, c.h / 2 - 4, 4, shade(Pal::Panel))
            &&& d[1] == centred(
                int_text(temp),
                x + c.w / 2 / 2,
                y + c.h / 2 / 2,
                14,
                tyre_shade(temp),
            )
        }),
{
    let w = c.w as int / 2;
    let h = c.h as int / 2;
    assert(0 * w == 0 && 1 * w == w && 0 * h == 0 && 1 * h == h) by (nonlinear_arith);
    if i == 0 {
        assert(i % 2 == 0 && i / 2 == 0);
    } else if i == 1 {
        assert(i % 2 == 1 && i / 2 == 0);
    } else if i == 2 {
        assert(i % 2 == 0 && i / 2 == 1);
    } else {
        assert(i % 2 == 1 && i / 2 == 1);
    }
}

/// A number of a push that does not fit 32 bits is wrapped into them: it changes by a
/// multiple of two to the 32.
pub proof fn large_numbers_wrap(v: i64)
    ensures
        -0x8000_0000 <= low32(v) < 0x8000_0000,
        (v - low32(v)) % 0x1_0000_0000 == 0,
        -0x8000_0000 <= v < 0x8000_0000 ==> low32(v) == v,
{
}

} // verus!
