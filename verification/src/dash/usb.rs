//! The command channel of the plain display unit: which command a line is, what it
//! changes, and what it is answered.

use vstd::prelude::*;
use vstd::string::StringExecFns;
use crate::dash::state::{
    buttoned, cap_text, carred, lit, pinned, profiled, raced, shown, AppState, StateView,
};
use crate::ddu::car::{clears, pushed_car, LoadedCar};
use crate::format::{abs, tdiv};
use crate::link::LineRule;
use crate::shift::CarDataView;
use crate::registry::FIELD_COUNT;
use crate::simhub::{frame_fits, frame_of, numbers_fit, parse_line, Telemetry};
use crate::text::{
    after_prefix, chars_of, dec_text, int_of, int_text, lemma_after_prefix, parse_int, push_dec,
    push_int, same, string_of, strip_prefix, trim, trimmed,
};

verus! {

/// Where a command came from; it is answered the same way.
#[derive(Clone, Copy, Debug, PartialEq, Eq, Structural)]
pub enum Transport {
    Cdc,
    Hid,
}

/// Whether bytes are those of an image: an update runs, and they came in where it was
/// started.
pub fn carries_image(owner: Option<Transport>, via: Transport, active: bool) -> (r: bool)
    ensures
        r == (active && owner == Some(via)),
{
    match owner {
        Some(t) => active && t == via,
        None => false,
    }
}

/// A line that grows to this many bytes is dropped.
pub const LINE_MAX: usize = 8192;

/// How lines are put together: a `$` starts a telemetry frame.
pub fn line_rule() -> (r: LineRule)
    ensures
        r == (LineRule { max: LINE_MAX, dollar_starts: true }),
{
    LineRule { max: LINE_MAX, dollar_starts: true }
}

/// What a line leads to.
#[derive(Debug, PartialEq)]
pub enum Step {
    /// Nothing to answer.
    Nothing,
    Reply(String),
    /// Read this screen layout (see [`Dash::ui_read`]).
    ReadUi(String),
    /// Start an update of this size; it answers by itself.
    Ota(i32),
}

/// A step as plain values.
pub enum StepView {
    Nothing,
    Reply(Seq<char>),
    ReadUi(Seq<char>),
    Ota(int),
}

impl View for Step {
    type V = StepView;

    open spec fn view(&self) -> StepView {
        match *self {
            Step::Nothing => StepView::Nothing,
            Step::Reply(s) => StepView::Reply(s@),
            Step::ReadUi(s) => StepView::ReadUi(s@),
            Step::Ota(n) => StepView::Ota(n as int),
        }
    }
}

/// What the commands work on.
#[derive(Debug)]
pub struct Dash {
    pub state: AppState,
    pub telem: Telemetry,
    pub car: LoadedCar,
}

/// What the commands work on, as plain values.
pub struct DashView {
    pub state: StateView,
    pub telem: Telemetry,
    pub car: Option<CarDataView>,
}

impl View for Dash {
    type V = DashView;

    open spec fn view(&self) -> DashView {
        DashView { state: self.state@, telem: self.telem, car: self.car.now() }
    }
}

/// What a reply needs of the device.
#[derive(Clone, Copy, Debug)]
pub struct Board<'a> {
    pub heap: u32,
    pub board: &'a str,
    pub serial: &'a str,
}

/// A command line.
pub enum Command {
    Empty,
    Status,
    Pins(Seq<char>),
    Profile(Seq<char>),
    Buttons(Seq<char>),
    Brightness(Seq<char>),
    Cap,
    Telem,
    GetRace,
    SetRace(Seq<char>),
    GetUi,
    SetUi(Seq<char>),
    /// The data of a car, by either of its two commands.
    Car(Seq<char>),
    CarModel(Seq<char>),
    Ota(Seq<char>),
    Stats,
    Unknown,
    Frame,
}

/// A line starts with a prefix.
pub open spec fn starts(line: Seq<char>, p: Seq<char>) -> bool {
    after_prefix(line, p) is Some
}

/// What follows a prefix.
pub open spec fn after(line: Seq<char>, p: Seq<char>) -> Seq<char> {
    match after_prefix(line, p) {
        Some(rest) => rest,
        None => Seq::empty(),
    }
}

/// The command of a line. Where one command starts with the name of another, the
/// longer name goes first.
pub open spec fn command_of(line: Seq<char>) -> Command {
    if line.len() == 0 {
        Command::Empty
    } else if line == "?"@ {
        Command::Status
    } else if starts(line, "@PINS"@) {
        Command::Pins(after(line, "@PINS"@))
    } else if starts(line, "@P"@) {
        Command::Profile(after(line, "@P"@))
    } else if starts(line, "@BS"@) {
        Command::Buttons(after(line, "@BS"@))
    } else if starts(line, "@B"@) {
        Command::Brightness(after(line, "@B"@))
    } else if starts(line, "@CAP"@) {
        Command::Cap
    } else if line == "@T"@ {
        Command::Telem
    } else if starts(line, "@RG"@) {
        Command::GetRace
    } else if starts(line, "@RS"@) {
        Command::SetRace(after(line, "@RS"@))
    } else if starts(line, "@UG"@) {
        Command::GetUi
    } else if starts(line, "@UI"@) {
        Command::SetUi(after(line, "@UI"@))
    } else if starts(line, "@SL"@) {
        Command::Car(after(line, "@SL"@))
    } else if starts(line, "@CM"@) {
        Command::CarModel(after(line, "@CM"@))
    } else if starts(line, "@C"@) {
        Command::Car(after(line, "@C"@))
    } else if starts(line, "@OTA"@) {
        Command::Ota(after(line, "@OTA"@))
    } else if starts(line, "@S"@) {
        Command::Stats
    } else if starts(line, "@"@) {
        Command::Unknown
    } else {
        Command::Frame
    }
}

/// A number behind a command; 0 where it is none.
pub open spec fn number_of(rest: Seq<char>) -> int {
    match int_of(trim(rest), i32::MIN as int, i32::MAX as int) {
        Some(n) => n,
        None => 0,
    }
}

/// The answer to a push that was taken, or refused.
pub open spec fn answer(ok: bool) -> Seq<char> {
    if ok {
        "OK\n"@
    } else {
        "ERR\n"@
    }
}

/// The answer that hands a layout back; an empty object where there is none.
pub open spec fn echo(json: Seq<char>) -> Seq<char> {
    "OK "@ + (if json.len() == 0 {
        "{}"@
    } else {
        json
    }) + "\n"@
}

/// The status answer. The car's name stands last.
pub open spec fn status_text(d: DashView, heap: u32) -> Seq<char> {
    let t = d.telem;
    let whole = tdiv(t.fuel_dl as int, 10);
    "esp-simhub | g="@ + seq![t.gear as char] + " s="@ + int_text(t.speed_kmh as int) + " r="@
        + int_text(t.rpm as int) + "/"@ + int_text(t.max_rpm as int) + " fuel="@ + int_text(whole)
        + "."@ + dec_text(abs(t.fuel_dl - 10 * whole) as nat) + " delta="@ + int_text(
        t.delta_ms as int,
    ) + " bright="@ + dec_text(d.state.brightness as nat) + " heap="@ + dec_text(heap as nat)
        + " car="@ + d.state.car_model + "\n"@
}

/// The first `n` fields, each behind a semicolon.
pub open spec fn field_list(t: Telemetry, n: nat) -> Seq<char>
    decreases n,
{
    if n == 0 {
        Seq::empty()
    } else {
        field_list(t, (n - 1) as nat) + seq![';'] + int_text(t.value(n as int) as int)
    }
}

/// The telemetry answer: the gear, then every field.
pub open spec fn telem_text(t: Telemetry) -> Seq<char> {
    seq![t.gear as char] + field_list(t, (FIELD_COUNT - 1) as nat) + "\n"@
}

/// The data of a car is loaded where it can be read, and only then stored.
pub open spec fn with_car(d: DashView, json: Seq<char>) -> (DashView, bool) {
    let ok = clears(json) || pushed_car(json) is Some;
    if ok {
        (
            DashView {
                car: if clears(json) {
                    None
                } else {
                    pushed_car(json)
                },
                state: carred(d.state, json).0,
                ..d
            },
            true,
        )
    } else {
        (d, false)
    }
}

/// A telemetry frame is counted; it is taken over unless the bench simulation runs.
pub open spec fn with_frame(d: DashView, line: Seq<char>, t: Telemetry) -> DashView {
    if frame_of(line) is Some {
        DashView {
            telem: if d.state.sim_on {
                d.telem
            } else {
                t
            },
            state: StateView { frames_ok: (d.state.frames_ok + 1) as u32, ..d.state },
            ..d
        }
    } else {
        DashView {
            state: StateView { frames_bad: (d.state.frames_bad + 1) as u32, ..d.state },
            ..d
        }
    }
}

/// The telemetry after a frame: what the frame says, unless it cannot be read or the
/// bench simulation runs.
pub open spec fn telem_after(d: DashView, line: Seq<char>, t: Telemetry) -> bool {
    match frame_of(line) {
        Some((gear, v)) if !d.state.sim_on => t.gear == gear && t.frame_values() == v
            && t.rest_is_zero(),
        _ => t == d.telem,
    }
}

/// What a command that is no frame leads to.
pub open spec fn commanded(d: DashView, line: Seq<char>, b: Board) -> (DashView, StepView) {
    match command_of(line) {
        Command::Empty => (d, StepView::Nothing),
        Command::Status => (d, StepView::Reply(status_text(d, b.heap))),
        Command::Pins(json) => {
            let (state, ok) = pinned(d.state, json);
            (DashView { state, ..d }, StepView::Reply(answer(ok)))
        },
        Command::Profile(json) => {
            let (state, ok) = profiled(d.state, json);
            (DashView { state, ..d }, StepView::Reply(answer(ok)))
        },
        Command::Buttons(json) => {
            let (state, ok) = buttoned(d.state, json);
            (DashView { state, ..d }, StepView::Reply(answer(ok)))
        },
        Command::Brightness(rest) => (
            DashView { state: lit(d.state, number_of(rest)), ..d },
            StepView::Reply("OK\n"@),
        ),
        Command::Cap => (d, StepView::Reply(cap_text(d.state, b.board@, b.serial@))),
        Command::Telem => (d, StepView::Reply(telem_text(d.telem))),
        Command::GetRace => (d, StepView::Reply(echo(d.state.race_json))),
        Command::SetRace(json) => {
            let (state, ok) = raced(d.state, json);
            (DashView { state, ..d }, StepView::Reply(answer(ok)))
        },
        Command::GetUi => (d, StepView::Reply(echo(d.state.ui_json))),
        Command::SetUi(json) => (d, StepView::ReadUi(json)),
        Command::Car(json) => {
            let (e, ok) = with_car(d, json);
            (e, StepView::Reply(answer(ok)))
        },
        Command::CarModel(name) => (
            DashView { state: StateView { car_model: name, ..d.state }, ..d },
            StepView::Reply("OK\n"@),
        ),
        Command::Ota(rest) => (d, StepView::Ota(number_of(rest))),
        Command::Stats => (
            DashView { state: StateView { frames_ok: 0, frames_bad: 0, ..d.state }, ..d },
            StepView::Reply(
                "ok="@ + dec_text(d.state.frames_ok as nat) + " bad="@ + dec_text(
                    d.state.frames_bad as nat,
                ) + "\n"@,
            ),
        ),
        Command::Unknown => (d, StepView::Reply("OK\n"@)),
        Command::Frame => (d, StepView::Nothing),
    }
}

/// A command line as it is read.
enum Read<'a> {
    Empty,
    Status,
    Pins(&'a [char]),
    Profile(&'a [char]),
    Buttons(&'a [char]),
    Brightness(&'a [char]),
    Cap,
    Telem,
    GetRace,
    SetRace(&'a [char]),
    GetUi,
    SetUi(&'a [char]),
    Car(&'a [char]),
    CarModel(&'a [char]),
    Ota(&'a [char]),
    Stats,
    Unknown,
    Frame,
}

impl<'a> View for Read<'a> {
    type V = Command;

    closed spec fn view(&self) -> Command {
        match *self {
            Read::Empty => Command::Empty,
            Read::Status => Command::Status,
            Read::Pins(r) => Command::Pins(r@),
            Read::Profile(r) => Command::Profile(r@),
            Read::Buttons(r) => Command::Buttons(r@),
            Read::Brightness(r) => Command::Brightness(r@),
            Read::Cap => Command::Cap,
            Read::Telem => Command::Telem,
            Read::GetRace => Command::GetRace,
            Read::SetRace(r) => Command::SetRace(r@),
            Read::GetUi => Command::GetUi,
            Read::SetUi(r) => Command::SetUi(r@),
            Read::Car(r) => Command::Car(r@),
            Read::CarModel(r) => Command::CarModel(r@),
            Read::Ota(r) => Command::Ota(r@),
            Read::Stats => Command::Stats,
            Read::Unknown => Command::Unknown,
            Read::Frame => Command::Frame,
        }
    }
}

/// Reads which command a line is.
fn read_command<'a>(line: &'a [char]) -> (r: Read<'a>)
    ensures
        r@ == command_of(line@),
{
    if line.len() == 0 {
        return Read::Empty;
    }
    if same(line, "?") {
        return Read::Status;
    }
    if let Some(rest) = strip_prefix(line, "@PINS") {
        return Read::Pins(rest);
    }
    if let Some(rest) = strip_prefix(line, "@P") {
        return Read::Profile(rest);
    }
    if let Some(rest) = strip_prefix(line, "@BS") {
        return Read::Buttons(rest);
    }
    if let Some(rest) = strip_prefix(line, "@B") {
        return Read::Brightness(rest);
    }
    if strip_prefix(line, "@CAP").is_some() {
        return Read::Cap;
    }
    if same(line, "@T") {
        return Read::Telem;
    }
    if strip_prefix(line, "@RG").is_some() {
        return Read::GetRace;
    }
    if let Some(rest) = strip_prefix(line, "@RS") {
        return Read::SetRace(rest);
    }
    if strip_prefix(line, "@UG").is_some() {
        return Read::GetUi;
    }
    if let Some(rest) = strip_prefix(line, "@UI") {
        return Read::SetUi(rest);
    }
    if let Some(rest) = strip_prefix(line, "@SL") {
        return Read::Car(rest);
    }
    if let Some(rest) = strip_prefix(line, "@CM") {
        return Read::CarModel(rest);
    }
    if let Some(rest) = strip_prefix(line, "@C") {
        return Read::Car(rest);
    }
    if let Some(rest) = strip_prefix(line, "@OTA") {
        return Read::Ota(rest);
    }
    if strip_prefix(line, "@S").is_some() {
        return Read::Stats;
    }
    if strip_prefix(line, "@").is_some() {
        return Read::Unknown;
    }
    Read::Frame
}

/// A number behind a command.
fn read_number(rest: &[char]) -> (r: i32)
    ensures
        r == number_of(rest@),
{
    match parse_int(trimmed(rest), -2_147_483_648, 2_147_483_647) {
        Some(n) => n as i32,
        None => 0,
    }
}

fn answer_of(ok: bool) -> (r: Step)
    ensures
        r@ == StepView::Reply(answer(ok)),
{
    Step::Reply(
        String::from_str(
            if ok {
                "OK\n"
            } else {
                "ERR\n"
            },
        ),
    )
}

fn okay() -> (r: Step)
    ensures
        r@ == StepView::Reply("OK\n"@),
{
    Step::Reply(String::from_str("OK\n"))
}

fn echo_of(json: &str) -> (r: Step)
    ensures
        r@ == StepView::Reply(echo(json@)),
{
    proof {
        reveal_strlit("");
        assert(json@.len() == 0 ==> json@ =~= ""@);
    }
    let mut s = String::from_str("OK ");
    if crate::text::same_str(json, "") {
        s.append("{}");
    } else {
        s.append(json);
    }
    s.append("\n");
    Step::Reply(s)
}

impl Dash {
    /// The loaded car is within its bounds.
    pub open spec fn wf(self) -> bool {
        self.car.wf()
    }

    /// The line can be run: a telemetry frame has numbers of 32 bits, and its counter
    /// has room.
    pub open spec fn runs(self, line: Seq<char>) -> bool {
        command_of(line) is Frame ==> numbers_fit(line) && (if frame_of(line) is Some {
            self.state.frames_ok < u32::MAX
        } else {
            self.state.frames_bad < u32::MAX
        })
    }

    /// Whether a line can be run.
    pub fn can_run(&self, line: &str) -> (r: bool)
        ensures
            r ==> self.runs(line@),
            !r ==> command_of(line@) is Frame && (!numbers_fit(line@) || self.state.frames_ok
                == u32::MAX || self.state.frames_bad == u32::MAX),
    {
        let c = chars_of(line);
        match read_command(c.as_slice()) {
            Read::Frame => frame_fits(line) && self.state.frames_ok < u32::MAX && self.state.frames_bad
                < u32::MAX,
            _ => true,
        }
    }

    /// The status answer.
    pub fn status_line(&self, heap: u32) -> (s: String)
        ensures
            s@ == status_text(self@, heap),
    {
        let t = &self.telem;
        let mut s = String::from_str("esp-simhub | g=");
        s.push(t.gear as char);
        s.append(" s=");
        push_int(&mut s, t.speed_kmh as i64);
        s.append(" r=");
        push_int(&mut s, t.rpm as i64);
        s.append("/");
        push_int(&mut s, t.max_rpm as i64);
        s.append(" fuel=");
        push_int(&mut s, (t.fuel_dl / 10) as i64);
        s.append(".");
        let rem: i32 = t.fuel_dl % 10;
        push_dec(
            &mut s,
            if rem < 0 {
                (-rem) as u64
            } else {
                rem as u64
            },
        );
        s.append(" delta=");
        push_int(&mut s, t.delta_ms as i64);
        s.append(" bright=");
        push_dec(&mut s, self.state.brightness as u64);
        s.append(" heap=");
        push_dec(&mut s, heap as u64);
        s.append(" car=");
        s.append(self.state.car_model.as_str());
        s.append("\n");
        proof {
            let g = "esp-simhub | g="@;
            assert(g.push(t.gear as char) =~= g + seq![t.gear as char]);
        }
        s
    }

    /// The telemetry answer.
    pub fn telem_reply(&self) -> (s: String)
        ensures
            s@ == telem_text(self.telem),
    {
        let t = &self.telem;
        let mut s = String::new();
        s.push(t.gear as char);
        let mut id: usize = 1;
        let ghost head = seq![t.gear as char];
        proof {
            assert(s@ =~= head + field_list(*t, 0));
        }
        while id < FIELD_COUNT
            invariant
                1 <= id <= FIELD_COUNT,
                *t == self.telem,
                head == seq![t.gear as char],
                s@ == head + field_list(*t, (id - 1) as nat),
            decreases FIELD_COUNT - id,
        {
            let ghost before = s@;
            s.push(';');
            push_int(&mut s, t.get(id) as i64);
            proof {
                assert(s@ =~= head + field_list(*t, id as nat));
            }
            id += 1;
        }
        s.append("\n");
        s
    }

    /// Runs a line.
    pub fn dispatch(&mut self, line: &str, b: &Board) -> (r: Step)
        requires
            old(self).wf(),
            old(self).runs(line@),
        ensures
            final(self).wf(),
            command_of(line@) is Frame ==> r@ == StepView::Nothing && telem_after(
                old(self)@,
                line@,
                final(self).telem,
            ) && final(self)@ == with_frame(old(self)@, line@, final(self).telem),
            !(command_of(line@) is Frame) ==> (final(self)@, r@) == commanded(
                old(self)@,
                line@,
                *b,
            ),
    {
        let c = chars_of(line);
        match read_command(c.as_slice()) {
            Read::Empty => Step::Nothing,
            Read::Status => Step::Reply(self.status_line(b.heap)),
            Read::Pins(rest) => {
                let json = string_of(rest);
                answer_of(self.state.apply_pins(json.as_str()))
            },
            Read::Profile(rest) => {
                let json = string_of(rest);
                answer_of(self.state.apply_profile(json.as_str()))
            },
            Read::Buttons(rest) => {
                let json = string_of(rest);
                answer_of(self.state.apply_buttons(json.as_str()))
            },
            Read::Brightness(rest) => {
                self.state.set_brightness(read_number(rest));
                okay()
            },
            Read::Cap => Step::Reply(self.state.cap_json(b.board, b.serial)),
            Read::Telem => Step::Reply(self.telem_reply()),
            Read::GetRace => echo_of(self.state.race_json.as_str()),
            Read::SetRace(rest) => {
                let json = string_of(rest);
                answer_of(self.state.apply_race(json.as_str()))
            },
            Read::GetUi => echo_of(self.state.ui_json.as_str()),
            Read::SetUi(rest) => Step::ReadUi(string_of(rest)),
            Read::Car(rest) => {
                let json = string_of(rest);
                let ok = self.car.apply_car_json(json.as_str());
                if ok {
                    self.state.apply_car(json.as_str());
                }
                answer_of(ok)
            },
            Read::CarModel(rest) => {
                let name = string_of(rest);
                self.state.set_car_model(name.as_str());
                okay()
            },
            Read::Ota(rest) => Step::Ota(read_number(rest)),
            Read::Stats => {
                let mut s = String::from_str("ok=");
                push_dec(&mut s, self.state.frames_ok as u64);
                s.append(" bad=");
                push_dec(&mut s, self.state.frames_bad as u64);
                s.append("\n");
                self.state.frames_ok = 0;
                self.state.frames_bad = 0;
                Step::Reply(s)
            },
            Read::Unknown => okay(),
            Read::Frame => {
                match parse_line(line) {
                    Some(t) => {
                        if !self.state.sim_on {
                            self.telem = t;
                        }
                        self.state.frames_ok = self.state.frames_ok + 1;
                    },
                    None => {
                        self.state.frames_bad = self.state.frames_bad + 1;
                    },
                }
                Step::Nothing
            },
        }
    }

    /// A screen layout has been read, or could not be: takes it, and says the answer.
    pub fn ui_read(&mut self, json: &str, parsed: bool) -> (r: Step)
        requires
            old(self).wf(),
        ensures
            final(self).wf(),
            r@ == StepView::Reply(answer(parsed)),
            final(self)@ == (DashView {
                state: shown(old(self)@.state, json@, parsed),
                ..old(self)@
            }),
    {
        answer_of(self.state.apply_ui(json, parsed))
    }
}

// ----------------------------------------------------------------------- laws

/// A layout that was taken is handed back as it was pushed.
pub proof fn race_layout_is_handed_back(d: DashView, json: Seq<char>, b: Board)
    requires
        json.len() > 0,
        crate::json::json_read(json) is Some,
    ensures
        ({
            let (e, r) = commanded(d, "@RS"@ + json, b);
            &&& r == StepView::Reply("OK\n"@)
            &&& commanded(e, "@RG"@, b) == (e, StepView::Reply("OK "@ + json + "\n"@))
        }),
{
    lemma_prefixes();
    let line = "@RS"@ + json;
    lemma_after_prefix("@RS"@, json);
    assert(line[0] == '@' && line[1] == 'R' && line[2] == 'S');
    lemma_not_before(line);
    assert(command_of(line) == Command::SetRace(json));
    let get = "@RG"@;
    assert(get[0] == '@' && get[1] == 'R' && get[2] == 'G');
    lemma_not_before(get);
    assert(after_prefix(get, "@RG"@) is Some) by {
        assert(get =~= "@RG"@ + Seq::<char>::empty());
        lemma_after_prefix("@RG"@, Seq::<char>::empty());
    }
    assert(command_of(get) == Command::GetRace);
}

/// What the prefixes look like.
proof fn lemma_prefixes()
    ensures
        "?"@ =~= seq!['?'],
        "@PINS"@ =~= seq!['@', 'P', 'I', 'N', 'S'],
        "@P"@ =~= seq!['@', 'P'],
        "@BS"@ =~= seq!['@', 'B', 'S'],
        "@B"@ =~= seq!['@', 'B'],
        "@CAP"@ =~= seq!['@', 'C', 'A', 'P'],
        "@T"@ =~= seq!['@', 'T'],
        "@RG"@ =~= seq!['@', 'R', 'G'],
        "@RS"@ =~= seq!['@', 'R', 'S'],
{
    reveal_strlit("?");
    reveal_strlit("@PINS");
    reveal_strlit("@P");
    reveal_strlit("@BS");
    reveal_strlit("@B");
    reveal_strlit("@CAP");
    reveal_strlit("@T");
    reveal_strlit("@RG");
    reveal_strlit("@RS");
}

/// A line that starts with `@R` is none of the commands before those.
proof fn lemma_not_before(line: Seq<char>)
    requires
        line.len() >= 3,
        line[0] == '@',
        line[1] == 'R',
    ensures
        line != "?"@,
        line != "@T"@,
        !starts(line, "@PINS"@),
        !starts(line, "@P"@),
        !starts(line, "@BS"@),
        !starts(line, "@B"@),
        !starts(line, "@CAP"@),
        line[2] == 'S' ==> !starts(line, "@RG"@),
{
    lemma_prefixes();
    assert("@PINS"@[1] == 'P');
    assert("@P"@[1] == 'P');
    assert("@BS"@[1] == 'B');
    assert("@B"@[1] == 'B');
    assert("@CAP"@[1] == 'C');
    assert("@RG"@[2] == 'G');
    lemma_differs(line, "@PINS"@, 1);
    lemma_differs(line, "@P"@, 1);
    lemma_differs(line, "@BS"@, 1);
    lemma_differs(line, "@B"@, 1);
    lemma_differs(line, "@CAP"@, 1);
    if line[2] == 'S' {
        lemma_differs(line, "@RG"@, 2);
    }
}

/// A line that differs from a prefix in one place does not start with it.
proof fn lemma_differs(line: Seq<char>, p: Seq<char>, k: int)
    requires
        0 <= k < p.len(),
        k < line.len(),
        line[k] != p[k],
    ensures
        !starts(line, p),
{
    if line.len() >= p.len() {
        assert(line.take(p.len() as int)[k] == line[k]);
    }
}

/// While the bench simulation runs, no line changes the telemetry.
pub proof fn simulation_is_not_overruled(d: DashView, line: Seq<char>, b: Board, t: Telemetry)
    requires
        d.state.sim_on,
    ensures
        commanded(d, line, b).0.telem == d.telem,
        with_frame(d, line, t).telem == d.telem,
{
}

/// A push that is refused changes nothing at all.
pub proof fn refused_pushes_change_nothing(d: DashView, line: Seq<char>, b: Board)
    requires
        commanded(d, line, b).1 == StepView::Reply("ERR\n"@),
        command_of(line) is Pins || command_of(line) is Profile || command_of(line) is Buttons
            || command_of(line) is SetRace || command_of(line) is Car,
    ensures
        commanded(d, line, b).0 == d,
{
    reveal_strlit("OK\n");
    reveal_strlit("ERR\n");
    assert("OK\n"@[0] == 'O');
    assert("ERR\n"@[0] == 'E');
}

/// Asking for the counts starts them over, and tells what was counted.
pub proof fn counts_start_over(d: DashView, line: Seq<char>, b: Board)
    requires
        command_of(line) is Stats,
    ensures
        commanded(d, line, b).0.state.frames_ok == 0,
        commanded(d, line, b).0.state.frames_bad == 0,
        commanded(d, line, b).1 == StepView::Reply(
            "ok="@ + dec_text(d.state.frames_ok as nat) + " bad="@ + dec_text(
                d.state.frames_bad as nat,
            ) + "\n"@,
        ),
{
}

/// A line starts with a prefix exactly where it is that long and has its characters.
proof fn lemma_starts(line: Seq<char>, p: Seq<char>)
    ensures
        starts(line, p) <==> p.len() <= line.len() && forall|i: int|
            0 <= i < p.len() ==> #[trigger] line[i] == p[i],
        starts(line, p) ==> after(line, p) == line.skip(p.len() as int),
{
    if p.len() <= line.len() {
        let head = line.subrange(0, p.len() as int);
        if forall|i: int| 0 <= i < p.len() ==> #[trigger] line[i] == p[i] {
            assert(head =~= p);
        }
        if starts(line, p) {
            assert forall|i: int| 0 <= i < p.len() implies #[trigger] line[i] == p[i] by {
                assert(head[i] == line[i]);
            }
        }
    }
}

/// Which names a line starts with, by its characters.
proof fn lemma_which(line: Seq<char>)
    ensures
        starts(line, "@PINS"@) <==> line.len() >= 5 && line[0] == '@' && line[1] == 'P' && line[2] == 'I' && line[3] == 'N' && line[4] == 'S',
        starts(line, "@P"@) <==> line.len() >= 2 && line[0] == '@' && line[1] == 'P',
        starts(line, "@BS"@) <==> line.len() >= 3 && line[0] == '@' && line[1] == 'B' && line[2] == 'S',
        starts(line, "@B"@) <==> line.len() >= 2 && line[0] == '@' && line[1] == 'B',
        starts(line, "@CAP"@) <==> line.len() >= 4 && line[0] == '@' && line[1] == 'C' && line[2] == 'A' && line[3] == 'P',
        starts(line, "@RG"@) <==> line.len() >= 3 && line[0] == '@' && line[1] == 'R' && line[2] == 'G',
        starts(line, "@RS"@) <==> line.len() >= 3 && line[0] == '@' && line[1] == 'R' && line[2] == 'S',
        starts(line, "@UG"@) <==> line.len() >= 3 && line[0] == '@' && line[1] == 'U' && line[2] == 'G',
        starts(line, "@UI"@) <==> line.len() >= 3 && line[0] == '@' && line[1] == 'U' && line[2] == 'I',
        starts(line, "@SL"@) <==> line.len() >= 3 && line[0] == '@' && line[1] == 'S' && line[2] == 'L',
        starts(line, "@CM"@) <==> line.len() >= 3 && line[0] == '@' && line[1] == 'C' && line[2] == 'M',
        starts(line, "@C"@) <==> line.len() >= 2 && line[0] == '@' && line[1] == 'C',
        starts(line, "@OTA"@) <==> line.len() >= 4 && line[0] == '@' && line[1] == 'O' && line[2] == 'T' && line[3] == 'A',
        starts(line, "@S"@) <==> line.len() >= 2 && line[0] == '@' && line[1] == 'S',
        starts(line, "@"@) <==> line.len() >= 1 && line[0] == '@',
        line == "?"@ ==> line.len() == 1 && line[0] == '?',
        line == "@T"@ ==> line.len() == 2 && line[1] == 'T',
{
    reveal_strlit("@PINS");
    reveal_strlit("@P");
    reveal_strlit("@BS");
    reveal_strlit("@B");
    reveal_strlit("@CAP");
    reveal_strlit("@RG");
    reveal_strlit("@RS");
    reveal_strlit("@UG");
    reveal_strlit("@UI");
    reveal_strlit("@SL");
    reveal_strlit("@CM");
    reveal_strlit("@C");
    reveal_strlit("@OTA");
    reveal_strlit("@S");
    reveal_strlit("@");
    reveal_strlit("?");
    reveal_strlit("@T");
    lemma_starts(line, "@PINS"@);
    lemma_starts(line, "@P"@);
    lemma_starts(line, "@BS"@);
    lemma_starts(line, "@B"@);
    lemma_starts(line, "@CAP"@);
    lemma_starts(line, "@RG"@);
    lemma_starts(line, "@RS"@);
    lemma_starts(line, "@UG"@);
    lemma_starts(line, "@UI"@);
    lemma_starts(line, "@SL"@);
    lemma_starts(line, "@CM"@);
    lemma_starts(line, "@C"@);
    lemma_starts(line, "@OTA"@);
    lemma_starts(line, "@S"@);
    lemma_starts(line, "@"@);
}

proof fn lemma_rest(p: Seq<char>, rest: Seq<char>)
    ensures
        (p + rest).len() == p.len() + rest.len(),
        forall|i: int| 0 <= i < rest.len() ==> #[trigger] (p + rest)[p.len() + i] == rest[i],
        rest.len() > 0 ==> (p + rest)[p.len() as int] == rest[0],
        rest.len() > 1 ==> (p + rest)[p.len() as int + 1] == rest[1],
        rest.len() > 2 ==> (p + rest)[p.len() as int + 2] == rest[2],
{
}

/// Pins, button pages and the race layout have commands of their own; what follows
/// the name is the push.
pub proof fn layout_commands_are_told_apart(rest: Seq<char>)
    ensures
        command_of("@PINS"@ + rest) == Command::Pins(rest),
        command_of("@BS"@ + rest) == Command::Buttons(rest),
        command_of("@RG"@ + rest) == Command::GetRace,
        command_of("@RS"@ + rest) == Command::SetRace(rest),
{
    assert(command_of("@PINS"@ + rest) == Command::Pins(rest)) by {
        reveal_strlit("@PINS");
        lemma_which("@PINS"@ + rest);
        lemma_after_prefix("@PINS"@, rest);
        assert(("@PINS"@ + rest)[0] == '@');
        assert(("@PINS"@ + rest)[1] == 'P');
        assert(("@PINS"@ + rest)[2] == 'I');
        assert(("@PINS"@ + rest)[3] == 'N');
        assert(("@PINS"@ + rest)[4] == 'S');
        lemma_rest("@PINS"@, rest);
    }
    assert(command_of("@BS"@ + rest) == Command::Buttons(rest)) by {
        reveal_strlit("@BS");
        lemma_which("@BS"@ + rest);
        lemma_after_prefix("@BS"@, rest);
        assert(("@BS"@ + rest)[0] == '@');
        assert(("@BS"@ + rest)[1] == 'B');
        assert(("@BS"@ + rest)[2] == 'S');
        lemma_rest("@BS"@, rest);
    }
    assert(command_of("@RG"@ + rest) == Command::GetRace) by {
        reveal_strlit("@RG");
        lemma_which("@RG"@ + rest);
        lemma_after_prefix("@RG"@, rest);
        assert(("@RG"@ + rest)[0] == '@');
        assert(("@RG"@ + rest)[1] == 'R');
        assert(("@RG"@ + rest)[2] == 'G');
        lemma_rest("@RG"@, rest);
    }
    assert(command_of("@RS"@ + rest) == Command::SetRace(rest)) by {
        reveal_strlit("@RS");
        lemma_which("@RS"@ + rest);
        lemma_after_prefix("@RS"@, rest);
        assert(("@RS"@ + rest)[0] == '@');
        assert(("@RS"@ + rest)[1] == 'R');
        assert(("@RS"@ + rest)[2] == 'S');
        lemma_rest("@RS"@, rest);
    }
}

/// The screen layout, the data and the name of a car, an update and the capability
/// reply have commands of their own; what follows the name is the push.
pub proof fn screen_and_car_commands_are_told_apart(rest: Seq<char>)
    ensures
        command_of("@UG"@ + rest) == Command::GetUi,
        command_of("@UI"@ + rest) == Command::SetUi(rest),
        command_of("@SL"@ + rest) == Command::Car(rest),
        command_of("@CM"@ + rest) == Command::CarModel(rest),
        command_of("@OTA"@ + rest) == Command::Ota(rest),
        command_of("@CAP"@ + rest) == Command::Cap,
{
    assert(command_of("@UG"@ + rest) == Command::GetUi) by {
        reveal_strlit("@UG");
        lemma_which("@UG"@ + rest);
        lemma_after_prefix("@UG"@, rest);
        assert(("@UG"@ + rest)[0] == '@');
        assert(("@UG"@ + rest)[1] == 'U');
        assert(("@UG"@ + rest)[2] == 'G');
        lemma_rest("@UG"@, rest);
    }
    assert(command_of("@UI"@ + rest) == Command::SetUi(rest)) by {
        reveal_strlit("@UI");
        lemma_which("@UI"@ + rest);
        lemma_after_prefix("@UI"@, rest);
        assert(("@UI"@ + rest)[0] == '@');
        assert(("@UI"@ + rest)[1] == 'U');
        assert(("@UI"@ + rest)[2] == 'I');
        lemma_rest("@UI"@, rest);
    }
    assert(command_of("@SL"@ + rest) == Command::Car(rest)) by {
        reveal_strlit("@SL");
        lemma_which("@SL"@ + rest);
        lemma_after_prefix("@SL"@, rest);
        assert(("@SL"@ + rest)[0] == '@');
        assert(("@SL"@ + rest)[1] == 'S');
        assert(("@SL"@ + rest)[2] == 'L');
        lemma_rest("@SL"@, rest);
    }
    assert(command_of("@CM"@ + rest) == Command::CarModel(rest)) by {
        reveal_strlit("@CM");
        lemma_which("@CM"@ + rest);
        lemma_after_prefix("@CM"@, rest);
        assert(("@CM"@ + rest)[0] == '@');
        assert(("@CM"@ + rest)[1] == 'C');
        assert(("@CM"@ + rest)[2] == 'M');
        lemma_rest("@CM"@, rest);
    }
    assert(command_of("@OTA"@ + rest) == Command::Ota(rest)) by {
        reveal_strlit("@OTA");
        lemma_which("@OTA"@ + rest);
        lemma_after_prefix("@OTA"@, rest);
        assert(("@OTA"@ + rest)[0] == '@');
        assert(("@OTA"@ + rest)[1] == 'O');
        assert(("@OTA"@ + rest)[2] == 'T');
        assert(("@OTA"@ + rest)[3] == 'A');
        lemma_rest("@OTA"@, rest);
    }
    assert(command_of("@CAP"@ + rest) == Command::Cap) by {
        reveal_strlit("@CAP");
        lemma_which("@CAP"@ + rest);
        lemma_after_prefix("@CAP"@, rest);
        assert(("@CAP"@ + rest)[0] == '@');
        assert(("@CAP"@ + rest)[1] == 'C');
        assert(("@CAP"@ + rest)[2] == 'A');
        assert(("@CAP"@ + rest)[3] == 'P');
        lemma_rest("@CAP"@, rest);
    }
}

/// A command whose name begins another's is meant wherever the longer name does not
/// stand: a profile, the brightness, the data of a car and the counts.
pub proof fn short_commands_give_way(rest: Seq<char>)
    ensures
        !(rest.len() >= 3 && rest[0] == 'I' && rest[1] == 'N' && rest[2] == 'S') ==> command_of(
            "@P"@ + rest,
        ) == Command::Profile(rest),
        !(rest.len() >= 1 && rest[0] == 'S') ==> command_of("@B"@ + rest) == Command::Brightness(
            rest,
        ),
        !(rest.len() >= 2 && rest[0] == 'A' && rest[1] == 'P') && !(rest.len() >= 1 && rest[0]
            == 'M') ==> command_of("@C"@ + rest) == Command::Car(rest),
        !(rest.len() >= 1 && rest[0] == 'L') ==> command_of("@S"@ + rest) == Command::Stats,
{
    assert(!(rest.len() >= 3 && rest[0] == 'I' && rest[1] == 'N' && rest[2] == 'S') ==> command_of("@P"@ + rest) == Command::Profile(rest)) by {
        reveal_strlit("@P");
        lemma_which("@P"@ + rest);
        lemma_after_prefix("@P"@, rest);
        assert(("@P"@ + rest)[0] == '@');
        assert(("@P"@ + rest)[1] == 'P');
        lemma_rest("@P"@, rest);
    }
    assert(!(rest.len() >= 1 && rest[0] == 'S') ==> command_of("@B"@ + rest) == Command::Brightness(rest)) by {
        reveal_strlit("@B");
        lemma_which("@B"@ + rest);
        lemma_after_prefix("@B"@, rest);
        assert(("@B"@ + rest)[0] == '@');
        assert(("@B"@ + rest)[1] == 'B');
        lemma_rest("@B"@, rest);
    }
    assert(!(rest.len() >= 2 && rest[0] == 'A' && rest[1] == 'P') && !(rest.len() >= 1 && rest[0] == 'M') ==> command_of("@C"@ + rest) == Command::Car(rest)) by {
        reveal_strlit("@C");
        lemma_which("@C"@ + rest);
        lemma_after_prefix("@C"@, rest);
        assert(("@C"@ + rest)[0] == '@');
        assert(("@C"@ + rest)[1] == 'C');
        lemma_rest("@C"@, rest);
    }
    assert(!(rest.len() >= 1 && rest[0] == 'L') ==> command_of("@S"@ + rest) == Command::Stats) by {
        reveal_strlit("@S");
        lemma_which("@S"@ + rest);
        lemma_after_prefix("@S"@, rest);
        assert(("@S"@ + rest)[0] == '@');
        assert(("@S"@ + rest)[1] == 'S');
        lemma_rest("@S"@, rest);
    }
}

/// A line that neither starts with `@` nor is the status question is telemetry.
pub proof fn other_lines_are_telemetry(line: Seq<char>)
    requires
        line.len() > 0,
        line[0] != '@',
        line[0] != '?',
    ensures
        command_of(line) == Command::Frame,
        command_of("?"@) == Command::Status,
        command_of("@T"@) == Command::Telem,
        command_of(Seq::empty()) == Command::Empty,
{
    lemma_prefixes();
    lemma_which(line);
    lemma_which("@T"@);
    reveal_strlit("?");
    reveal_strlit("@T");
    assert("?"@[0] == '?' && "@T"@[1] == 'T' && "@T"@.len() == 2);
}

/// A brightness that is sent as a number is the one that is kept, within 0 to 100
/// percent, and blanks around it make no difference; anything else counts as 0.
pub proof fn brightness_is_set_as_sent(d: DashView, n: int, b: Board)
    requires
        i32::MIN <= n <= i32::MAX,
    ensures
        ({
            let (e, r) = commanded(d, "@B"@ + int_text(n), b);
            &&& r == StepView::Reply("OK\n"@)
            &&& 0 <= n <= 100 ==> e.state.brightness == n
            &&& n < 0 ==> e.state.brightness == 0
            &&& n > 100 ==> e.state.brightness == 100
            &&& e.telem == d.telem && e.car == d.car
        }),
{
    crate::text::lemma_number_is_plain(n);
    crate::text::lemma_int_text(n, i32::MIN as int, i32::MAX as int);
    let t = int_text(n);
    crate::text::lemma_trim_none(t);
    if n < 0 {
        assert(t[0] == '-');
    } else {
        crate::text::lemma_dec_text(n as nat);
        assert(crate::text::is_digit(t[0]));
    }
    short_commands_give_way(t);
}

/// An update starts with the size that was sent, and changes nothing yet.
pub proof fn updates_start_with_their_size(d: DashView, n: int, b: Board)
    requires
        0 <= n <= i32::MAX,
    ensures
        commanded(d, "@OTA"@ + int_text(n), b) == (d, StepView::Ota(n)),
{
    crate::text::lemma_number_is_plain(n);
    crate::text::lemma_int_text(n, i32::MIN as int, i32::MAX as int);
    crate::text::lemma_trim_none(int_text(n));
    screen_and_car_commands_are_told_apart(int_text(n));
}

/// A frame that can be read counts as good and is taken over unless the bench
/// simulation runs; any other counts as bad and changes nothing else.
pub proof fn frames_are_counted(d: DashView, line: Seq<char>, t: Telemetry)
    requires
        d.state.frames_ok < u32::MAX,
        d.state.frames_bad < u32::MAX,
    ensures
        ({
            let e = with_frame(d, line, t);
            &&& frame_of(line) is Some ==> e.state.frames_ok == d.state.frames_ok + 1
                && e.state.frames_bad == d.state.frames_bad
            &&& frame_of(line) is None ==> e.state.frames_bad == d.state.frames_bad + 1
                && e.state.frames_ok == d.state.frames_ok && e.telem == d.telem
            &&& frame_of(line) is Some && !d.state.sim_on ==> e.telem == t
            &&& e.car == d.car && e.state.pins == d.state.pins && e.state.brightness
                == d.state.brightness
        }),
{
}

/// A car that can be read is loaded and stored, an empty push takes it away, and any
/// other push changes nothing.
pub proof fn cars_are_loaded(d: DashView, json: Seq<char>)
    ensures
        ({
            let (e, ok) = with_car(d, json);
            &&& clears(json) ==> ok && e.car is None
            &&& !clears(json) && pushed_car(json) is Some ==> ok && e.car == pushed_car(json)
            &&& !clears(json) && pushed_car(json) is None ==> !ok && e == d
            &&& e.telem == d.telem
            &&& e.state.race_json == d.state.race_json
        }),
{
}

/// The answer to a push says OK where it was taken and ERR where it was refused; a
/// layout is handed back behind an OK, an empty object where there is none.
pub proof fn answers_say_what_happened(json: Seq<char>)
    ensures
        answer(true) == "OK\n"@,
        answer(false) == "ERR\n"@,
        json.len() > 0 ==> echo(json) == "OK "@ + json + "\n"@,
        echo(Seq::empty()) == "OK "@ + "{}"@ + "\n"@,
{
}

/// The fuel of the status is shown in litres with one decimal: `w` litres and `f`
/// tenths as `w.f`.
pub proof fn status_shows_the_fuel(d: DashView, heap: u32, w: int, f: int)
    requires
        w >= 0,
        0 <= f < 10,
        d.telem.fuel_dl == 10 * w + f,
    ensures
        status_text(d, heap) == "esp-simhub | g="@ + seq![d.telem.gear as char] + " s="@ + int_text(
            d.telem.speed_kmh as int,
        ) + " r="@ + int_text(d.telem.rpm as int) + "/"@ + int_text(d.telem.max_rpm as int)
            + " fuel="@ + int_text(w) + "."@ + dec_text(f as nat) + " delta="@ + int_text(
            d.telem.delta_ms as int,
        ) + " bright="@ + dec_text(d.state.brightness as nat) + " heap="@ + dec_text(heap as nat)
            + " car="@ + d.state.car_model + "\n"@,
{
    assert((10 * w + f) / 10 == w);
}

/// The telemetry reply is the gear and then every field in the order of its id, a
/// separator before each: it begins as the frame of the record does behind its mark.
pub proof fn telemetry_is_told_in_order(t: Telemetry)
    ensures
        telem_text(t) == seq![t.gear as char] + crate::simhub::fields_text(
            Seq::new(93, |k: int| t.value(k + 1) as int),
        ) + "\n"@,
{
    lemma_field_list(t, 93);
}

proof fn lemma_field_list(t: Telemetry, n: nat)
    ensures
        field_list(t, n) == crate::simhub::fields_text(Seq::new(n, |k: int| t.value(k + 1) as int)),
    decreases n,
{
    let v = Seq::new(n, |k: int| t.value(k + 1) as int);
    if n > 0 {
        let m = (n - 1) as nat;
        lemma_field_list(t, m);
        assert(v.drop_last() =~= Seq::new(m, |k: int| t.value(k + 1) as int));
        assert(v.last() == t.value(n as int));
        assert(field_list(t, n) =~= crate::simhub::fields_text(v));
    } else {
        assert(v.len() == 0);
    }
}

/// A frame that can be read is what the telemetry then says, and what it does not carry
/// is 0; while the bench simulation runs, and where it cannot be read, nothing changes.
pub proof fn frames_become_the_telemetry(d: DashView, line: Seq<char>, t: Telemetry)
    requires
        telem_after(d, line, t),
    ensures
        frame_of(line) is None || d.state.sim_on ==> t == d.telem,
        frame_of(line) matches Some((gear, v)) ==> (!d.state.sim_on ==> t.gear == gear
            && t.frame_values() == v && t.rest_is_zero()),
{
}

} // verus!
