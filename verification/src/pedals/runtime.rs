//! The pedal at run time: what it reports, when its motor may be driven, and the
//! commands of its tuning channel.

use vstd::prelude::*;
use vstd::string::StringExecFns;
use crate::handbrake::calibration::{bit, bit_of};
use crate::pedals::protocol::PedalState;
use crate::text::{
    after_prefix, chars_of, dec_string, dec_text, int_of, owned_pairs, pairs_text, parse_int,
    push_pairs, same, string_of, strip_prefix, trim, trimmed, views, word_list, words,
};

verus! {

/// A command line that grows to this many bytes is dropped.
pub const LINE_MAX: usize = 4096;

/// At most this many bytes of replies wait to be read.
pub const TX_CAP: usize = 8192;

/// The run-time state beside the controller.
#[derive(Clone, Copy, Debug, PartialEq, Eq, Structural)]
pub struct Runtime {
    pub state: PedalState,
    /// The axis value of the last control step.
    pub joystick: u16,
    /// The travel is known.
    pub homed: bool,
    /// Motor output has been allowed.
    pub armed: bool,
    /// Where the soft travel begins, in absolute steps.
    pub soft_min_steps: i32,
}

/// What a command line asks for.
#[derive(Debug, PartialEq)]
pub enum Step {
    /// Answer this.
    Reply(String),
    /// Answer the configuration (see [`config_reply`]).
    SendConfig,
    /// Take a configuration (see [`taken_reply`]).
    SetConfig(String),
    /// Take a set of live effects (see [`taken_reply`]).
    SetAction(String),
    /// Allow motor output, or stop it (see [`Runtime::arm`]).
    Arm(bool),
    /// Join this network, with this password.
    Wifi(String, String),
    /// Start an update of this size; it answers by itself.
    Ota(i32),
}

/// A step as plain values.
pub enum StepView {
    Reply(Seq<char>),
    SendConfig,
    SetConfig(Seq<char>),
    SetAction(Seq<char>),
    Arm(bool),
    Wifi(Seq<char>, Seq<char>),
    Ota(int),
}

impl View for Step {
    type V = StepView;

    open spec fn view(&self) -> StepView {
        match *self {
            Step::Reply(s) => StepView::Reply(s@),
            Step::SendConfig => StepView::SendConfig,
            Step::SetConfig(s) => StepView::SetConfig(s@),
            Step::SetAction(s) => StepView::SetAction(s@),
            Step::Arm(on) => StepView::Arm(on),
            Step::Wifi(ssid, pass) => StepView::Wifi(ssid@, pass@),
            Step::Ota(n) => StepView::Ota(n as int),
        }
    }
}

/// The pairs of the status reply.
pub open spec fn status_pairs(rt: Runtime) -> Seq<(Seq<char>, Seq<char>)> {
    seq![
        ("position"@, dec_text(rt.state.position_pct_x10 as nat)),
        ("force"@, dec_text(rt.state.force_n_x10 as nat)),
        ("joy"@, dec_text(rt.joystick as nat)),
        ("err"@, dec_text(rt.state.error_code as nat)),
        ("servo"@, dec_text(bit(rt.state.servo_on) as nat)),
    ]
}

/// The status reply.
pub open spec fn status_text(rt: Runtime) -> Seq<char> {
    "OK "@ + pairs_text(status_pairs(rt)) + "\n"@
}

/// The pairs of the state that is streamed.
pub open spec fn state_pairs(rt: Runtime) -> Seq<(Seq<char>, Seq<char>)> {
    seq![
        ("position"@, dec_text(rt.state.position_pct_x10 as nat)),
        ("force"@, dec_text(rt.state.force_n_x10 as nat)),
        ("joy"@, dec_text(rt.joystick as nat)),
        ("armed"@, dec_text(bit(rt.armed) as nat)),
    ]
}

/// The capability reply.
pub open spec fn cap_text(fw: Seq<char>, serial: Seq<char>) -> Seq<char> {
    "OK board=pcba_v2.2b fw="@ + fw + " serial="@ + serial + " proto=1\n"@
}

/// The size that an update command announces; 0 where it is no number.
pub open spec fn ota_size(rest: Seq<char>) -> int {
    match int_of(trim(rest), i32::MIN as int, i32::MAX as int) {
        Some(n) => n,
        None => 0,
    }
}

/// Reads the size that an update command announces.
pub fn read_ota_size(rest: &[char]) -> (r: i32)
    ensures
        r == ota_size(rest@),
{
    match parse_int(trimmed(rest), -2_147_483_648, 2_147_483_647) {
        Some(n) => n as i32,
        None => 0,
    }
}

/// What a command line asks for. An update command is told by its start before
/// blanks are cut off; all others after.
pub open spec fn asked(rt: Runtime, line: Seq<char>, fw: Seq<char>, serial: Seq<char>) -> StepView {
    match after_prefix(line, "@OTA"@) {
        Some(rest) => StepView::Ota(ota_size(rest)),
        None => {
            let cmd = trim(line);
            if cmd == "?"@ {
                StepView::Reply(status_text(rt))
            } else if cmd == "@CAP"@ {
                StepView::Reply(cap_text(fw, serial))
            } else if cmd == "@GETCFG"@ {
                StepView::SendConfig
            } else {
                match (after_prefix(cmd, "@CFG"@), after_prefix(cmd, "@ACT"@)) {
                    (Some(json), _) => StepView::SetConfig(json),
                    (None, Some(json)) => StepView::SetAction(json),
                    (None, None) => motor_or_network(cmd),
                }
            }
        },
    }
}

/// What a line asks for that is no command of the configuration: it arms or disarms the
/// motor, or names a network and its password.
pub open spec fn motor_or_network(cmd: Seq<char>) -> StepView {
    let w = words(cmd);
    if cmd == "@ARM"@ {
        StepView::Arm(true)
    } else if cmd == "@DISARM"@ {
        StepView::Arm(false)
    } else if w.len() == 3 && w[0] == "@WIFI"@ {
        StepView::Wifi(w[1], w[2])
    } else {
        StepView::Reply("ERR unknown\n"@)
    }
}

/// Reads a line that is no command of the configuration.
fn read_motor_or_network(cmd: &[char]) -> (r: Step)
    ensures
        r@ == motor_or_network(cmd@),
{
    if same(cmd, "@ARM") {
        return Step::Arm(true);
    }
    if same(cmd, "@DISARM") {
        return Step::Arm(false);
    }
    let w = word_list(cmd);
    proof {
        assert(words(cmd@).len() == w@.len());
        assert forall|k: int| 0 <= k < w@.len() implies words(cmd@)[k] == (#[trigger] w@[k])@ by {
            assert(views(w@)[k] == w@[k]@);
        }
    }
    if w.len() == 3 && same(w[0], "@WIFI") {
        return Step::Wifi(string_of(w[1]), string_of(w[2]));
    }
    Step::Reply(String::from_str("ERR unknown\n"))
}

/// The reply with the configuration; `None` where it could not be written out.
pub fn config_reply(json: Option<&str>) -> (s: String)
    ensures
        s@ == match json {
            Some(j) => "OK"@ + j@ + "\n"@,
            None => "ERR encode\n"@,
        },
{
    match json {
        Some(j) => {
            let mut s = String::from_str("OK");
            s.append(j);
            s.append("\n");
            s
        },
        None => String::from_str("ERR encode\n"),
    }
}

/// The reply to a configuration or a set of effects that could be read, or not.
pub fn taken_reply(ok: bool) -> (s: &'static str)
    ensures
        s@ == if ok {
            "OK\n"@
        } else {
            "ERR parse\n"@
        },
{
    if ok {
        "OK\n"
    } else {
        "ERR parse\n"
    }
}

/// The time between two control steps, in microseconds: at least 1, at most 5000.
pub fn step_time(now_us: i64, last_us: i64) -> (r: u32)
    requires
        i64::MIN <= now_us - last_us <= i64::MAX,
    ensures
        r == crate::format::clamped(now_us - last_us, 1, 5000),
{
    let d: i64 = now_us - last_us;
    if d < 1 {
        1
    } else if d > 5000 {
        5000
    } else {
        d as u32
    }
}

impl Runtime {
    /// The state at power-up: not homed, not armed.
    pub fn new() -> (r: Runtime)
        ensures
            r == (Runtime {
                state: PedalState {
                    position_pct_x10: 0,
                    force_n_x10: 0,
                    joystick_output: 0,
                    error_code: 0,
                    servo_on: false,
                },
                joystick: 0,
                homed: false,
                armed: false,
                soft_min_steps: 0,
            }),
    {
        Runtime {
            state: PedalState::default(),
            joystick: 0,
            homed: false,
            armed: false,
            soft_min_steps: 0,
        }
    }

    /// Where the soft travel begins; 0 until it is known.
    pub fn soft_min(&self) -> (r: i32)
        ensures
            r == self.soft_min_steps,
    {
        self.soft_min_steps
    }

    /// The travel has been measured. It is handed in by the program around the library:
    /// no form of a command line is given that would carry its four values, so that there
    /// is no such command (see [`asked`]).
    pub fn home(&mut self, soft_min: i32)
        ensures
            *final(self) == after_event(*old(self), Event::Homed(soft_min)),
    {
        self.soft_min_steps = soft_min;
        self.homed = true;
    }

    /// Allows motor output, or stops it. Returns the reply.
    pub fn arm(&mut self, on: bool) -> (s: &'static str)
        ensures
            *final(self) == after_event(*old(self), Event::Armed(on)),
            s@ == "OK\n"@,
    {
        self.armed = on;
        "OK\n"
    }

    /// Takes what a control step led to.
    pub fn ticked(&mut self, position_pct_x10: u16, force_n_x10: u16, joystick: u16)
        ensures
            *final(self) == after_event(
                *old(self),
                Event::Ticked { position_pct_x10, force_n_x10, joystick },
            ),
    {
        self.joystick = joystick;
        self.state.position_pct_x10 = position_pct_x10;
        self.state.force_n_x10 = force_n_x10;
        self.state.joystick_output = joystick;
        self.state.servo_on = self.armed;
    }

    /// The axis value of the last control step.
    pub fn output(&self) -> (r: u16)
        ensures
            r == self.joystick,
    {
        self.joystick
    }

    /// Whether the position follows the target of the control loop: only once the
    /// pedal is homed and armed.
    pub fn follows(&self) -> (r: bool)
        ensures
            r == (self.armed && self.homed),
    {
        self.armed && self.homed
    }

    /// Whether a target is sent to the drive: only once the pedal is homed and
    /// armed, and the drive (`None` where there is none) is armed as well.
    pub fn drives(&self, servo_armed: Option<bool>) -> (r: bool)
        ensures
            r == (self.armed && self.homed && servo_armed == Some(true)),
    {
        match servo_armed {
            Some(b) => self.follows() && b,
            None => false,
        }
    }

    /// The status reply.
    pub fn status_line(&self) -> (s: String)
        ensures
            s@ == status_text(*self),
    {
        let mut kv: Vec<(&str, String)> = Vec::new();
        kv.push(("position", dec_string(self.state.position_pct_x10 as u64)));
        kv.push(("force", dec_string(self.state.force_n_x10 as u64)));
        kv.push(("joy", dec_string(self.joystick as u64)));
        kv.push(("err", dec_string(self.state.error_code as u64)));
        kv.push(("servo", dec_string(bit_of(self.state.servo_on) as u64)));
        proof {
            assert(owned_pairs(kv@) =~= status_pairs(*self));
        }
        let mut s = String::from_str("OK ");
        push_pairs(&mut s, &kv);
        s.append("\n");
        s
    }

    /// The state that is streamed.
    pub fn state_line(&self) -> (s: String)
        ensures
            s@ == pairs_text(state_pairs(*self)),
    {
        let mut kv: Vec<(&str, String)> = Vec::new();
        kv.push(("position", dec_string(self.state.position_pct_x10 as u64)));
        kv.push(("force", dec_string(self.state.force_n_x10 as u64)));
        kv.push(("joy", dec_string(self.joystick as u64)));
        kv.push(("armed", dec_string(bit_of(self.armed) as u64)));
        proof {
            assert(owned_pairs(kv@) =~= state_pairs(*self));
        }
        let mut s = String::new();
        push_pairs(&mut s, &kv);
        proof {
            assert(s@ =~= pairs_text(state_pairs(*self)));
        }
        s
    }

    /// Reads a command line.
    pub fn dispatch(&self, line: &str, fw: &str, serial: &str) -> (r: Step)
        ensures
            r@ == asked(*self, line@, fw@, serial@),
    {
        let all = chars_of(line);
        match strip_prefix(all.as_slice(), "@OTA") {
            Some(rest) => {
                return Step::Ota(read_ota_size(rest));
            },
            None => {},
        }
        let cmd = trimmed(all.as_slice());
        if same(cmd, "?") {
            return Step::Reply(self.status_line());
        }
        if same(cmd, "@CAP") {
            let mut s = String::from_str("OK board=pcba_v2.2b fw=");
            s.append(fw);
            s.append(" serial=");
            s.append(serial);
            s.append(" proto=1\n");
            return Step::Reply(s);
        }
        if same(cmd, "@GETCFG") {
            return Step::SendConfig;
        }
        match strip_prefix(cmd, "@CFG") {
            Some(json) => {
                return Step::SetConfig(string_of(json));
            },
            None => {},
        }
        match strip_prefix(cmd, "@ACT") {
            Some(json) => {
                return Step::SetAction(string_of(json));
            },
            None => {},
        }
        read_motor_or_network(cmd)
    }
}

/// What happens to a pedal.
pub enum Event {
    Homed(i32),
    Armed(bool),
    Ticked { position_pct_x10: u16, force_n_x10: u16, joystick: u16 },
}

/// The state after an event.
pub open spec fn after_event(rt: Runtime, e: Event) -> Runtime {
    match e {
        Event::Homed(soft_min) => Runtime { homed: true, soft_min_steps: soft_min, ..rt },
        Event::Armed(on) => Runtime { armed: on, ..rt },
        Event::Ticked { position_pct_x10, force_n_x10, joystick } => Runtime {
            state: PedalState {
                position_pct_x10,
                force_n_x10,
                joystick_output: joystick,
                servo_on: rt.armed,
                ..rt.state
            },
            joystick,
            ..rt
        },
    }
}

/// The state after a run of events.
pub open spec fn after_events(rt: Runtime, events: Seq<Event>) -> Runtime
    decreases events.len(),
{
    if events.len() == 0 {
        rt
    } else {
        after_event(after_events(rt, events.drop_last()), events.last())
    }
}

/// The motor stays off until it is armed: nothing but the command to arm it, neither
/// homing nor any number of control steps, arms a pedal, and until then the status reply
/// does not claim that its motor is on.
pub proof fn motor_stays_off(rt: Runtime, events: Seq<Event>)
    requires
        !rt.armed,
        !rt.state.servo_on,
        forall|k: int| 0 <= k < events.len() ==> #[trigger] events[k] != Event::Armed(true),
    ensures
        !after_events(rt, events).armed,
        !after_events(rt, events).state.servo_on,
    decreases events.len(),
{
    if events.len() > 0 {
        let before = events.drop_last();
        assert forall|k: int| 0 <= k < before.len() implies #[trigger] before[k] != Event::Armed(
            true,
        ) by {
            assert(before[k] == events[k]);
        }
        motor_stays_off(rt, before);
        assert(events[events.len() - 1] == events.last());
    }
}

/// A pedal that is disarmed stays so, whatever came before, until it is armed again.
pub proof fn disarming_lasts(rt: Runtime, before: Seq<Event>, after: Seq<Event>)
    requires
        forall|k: int| 0 <= k < after.len() ==> #[trigger] after[k] != Event::Armed(true),
    ensures
        !after_events(after_events(rt, before.push(Event::Armed(false))), after).armed,
    decreases after.len(),
{
    let off = before.push(Event::Armed(false));
    assert(off.drop_last() =~= before);
    if after.len() > 0 {
        let rest = after.drop_last();
        assert forall|k: int| 0 <= k < rest.len() implies #[trigger] rest[k] != Event::Armed(
            true,
        ) by {
            assert(rest[k] == after[k]);
        }
        disarming_lasts(rt, before, rest);
        assert(after[after.len() - 1] == after.last());
    }
}

/// The status and the streamed state tell each number under its own key.
pub proof fn status_names_each_number(rt: Runtime)
    ensures
        status_pairs(rt).len() == 5,
        status_pairs(rt)[0] == ("position"@, dec_text(rt.state.position_pct_x10 as nat)),
        status_pairs(rt)[1] == ("force"@, dec_text(rt.state.force_n_x10 as nat)),
        status_pairs(rt)[2] == ("joy"@, dec_text(rt.joystick as nat)),
        status_pairs(rt)[3] == ("err"@, dec_text(rt.state.error_code as nat)),
        rt.state.servo_on ==> status_pairs(rt)[4] == ("servo"@, dec_text(1)),
        !rt.state.servo_on ==> status_pairs(rt)[4] == ("servo"@, dec_text(0)),
        state_pairs(rt).len() == 4,
        state_pairs(rt)[0] == status_pairs(rt)[0],
        state_pairs(rt)[1] == status_pairs(rt)[1],
        state_pairs(rt)[2] == status_pairs(rt)[2],
        rt.armed ==> state_pairs(rt)[3] == ("armed"@, dec_text(1)),
        !rt.armed ==> state_pairs(rt)[3] == ("armed"@, dec_text(0)),
{
}

/// What each event changes: homing notes where the travel begins, arming and
/// disarming the motor, a control step the position, the force and the axis, each
/// into its own place; and the motor is shown as on exactly while it is armed.
pub proof fn events_change_their_own(
    rt: Runtime,
    soft_min: i32,
    on: bool,
    position_pct_x10: u16,
    force_n_x10: u16,
    joystick: u16,
)
    ensures
        ({
            let h = after_event(rt, Event::Homed(soft_min));
            &&& h.homed && h.soft_min_steps == soft_min
            &&& h.armed == rt.armed && h.state == rt.state && h.joystick == rt.joystick
        }),
        ({
            let a = after_event(rt, Event::Armed(on));
            &&& a.armed == on
            &&& a.homed == rt.homed && a.state == rt.state && a.joystick == rt.joystick
        }),
        ({
            let t = after_event(rt, Event::Ticked { position_pct_x10, force_n_x10, joystick });
            &&& t.state.position_pct_x10 == position_pct_x10
            &&& t.state.force_n_x10 == force_n_x10
            &&& t.state.joystick_output == joystick && t.joystick == joystick
            &&& t.state.servo_on == rt.armed
            &&& t.state.error_code == rt.state.error_code
            &&& t.armed == rt.armed && t.homed == rt.homed && t.soft_min_steps
                == rt.soft_min_steps
        }),
{
}

/// The commands of the tuning channel. What follows the name of the configuration or
/// of the live effects, trimmed at its end, is the push.
pub proof fn commands_are_told_apart(
    rt: Runtime,
    json: Seq<char>,
    fw: Seq<char>,
    serial: Seq<char>,
)
    requires
        json.len() > 0,
        !crate::text::is_white(json.last()),
    ensures
        asked(rt, "@CFG"@ + json, fw, serial) == StepView::SetConfig(json),
        asked(rt, "@ACT"@ + json, fw, serial) == StepView::SetAction(json),
        asked(rt, "?"@, fw, serial) == StepView::Reply(status_text(rt)),
        asked(rt, "@CAP"@, fw, serial) == StepView::Reply(cap_text(fw, serial)),
        asked(rt, "@GETCFG"@, fw, serial) == StepView::SendConfig,
        asked(rt, "@ARM"@, fw, serial) == StepView::Arm(true),
        asked(rt, "@DISARM"@, fw, serial) == StepView::Arm(false),
        asked(rt, "@OTA"@ + json, fw, serial) == StepView::Ota(ota_size(json)),
{
    lemma_names();
    crate::text::lemma_after_prefix("@OTA"@, json);
    assert(asked(rt, "@CFG"@ + json, fw, serial) == StepView::SetConfig(json)) by {
        let l = "@CFG"@ + json;
        assert(l[0] == '@' && l[1] == 'C' && l[2] == 'F' && l.last() == json.last());
        crate::text::lemma_trim_none(l);
        crate::text::lemma_not_after(l, "@OTA"@, 1);
        crate::text::lemma_after_prefix("@CFG"@, json);
        assert("?"@[0] == '?' && "@CAP"@[2] == 'A' && "@GETCFG"@[1] == 'G');
    }
    assert(asked(rt, "@ACT"@ + json, fw, serial) == StepView::SetAction(json)) by {
        let l = "@ACT"@ + json;
        assert(l[0] == '@' && l[1] == 'A' && l.last() == json.last());
        crate::text::lemma_trim_none(l);
        crate::text::lemma_not_after(l, "@OTA"@, 1);
        crate::text::lemma_not_after(l, "@CFG"@, 1);
        crate::text::lemma_after_prefix("@ACT"@, json);
        assert("?"@[0] == '?' && "@CAP"@[1] == 'C' && "@GETCFG"@[1] == 'G');
    }
    assert(asked(rt, "?"@, fw, serial) == StepView::Reply(status_text(rt))) by {
        let l = "?"@;
        assert(l[0] == '?' && l.last() == '?');
        crate::text::lemma_trim_none(l);
        crate::text::lemma_not_after(l, "@OTA"@, 0);
    }
    assert(asked(rt, "@CAP"@, fw, serial) == StepView::Reply(cap_text(fw, serial))) by {
        let l = "@CAP"@;
        assert(l[0] == '@' && l[1] == 'C' && l.last() == 'P');
        crate::text::lemma_trim_none(l);
        crate::text::lemma_not_after(l, "@OTA"@, 1);
        assert("?"@[0] == '?');
    }
    assert(asked(rt, "@GETCFG"@, fw, serial) == StepView::SendConfig) by {
        let l = "@GETCFG"@;
        assert(l[0] == '@' && l[1] == 'G' && l.last() == 'G');
        crate::text::lemma_trim_none(l);
        crate::text::lemma_not_after(l, "@OTA"@, 1);
        assert("?"@[0] == '?' && "@CAP"@[1] == 'C');
    }
    assert(asked(rt, "@ARM"@, fw, serial) == StepView::Arm(true)) by {
        let l = "@ARM"@;
        assert(l[0] == '@' && l[1] == 'A' && l[2] == 'R' && l.last() == 'M');
        crate::text::lemma_trim_none(l);
        crate::text::lemma_not_after(l, "@OTA"@, 1);
        crate::text::lemma_not_after(l, "@CFG"@, 1);
        assert("@ACT"@[2] == 'C');
        crate::text::lemma_not_after(l, "@ACT"@, 2);
        assert("?"@[0] == '?' && "@CAP"@[1] == 'C' && "@GETCFG"@[1] == 'G');
    }
    assert(asked(rt, "@DISARM"@, fw, serial) == StepView::Arm(false)) by {
        let l = "@DISARM"@;
        assert(l[0] == '@' && l[1] == 'D' && l.last() == 'M');
        crate::text::lemma_trim_none(l);
        crate::text::lemma_not_after(l, "@OTA"@, 1);
        crate::text::lemma_not_after(l, "@CFG"@, 1);
        crate::text::lemma_not_after(l, "@ACT"@, 1);
        assert("?"@[0] == '?' && "@CAP"@[1] == 'C' && "@GETCFG"@[1] == 'G' && "@ARM"@[1] == 'A');
    }
}

/// The names of the commands, by their characters.
proof fn lemma_names()
    ensures
        "?"@ =~= seq!['?'],
        "@OTA"@ =~= seq!['@', 'O', 'T', 'A'],
        "@CAP"@ =~= seq!['@', 'C', 'A', 'P'],
        "@GETCFG"@ =~= seq!['@', 'G', 'E', 'T', 'C', 'F', 'G'],
        "@CFG"@ =~= seq!['@', 'C', 'F', 'G'],
        "@ACT"@ =~= seq!['@', 'A', 'C', 'T'],
        "@ARM"@ =~= seq!['@', 'A', 'R', 'M'],
        "@DISARM"@ =~= seq!['@', 'D', 'I', 'S', 'A', 'R', 'M'],
{
    reveal_strlit("?");
    reveal_strlit("@OTA");
    reveal_strlit("@CAP");
    reveal_strlit("@GETCFG");
    reveal_strlit("@CFG");
    reveal_strlit("@ACT");
    reveal_strlit("@ARM");
    reveal_strlit("@DISARM");
}

/// The size of an update is the number behind the command; anything else is 0.
pub proof fn sizes_are_read(n: int)
    requires
        i32::MIN <= n <= i32::MAX,
    ensures
        ota_size(crate::text::int_text(n)) == n,
        ota_size(Seq::empty()) == 0,
{
    crate::text::lemma_number_is_plain(n);
    crate::text::lemma_int_text(n, i32::MIN as int, i32::MAX as int);
    crate::text::lemma_trim_none(crate::text::int_text(n));
    crate::text::lemma_trim_none(Seq::<char>::empty());
}

/// New credentials are two words behind the name of the command; without exactly two it
/// is unknown, as is any other command.
pub proof fn credentials_are_two_words(ssid: Seq<char>, pass: Seq<char>, more: Seq<char>)
    requires
        ssid.len() > 0 && crate::text::no_white(ssid),
        pass.len() > 0 && crate::text::no_white(pass),
        more.len() > 0 && crate::text::no_white(more),
        more != "@ARM"@ && more != "@DISARM"@,
    ensures
        motor_or_network("@WIFI"@ + seq![' '] + (ssid + seq![' '] + pass)) == StepView::Wifi(
            ssid,
            pass,
        ),
        motor_or_network("@WIFI"@ + seq![' '] + ssid) == StepView::Reply("ERR unknown\n"@),
        motor_or_network("@WIFI"@ + seq![' '] + (ssid + seq![' '] + (pass + seq![' '] + more)))
            == StepView::Reply("ERR unknown\n"@),
        motor_or_network(more) == StepView::Reply("ERR unknown\n"@),
{
    lemma_names();
    reveal_strlit("@WIFI");
    let w = "@WIFI"@;
    assert forall|i: int| 0 <= i < w.len() implies !crate::text::is_white(#[trigger] w[i]) by {}
    crate::text::words_are_separated(pass, more);
    crate::text::words_are_separated(ssid, pass);
    crate::text::words_are_separated(more, more);
    crate::text::words_are_separated(w, ssid);
    let two = ssid + seq![' '] + pass;
    crate::text::words_are_separated(w, two);
    let three = ssid + seq![' '] + (pass + seq![' '] + more);
    crate::text::words_are_separated(ssid, pass + seq![' '] + more);
    crate::text::words_are_separated(w, three);
    let a = w + seq![' '] + two;
    let b = w + seq![' '] + ssid;
    let c = w + seq![' '] + three;
    assert(a[1] == 'W' && b[1] == 'W' && c[1] == 'W');
    assert("@ARM"@[1] == 'A' && "@DISARM"@[1] == 'D');
    assert(words(a) =~= seq![w, ssid, pass]);
    assert(words(b) =~= seq![w, ssid]);
    assert(words(c) =~= seq![w, ssid, pass, more]);
    assert(words(more) =~= seq![more]);
}

/// The capabilities name the board, the firmware, the serial number and the protocol.
pub proof fn capabilities_name_the_board(fw: Seq<char>, serial: Seq<char>)
    ensures
        cap_text(fw, serial) == "OK board=pcba_v2.2b fw="@ + fw + " serial="@ + serial
            + " proto=1\n"@,
{
}

} // verus!
