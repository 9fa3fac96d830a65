//! The handbrake at run time: the calibration that is being edited, the one that
//! is stored, and the commands that move between them.

use vstd::prelude::*;
use vstd::string::StringExecFns;
use crate::format::abs;
use crate::handbrake::autozero::{observable, observed, AutoZero};
use crate::handbrake::calibration::{bit, bit_of, Calibration, MIN_SPAN};
use crate::handbrake::hx711::{filtered, Iir};
use crate::handbrake::proto::{
    command_of, format_telem, parse_host_line, telem_text, tenths, HostCmd, ParseError, ERR_NVS,
    ERR_PARSE, ERR_RANGE, ERR_SPAN,
};
use crate::pedals::runtime::{ota_size, read_ota_size};
use crate::shift::in_i32;
use crate::text::{
    after_prefix, chars_of, dec_string, dec_text, int_string, int_text, owned_pairs, pairs_text,
    push_pairs, strip_prefix,
};

verus! {

/// A command line that grows to this many bytes is dropped.
pub const LINE_MAX: usize = 256;

/// At most this many bytes of replies and telemetry wait to be read.
pub const TX_CAP: usize = 4096;

/// The run-time state.
#[derive(Clone, Copy, Debug, PartialEq, Eq, Structural)]
pub struct Runtime {
    /// What the commands change and what drives the axis.
    pub pending: Calibration,
    /// What was stored last, and what a cancel goes back to.
    pub saved: Calibration,
    /// The latest filtered reading.
    pub raw: i32,
}

/// Why the storage is written.
#[derive(Clone, Copy, Debug, PartialEq, Eq, Structural)]
pub enum StoreOp {
    Save,
    Reset,
}

/// What a command leads to: a reply, a write to the storage whose outcome decides the
/// reply (see [`Runtime::stored`]), or a firmware update of so many bytes.
#[derive(Debug, PartialEq)]
pub enum Step {
    Reply(String),
    Store { op: StoreOp, cal: Calibration },
    Ota(i32),
}

/// A step as plain values.
pub enum StepView {
    Reply(Seq<char>),
    Store { op: StoreOp, cal: Calibration },
    Ota(int),
}

impl View for Step {
    type V = StepView;

    open spec fn view(&self) -> StepView {
        match *self {
            Step::Reply(s) => StepView::Reply(s@),
            Step::Store { op, cal } => StepView::Store { op, cal },
            Step::Ota(n) => StepView::Ota(n as int),
        }
    }
}

/// The calibration that the storage holds; the factory one where it holds none
/// that can be read.
pub open spec fn loaded(blob: Option<Seq<u8>>) -> Calibration {
    match blob {
        Some(b) => if b.len() < 12 {
            Calibration::factory()
        } else {
            Calibration::of_blob(b)
        },
        None => Calibration::factory(),
    }
}

/// The reply that refuses a command.
pub open spec fn err_text(code: Seq<char>) -> Seq<char> {
    "ERR "@ + code + "\n"@
}

/// The pairs of the status reply.
pub open spec fn status_pairs(rt: Runtime) -> Seq<(Seq<char>, Seq<char>)> {
    seq![
        ("raw"@, int_text(rt.raw as int)),
        ("pct"@, dec_text(rt.pending.axis(rt.raw as int) as nat)),
        ("idle"@, int_text(rt.pending.idle_raw as int)),
        ("max"@, int_text(rt.pending.max_raw as int)),
        ("dzlo"@, dec_text(rt.pending.deadzone_lo_pct as nat)),
        ("dzhi"@, dec_text(rt.pending.deadzone_hi_pct as nat)),
        ("inv"@, dec_text(bit(rt.pending.inverted) as nat)),
        ("calibrated"@, dec_text(bit(rt.pending.calibrated) as nat)),
    ]
}

/// The status reply.
pub open spec fn status_text(rt: Runtime) -> Seq<char> {
    "OK "@ + pairs_text(status_pairs(rt)) + "\n"@
}

/// The capability reply.
pub open spec fn cap_text(fw: Seq<char>, serial: Seq<char>) -> Seq<char> {
    "OK board=lolin_s2_mini fw="@ + fw + " serial="@ + serial + " proto=1\n"@
}

/// The state and the step that a command line leads to.
pub open spec fn dispatched(rt: Runtime, line: Seq<char>, fw: Seq<char>, serial: Seq<char>) -> (
    Runtime,
    StepView,
) {
    let ok = StepView::Reply("OK\n"@);
    match command_of(line) {
        Ok(HostCmd::Status) => (rt, StepView::Reply(status_text(rt))),
        Ok(HostCmd::Cap) => (rt, StepView::Reply(cap_text(fw, serial))),
        Ok(HostCmd::SetIdle(raw)) => (
            Runtime { pending: Calibration { idle_raw: raw, ..rt.pending }, ..rt },
            ok,
        ),
        Ok(HostCmd::SetMax(raw)) => if abs(raw - rt.pending.idle_raw) >= MIN_SPAN {
            (
                Runtime {
                    pending: Calibration { max_raw: raw, calibrated: true, ..rt.pending },
                    ..rt
                },
                ok,
            )
        } else {
            (rt, StepView::Reply(err_text("span"@)))
        },
        Ok(HostCmd::SetDeadzone { lo, hi }) => (
            Runtime {
                pending: Calibration { deadzone_lo_pct: lo, deadzone_hi_pct: hi, ..rt.pending },
                ..rt
            },
            ok,
        ),
        Ok(HostCmd::SetInverted(inverted)) => (
            Runtime { pending: Calibration { inverted, ..rt.pending }, ..rt },
            ok,
        ),
        Ok(HostCmd::Save) => (rt, StepView::Store { op: StoreOp::Save, cal: rt.pending }),
        Ok(HostCmd::Cancel) => (Runtime { pending: rt.saved, ..rt }, ok),
        Ok(HostCmd::Reset) => (
            Runtime { pending: Calibration::factory(), saved: Calibration::factory(), ..rt },
            StepView::Store { op: StoreOp::Reset, cal: Calibration::factory() },
        ),
        Err(ParseError::Unknown) => (rt, StepView::Reply(err_text("parse"@))),
        Err(ParseError::BadArgs) => (rt, StepView::Reply(err_text("range"@))),
    }
}

/// The state and the step that a line of the command channel leads to. An update command
/// is told by its start; all other lines are commands of the calibration.
pub open spec fn line_taken(rt: Runtime, line: Seq<char>, fw: Seq<char>, serial: Seq<char>) -> (
    Runtime,
    StepView,
) {
    match after_prefix(line, "@OTA"@) {
        Some(rest) => (rt, StepView::Ota(ota_size(rest))),
        None => dispatched(rt, line, fw, serial),
    }
}

/// The reply that refuses a command.
fn err_reply(code: &str) -> (s: String)
    ensures
        s@ == err_text(code@),
{
    let mut s = String::from_str("ERR ");
    s.append(code);
    s.append("\n");
    s
}

impl Runtime {
    /// The state at boot, from what the storage holds.
    pub fn new(blob: Option<&[u8]>) -> (r: Runtime)
        ensures
            ({
                let cal = loaded(
                    match blob {
                        Some(b) => Some(b@),
                        None => None,
                    },
                );
                r == (Runtime { pending: cal, saved: cal, raw: 0 })
            }),
    {
        let cal = match blob {
            Some(b) => match Calibration::from_bytes(b) {
                Some(c) => c,
                None => Calibration::default(),
            },
            None => Calibration::default(),
        };
        Runtime { pending: cal, saved: cal, raw: 0 }
    }

    /// The axis value of the latest reading.
    pub fn output(&self) -> (r: u16)
        ensures
            r == self.pending.axis(self.raw as int),
    {
        self.pending.apply(self.raw)
    }

    /// The status reply.
    pub fn status_line(&self) -> (s: String)
        ensures
            s@ == status_text(*self),
    {
        let mut kv: Vec<(&str, String)> = Vec::new();
        kv.push(("raw", int_string(self.raw as i64)));
        kv.push(("pct", dec_string(self.output() as u64)));
        kv.push(("idle", int_string(self.pending.idle_raw as i64)));
        kv.push(("max", int_string(self.pending.max_raw as i64)));
        kv.push(("dzlo", dec_string(self.pending.deadzone_lo_pct as u64)));
        kv.push(("dzhi", dec_string(self.pending.deadzone_hi_pct as u64)));
        kv.push(("inv", dec_string(bit_of(self.pending.inverted) as u64)));
        kv.push(("calibrated", dec_string(bit_of(self.pending.calibrated) as u64)));
        proof {
            assert(owned_pairs(kv@) =~= status_pairs(*self));
        }
        let mut s = String::from_str("OK ");
        push_pairs(&mut s, &kv);
        s.append("\n");
        s
    }

    /// Runs a command line.
    pub fn dispatch(&mut self, line: &str, fw: &str, serial: &str) -> (r: Step)
        ensures
            (*final(self), r@) == dispatched(*old(self), line@, fw@, serial@),
    {
        match parse_host_line(line) {
            Ok(HostCmd::Status) => Step::Reply(self.status_line()),
            Ok(HostCmd::Cap) => {
                let mut s = String::from_str("OK board=lolin_s2_mini fw=");
                s.append(fw);
                s.append(" serial=");
                s.append(serial);
                s.append(" proto=1\n");
                Step::Reply(s)
            },
            Ok(HostCmd::SetIdle(raw)) => {
                self.pending.idle_raw = raw;
                Step::Reply(String::from_str("OK\n"))
            },
            Ok(HostCmd::SetMax(raw)) => {
                if Calibration::span_ok(self.pending.idle_raw, raw) {
                    self.pending.max_raw = raw;
                    self.pending.calibrated = true;
                    Step::Reply(String::from_str("OK\n"))
                } else {
                    Step::Reply(err_reply(ERR_SPAN))
                }
            },
            Ok(HostCmd::SetDeadzone { lo, hi }) => {
                self.pending.deadzone_lo_pct = lo;
                self.pending.deadzone_hi_pct = hi;
                Step::Reply(String::from_str("OK\n"))
            },
            Ok(HostCmd::SetInverted(inverted)) => {
                self.pending.inverted = inverted;
                Step::Reply(String::from_str("OK\n"))
            },
            Ok(HostCmd::Save) => Step::Store { op: StoreOp::Save, cal: self.pending },
            Ok(HostCmd::Cancel) => {
                self.pending = self.saved;
                Step::Reply(String::from_str("OK\n"))
            },
            Ok(HostCmd::Reset) => {
                self.saved = Calibration::default();
                self.pending = self.saved;
                Step::Store { op: StoreOp::Reset, cal: self.saved }
            },
            Err(ParseError::Unknown) => Step::Reply(err_reply(ERR_PARSE)),
            Err(ParseError::BadArgs) => Step::Reply(err_reply(ERR_RANGE)),
        }
    }

    /// Takes a line of the command channel.
    pub fn take_line(&mut self, line: &str, fw: &str, serial: &str) -> (r: Step)
        ensures
            (*final(self), r@) == line_taken(*old(self), line@, fw@, serial@),
    {
        let all = chars_of(line);
        match strip_prefix(all.as_slice(), "@OTA") {
            Some(rest) => Step::Ota(read_ota_size(rest)),
            None => self.dispatch(line, fw, serial),
        }
    }

    /// The storage has been written, or has failed: a save that succeeded makes
    /// the pending calibration the stored one. Returns the reply.
    pub fn stored(&mut self, op: StoreOp, ok: bool) -> (s: String)
        ensures
            *final(self) == (if op == StoreOp::Save && ok {
                Runtime { saved: old(self).pending, ..*old(self) }
            } else {
                *old(self)
            }),
            s@ == if ok {
                "OK\n"@
            } else {
                err_text("nvs"@)
            },
    {
        if ok {
            if op == StoreOp::Save {
                self.saved = self.pending;
            }
            String::from_str("OK\n")
        } else {
            err_reply(ERR_NVS)
        }
    }

    /// Whether the numbers that a conversion leads to stay within range.
    pub fn can_sample(&self, filter: &Iir, zero: &AutoZero, code: i32) -> (r: bool)
        ensures
            r == ((filter.primed ==> filter.shift < 32 && in_i32(code - filter.y)) && observable(
                *zero,
                filtered(*filter, code) as i32,
                self.pending,
            )),
    {
        if !filter.can_push(code) {
            return false;
        }
        let mut f = *filter;
        let raw = f.push(code);
        zero.can_observe(raw, &self.pending)
    }

    /// Takes one conversion of the load cell: filters it, follows drift, and
    /// returns the axis value and, unless an update is running, the telemetry
    /// line to send.
    pub fn sample(
        &mut self,
        filter: &mut Iir,
        zero: &mut AutoZero,
        code: i32,
        ota_active: bool,
    ) -> (r: (u16, Option<String>))
        requires
            old(zero).wf(),
            old(filter).primed ==> old(filter).shift < 32 && in_i32(code - old(filter).y),
            observable(*old(zero), filtered(*old(filter), code) as i32, old(self).pending),
        ensures
            final(zero).wf(),
            ({
                let raw = filtered(*old(filter), code) as i32;
                let (az, idle) = observed(*old(zero), raw, old(self).pending);
                &&& *final(filter) == (Iir { y: raw, primed: true, ..*old(filter) })
                &&& *final(zero) == az
                &&& *final(self) == (Runtime {
                    pending: Calibration { idle_raw: idle as i32, ..old(self).pending },
                    saved: old(self).saved,
                    raw,
                })
                &&& r.0 == final(self).pending.axis(raw as int)
                &&& r.1 is Some <==> !ota_active
                &&& r.1 matches Some(line) ==> line@ == telem_text(raw as int, tenths(r.0 as int))
            }),
    {
        self.raw = filter.push(code);
        zero.observe(self.raw, &mut self.pending);
        let out = self.output();
        if ota_active {
            (out, None)
        } else {
            (out, Some(format_telem(self.raw, out)))
        }
    }
}

/// A cancel right after a successful save changes nothing: what was saved is what
/// a cancel goes back to.
pub proof fn cancel_after_save_keeps(rt: Runtime, fw: Seq<char>, serial: Seq<char>, line: Seq<char>)
    requires
        command_of(line) == Ok::<HostCmd, ParseError>(HostCmd::Cancel),
    ensures
        ({
            let saved = Runtime { saved: rt.pending, ..rt };
            dispatched(saved, line, fw, serial).0 == saved
        }),
{
}

/// No command but a save or a reset touches what is stored, and a refused command
/// changes nothing at all.
pub proof fn only_save_and_reset_store(rt: Runtime, line: Seq<char>, fw: Seq<char>, serial: Seq<char>)
    ensures
        dispatched(rt, line, fw, serial).1 is Store <==> (command_of(line) == Ok::<
            HostCmd,
            ParseError,
        >(HostCmd::Save) || command_of(line) == Ok::<HostCmd, ParseError>(HostCmd::Reset)),
        command_of(line) != Ok::<HostCmd, ParseError>(HostCmd::Reset) ==> dispatched(
            rt,
            line,
            fw,
            serial,
        ).0.saved == rt.saved,
        command_of(line) is Err ==> dispatched(rt, line, fw, serial).0 == rt,
{
}

/// A pair of idle and maximum that is too close together is never accepted: a
/// maximum is only taken where it is at least [`MIN_SPAN`] from the idle point.
pub proof fn accepted_span_is_usable(rt: Runtime, raw: i32, line: Seq<char>, fw: Seq<char>, serial: Seq<char>)
    requires
        command_of(line) == Ok::<HostCmd, ParseError>(HostCmd::SetMax(raw)),
        dispatched(rt, line, fw, serial).0 != rt,
    ensures
        abs(raw - rt.pending.idle_raw) >= MIN_SPAN,
        dispatched(rt, line, fw, serial).0.pending.calibrated,
{
}

/// What each command changes, and nothing besides: the idle point, the maximum where
/// it is at least 2000 away, the deadzones or the inversion of the calibration that
/// is being edited. A maximum that is taken makes it a real calibration.
pub proof fn edits_change_their_own(rt: Runtime, line: Seq<char>, fw: Seq<char>, serial: Seq<char>)
    ensures
        ({
            let (n, step) = dispatched(rt, line, fw, serial);
            let (p, q) = (rt.pending, n.pending);
            &&& command_of(line) matches Ok(HostCmd::SetIdle(raw)) ==> q.idle_raw == raw && q.max_raw
                == p.max_raw && q.deadzone_lo_pct == p.deadzone_lo_pct && q.deadzone_hi_pct
                == p.deadzone_hi_pct && q.inverted == p.inverted && q.calibrated == p.calibrated
                && step == StepView::Reply("OK\n"@) && n.saved == rt.saved && n.raw == rt.raw
            &&& command_of(line) matches Ok(HostCmd::SetMax(raw)) ==> ({
                let far = raw - p.idle_raw >= 2000 || p.idle_raw - raw >= 2000;
                &&& far ==> q.max_raw == raw && q.calibrated && step == StepView::Reply("OK\n"@)
                &&& !far ==> q == p && step == StepView::Reply("ERR "@ + "span"@ + "\n"@)
                &&& q.idle_raw == p.idle_raw && q.deadzone_lo_pct == p.deadzone_lo_pct
                &&& q.deadzone_hi_pct == p.deadzone_hi_pct && q.inverted == p.inverted
                &&& n.saved == rt.saved && n.raw == rt.raw
            })
            &&& command_of(line) matches Ok(HostCmd::SetDeadzone { lo, hi }) ==> q.deadzone_lo_pct
                == lo && q.deadzone_hi_pct == hi && q.idle_raw == p.idle_raw && q.max_raw
                == p.max_raw && q.inverted == p.inverted && q.calibrated == p.calibrated && step
                == StepView::Reply("OK\n"@) && n.saved == rt.saved && n.raw == rt.raw
            &&& command_of(line) matches Ok(HostCmd::SetInverted(i)) ==> q.inverted == i
                && q.idle_raw == p.idle_raw && q.max_raw == p.max_raw && q.deadzone_lo_pct
                == p.deadzone_lo_pct && q.deadzone_hi_pct == p.deadzone_hi_pct && q.calibrated
                == p.calibrated && step == StepView::Reply("OK\n"@) && n.saved == rt.saved && n.raw
                == rt.raw
        }),
{
}

/// A save hands the edited calibration to the storage, a cancel goes back to the
/// stored one, a reset goes back to one that was never calibrated; a line that is no
/// command, or whose argument is out of range, is refused as that.
pub proof fn saves_and_cancels(rt: Runtime, line: Seq<char>, fw: Seq<char>, serial: Seq<char>)
    ensures
        ({
            let (n, step) = dispatched(rt, line, fw, serial);
            let cmd = command_of(line);
            &&& cmd == Ok::<HostCmd, ParseError>(HostCmd::Save) ==> n == rt && step
                == (StepView::Store { op: StoreOp::Save, cal: rt.pending })
            &&& cmd == Ok::<HostCmd, ParseError>(HostCmd::Cancel) ==> n.pending == rt.saved && n.saved
                == rt.saved && step == StepView::Reply("OK\n"@)
            &&& cmd == Ok::<HostCmd, ParseError>(HostCmd::Reset) ==> !n.pending.calibrated
                && n.pending == n.saved && n.pending.idle_raw == 0 && n.pending.max_raw == 0
                && n.pending.deadzone_lo_pct == 2 && n.pending.deadzone_hi_pct == 2
                && !n.pending.inverted && (step matches StepView::Store { op, cal } && op
                == StoreOp::Reset && cal == n.saved)
            &&& cmd == Err::<HostCmd, ParseError>(ParseError::Unknown) ==> n == rt && step
                == StepView::Reply("ERR "@ + "parse"@ + "\n"@)
            &&& cmd == Err::<HostCmd, ParseError>(ParseError::BadArgs) ==> n == rt && step
                == StepView::Reply("ERR "@ + "range"@ + "\n"@)
            &&& cmd == Ok::<HostCmd, ParseError>(HostCmd::Status) ==> n == rt && step
                == StepView::Reply(status_text(rt))
            &&& cmd == Ok::<HostCmd, ParseError>(HostCmd::Cap) ==> n == rt && step
                == StepView::Reply("OK board=lolin_s2_mini fw="@ + fw + " serial="@ + serial
                + " proto=1\n"@)
        }),
{
}

/// The status reply tells each number of the calibration in effect, the latest
/// reading and its axis value under its own key.
pub proof fn status_names_each_number(rt: Runtime)
    ensures
        ({
            let kv = status_pairs(rt);
            &&& kv.len() == 8
            &&& kv[0] == ("raw"@, int_text(rt.raw as int))
            &&& kv[1] == ("pct"@, dec_text(rt.pending.axis(rt.raw as int) as nat))
            &&& kv[2] == ("idle"@, int_text(rt.pending.idle_raw as int))
            &&& kv[3] == ("max"@, int_text(rt.pending.max_raw as int))
            &&& kv[4] == ("dzlo"@, dec_text(rt.pending.deadzone_lo_pct as nat))
            &&& kv[5] == ("dzhi"@, dec_text(rt.pending.deadzone_hi_pct as nat))
            &&& rt.pending.inverted ==> kv[6] == ("inv"@, dec_text(1))
            &&& !rt.pending.inverted ==> kv[6] == ("inv"@, dec_text(0))
            &&& rt.pending.calibrated ==> kv[7] == ("calibrated"@, dec_text(1))
            &&& !rt.pending.calibrated ==> kv[7] == ("calibrated"@, dec_text(0))
        }),
{
}

/// Only a line that starts with the name of the update command starts an update; any
/// other line is a command of the calibration.
pub proof fn updates_are_told_by_their_start(
    rt: Runtime,
    line: Seq<char>,
    rest: Seq<char>,
    fw: Seq<char>,
    serial: Seq<char>,
)
    requires
        line.len() < 4 || !(line[0] == '@' && line[1] == 'O' && line[2] == 'T' && line[3] == 'A'),
    ensures
        line_taken(rt, "@OTA"@ + rest, fw, serial) == (rt, StepView::Ota(ota_size(rest))),
        line_taken(rt, line, fw, serial) == dispatched(rt, line, fw, serial),
{
    reveal_strlit("@OTA");
    crate::text::lemma_after_prefix("@OTA"@, rest);
    if line.len() >= 4 {
        assert("@OTA"@[0] == '@' && "@OTA"@[1] == 'O' && "@OTA"@[2] == 'T' && "@OTA"@[3] == 'A');
        let k = if line[0] != '@' {
            0int
        } else if line[1] != 'O' {
            1int
        } else if line[2] != 'T' {
            2int
        } else {
            3int
        };
        crate::text::lemma_not_after(line, "@OTA"@, k);
    }
}

/// What was stored last is what the next boot starts with; without it, or with too
/// little of it, the unit starts uncalibrated.
pub proof fn boot_takes_what_was_stored(c: Calibration, b: Seq<u8>)
    requires
        c.deadzone_lo_pct <= 100,
        c.deadzone_hi_pct <= 100,
        b.len() < 12,
    ensures
        loaded(Some(c.blob())) == c,
        !loaded(None).calibrated,
        !loaded(Some(b)).calibrated,
{
    crate::handbrake::calibration::blob_round_trip(c);
}

} // verus!
