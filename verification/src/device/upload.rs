//! The upload of a firmware image, step by step: what the host does next, given what came
//! back or how long nothing did.

use vstd::prelude::*;
use vstd::string::StringExecFns;
use crate::device::dash::{
    device_error, last_reply, last_reply_of, log_line, next_sent, note_text, ota_note, ota_reply,
    ota_reply_of, timed_out, OtaNote, OtaReply, Upload,
};
use crate::device::handbrake::{no_ack, wait_error, wait_error_text, write_error, WaitError};
use crate::text::{dec_text, trim};

verus! {

/// How long the device may take to get ready: it erases the slot first.
pub const READY_MS: u64 = 12_000;

/// How long a piece may take to be acknowledged.
pub const ACK_MS: u64 = 6_000;

/// How long the last reply is waited for.
pub const DONE_MS: u64 = 8_000;

/// What is being updated. The two differ in what is said of a failure and in how the last
/// reply is read.
#[derive(Clone, Copy, Debug, PartialEq, Eq, Structural)]
pub enum Target {
    Display,
    Handbrake,
}

/// How an upload ended.
#[derive(Clone, Copy, Debug, PartialEq, Eq, Structural)]
pub enum Ending {
    /// The device confirmed the image.
    Done,
    /// The device said nothing more, as one that reboots does not.
    Rebooting,
    /// The image could not be announced.
    NotAnnounced,
    /// The device did not get ready.
    NotReady(WaitError),
    /// A piece could not be written; so much had been sent.
    WriteError(usize),
    /// A piece was not acknowledged; so much had been sent.
    NoAck(usize, WaitError),
    /// The device refused the whole image.
    Refused,
}

/// Where an upload is.
#[derive(Clone, Copy, Debug, PartialEq, Eq, Structural)]
pub enum Phase {
    /// The image is to be announced.
    Announce,
    /// The device gets ready.
    Ready,
    /// A piece is to be sent.
    Piece,
    /// A piece is being acknowledged.
    Ack,
    /// The whole image is out.
    Last,
    Over(Ending),
}

/// What is done next.
#[derive(Clone, Copy, Debug, PartialEq, Eq, Structural)]
pub enum Todo {
    /// Announce an image of this size.
    Announce(usize),
    /// Send the bytes from the first place up to the second.
    Send(usize, usize),
    /// Wait for a line, this long in all.
    Wait(u64),
    Stop(Ending),
}

/// What has happened.
#[derive(Debug)]
pub enum Event {
    /// What was to be sent was sent, or was not.
    Sent(bool),
    /// A line came in.
    Line(String),
    /// The time for the reply is over.
    TimedOut,
}

/// What has happened, as plain values.
pub enum EventView {
    Sent(bool),
    Line(Seq<char>),
    TimedOut,
}

impl View for Event {
    type V = EventView;

    open spec fn view(&self) -> EventView {
        match *self {
            Event::Sent(ok) => EventView::Sent(ok),
            Event::Line(s) => EventView::Line(s@),
            Event::TimedOut => EventView::TimedOut,
        }
    }
}

/// A running upload.
#[derive(Clone, Copy, Debug, PartialEq, Eq, Structural)]
pub struct Session {
    pub target: Target,
    pub up: Upload,
    pub phase: Phase,
}

/// The upload was a success.
pub open spec fn succeeds(e: Ending) -> bool {
    e is Done || e is Rebooting
}

/// The reply that a phase waits for.
pub open spec fn needle_of(p: Phase) -> Seq<char> {
    match p {
        Phase::Ready => "OTAREADY"@,
        Phase::Ack => "K"@,
        _ => "OTADONE"@,
    }
}

/// A phase that waits for a line.
pub open spec fn waits(p: Phase) -> bool {
    p is Ready || p is Ack || p is Last
}

/// What a line means to an upload.
pub open spec fn heard(s: Session, line: Seq<char>) -> OtaReply {
    if s.phase is Last && s.target is Display {
        last_reply_of(line)
    } else {
        ota_reply_of(line, needle_of(s.phase))
    }
}

/// The phase that sends the next piece, or the last wait where there is none.
pub open spec fn next_phase(u: Upload) -> Phase {
    if u.sent < u.len {
        Phase::Piece
    } else {
        Phase::Last
    }
}

/// The progress in percent.
pub open spec fn progress(u: Upload) -> int {
    u.sent * 100 / (u.len as int)
}

/// The upload after the reply that it waited for, and the progress that is told.
pub open spec fn after_reply(s: Session) -> (Session, Option<int>) {
    match s.phase {
        Phase::Ready => (Session { phase: next_phase(s.up), ..s }, None),
        Phase::Ack => (Session { phase: next_phase(s.up), ..s }, Some(progress(s.up))),
        _ => (Session { phase: Phase::Over(Ending::Done), ..s }, None),
    }
}

/// How an upload ends whose wait fails. Silence after the whole image is no failure: the
/// device has rebooted already.
pub open spec fn failed_wait(s: Session, e: WaitError) -> Ending {
    match s.phase {
        Phase::Ready => Ending::NotReady(e),
        Phase::Ack => Ending::NoAck(s.up.sent, e),
        _ => if e is Device {
            Ending::Refused
        } else {
            Ending::Rebooting
        },
    }
}

/// The upload after something was sent, or was not. The display unit is waited for also
/// where the announcement could not be written.
pub open spec fn after_sending(s: Session, ok: bool) -> (Session, Option<int>) {
    match s.phase {
        Phase::Announce => (
            Session {
                phase: if ok || s.target is Display {
                    Phase::Ready
                } else {
                    Phase::Over(Ending::NotAnnounced)
                },
                ..s
            },
            None,
        ),
        Phase::Piece => if ok {
            let up = Upload { sent: next_sent(s.up) as usize, ..s.up };
            if up.sent < up.len {
                (Session { up, phase: Phase::Ack, ..s }, None)
            } else {
                (Session { up, phase: Phase::Last, ..s }, Some(progress(up)))
            }
        } else {
            (Session { phase: Phase::Over(Ending::WriteError(s.up.sent)), ..s }, None)
        },
        _ => (s, None),
    }
}

/// The upload after an event, and the progress that is told. What does not belong to the
/// phase changes nothing.
pub open spec fn stepped(s: Session, e: EventView) -> (Session, Option<int>) {
    match e {
        EventView::Sent(ok) => after_sending(s, ok),
        EventView::Line(line) => if !waits(s.phase) {
            (s, None)
        } else {
            match heard(s, line) {
                OtaReply::Skip => (s, None),
                OtaReply::Arrived => after_reply(s),
                OtaReply::Failed => (
                    Session { phase: Phase::Over(failed_wait(s, WaitError::Device)), ..s },
                    None,
                ),
            }
        },
        EventView::TimedOut => if !waits(s.phase) {
            (s, None)
        } else {
            (Session { phase: Phase::Over(failed_wait(s, WaitError::Timeout)), ..s }, None)
        },
    }
}

/// A line of the log.
pub open spec fn logged(text: Seq<char>) -> Seq<char> {
    text + "\n"@
}

/// What the log says behind a wait that failed.
pub open spec fn behind_failure(s: Session) -> Seq<char> {
    if s.phase is Ack {
        logged(note_text(OtaNote::NoAck(s.up.sent)))
    } else {
        Seq::empty()
    }
}

/// What goes to the log of the display unit when an event comes in.
pub open spec fn log_text(s: Session, e: EventView) -> Seq<char> {
    match e {
        EventView::Sent(ok) => if s.phase is Piece && !ok {
            logged(note_text(OtaNote::WriteError))
        } else {
            Seq::empty()
        },
        EventView::Line(line) => if !waits(s.phase) {
            Seq::empty()
        } else {
            match heard(s, line) {
                OtaReply::Skip => Seq::empty(),
                OtaReply::Arrived => if s.phase is Last {
                    logged(note_text(OtaNote::Done))
                } else {
                    Seq::empty()
                },
                OtaReply::Failed => logged("OTA: device error: "@ + trim(line)) + behind_failure(s),
            }
        },
        EventView::TimedOut => if !waits(s.phase) {
            Seq::empty()
        } else if s.phase is Last {
            logged(note_text(OtaNote::Rebooting))
        } else {
            logged("OTA: timed out waiting for "@ + needle_of(s.phase)) + behind_failure(s)
        },
    }
}

/// What is said of an upload to the handbrake that failed.
pub open spec fn error_text(e: Ending) -> Option<Seq<char>> {
    match e {
        Ending::Done | Ending::Rebooting => None,
        Ending::NotAnnounced => Some("write failed"@),
        Ending::NotReady(w) => Some(wait_error_text(w, "OTAREADY"@)),
        Ending::WriteError(at) => Some("write error at "@ + dec_text(at as nat)),
        Ending::NoAck(at, w) => Some(
            "no ack at "@ + dec_text(at as nat) + ": "@ + wait_error_text(w, "K"@),
        ),
        Ending::Refused => Some(wait_error_text(WaitError::Device, "OTADONE"@)),
    }
}

/// Whether an upload was a success.
pub fn succeeded(e: Ending) -> (r: bool)
    ensures
        r == succeeds(e),
{
    match e {
        Ending::Done | Ending::Rebooting => true,
        _ => false,
    }
}

/// What is said of an upload to the handbrake; `None` where it was a success.
pub fn error_of(e: Ending) -> (r: Option<String>)
    ensures
        match r {
            Some(s) => error_text(e) == Some(s@),
            None => error_text(e) is None,
        },
        r is None <==> succeeds(e),
{
    match e {
        Ending::Done | Ending::Rebooting => None,
        Ending::NotAnnounced => Some(String::from_str("write failed")),
        Ending::NotReady(w) => Some(wait_error(w, "OTAREADY")),
        Ending::WriteError(at) => Some(write_error(at)),
        Ending::NoAck(at, w) => {
            let why = wait_error(w, "K");
            Some(no_ack(at, why.as_str()))
        },
        Ending::Refused => Some(wait_error(WaitError::Device, "OTADONE")),
    }
}

impl Session {
    /// A piece is only sent while there is one, an acknowledgement only waited for
    /// between two pieces, and the last reply only once the whole image is out.
    pub open spec fn wf(self) -> bool {
        &&& self.up.wf()
        &&& match self.phase {
            Phase::Announce | Phase::Ready => self.up.sent == 0,
            Phase::Piece => self.up.sent < self.up.len,
            Phase::Ack => 0 < self.up.sent < self.up.len,
            Phase::Last => self.up.sent == self.up.len,
            Phase::Over(e) => e is Done || e is Rebooting || e is Refused ==> self.up.sent
                == self.up.len,
        }
    }

    /// An upload of `len` bytes that has not begun.
    pub fn new(target: Target, len: usize) -> (r: Session)
        requires
            len * 100 <= usize::MAX,
        ensures
            r == (Session { target, up: Upload { len, sent: 0 }, phase: Phase::Announce }),
            r.wf(),
    {
        Session { target, up: Upload::new(len), phase: Phase::Announce }
    }

    /// What is done next.
    pub fn todo(&self) -> (r: Todo)
        requires
            self.wf(),
        ensures
            r == match self.phase {
                Phase::Announce => Todo::Announce(self.up.len),
                Phase::Ready => Todo::Wait(READY_MS),
                Phase::Piece => Todo::Send(self.up.sent, next_sent(self.up) as usize),
                Phase::Ack => Todo::Wait(ACK_MS),
                Phase::Last => Todo::Wait(DONE_MS),
                Phase::Over(e) => Todo::Stop(e),
            },
            self.phase is Ready ==> r == Todo::Wait(12_000),
            self.phase is Ack ==> r == Todo::Wait(6_000),
            self.phase is Last ==> r == Todo::Wait(8_000),
    {
        match self.phase {
            Phase::Announce => Todo::Announce(self.up.len),
            Phase::Ready => Todo::Wait(READY_MS),
            Phase::Piece => match self.up.piece() {
                Some((from, to)) => Todo::Send(from, to),
                None => Todo::Wait(DONE_MS),
            },
            Phase::Ack => Todo::Wait(ACK_MS),
            Phase::Last => Todo::Wait(DONE_MS),
            Phase::Over(e) => Todo::Stop(e),
        }
    }

    /// The reply that the phase waits for.
    fn needle(&self) -> (s: &'static str)
        ensures
            s@ == needle_of(self.phase),
    {
        match self.phase {
            Phase::Ready => "OTAREADY",
            Phase::Ack => "K",
            _ => "OTADONE",
        }
    }

    /// Whether the phase waits for a line.
    fn is_waiting(&self) -> (r: bool)
        ensures
            r == waits(self.phase),
    {
        match self.phase {
            Phase::Ready | Phase::Ack | Phase::Last => true,
            _ => false,
        }
    }

    /// What a line means.
    fn hear(&self, line: &str) -> (r: OtaReply)
        ensures
            r == heard(*self, line@),
    {
        if self.phase == Phase::Last && self.target == Target::Display {
            last_reply(line)
        } else {
            ota_reply(line, self.needle())
        }
    }

    /// How the upload ends where its wait fails.
    fn fail(&self, e: WaitError) -> (r: Ending)
        ensures
            r == failed_wait(*self, e),
    {
        match self.phase {
            Phase::Ready => Ending::NotReady(e),
            Phase::Ack => Ending::NoAck(self.up.sent, e),
            _ => if e == WaitError::Device {
                Ending::Refused
            } else {
                Ending::Rebooting
            },
        }
    }

    /// Something was sent, or was not.
    fn sent(&mut self, ok: bool) -> (r: Option<i32>)
        requires
            old(self).wf(),
        ensures
            final(self).wf(),
            *final(self) == after_sending(*old(self), ok).0,
            told(r) == after_sending(*old(self), ok).1,
    {
        match self.phase {
            Phase::Announce => {
                self.phase = if ok || self.target == Target::Display {
                    Phase::Ready
                } else {
                    Phase::Over(Ending::NotAnnounced)
                };
                None
            },
            Phase::Piece => {
                if ok {
                    let (acked, pct) = self.up.advance();
                    if acked {
                        self.phase = Phase::Ack;
                        None
                    } else {
                        self.phase = Phase::Last;
                        Some(pct)
                    }
                } else {
                    self.phase = Phase::Over(Ending::WriteError(self.up.sent));
                    None
                }
            },
            _ => None,
        }
    }

    /// The reply that was waited for has come.
    fn arrived(&mut self) -> (r: Option<i32>)
        requires
            old(self).wf(),
            waits(old(self).phase),
        ensures
            final(self).wf(),
            *final(self) == after_reply(*old(self)).0,
            told(r) == after_reply(*old(self)).1,
    {
        match self.phase {
            Phase::Ready => {
                self.phase = if self.up.sent < self.up.len {
                    Phase::Piece
                } else {
                    Phase::Last
                };
                None
            },
            Phase::Ack => {
                let u = self.up;
                proof {
                    assert(0 <= u.sent * 100 <= u.len * 100) by (nonlinear_arith)
                        requires
                            u.sent <= u.len,
                    ;
                    assert(0 <= u.sent * 100 / (u.len as int) <= 100) by (nonlinear_arith)
                        requires
                            0 <= u.sent * 100 <= u.len * 100,
                            u.len > 0,
                    ;
                }
                self.phase = Phase::Piece;
                Some((u.sent * 100 / u.len) as i32)
            },
            _ => {
                self.phase = Phase::Over(Ending::Done);
                None
            },
        }
    }

    /// Takes an event. Returns the progress in percent, where there is some to tell.
    pub fn step(&mut self, e: &Event) -> (r: Option<i32>)
        requires
            old(self).wf(),
        ensures
            final(self).wf(),
            *final(self) == stepped(*old(self), e@).0,
            told(r) == stepped(*old(self), e@).1,
    {
        match e {
            Event::Sent(ok) => self.sent(*ok),
            Event::Line(line) => {
                if !self.is_waiting() {
                    return None;
                }
                match self.hear(line.as_str()) {
                    OtaReply::Skip => None,
                    OtaReply::Arrived => self.arrived(),
                    OtaReply::Failed => {
                        self.phase = Phase::Over(self.fail(WaitError::Device));
                        None
                    },
                }
            },
            Event::TimedOut => {
                if self.is_waiting() {
                    self.phase = Phase::Over(self.fail(WaitError::Timeout));
                }
                None
            },
        }
    }

    /// What the log says behind a wait that failed.
    fn log_behind(&self, log: &mut String)
        ensures
            final(log)@ == old(log)@ + behind_failure(*self),
    {
        match self.phase {
            Phase::Ack => {
                let n = ota_note(OtaNote::NoAck(self.up.sent));
                log_line(log, n.as_str());
                proof {
                    assert(log@ =~= old(log)@ + behind_failure(*self));
                }
            },
            _ => {
                proof {
                    assert(log@ =~= old(log)@ + behind_failure(*self));
                }
            },
        }
    }

    /// What goes to the log of the display unit when an event comes in, before it is
    /// taken.
    pub fn log(&self, e: &Event) -> (s: String)
        ensures
            s@ == log_text(*self, e@),
    {
        let mut log = String::new();
        match e {
            Event::Sent(ok) => {
                if self.phase == Phase::Piece && !*ok {
                    let n = ota_note(OtaNote::WriteError);
                    log_line(&mut log, n.as_str());
                }
            },
            Event::Line(line) => {
                if self.is_waiting() {
                    match self.hear(line.as_str()) {
                        OtaReply::Skip => {},
                        OtaReply::Arrived => {
                            if self.phase == Phase::Last {
                                let n = ota_note(OtaNote::Done);
                                log_line(&mut log, n.as_str());
                            }
                        },
                        OtaReply::Failed => {
                            let n = device_error(line.as_str());
                            log_line(&mut log, n.as_str());
                            self.log_behind(&mut log);
                        },
                    }
                }
            },
            Event::TimedOut => {
                if self.phase == Phase::Last {
                    let n = ota_note(OtaNote::Rebooting);
                    log_line(&mut log, n.as_str());
                } else if self.is_waiting() {
                    let n = timed_out(self.needle());
                    log_line(&mut log, n.as_str());
                    self.log_behind(&mut log);
                }
            },
        }
        proof {
            assert(log@ =~= log_text(*self, e@));
        }
        log
    }
}

/// A progress that is told, as a plain value.
pub open spec fn told(p: Option<i32>) -> Option<int> {
    match p {
        Some(x) => Some(x as int),
        None => None,
    }
}

// ----------------------------------------------------------------------- laws

/// The upload after a run of events.
pub open spec fn after_events(s: Session, events: Seq<EventView>) -> Session
    decreases events.len(),
{
    if events.len() == 0 {
        s
    } else {
        stepped(after_events(s, events.drop_last()), events.last()).0
    }
}

/// Whatever happens, no upload is a success before the whole image has been sent.
pub proof fn success_needs_the_whole_image(s: Session, events: Seq<EventView>)
    requires
        s.wf(),
    ensures
        after_events(s, events).wf(),
        after_events(s, events).up.len == s.up.len,
        after_events(s, events).phase matches Phase::Over(e) && succeeds(e) ==> after_events(
            s,
            events,
        ).up.sent == s.up.len,
    decreases events.len(),
{
    if events.len() > 0 {
        success_needs_the_whole_image(s, events.drop_last());
    }
}

/// Once the whole image is out, only an explicit error is a failure: silence is none.
pub proof fn silence_after_the_image_is_success(s: Session)
    requires
        s.phase is Last,
    ensures
        stepped(s, EventView::TimedOut).0.phase == Phase::Over(Ending::Rebooting),
        succeeds(Ending::Rebooting),
        forall|line: Seq<char>|
            (#[trigger] stepped(s, EventView::Line(line))).0.phase matches Phase::Over(e)
                && !succeeds(e) ==> heard(s, line) == OtaReply::Failed,
{
}

/// An upload that is over stays as it is.
pub proof fn endings_are_final(s: Session, e: EventView)
    requires
        s.phase is Over,
    ensures
        stepped(s, e) == (s, None::<int>),
{
}

/// What is waited for: `OTAREADY` before the image, `K` behind a piece, and `OTADONE`
/// behind the whole. The last reply of a display unit is read on its own terms.
pub proof fn replies_are_waited_for(s: Session, line: Seq<char>)
    ensures
        s.phase is Ready ==> heard(s, line) == ota_reply_of(line, "OTAREADY"@),
        s.phase is Ack ==> heard(s, line) == ota_reply_of(line, "K"@),
        s.phase is Last && s.target is Handbrake ==> heard(s, line) == ota_reply_of(
            line,
            "OTADONE"@,
        ),
        s.phase is Last && s.target is Display ==> heard(s, line) == last_reply_of(line),
        waits(s.phase) <==> s.phase is Ready || s.phase is Ack || s.phase is Last,
{
}

/// How an upload goes on: once announced the device is waited for; a piece that was sent
/// is waited for unless it was the last; each reply calls for the next piece, or for the
/// last reply once none is left. The percentage is told behind each piece, the whole
/// image is 100, and nothing else changes.
pub proof fn uploads_go_on(s: Session, line: Seq<char>)
    requires
        s.wf(),
        s.up.len > 0,
        heard(s, line) is Arrived,
    ensures
        s.phase is Announce ==> stepped(s, EventView::Sent(true)) == (
            Session { phase: Phase::Ready, ..s },
            None::<int>,
        ),
        s.phase is Ready ==> stepped(s, EventView::Line(line)) == (
            Session { phase: Phase::Piece, ..s },
            None::<int>,
        ),
        s.phase is Piece && s.up.len - s.up.sent > 2048 ==> ({
            let (t, told) = stepped(s, EventView::Sent(true));
            &&& t.phase is Ack && told is None
            &&& t.up.sent == s.up.sent + 2048 && t.up.len == s.up.len && t.target == s.target
        }),
        s.phase is Piece && s.up.len - s.up.sent <= 2048 ==> ({
            let (t, told) = stepped(s, EventView::Sent(true));
            &&& t.phase is Last && told == Some(100int)
            &&& t.up.sent == s.up.len && t.up.len == s.up.len && t.target == s.target
        }),
        s.phase is Ack ==> ({
            let (t, told) = stepped(s, EventView::Line(line));
            &&& t == (Session { phase: Phase::Piece, ..s })
            &&& told matches Some(p) && p * s.up.len <= s.up.sent * 100 < (p + 1) * s.up.len
        }),
        s.phase is Last ==> stepped(s, EventView::Line(line)) == (
            Session { phase: Phase::Over(Ending::Done), ..s },
            None::<int>,
        ),
{
    let d = s.up.len as int;
    let a = s.up.sent * 100;
    vstd::arithmetic::div_mod::lemma_fundamental_div_mod(a, d);
    vstd::arithmetic::div_mod::lemma_mod_bound(a, d);
    assert((a / d) * d == d * (a / d)) by (nonlinear_arith);
    assert((a / d + 1) * d == d * (a / d) + d) by (nonlinear_arith);
    vstd::arithmetic::div_mod::lemma_div_multiples_vanish(100, d);
}

/// How an upload fails: where the announcement to a handbrake or a piece cannot be
/// written, and where the device reports an error or says nothing in time, each with how
/// much had been sent. A display unit is waited for all the same.
pub proof fn uploads_fail(s: Session, line: Seq<char>)
    requires
        heard(s, line) is Failed,
    ensures
        s.phase is Announce && s.target is Handbrake ==> stepped(s, EventView::Sent(false)).0.phase
            == Phase::Over(Ending::NotAnnounced),
        s.phase is Announce && s.target is Display ==> stepped(s, EventView::Sent(false)).0.phase
            == Phase::Ready,
        s.phase is Piece ==> stepped(s, EventView::Sent(false)).0.phase == Phase::Over(
            Ending::WriteError(s.up.sent),
        ),
        s.phase is Ready ==> stepped(s, EventView::Line(line)).0.phase == Phase::Over(
            Ending::NotReady(WaitError::Device),
        ) && stepped(s, EventView::TimedOut).0.phase == Phase::Over(
            Ending::NotReady(WaitError::Timeout),
        ),
        s.phase is Ack ==> stepped(s, EventView::Line(line)).0.phase == Phase::Over(
            Ending::NoAck(s.up.sent, WaitError::Device),
        ) && stepped(s, EventView::TimedOut).0.phase == Phase::Over(
            Ending::NoAck(s.up.sent, WaitError::Timeout),
        ),
        s.phase is Last ==> stepped(s, EventView::Line(line)).0.phase == Phase::Over(
            Ending::Refused,
        ),
        forall|ok: bool| waits(s.phase) ==> (#[trigger] stepped(s, EventView::Sent(ok))).0 == s,
        !succeeds(Ending::NotAnnounced) && !succeeds(Ending::Refused) && !succeeds(
            Ending::WriteError(s.up.sent),
        ),
        !succeeds(Ending::NotReady(WaitError::Timeout)) && !succeeds(
            Ending::NoAck(s.up.sent, WaitError::Timeout),
        ),
        succeeds(Ending::Done) && succeeds(Ending::Rebooting),
{
}

/// A line that means nothing to the upload leaves it as it is and logs nothing.
pub proof fn other_lines_are_passed_over(s: Session, line: Seq<char>)
    requires
        heard(s, line) is Skip || !waits(s.phase),
    ensures
        stepped(s, EventView::Line(line)) == (s, None::<int>),
        log_text(s, EventView::Line(line)).len() == 0,
{
}

/// What the log of a display unit says: of a piece that could not be written, of the
/// error a device reports, of a wait that was too long, and of the end. Behind a failed
/// wait for a piece stands how much had been sent.
pub proof fn logs_say_what_happened(s: Session, line: Seq<char>, fault: Seq<char>)
    requires
        heard(s, line) is Arrived,
        heard(s, fault) is Failed,
    ensures
        s.phase is Piece ==> log_text(s, EventView::Sent(false)) == "OTA: write error"@ + "\n"@,
        log_text(s, EventView::Sent(true)).len() == 0,
        s.phase is Ready || s.phase is Ack ==> log_text(s, EventView::Line(line)).len() == 0,
        s.phase is Last ==> log_text(s, EventView::Line(line)) == "OTA: OTADONE"@ + "\n"@,
        s.phase is Last ==> log_text(s, EventView::TimedOut) == "OTA: done (device rebooting)"@
            + "\n"@,
        s.phase is Ready ==> log_text(s, EventView::TimedOut) == "OTA: timed out waiting for "@
            + "OTAREADY"@ + "\n"@,
        s.phase is Ready || s.phase is Last ==> log_text(s, EventView::Line(fault))
            == "OTA: device error: "@ + trim(fault) + "\n"@,
        s.phase is Ack ==> log_text(s, EventView::TimedOut) == "OTA: timed out waiting for "@
            + "K"@ + "\n"@ + ("OTA: no ack at "@ + dec_text(s.up.sent as nat) + "\n"@),
        s.phase is Ack ==> log_text(s, EventView::Line(fault)) == "OTA: device error: "@ + trim(
            fault,
        ) + "\n"@ + ("OTA: no ack at "@ + dec_text(s.up.sent as nat) + "\n"@),
{
    let a = "OTA: timed out waiting for "@ + "OTAREADY"@ + "\n"@;
    assert(a + Seq::<char>::empty() =~= a);
    let b = "OTA: device error: "@ + trim(fault) + "\n"@;
    assert(b + Seq::<char>::empty() =~= b);
}

/// What is said of an upload to the handbrake that failed; nothing of one that did not.
pub proof fn failures_are_told(at: usize)
    ensures
        error_text(Ending::Done) is None,
        error_text(Ending::Rebooting) is None,
        error_text(Ending::NotAnnounced) == Some("write failed"@),
        error_text(Ending::NotReady(WaitError::Device)) == Some("device error: OTAERR"@),
        error_text(Ending::NotReady(WaitError::Timeout)) == Some(
            "timed out waiting for "@ + "OTAREADY"@,
        ),
        error_text(Ending::WriteError(at)) == Some("write error at "@ + dec_text(at as nat)),
        error_text(Ending::NoAck(at, WaitError::Device)) == Some(
            "no ack at "@ + dec_text(at as nat) + ": "@ + "device error: OTAERR"@,
        ),
        error_text(Ending::NoAck(at, WaitError::Timeout)) == Some(
            "no ack at "@ + dec_text(at as nat) + ": "@ + ("timed out waiting for "@ + "K"@),
        ),
        error_text(Ending::Refused) == Some("device error: OTAERR"@),
{
}

} // verus!
