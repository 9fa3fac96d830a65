//! The display unit as the host sees it: its commands, and the upload of a firmware
//! image.

use vstd::prelude::*;
use vstd::string::StringExecFns;
use vstd::utf8::encode_utf8;
use crate::dash::usb::{command_of, number_of, Command};
use crate::handbrake::runtime as handbrake;
use crate::json::{bool_text, boolean, object, object_text};
use crate::pedals::runtime as pedals;
use crate::text::{
    chars_of, contains, dec_string, dec_text, has_text, int_string, int_text, is_digit,
    lemma_after_prefix, lemma_dec_text, lemma_int_text, lemma_not_after, lemma_trim_none,
    owned_pairs, same, string_of, trim, trimmed,
};

verus! {

/// The image goes out in pieces of this size, each of which is acknowledged.
pub const ACK: usize = 2048;

/// The name of a command and what it carries, as they go out.
pub fn command_line(name: &str, body: &str) -> (s: String)
    ensures
        s@ == name@ + body@ + "\n"@,
{
    let mut s = String::from_str(name);
    s.append(body);
    s.append("\n");
    s
}

/// A frame or a line that is sent without a reply; `None` where it is empty.
pub fn push_line(line: &str) -> (r: Option<String>)
    ensures
        match r {
            Some(s) => line@.len() > 0 && s@ == line@ + "\n"@,
            None => line@.len() == 0,
        },
{
    let c = chars_of(line);
    if c.len() == 0 {
        return None;
    }
    let mut s = String::from_str(line);
    s.append("\n");
    Some(s)
}

/// Whether a reply says that the command was taken.
pub fn accepted(reply: &str) -> (r: bool)
    ensures
        r == (has_text(reply@, "OK"@) || has_text(reply@, "READY"@)),
{
    let c = chars_of(reply);
    contains(c.as_slice(), "OK") || contains(c.as_slice(), "READY")
}

/// What can be pushed to the unit as JSON.
#[derive(Clone, Copy, Debug, PartialEq, Eq, Structural)]
pub enum Push {
    Profile,
    Car,
    Race,
    Ui,
    /// The layout of the editor, which the unit keeps and hands back as it is.
    Editor,
    Buttons,
    Shift,
}

/// The name of a push.
pub open spec fn push_name(p: Push) -> Seq<char> {
    match p {
        Push::Profile => "@P"@,
        Push::Car => "@C"@,
        Push::Race => "@RS"@,
        Push::Ui => "@UI"@,
        Push::Editor => "@EL"@,
        Push::Buttons => "@BS"@,
        Push::Shift => "@SL"@,
    }
}

/// A push as the log calls it.
pub open spec fn push_label(p: Push) -> Seq<char> {
    match p {
        Push::Profile => "profile: "@,
        Push::Car => "car: "@,
        Push::Race => "race: "@,
        Push::Ui => "ui: "@,
        Push::Editor => "editor: "@,
        Push::Buttons => "buttons: "@,
        Push::Shift => "shift: "@,
    }
}

/// The line of a push.
pub fn pushed(p: Push, json: &str) -> (s: String)
    ensures
        s@ == push_name(p) + json@ + "\n"@,
{
    match p {
        Push::Profile => command_line("@P", json),
        Push::Car => command_line("@C", json),
        Push::Race => command_line("@RS", json),
        Push::Ui => command_line("@UI", json),
        Push::Editor => command_line("@EL", json),
        Push::Buttons => command_line("@BS", json),
        Push::Shift => command_line("@SL", json),
    }
}

/// What the log says of a push that was answered.
pub fn push_note(p: Push, reply: &str) -> (s: String)
    ensures
        s@ == push_label(p) + reply@,
{
    let mut s = match p {
        Push::Profile => String::from_str("profile: "),
        Push::Car => String::from_str("car: "),
        Push::Race => String::from_str("race: "),
        Push::Ui => String::from_str("ui: "),
        Push::Editor => String::from_str("editor: "),
        Push::Buttons => String::from_str("buttons: "),
        Push::Shift => String::from_str("shift: "),
    };
    s.append(reply);
    s
}

/// What the panel settings carry.
pub open spec fn disp_pairs(rot: int, flip_h: bool, flip_v: bool, bgr: bool, inv: bool) -> Seq<
    (Seq<char>, Seq<char>),
> {
    seq![
        ("rot"@, int_text(rot)),
        ("fh"@, bool_text(flip_h)),
        ("fv"@, bool_text(flip_v)),
        ("bgr"@, bool_text(bgr)),
        ("inv"@, bool_text(inv)),
    ]
}

/// The command that sets the panels.
pub fn disp_line(rot: i32, flip_h: bool, flip_v: bool, bgr: bool, inv: bool) -> (s: String)
    ensures
        s@ == "@DO"@ + object_text(disp_pairs(rot as int, flip_h, flip_v, bgr, inv)) + "\n"@,
{
    let mut kv: Vec<(&str, String)> = Vec::new();
    kv.push(("rot", int_string(rot as i64)));
    kv.push(("fh", boolean(flip_h)));
    kv.push(("fv", boolean(flip_v)));
    kv.push(("bgr", boolean(bgr)));
    kv.push(("inv", boolean(inv)));
    proof {
        assert(owned_pairs(kv@) =~= disp_pairs(rot as int, flip_h, flip_v, bgr, inv));
    }
    let body = object(&kv);
    command_line("@DO", body.as_str())
}

/// The command that sets the brightness.
pub fn brightness_line(pct: i32) -> (s: String)
    ensures
        s@ == "@B"@ + int_text(pct as int) + "\n"@,
{
    let n = int_string(pct as i64);
    command_line("@B", n.as_str())
}

/// The command that starts an upload.
pub fn ota_line(len: usize) -> (s: String)
    ensures
        s@ == "@OTA"@ + dec_text(len as nat) + "\n"@,
{
    let n = dec_string(len as u64);
    command_line("@OTA", n.as_str())
}

/// A line of the log.
pub fn log_line(log: &mut String, s: &str)
    ensures
        final(log)@ == old(log)@ + s@ + "\n"@,
{
    log.append(s);
    log.append("\n");
}

// --------------------------------------------------------------------- upload

/// What the log says of an upload.
#[derive(Clone, Copy, Debug, PartialEq, Eq, Structural)]
pub enum OtaNote {
    WriteError,
    /// A piece was not acknowledged; so much had been sent.
    NoAck(usize),
    /// The device confirmed the image.
    Done,
    /// The device said nothing more, as one that reboots does not.
    Rebooting,
}

/// What the log says of an upload.
pub open spec fn note_text(n: OtaNote) -> Seq<char> {
    match n {
        OtaNote::WriteError => "OTA: write error"@,
        OtaNote::NoAck(sent) => "OTA: no ack at "@ + dec_text(sent as nat),
        OtaNote::Done => "OTA: OTADONE"@,
        OtaNote::Rebooting => "OTA: done (device rebooting)"@,
    }
}

/// What the log says of an upload.
pub fn ota_note(n: OtaNote) -> (s: String)
    ensures
        s@ == note_text(n),
{
    match n {
        OtaNote::WriteError => String::from_str("OTA: write error"),
        OtaNote::NoAck(sent) => {
            let mut s = String::from_str("OTA: no ack at ");
            let d = dec_string(sent as u64);
            s.append(d.as_str());
            s
        },
        OtaNote::Done => String::from_str("OTA: OTADONE"),
        OtaNote::Rebooting => String::from_str("OTA: done (device rebooting)"),
    }
}

/// What the log says of a device that gave up.
pub fn device_error(line: &str) -> (s: String)
    ensures
        s@ == "OTA: device error: "@ + trim(line@),
{
    let c = chars_of(line);
    let t = string_of(trimmed(c.as_slice()));
    let mut s = String::from_str("OTA: device error: ");
    s.append(t.as_str());
    s
}

/// What the log says of a reply that did not come.
pub fn timed_out(needle: &str) -> (s: String)
    ensures
        s@ == "OTA: timed out waiting for "@ + needle@,
{
    let mut s = String::from_str("OTA: timed out waiting for ");
    s.append(needle);
    s
}

/// What a line means while a reply of an upload is waited for.
#[derive(Clone, Copy, Debug, PartialEq, Eq, Structural)]
pub enum OtaReply {
    /// Something else on the channel.
    Skip,
    /// The device gave up.
    Failed,
    /// The reply that is waited for.
    Arrived,
}

/// What a line means while `needle` is waited for. A needle of more than two bytes may
/// stand within a longer line.
pub open spec fn ota_reply_of(line: Seq<char>, needle: Seq<char>) -> OtaReply {
    let t = trim(line);
    if t.len() == 0 {
        OtaReply::Skip
    } else if has_text(t, "OTAERR"@) {
        OtaReply::Failed
    } else if t == needle || encode_utf8(needle).len() > 2 && has_text(t, needle) {
        OtaReply::Arrived
    } else {
        OtaReply::Skip
    }
}

/// What a line means while `needle` is waited for.
pub fn ota_reply(line: &str, needle: &str) -> (r: OtaReply)
    ensures
        r == ota_reply_of(line@, needle@),
{
    let c = chars_of(line);
    let t = trimmed(c.as_slice());
    if t.len() == 0 {
        OtaReply::Skip
    } else if contains(t, "OTAERR") {
        OtaReply::Failed
    } else if same(t, needle) || (needle.as_bytes().len() > 2 && contains(t, needle)) {
        OtaReply::Arrived
    } else {
        OtaReply::Skip
    }
}

/// What a line means once the whole image is out.
pub open spec fn last_reply_of(line: Seq<char>) -> OtaReply {
    let t = trim(line);
    if has_text(t, "OTADONE"@) {
        OtaReply::Arrived
    } else if has_text(t, "OTAERR"@) {
        OtaReply::Failed
    } else {
        OtaReply::Skip
    }
}

/// What a line means once the whole image is out.
pub fn last_reply(line: &str) -> (r: OtaReply)
    ensures
        r == last_reply_of(line@),
{
    let c = chars_of(line);
    let t = trimmed(c.as_slice());
    if contains(t, "OTADONE") {
        OtaReply::Arrived
    } else if contains(t, "OTAERR") {
        OtaReply::Failed
    } else {
        OtaReply::Skip
    }
}

/// How long one read waits, given what is left of the time.
pub fn read_ms(remaining: u64) -> (r: u64)
    ensures
        r == if remaining < 1 {
            1
        } else if remaining > 2000 {
            2000
        } else {
            remaining
        },
{
    if remaining < 1 {
        1
    } else if remaining > 2000 {
        2000
    } else {
        remaining
    }
}

/// An upload that is running.
#[derive(Clone, Copy, Debug, PartialEq, Eq, Structural)]
pub struct Upload {
    pub len: usize,
    pub sent: usize,
}

/// How far an upload is after its next piece.
pub open spec fn next_sent(u: Upload) -> int {
    if u.len - u.sent > ACK {
        u.sent + ACK
    } else {
        u.len as int
    }
}

impl Upload {
    /// No more is sent than there is.
    pub open spec fn wf(self) -> bool {
        self.sent <= self.len && self.len * 100 <= usize::MAX
    }

    pub fn new(len: usize) -> (r: Upload)
        requires
            len * 100 <= usize::MAX,
        ensures
            r == (Upload { len, sent: 0 }),
            r.wf(),
    {
        Upload { len, sent: 0 }
    }

    /// The next piece, by its ends; `None` once all is sent.
    pub fn piece(&self) -> (r: Option<(usize, usize)>)
        requires
            self.wf(),
        ensures
            match r {
                Some((from, to)) => self.sent < self.len && from == self.sent && to == next_sent(
                    *self,
                ),
                None => self.sent == self.len,
            },
    {
        if self.sent >= self.len {
            return None;
        }
        Some(
            (
                self.sent,
                if self.len - self.sent > ACK {
                    self.sent + ACK
                } else {
                    self.len
                },
            ),
        )
    }

    /// The piece is out: whether its acknowledgement is waited for, which it is
    /// unless it was the last, and the progress in percent.
    pub fn advance(&mut self) -> (r: (bool, i32))
        requires
            old(self).wf(),
            old(self).sent < old(self).len,
        ensures
            *final(self) == (Upload { sent: next_sent(*old(self)) as usize, ..*old(self) }),
            final(self).wf(),
            r.0 == (final(self).sent < final(self).len),
            r.1 == final(self).sent * 100 / (final(self).len as int),
            0 <= r.1 <= 100,
    {
        self.sent = if self.len - self.sent > ACK {
            self.sent + ACK
        } else {
            self.len
        };
        proof {
            assert(0 <= self.sent * 100 <= self.len * 100) by (nonlinear_arith)
                requires
                    self.sent <= self.len,
            ;
            assert(0 <= self.sent * 100 / (self.len as int) <= 100) by (nonlinear_arith)
                requires
                    0 <= self.sent * 100 <= self.len * 100,
                    self.len > 0,
            ;
        }
        (self.sent < self.len, (self.sent * 100 / self.len) as i32)
    }
}

/// How far an upload is after a number of pieces.
pub open spec fn after_pieces(len: int, n: nat) -> int {
    if ACK * n >= len {
        len
    } else {
        ACK * n
    }
}

/// The bytes of the first `n` pieces of an image, one behind the other.
pub open spec fn piece_bytes(image: Seq<u8>, n: nat) -> Seq<u8>
    decreases n,
{
    if n == 0 {
        Seq::empty()
    } else {
        let before = (n - 1) as nat;
        let len = image.len() as int;
        piece_bytes(image, before) + image.subrange(
            after_pieces(len, before),
            after_pieces(len, n),
        )
    }
}

/// The pieces follow each other without a gap, so that after so many pieces the device
/// has been sent the start of the image, every byte once and in order, and the whole of
/// it in the end.
pub proof fn pieces_cover_the_image(image: Seq<u8>, n: nat)
    ensures
        piece_bytes(image, n) == image.take(after_pieces(image.len() as int, n)),
        ACK * n >= image.len() ==> piece_bytes(image, n) == image,
    decreases n,
{
    let len = image.len() as int;
    if n > 0 {
        let before = (n - 1) as nat;
        pieces_cover_the_image(image, before);
        let (a, b) = (after_pieces(len, before), after_pieces(len, n));
        assert(image.take(a) + image.subrange(a, b) =~= image.take(b));
    } else {
        assert(image.take(0) =~= Seq::<u8>::empty());
    }
    assert(image.take(len) =~= image);
}

/// An upload that has sent so many pieces sends the next of them.
pub proof fn next_piece_is_the_next(u: Upload, n: nat)
    requires
        u.sent == after_pieces(u.len as int, n),
        u.sent < u.len,
    ensures
        next_sent(u) == after_pieces(u.len as int, n + 1),
        next_sent(u) > u.sent,
{
}

/// What a unit understands a push as. The layout of the editor is not among what every
/// unit knows.
pub open spec fn meant(p: Push, json: Seq<char>) -> Command {
    match p {
        Push::Profile => Command::Profile(json),
        Push::Car => Command::Car(json),
        Push::Race => Command::SetRace(json),
        Push::Ui => Command::SetUi(json),
        Push::Editor => Command::Unknown,
        Push::Buttons => Command::Buttons(json),
        Push::Shift => Command::Car(json),
    }
}

/// A push of a JSON object is understood as that push, though some of the commands
/// start with the name of another.
pub proof fn pushes_are_understood(p: Push, json: Seq<char>)
    requires
        json.len() > 0,
        json[0] == '{',
    ensures
        command_of(push_name(p) + json) == meant(p, json),
{
    lemma_names();
    let line = push_name(p) + json;
    let name = push_name(p);
    lemma_after_prefix(name, json);
    assert(line[0] == '@');
    assert(line[0] != "?"@[0]);
    assert(line[1] == name[1]);
    assert(line[2] == if name.len() > 2 { name[2] } else { '{' });
    if p is Profile {
        lemma_not_after(line, "@PINS"@, 2);
    } else {
        lemma_not_after(line, "@PINS"@, 1);
        lemma_not_after(line, "@P"@, 1);
    }
    if !(p is Profile) && !(p is Buttons) {
        lemma_not_after(line, "@BS"@, 1);
        lemma_not_after(line, "@B"@, 1);
        lemma_not_after(line, "@CAP"@, if p is Car { 2 } else { 1 });
        assert(line[1] != "@T"@[1]);
        lemma_not_after(line, "@RG"@, if p is Race { 2 } else { 1 });
        if !(p is Race) {
            lemma_not_after(line, "@RS"@, 1);
            lemma_not_after(line, "@UG"@, if p is Ui { 2 } else { 1 });
            if !(p is Ui) {
                lemma_not_after(line, "@UI"@, 1);
                if !(p is Shift) {
                    lemma_not_after(line, "@SL"@, 1);
                    lemma_not_after(line, "@CM"@, if p is Car { 2 } else { 1 });
                }
            }
        }
    }
    if p is Editor {
        lemma_not_after(line, "@C"@, 1);
        lemma_not_after(line, "@OTA"@, 1);
        lemma_not_after(line, "@S"@, 1);
        assert(line.take(1) =~= "@"@);
    }
}

/// The announcement of an image is understood by every unit, as an update of exactly that
/// size.
pub proof fn uploads_are_understood(
    len: usize,
    pedal: pedals::Runtime,
    brake: handbrake::Runtime,
    fw: Seq<char>,
    serial: Seq<char>,
)
    requires
        len <= i32::MAX,
    ensures
        ({
            let line = "@OTA"@ + dec_text(len as nat);
            &&& command_of(line) matches Command::Ota(rest) && number_of(rest) == len
            &&& pedals::asked(pedal, line, fw, serial) == pedals::StepView::Ota(len as int)
            &&& handbrake::line_taken(brake, line, fw, serial) == (
                brake,
                handbrake::StepView::Ota(len as int),
            )
        }),
{
    lemma_names();
    let n = dec_text(len as nat);
    let line = "@OTA"@ + n;
    lemma_after_prefix("@OTA"@, n);
    lemma_dec_text(len as nat);
    assert(is_digit(n[0]) && is_digit(n[n.len() - 1]));
    lemma_trim_none(n);
    lemma_int_text(len as int, i32::MIN as int, i32::MAX as int);
    assert(line[0] == '@' && line[1] == 'O');
    assert(line[0] != "?"@[0]);
    assert(line[1] != "@T"@[1]);
    lemma_not_after(line, "@PINS"@, 1);
    lemma_not_after(line, "@P"@, 1);
    lemma_not_after(line, "@BS"@, 1);
    lemma_not_after(line, "@B"@, 1);
    lemma_not_after(line, "@CAP"@, 1);
    lemma_not_after(line, "@RG"@, 1);
    lemma_not_after(line, "@RS"@, 1);
    lemma_not_after(line, "@UG"@, 1);
    lemma_not_after(line, "@UI"@, 1);
    lemma_not_after(line, "@SL"@, 1);
    lemma_not_after(line, "@CM"@, 1);
    lemma_not_after(line, "@C"@, 1);
}

/// What the names look like.
proof fn lemma_names()
    ensures
        "?"@ =~= seq!['?'],
        "@"@ =~= seq!['@'],
        "@PINS"@ =~= seq!['@', 'P', 'I', 'N', 'S'],
        "@P"@ =~= seq!['@', 'P'],
        "@BS"@ =~= seq!['@', 'B', 'S'],
        "@B"@ =~= seq!['@', 'B'],
        "@CAP"@ =~= seq!['@', 'C', 'A', 'P'],
        "@T"@ =~= seq!['@', 'T'],
        "@RG"@ =~= seq!['@', 'R', 'G'],
        "@RS"@ =~= seq!['@', 'R', 'S'],
        "@UG"@ =~= seq!['@', 'U', 'G'],
        "@UI"@ =~= seq!['@', 'U', 'I'],
        "@SL"@ =~= seq!['@', 'S', 'L'],
        "@CM"@ =~= seq!['@', 'C', 'M'],
        "@C"@ =~= seq!['@', 'C'],
        "@OTA"@ =~= seq!['@', 'O', 'T', 'A'],
        "@S"@ =~= seq!['@', 'S'],
        "@EL"@ =~= seq!['@', 'E', 'L'],
{
    reveal_strlit("?");
    reveal_strlit("@");
    reveal_strlit("@PINS");
    reveal_strlit("@P");
    reveal_strlit("@BS");
    reveal_strlit("@B");
    reveal_strlit("@CAP");
    reveal_strlit("@T");
    reveal_strlit("@RG");
    reveal_strlit("@RS");
    reveal_strlit("@UG");
    reveal_strlit("@UI");
    reveal_strlit("@SL");
    reveal_strlit("@CM");
    reveal_strlit("@C");
    reveal_strlit("@OTA");
    reveal_strlit("@S");
    reveal_strlit("@EL");
}

/// Each push has its own name, and its own label in the log.
pub proof fn pushes_have_their_names(p: Push)
    ensures
        p is Profile ==> push_name(p) == "@P"@ && push_label(p) == "profile: "@,
        p is Car ==> push_name(p) == "@C"@ && push_label(p) == "car: "@,
        p is Race ==> push_name(p) == "@RS"@ && push_label(p) == "race: "@,
        p is Ui ==> push_name(p) == "@UI"@ && push_label(p) == "ui: "@,
        p is Editor ==> push_name(p) == "@EL"@ && push_label(p) == "editor: "@,
        p is Buttons ==> push_name(p) == "@BS"@ && push_label(p) == "buttons: "@,
        p is Shift ==> push_name(p) == "@SL"@ && push_label(p) == "shift: "@,
{
}

/// The settings of the panels stand under their own keys.
pub proof fn panel_settings_stand_under_their_keys(
    rot: int,
    flip_h: bool,
    flip_v: bool,
    bgr: bool,
    inv: bool,
)
    ensures
        ({
            let d = disp_pairs(rot, flip_h, flip_v, bgr, inv);
            &&& d.len() == 5
            &&& d[0].0 == "rot"@ && d[0].1 == int_text(rot)
            &&& d[1].0 == "fh"@ && d[1].1 == (if flip_h { "true"@ } else { "false"@ })
            &&& d[2].0 == "fv"@ && d[2].1 == (if flip_v { "true"@ } else { "false"@ })
            &&& d[3].0 == "bgr"@ && d[3].1 == (if bgr { "true"@ } else { "false"@ })
            &&& d[4].0 == "inv"@ && d[4].1 == (if inv { "true"@ } else { "false"@ })
        }),
{
}

/// What the log says of an upload.
pub proof fn notes_say_what_happened(sent: usize)
    ensures
        note_text(OtaNote::WriteError) == "OTA: write error"@,
        note_text(OtaNote::NoAck(sent)) == "OTA: no ack at "@ + dec_text(sent as nat),
        note_text(OtaNote::Done) == "OTA: OTADONE"@,
        note_text(OtaNote::Rebooting) == "OTA: done (device rebooting)"@,
{
}

/// While a reply is waited for, an error ends the wait wherever it stands in a line,
/// the reply itself ends it, and a blank line or another does not. A reply of more than
/// two bytes may stand in a longer line; a shorter one may not.
pub proof fn replies_are_told_from_the_rest(line: Seq<char>, needle: Seq<char>)
    ensures
        ({
            let t = trim(line);
            let r = ota_reply_of(line, needle);
            &&& t.len() == 0 ==> r is Skip
            &&& t.len() > 0 && has_text(t, "OTAERR"@) ==> r is Failed
            &&& t.len() > 0 && !has_text(t, "OTAERR"@) && t == needle ==> r is Arrived
            &&& t.len() > 0 && !has_text(t, "OTAERR"@) && encode_utf8(needle).len() > 2 ==> (
            r is Arrived <==> t == needle || has_text(t, needle))
            &&& t.len() > 0 && !has_text(t, "OTAERR"@) && encode_utf8(needle).len() <= 2 ==> (
            r is Arrived <==> t == needle)
            &&& r is Failed ==> has_text(t, "OTAERR"@)
        }),
        ({
            let t = trim(line);
            let r = last_reply_of(line);
            &&& has_text(t, "OTADONE"@) ==> r is Arrived
            &&& !has_text(t, "OTADONE"@) && has_text(t, "OTAERR"@) ==> r is Failed
            &&& !has_text(t, "OTADONE"@) && !has_text(t, "OTAERR"@) ==> r is Skip
        }),
{
}

/// A piece is 2048 bytes, but for the last, which is what is left.
pub proof fn pieces_are_of_one_size(u: Upload, n: nat)
    requires
        u.sent <= u.len,
    ensures
        u.sent <= next_sent(u) <= u.len,
        next_sent(u) - u.sent <= 2048,
        next_sent(u) - u.sent == 2048 || next_sent(u) == u.len,
        after_pieces(u.len as int, n) == 2048 * n || after_pieces(u.len as int, n) == u.len,
        after_pieces(u.len as int, n) <= 2048 * n,
        2048 * n <= u.len ==> after_pieces(u.len as int, n) == 2048 * n,
{
}

} // verus!
