//! The handbrake as the host sees it: its commands, and what the replies mean.

use vstd::prelude::*;
use vstd::string::StringExecFns;
use crate::device::dash::command_line;
use crate::handbrake::calibration::{bit, bit_of};
use crate::handbrake::proto::{
    command_of, deadzone_args, parse_reply_line, raw_arg, reply_of, HostCmd, ParseError, Reply,
};
use crate::handbrake::status::{status_of, Status};
use crate::text::{
    chars_of, dec_string, dec_text, int_string, int_text, is_digit,
    is_white, key_value_words, key_values, lemma_after_prefix, lemma_dec_text, lemma_int_text,
    lemma_nat_text, lemma_no_split, lemma_not_after, lemma_split_front, lemma_trim_none, nat_of, split, trim,
};

verus! {

/// A command is given this long to be answered.
pub const CMD_TIMEOUT_MS: u64 = 500;

/// The text of a command.
pub open spec fn text_of(c: HostCmd) -> Seq<char> {
    match c {
        HostCmd::Status => "?"@,
        HostCmd::Cap => "@CAP"@,
        HostCmd::SetIdle(raw) => "@SETIDLE"@ + int_text(raw as int),
        HostCmd::SetMax(raw) => "@SETMAX"@ + int_text(raw as int),
        HostCmd::SetDeadzone { lo, hi } => "@DZ"@ + (dec_text(lo as nat) + seq![','] + dec_text(
            hi as nat,
        )),
        HostCmd::SetInverted(inverted) => "@INV"@ + dec_text(bit(inverted) as nat),
        HostCmd::Save => "@SAVE"@,
        HostCmd::Cancel => "@CANCEL"@,
        HostCmd::Reset => "@RESET"@,
    }
}

/// The line of a command.
pub fn host_line(c: HostCmd) -> (s: String)
    ensures
        s@ == text_of(c) + "\n"@,
{
    proof {
        reveal_strlit("");
        assert(text_of(c) + ""@ =~= text_of(c));
    }
    match c {
        HostCmd::Status => command_line("?", ""),
        HostCmd::Cap => command_line("@CAP", ""),
        HostCmd::SetIdle(raw) => {
            let n = int_string(raw as i64);
            command_line("@SETIDLE", n.as_str())
        },
        HostCmd::SetMax(raw) => {
            let n = int_string(raw as i64);
            command_line("@SETMAX", n.as_str())
        },
        HostCmd::SetDeadzone { lo, hi } => {
            let mut n = dec_string(lo as u64);
            n.push(',');
            let m = dec_string(hi as u64);
            n.append(m.as_str());
            proof {
                assert(n@ =~= dec_text(lo as nat) + seq![','] + dec_text(hi as nat));
            }
            command_line("@DZ", n.as_str())
        },
        HostCmd::SetInverted(inverted) => {
            let n = dec_string(bit_of(inverted) as u64);
            command_line("@INV", n.as_str())
        },
        HostCmd::Save => command_line("@SAVE", ""),
        HostCmd::Cancel => command_line("@CANCEL", ""),
        HostCmd::Reset => command_line("@RESET", ""),
    }
}

// -------------------------------------------------------------------- replies

/// What a line means while a reply is waited for.
#[derive(Debug, PartialEq)]
pub enum Wait {
    /// Nothing came in: the time is over.
    GiveUp,
    /// Not a reply.
    Again,
    Got(Reply),
}

/// What a line means while a reply is waited for: telemetry is passed over.
pub fn on_line(line: &str) -> (r: Wait)
    ensures
        match r {
            Wait::GiveUp => line@.len() == 0,
            Wait::Again => line@.len() > 0 && (line@[0] == '$' || reply_of(line@) is None),
            Wait::Got(x) => line@.len() > 0 && line@[0] != '$' && reply_of(line@) == Some(x@),
        },
{
    let c = chars_of(line);
    if c.len() == 0 {
        return Wait::GiveUp;
    }
    if c[0] == '$' {
        return Wait::Again;
    }
    match parse_reply_line(line) {
        Some(x) => Wait::Got(x),
        None => Wait::Again,
    }
}

/// Whether a command was taken.
pub fn taken(reply: &Option<Reply>) -> (r: bool)
    ensures
        r == (reply matches Some(x) && x is Okay),
{
    match reply {
        Some(Reply::Okay(_)) => true,
        _ => false,
    }
}

/// The outcome of a command, with the code of a refusal; no reply is a timeout.
pub fn outcome(reply: Option<Reply>) -> (r: Result<(), String>)
    ensures
        match reply {
            Some(Reply::Okay(_)) => r is Ok,
            Some(Reply::Error(code)) => r matches Err(e) && e@ == code@,
            None => r matches Err(e) && e@ == "timeout"@,
        },
{
    match reply {
        Some(Reply::Okay(_)) => Ok(()),
        Some(Reply::Error(code)) => Err(code),
        None => Err(String::from_str("timeout")),
    }
}

/// Owned pairs as plain values.
pub open spec fn pair_texts(v: Seq<(String, String)>) -> Seq<(Seq<char>, Seq<char>)> {
    v.map_values(|p: (String, String)| (p.0@, p.1@))
}

/// The pairs that a reply carries.
pub fn capabilities(data: &str) -> (r: Vec<(String, String)>)
    ensures
        pair_texts(r@) == key_values(data@),
{
    let kv = key_value_words(data);
    let mut out: Vec<(String, String)> = Vec::new();
    let ghost all = key_values(data@);
    let mut k: usize = 0;
    while k < kv.len()
        invariant
            k <= kv@.len(),
            all == crate::text::pair_views(kv@),
            out@.len() == k,
            forall|j: int| 0 <= j < k ==> (#[trigger] out@[j]).0@ == all[j].0 && out@[j].1@ == all[j].1,
        decreases kv@.len() - k,
    {
        assert(all[k as int] == (kv@[k as int].0@, kv@[k as int].1@));
        out.push((String::from_str(kv[k].0), String::from_str(kv[k].1)));
        k += 1;
    }
    proof {
        assert(pair_texts(out@) =~= all);
    }
    out
}

/// The capabilities that a reply tells; `None` where it is a refusal, or none came.
pub fn capabilities_of(reply: &Option<Reply>) -> (r: Option<Vec<(String, String)>>)
    ensures
        match *reply {
            Some(Reply::Okay(data)) => r matches Some(v) && pair_texts(v@) == key_values(data@),
            _ => r is None,
        },
{
    match reply {
        Some(Reply::Okay(data)) => Some(capabilities(data.as_str())),
        _ => None,
    }
}

/// The status that a reply tells; `None` where it is a refusal, or none came.
pub fn reported(reply: &Option<Reply>) -> (r: Option<Status>)
    ensures
        r == match *reply {
            Some(Reply::Okay(data)) => status_of(data@),
            _ => None,
        },
{
    match reply {
        Some(Reply::Okay(data)) => Status::parse(data.as_str()),
        _ => None,
    }
}

// --------------------------------------------------------------------- upload

/// Why an upload failed.
#[derive(Clone, Copy, Debug, PartialEq, Eq, Structural)]
pub enum WaitError {
    /// The device gave up.
    Device,
    Timeout,
}

/// What is said of a wait for `needle` that failed.
pub open spec fn wait_error_text(e: WaitError, needle: Seq<char>) -> Seq<char> {
    match e {
        WaitError::Device => "device error: OTAERR"@,
        WaitError::Timeout => "timed out waiting for "@ + needle,
    }
}

/// What is said of a wait that failed.
pub fn wait_error(e: WaitError, needle: &str) -> (s: String)
    ensures
        s@ == wait_error_text(e, needle@),
{
    match e {
        WaitError::Device => String::from_str("device error: OTAERR"),
        WaitError::Timeout => {
            let mut s = String::from_str("timed out waiting for ");
            s.append(needle);
            s
        },
    }
}

/// What is said of an upload that broke off.
pub fn no_ack(sent: usize, why: &str) -> (s: String)
    ensures
        s@ == "no ack at "@ + dec_text(sent as nat) + ": "@ + why@,
{
    let mut s = String::from_str("no ack at ");
    let n = dec_string(sent as u64);
    s.append(n.as_str());
    s.append(": ");
    s.append(why);
    s
}

/// What is said of a piece that could not be written.
pub fn write_error(sent: usize) -> (s: String)
    ensures
        s@ == "write error at "@ + dec_text(sent as nat),
{
    let mut s = String::from_str("write error at ");
    let n = dec_string(sent as u64);
    s.append(n.as_str());
    s
}

// ----------------------------------------------------------------------- laws

/// Every command that the host can send is read by the handbrake as that command; a
/// deadzone is refused where a side of it is over 100 percent.
pub proof fn commands_are_understood(c: HostCmd)
    ensures
        command_of(text_of(c) + "\n"@) == match c {
            HostCmd::SetDeadzone { lo, hi } => if lo <= 100 && hi <= 100 {
                Ok::<HostCmd, ParseError>(c)
            } else {
                Err(ParseError::BadArgs)
            },
            _ => Ok::<HostCmd, ParseError>(c),
        },
{
    lemma_names();
    let t = text_of(c);
    lemma_ends(c);
    lemma_line(t);
    match c {
        HostCmd::SetIdle(raw) => {
            let n = int_text(raw as int);
            lemma_arg(raw as int);
            assert(t.skip(1) =~= "SETIDLE"@ + n);
            lemma_after_prefix("SETIDLE"@, n);
            assert(t.skip(1)[3] == 'I');
        },
        HostCmd::SetMax(raw) => {
            let n = int_text(raw as int);
            lemma_arg(raw as int);
            assert(t.skip(1) =~= "SETMAX"@ + n);
            lemma_after_prefix("SETMAX"@, n);
            assert(t.skip(1)[3] == 'M');
            lemma_not_after(t.skip(1), "SETIDLE"@, 3);
        },
        HostCmd::SetDeadzone { lo, hi } => {
            let n = dec_text(lo as nat) + seq![','] + dec_text(hi as nat);
            lemma_deadzone(lo, hi);
            assert(t.skip(1) =~= "DZ"@ + n);
            lemma_after_prefix("DZ"@, n);
            assert(t.skip(1)[0] == 'D');
            lemma_not_after(t.skip(1), "SETIDLE"@, 0);
            lemma_not_after(t.skip(1), "SETMAX"@, 0);
        },
        HostCmd::SetInverted(inverted) => {
            let n = dec_text(bit(inverted) as nat);
            lemma_nat_text(bit(inverted) as nat, 1);
            lemma_dec_text(bit(inverted) as nat);
            assert(t.skip(1) =~= "INV"@ + n);
            lemma_after_prefix("INV"@, n);
            assert(t.skip(1)[0] == 'I');
            lemma_not_after(t.skip(1), "SETIDLE"@, 0);
            lemma_not_after(t.skip(1), "SETMAX"@, 0);
            lemma_not_after(t.skip(1), "DZ"@, 0);
            assert(is_digit(n[0]) && is_digit(n[n.len() - 1]));
            lemma_trim_none(n);
        },
        HostCmd::Cap => {
            assert(t.skip(1) =~= "CAP"@);
        },
        HostCmd::Save => {
            assert(t.skip(1) =~= "SAVE"@);
        },
        HostCmd::Cancel => {
            assert(t.skip(1) =~= "CANCEL"@);
        },
        HostCmd::Reset => {
            assert(t.skip(1) =~= "RESET"@);
        },
        HostCmd::Status => {},
    }
}

/// What the names look like.
proof fn lemma_names()
    ensures
        "?"@ =~= seq!['?'],
        "\n"@ =~= seq!['\n'],
        "CAP"@ =~= seq!['C', 'A', 'P'],
        "SAVE"@ =~= seq!['S', 'A', 'V', 'E'],
        "CANCEL"@ =~= seq!['C', 'A', 'N', 'C', 'E', 'L'],
        "RESET"@ =~= seq!['R', 'E', 'S', 'E', 'T'],
        "SETIDLE"@ =~= seq!['S', 'E', 'T', 'I', 'D', 'L', 'E'],
        "SETMAX"@ =~= seq!['S', 'E', 'T', 'M', 'A', 'X'],
        "DZ"@ =~= seq!['D', 'Z'],
        "INV"@ =~= seq!['I', 'N', 'V'],
        "@CAP"@ =~= seq!['@', 'C', 'A', 'P'],
        "@SAVE"@ =~= seq!['@', 'S', 'A', 'V', 'E'],
        "@CANCEL"@ =~= seq!['@', 'C', 'A', 'N', 'C', 'E', 'L'],
        "@RESET"@ =~= seq!['@', 'R', 'E', 'S', 'E', 'T'],
        "@SETIDLE"@ =~= seq!['@', 'S', 'E', 'T', 'I', 'D', 'L', 'E'],
        "@SETMAX"@ =~= seq!['@', 'S', 'E', 'T', 'M', 'A', 'X'],
        "@DZ"@ =~= seq!['@', 'D', 'Z'],
        "@INV"@ =~= seq!['@', 'I', 'N', 'V'],
{
    reveal_strlit("?");
    reveal_strlit("\n");
    reveal_strlit("CAP");
    reveal_strlit("SAVE");
    reveal_strlit("CANCEL");
    reveal_strlit("RESET");
    reveal_strlit("SETIDLE");
    reveal_strlit("SETMAX");
    reveal_strlit("DZ");
    reveal_strlit("INV");
    reveal_strlit("@CAP");
    reveal_strlit("@SAVE");
    reveal_strlit("@CANCEL");
    reveal_strlit("@RESET");
    reveal_strlit("@SETIDLE");
    reveal_strlit("@SETMAX");
    reveal_strlit("@DZ");
    reveal_strlit("@INV");
}

/// Neither end of a command is a blank.
proof fn lemma_ends(c: HostCmd)
    ensures
        text_of(c).len() > 0,
        !is_white(text_of(c)[0]),
        !is_white(text_of(c).last()),
        c is Status || text_of(c)[0] == '@',
        c is Status ==> text_of(c) == "?"@,
        !(c is Status) ==> text_of(c) != "?"@,
{
    lemma_names();
    let t = text_of(c);
    match c {
        HostCmd::SetIdle(raw) => {
            lemma_arg(raw as int);
            let n = int_text(raw as int);
            assert(t.last() == n.last());
        },
        HostCmd::SetMax(raw) => {
            lemma_arg(raw as int);
            let n = int_text(raw as int);
            assert(t.last() == n.last());
        },
        HostCmd::SetDeadzone { lo, hi } => {
            lemma_dec_text(hi as nat);
            let m = dec_text(hi as nat);
            assert(is_digit(m[m.len() - 1]));
            assert(t.last() == m.last());
        },
        HostCmd::SetInverted(inverted) => {
            let m = dec_text(bit(inverted) as nat);
            lemma_dec_text(bit(inverted) as nat);
            assert(is_digit(m[m.len() - 1]));
            assert(t.last() == m.last());
        },
        HostCmd::Status => {
            assert(t[0] == '?');
        },
        HostCmd::Cap => {
            assert(t[0] == '@' && t.last() == 'P');
        },
        HostCmd::Save => {
            assert(t[0] == '@' && t.last() == 'E');
        },
        HostCmd::Cancel => {
            assert(t[0] == '@' && t.last() == 'L');
        },
        HostCmd::Reset => {
            assert(t[0] == '@' && t.last() == 'T');
        },
    }
    if !(c is Status) {
        assert(t[0] == '@');
        assert("?"@[0] == '?');
    }
}

/// A line without blanks at its ends is left when its line end is cut off.
proof fn lemma_line(t: Seq<char>)
    requires
        t.len() > 0,
        !is_white(t[0]),
        !is_white(t.last()),
    ensures
        trim(t + "\n"@) == t,
{
    lemma_names();
    let s = t + "\n"@;
    assert(s[0] == t[0]);
    assert(s.last() == '\n');
    assert(s.drop_last() =~= t);
    assert(crate::text::trim_start(s) == s);
    assert(crate::text::trim_end(t) == t);
}

/// A number is read back, and has no blanks.
proof fn lemma_arg(v: int)
    requires
        i32::MIN <= v <= i32::MAX,
    ensures
        raw_arg(int_text(v)) == Some(v),
        int_text(v).len() > 0,
        !is_white(int_text(v)[0]),
        !is_white(int_text(v).last()),
{
    let n = int_text(v);
    lemma_int_text(v, i32::MIN as int, i32::MAX as int);
    if v >= 0 {
        lemma_dec_text(v as nat);
        assert(is_digit(n[0]));
        assert(is_digit(n[n.len() - 1]));
    } else {
        let m = dec_text((-v) as nat);
        lemma_dec_text((-v) as nat);
        assert(is_digit(m[m.len() - 1]));
        assert(n[0] == '-');
        assert(n.last() == m[m.len() - 1]);
    }
    lemma_trim_none(n);
}

/// The two percentages are read back.
proof fn lemma_deadzone(lo: u8, hi: u8)
    ensures
        deadzone_args(dec_text(lo as nat) + seq![','] + dec_text(hi as nat)) == if lo <= 100 && hi
            <= 100 {
            Some((lo as int, hi as int))
        } else {
            None
        },
{
    let a = dec_text(lo as nat);
    let b = dec_text(hi as nat);
    lemma_dec_text(lo as nat);
    lemma_dec_text(hi as nat);
    assert(!a.contains(',')) by {
        if a.contains(',') {
            let k = choose|k: int| 0 <= k < a.len() && a[k] == ',';
            assert(is_digit(a[k]));
        }
    }
    assert(!b.contains(',')) by {
        if b.contains(',') {
            let k = choose|k: int| 0 <= k < b.len() && b[k] == ',';
            assert(is_digit(b[k]));
        }
    }
    lemma_split_front(a, ',', b);
    lemma_no_split(b, ',');
    let f = split(a + seq![','] + b, ',');
    assert(f =~= seq![a, b]);
    assert(is_digit(a[0]) && is_digit(a[a.len() - 1]));
    assert(is_digit(b[0]) && is_digit(b[b.len() - 1]));
    lemma_trim_none(a);
    lemma_trim_none(b);
    assert(f[0] == a && f[1] == b);
    lemma_limit(lo as nat);
    lemma_limit(hi as nat);
}

/// A number over the limit is not read.
proof fn lemma_limit(v: nat)
    ensures
        nat_of(dec_text(v), 100) == if v <= 100 {
            Some(v as int)
        } else {
            None
        },
{
    lemma_dec_text(v);
    if v <= 100 {
        lemma_nat_text(v, 100);
    } else {
        lemma_nat_text(v, v as int);
        let s = dec_text(v);
        assert(is_digit(s[0]));
    }
}

/// What is said of a wait that failed: that the device gave up, or what did not come.
pub proof fn waits_say_what_was_missed(needle: Seq<char>)
    ensures
        wait_error_text(WaitError::Device, needle) == "device error: OTAERR"@,
        wait_error_text(WaitError::Timeout, needle) == "timed out waiting for "@ + needle,
{
}

} // verus!
