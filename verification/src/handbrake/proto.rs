//! The text protocol between the handbrake and its host: one line per command,
//! reply or telemetry sample.

use vstd::prelude::*;
use crate::text::{
    after_prefix, chars_of, dec_text, int_of, int_text, is_digit, key_value_words, key_values,
    lemma_dec_text, lemma_int_text, lemma_nat_text, lemma_no_split, lemma_split_front, nat_of,
    pair_views, parse_int, parse_nat, push_dec, push_int, same, split, split_all, string_of,
    strip_prefix, trim, trim_end, trim_start, trimmed, views,
};

verus! {

/// A command of the host.
#[derive(Clone, Copy, Debug, PartialEq, Eq, Structural)]
pub enum HostCmd {
    /// `?`: one line of status.
    Status,
    /// `@CAP`: board, firmware version, serial, protocol version.
    Cap,
    /// `@SETIDLE<raw>`: the pending idle point.
    SetIdle(i32),
    /// `@SETMAX<raw>`: the pending maximum.
    SetMax(i32),
    /// `@DZ<lo>,<hi>`: the pending deadzones in percent.
    SetDeadzone { lo: u8, hi: u8 },
    /// `@INV<0|1>`: the pending inversion.
    SetInverted(bool),
    /// `@SAVE`: store the pending calibration.
    Save,
    /// `@CANCEL`: back to the stored calibration.
    Cancel,
    /// `@RESET`: wipe the stored calibration.
    Reset,
}

/// Why a line is no command.
#[derive(Clone, Copy, Debug, PartialEq, Eq, Structural)]
pub enum ParseError {
    Unknown,
    BadArgs,
}

/// The argument of a command that takes a raw value.
pub open spec fn raw_arg(s: Seq<char>) -> Option<int> {
    int_of(trim(s), i32::MIN as int, i32::MAX as int)
}

/// The two percentages of a deadzone command.
pub open spec fn deadzone_args(s: Seq<char>) -> Option<(int, int)> {
    let f = split(s, ',');
    if f.len() == 2 {
        match (nat_of(trim(f[0]), 100), nat_of(trim(f[1]), 100)) {
            (Some(lo), Some(hi)) => Some((lo, hi)),
            _ => None,
        }
    } else {
        None
    }
}

/// The command that a line is.
pub open spec fn command_of(line: Seq<char>) -> Result<HostCmd, ParseError> {
    let s = trim(line);
    let rest = s.skip(1);
    if s == "?"@ {
        Ok(HostCmd::Status)
    } else if s.len() == 0 || s[0] != '@' {
        Err(ParseError::Unknown)
    } else if rest == "CAP"@ {
        Ok(HostCmd::Cap)
    } else if rest == "SAVE"@ {
        Ok(HostCmd::Save)
    } else if rest == "CANCEL"@ {
        Ok(HostCmd::Cancel)
    } else if rest == "RESET"@ {
        Ok(HostCmd::Reset)
    } else if after_prefix(rest, "SETIDLE"@) is Some {
        match raw_arg(after_prefix(rest, "SETIDLE"@)->0) {
            Some(v) => Ok(HostCmd::SetIdle(v as i32)),
            None => Err(ParseError::BadArgs),
        }
    } else if after_prefix(rest, "SETMAX"@) is Some {
        match raw_arg(after_prefix(rest, "SETMAX"@)->0) {
            Some(v) => Ok(HostCmd::SetMax(v as i32)),
            None => Err(ParseError::BadArgs),
        }
    } else if after_prefix(rest, "DZ"@) is Some {
        match deadzone_args(after_prefix(rest, "DZ"@)->0) {
            Some((lo, hi)) => Ok(HostCmd::SetDeadzone { lo: lo as u8, hi: hi as u8 }),
            None => Err(ParseError::BadArgs),
        }
    } else if after_prefix(rest, "INV"@) is Some {
        match nat_of(trim(after_prefix(rest, "INV"@)->0), 1) {
            Some(v) => Ok(HostCmd::SetInverted(v != 0)),
            None => Err(ParseError::BadArgs),
        }
    } else {
        Err(ParseError::Unknown)
    }
}

/// Reads the two percentages of a deadzone command.
fn parse_deadzone(s: &[char]) -> (r: Option<(u8, u8)>)
    ensures
        match r {
            Some((lo, hi)) => deadzone_args(s@) == Some((lo as int, hi as int)),
            None => deadzone_args(s@) is None,
        },
{
    let f = split_all(s, ',');
    let ghost parts = split(s@, ',');
    proof {
        assert(parts.len() == f@.len());
        assert forall|k: int| 0 <= k < f@.len() implies #[trigger] f@[k]@ == parts[k] by {
            assert(views(f@)[k] == f@[k]@);
        }
    }
    if f.len() != 2 {
        return None;
    }
    match (parse_nat(trimmed(f[0]), 100), parse_nat(trimmed(f[1]), 100)) {
        (Some(lo), Some(hi)) => Some((lo as u8, hi as u8)),
        _ => None,
    }
}

/// Reads a command line.
pub fn parse_host_line(line: &str) -> (r: Result<HostCmd, ParseError>)
    ensures
        r == command_of(line@),
{
    let chars = chars_of(line);
    let s = trimmed(chars.as_slice());
    if same(s, "?") {
        return Ok(HostCmd::Status);
    }
    if s.len() == 0 || s[0] != '@' {
        return Err(ParseError::Unknown);
    }
    let rest = vstd::slice::slice_subrange(s, 1, s.len());
    proof {
        assert(rest@ =~= s@.skip(1));
    }
    if same(rest, "CAP") {
        return Ok(HostCmd::Cap);
    }
    if same(rest, "SAVE") {
        return Ok(HostCmd::Save);
    }
    if same(rest, "CANCEL") {
        return Ok(HostCmd::Cancel);
    }
    if same(rest, "RESET") {
        return Ok(HostCmd::Reset);
    }
    if let Some(arg) = strip_prefix(rest, "SETIDLE") {
        return match parse_int(trimmed(arg), -2_147_483_648, 2_147_483_647) {
            Some(v) => Ok(HostCmd::SetIdle(v as i32)),
            None => Err(ParseError::BadArgs),
        };
    }
    if let Some(arg) = strip_prefix(rest, "SETMAX") {
        return match parse_int(trimmed(arg), -2_147_483_648, 2_147_483_647) {
            Some(v) => Ok(HostCmd::SetMax(v as i32)),
            None => Err(ParseError::BadArgs),
        };
    }
    if let Some(args) = strip_prefix(rest, "DZ") {
        return match parse_deadzone(args) {
            Some((lo, hi)) => Ok(HostCmd::SetDeadzone { lo, hi }),
            None => Err(ParseError::BadArgs),
        };
    }
    if let Some(arg) = strip_prefix(rest, "INV") {
        return match parse_nat(trimmed(arg), 1) {
            Some(v) => Ok(HostCmd::SetInverted(v != 0)),
            None => Err(ParseError::BadArgs),
        };
    }
    Err(ParseError::Unknown)
}

// ------------------------------------------------------------- device to host

/// `@SETMAX` came too close to the idle point.
pub const ERR_SPAN: &'static str = "span";

/// An argument was out of its range.
pub const ERR_RANGE: &'static str = "range";

/// The line was no command.
pub const ERR_PARSE: &'static str = "parse";

/// The storage failed.
pub const ERR_NVS: &'static str = "nvs";

/// An axis value in tenths of a percent.
pub open spec fn tenths(output: int) -> int {
    output * 1000 / 65535
}

/// The telemetry line of a sample.
pub open spec fn telem_text(raw: int, pct_x10: int) -> Seq<char> {
    seq!['$'] + (int_text(raw) + seq![','] + dec_text(pct_x10 as nat)) + seq!['\n']
}

/// The telemetry line of a reading and its axis value.
pub fn format_telem(raw: i32, output: u16) -> (s: String)
    ensures
        s@ == telem_text(raw as int, tenths(output as int)),
{
    let mut s = String::new();
    s.push('$');
    push_int(&mut s, raw as i64);
    s.push(',');
    push_dec(&mut s, (output as u32 * 1000 / 65535) as u64);
    s.push('\n');
    proof {
        assert(s@ =~= telem_text(raw as int, tenths(output as int)));
    }
    s
}

/// A telemetry sample.
#[derive(Clone, Copy, Debug, PartialEq, Eq, Structural)]
pub struct Telem {
    pub raw: i32,
    pub pct_x10: u16,
}

/// The sample that a telemetry line carries.
pub open spec fn telem_of(line: Seq<char>) -> Option<Telem> {
    let s = trim(line);
    let f = split(s.skip(1), ',');
    if s.len() > 0 && s[0] == '$' && f.len() == 2 {
        match (int_of(f[0], i32::MIN as int, i32::MAX as int), nat_of(f[1], u16::MAX as int)) {
            (Some(raw), Some(pct)) => Some(Telem { raw: raw as i32, pct_x10: pct as u16 }),
            _ => None,
        }
    } else {
        None
    }
}

/// Reads a telemetry line.
pub fn parse_telem_line(line: &str) -> (r: Option<Telem>)
    ensures
        r == telem_of(line@),
{
    let chars = chars_of(line);
    let s = trimmed(chars.as_slice());
    if s.len() == 0 || s[0] != '$' {
        return None;
    }
    let rest = vstd::slice::slice_subrange(s, 1, s.len());
    let f = split_all(rest, ',');
    let ghost parts = split(rest@, ',');
    proof {
        assert(rest@ =~= s@.skip(1));
        assert(parts.len() == f@.len());
        assert forall|k: int| 0 <= k < f@.len() implies #[trigger] f@[k]@ == parts[k] by {
            assert(views(f@)[k] == f@[k]@);
        }
    }
    if f.len() != 2 {
        return None;
    }
    match (parse_int(f[0], -2_147_483_648, 2_147_483_647), parse_nat(f[1], 65_535)) {
        (Some(raw), Some(pct)) => Some(Telem { raw: raw as i32, pct_x10: pct as u16 }),
        _ => None,
    }
}

/// A telemetry line reads back as the reading and the tenths of a percent it was
/// made of.
pub proof fn telem_round_trip(raw: i32, pct_x10: u16)
    ensures
        telem_of(telem_text(raw as int, pct_x10 as int)) == Some(Telem { raw, pct_x10 }),
{
    let a = int_text(raw as int);
    let b = dec_text(pct_x10 as nat);
    let body = a + seq![','] + b;
    let line = telem_text(raw as int, pct_x10 as int);
    let s = seq!['$'] + body;
    lemma_dec_text(pct_x10 as nat);
    assert(is_digit(b[b.len() - 1]));
    assert(line.drop_last() =~= s);
    assert(line.last() == '\n');
    assert(s.last() == b[b.len() - 1]);
    assert(trim_start(line) == line);
    assert(trim_end(s) == s);
    assert(trim(line) == s);
    assert(s.skip(1) =~= body);
    lemma_no_comma(raw as int);
    lemma_no_comma(pct_x10 as int);
    lemma_split_front(a, ',', b);
    lemma_no_split(b, ',');
    assert(split(body, ',') =~= seq![a, b]);
    lemma_int_text(raw as int, i32::MIN as int, i32::MAX as int);
    lemma_nat_text(pct_x10 as nat, u16::MAX as int);
}

/// The text of a number holds no comma.
proof fn lemma_no_comma(v: int)
    ensures
        !int_text(v).contains(','),
{
    let m = if v < 0 {
        (-v) as nat
    } else {
        v as nat
    };
    lemma_dec_text(m);
    let t = int_text(v);
    assert forall|k: int| 0 <= k < t.len() implies #[trigger] t[k] != ',' by {
        if v < 0 {
            if k > 0 {
                assert(is_digit(dec_text(m)[k - 1]));
            }
        } else {
            assert(is_digit(dec_text(m)[k]));
        }
    }
}

/// A reply to a command.
#[derive(Clone, Debug, PartialEq, Eq)]
pub enum Reply {
    Okay(String),
    Error(String),
}

/// A reply as plain values.
pub enum ReplyView {
    Okay(Seq<char>),
    Error(Seq<char>),
}

impl View for Reply {
    type V = ReplyView;

    open spec fn view(&self) -> ReplyView {
        match *self {
            Reply::Okay(s) => ReplyView::Okay(s@),
            Reply::Error(s) => ReplyView::Error(s@),
        }
    }
}

/// The reply that a line is; `None` for any other line.
pub open spec fn reply_of(line: Seq<char>) -> Option<ReplyView> {
    let s = trim(line);
    match after_prefix(s, "OK"@) {
        Some(rest) => Some(ReplyView::Okay(trim(rest))),
        None => match after_prefix(s, "ERR"@) {
            Some(rest) => Some(ReplyView::Error(trim(rest))),
            None => None,
        },
    }
}

/// Reads a reply line.
pub fn parse_reply_line(line: &str) -> (r: Option<Reply>)
    ensures
        match r {
            Some(reply) => reply_of(line@) == Some(reply@),
            None => reply_of(line@) is None,
        },
{
    let chars = chars_of(line);
    let s = trimmed(chars.as_slice());
    if let Some(rest) = strip_prefix(s, "OK") {
        return Some(Reply::Okay(string_of(trimmed(rest))));
    }
    match strip_prefix(s, "ERR") {
        Some(rest) => Some(Reply::Error(string_of(trimmed(rest)))),
        None => None,
    }
}

/// The `key=value` words of a reply.
pub fn parse_kv(s: &str) -> (r: Vec<(&str, &str)>)
    ensures
        pair_views(r@) == key_values(s@),
{
    key_value_words(s)
}

// -------------------------------------------------------------------- laws

/// The names of the commands, by their characters.
proof fn lemma_names()
    ensures
        "?"@ =~= seq!['?'],
        "CAP"@ =~= seq!['C', 'A', 'P'],
        "SAVE"@ =~= seq!['S', 'A', 'V', 'E'],
        "CANCEL"@ =~= seq!['C', 'A', 'N', 'C', 'E', 'L'],
        "RESET"@ =~= seq!['R', 'E', 'S', 'E', 'T'],
        "SETIDLE"@ =~= seq!['S', 'E', 'T', 'I', 'D', 'L', 'E'],
        "SETMAX"@ =~= seq!['S', 'E', 'T', 'M', 'A', 'X'],
        "DZ"@ =~= seq!['D', 'Z'],
        "INV"@ =~= seq!['I', 'N', 'V'],
{
    reveal_strlit("?");
    reveal_strlit("CAP");
    reveal_strlit("SAVE");
    reveal_strlit("CANCEL");
    reveal_strlit("RESET");
    reveal_strlit("SETIDLE");
    reveal_strlit("SETMAX");
    reveal_strlit("DZ");
    reveal_strlit("INV");
}

/// A line that is `@`, a name and an argument, none of it trimmed away.
proof fn lemma_line(name: Seq<char>, arg: Seq<char>)
    requires
        arg.len() > 0,
        !crate::text::is_white(arg.last()),
    ensures
        ({
            let line = seq!['@'] + name + arg;
            &&& trim(line) == line
            &&& line.len() > 0 && line[0] == '@'
            &&& line.skip(1) == name + arg
            &&& line.len() > 1
        }),
{
    let line = seq!['@'] + name + arg;
    assert(line.last() == arg.last());
    crate::text::lemma_trim_none(line);
    assert(line.skip(1) =~= name + arg);
}

/// The text of a number, as an argument.
proof fn lemma_number(n: int)
    ensures
        int_text(n).len() > 0,
        !crate::text::is_white(int_text(n).last()),
        trim(int_text(n)) == int_text(n),
        n >= 0 ==> int_text(n) == dec_text(n as nat),
        n >= 0 ==> is_digit(int_text(n)[0]),
{
    crate::text::lemma_number_is_plain(n);
    lemma_int_text(n, n, n);
    if n >= 0 {
        lemma_dec_text(n as nat);
        assert(is_digit(dec_text(n as nat)[0]));
    }
    crate::text::lemma_trim_none(int_text(n));
}

/// A raw value behind the command of the idle point or of the maximum is that point.
pub proof fn points_are_set_as_sent(n: i32)
    ensures
        command_of(seq!['@'] + "SETIDLE"@ + int_text(n as int)) == Ok::<HostCmd, ParseError>(
            HostCmd::SetIdle(n),
        ),
        command_of(seq!['@'] + "SETMAX"@ + int_text(n as int)) == Ok::<HostCmd, ParseError>(
            HostCmd::SetMax(n),
        ),
{
    let t = int_text(n as int);
    lemma_number(n as int);
    lemma_int_text(n as int, i32::MIN as int, i32::MAX as int);
    assert(command_of(seq!['@'] + "SETIDLE"@ + t) == Ok::<HostCmd, ParseError>(
        HostCmd::SetIdle(n),
    )) by {
        lemma_names();
        lemma_line("SETIDLE"@, t);
        crate::text::lemma_after_prefix("SETIDLE"@, t);
        let rest = "SETIDLE"@ + t;
        assert(rest[0] == 'S' && rest[1] == 'E');
        assert("SAVE"@[1] == 'A' && "CAP"@[0] == 'C' && "CANCEL"@[0] == 'C' && "RESET"@[0] == 'R');
    }
    assert(command_of(seq!['@'] + "SETMAX"@ + t) == Ok::<HostCmd, ParseError>(
        HostCmd::SetMax(n),
    )) by {
        lemma_names();
        lemma_line("SETMAX"@, t);
        crate::text::lemma_after_prefix("SETMAX"@, t);
        let rest = "SETMAX"@ + t;
        assert(rest[0] == 'S' && rest[1] == 'E' && rest[3] == 'M');
        assert("SAVE"@[1] == 'A' && "CAP"@[0] == 'C' && "CANCEL"@[0] == 'C' && "RESET"@[0] == 'R');
        assert("SETIDLE"@[3] == 'I');
        crate::text::lemma_not_after(rest, "SETIDLE"@, 3);
    }
}

/// Two percentages behind the command of the deadzones are the lower and the upper
/// one, in that order; a number above 100 is out of range.
pub proof fn deadzones_are_set_as_sent(lo: u8, hi: u8)
    ensures
        ({
            let line = seq!['@'] + "DZ"@ + (dec_text(lo as nat) + seq![','] + dec_text(hi as nat));
            command_of(line) == (if lo <= 100 && hi <= 100 {
                Ok::<HostCmd, ParseError>(HostCmd::SetDeadzone { lo, hi })
            } else {
                Err::<HostCmd, ParseError>(ParseError::BadArgs)
            })
        }),
{
    let a = dec_text(lo as nat);
    let b = dec_text(hi as nat);
    let arg = a + seq![','] + b;
    lemma_number(lo as int);
    lemma_number(hi as int);
    lemma_no_comma(lo as int);
    lemma_no_comma(hi as int);
    lemma_split_front(a, ',', b);
    lemma_no_split(b, ',');
    assert(split(arg, ',') =~= seq![a, b]);
    lemma_dec_text(lo as nat);
    lemma_dec_text(hi as nat);
    assert(is_digit(a[0]) && is_digit(b[0]));
    assert(arg.last() == b.last());
    lemma_names();
    lemma_line("DZ"@, arg);
    crate::text::lemma_after_prefix("DZ"@, arg);
    let rest = "DZ"@ + arg;
    assert(rest[0] == 'D');
    assert("SAVE"@[0] == 'S' && "CAP"@[0] == 'C' && "CANCEL"@[0] == 'C' && "RESET"@[0] == 'R');
    assert("SETIDLE"@[0] == 'S' && "SETMAX"@[0] == 'S');
    crate::text::lemma_not_after(rest, "SETIDLE"@, 0);
    crate::text::lemma_not_after(rest, "SETMAX"@, 0);
}

/// The command of the inversion takes 0 and 1.
pub proof fn inversion_is_set_as_sent(n: u8)
    ensures
        command_of(seq!['@'] + "INV"@ + dec_text(n as nat)) == (if n <= 1 {
            Ok::<HostCmd, ParseError>(HostCmd::SetInverted(n == 1))
        } else {
            Err::<HostCmd, ParseError>(ParseError::BadArgs)
        }),
{
    let t = dec_text(n as nat);
    lemma_number(n as int);
    lemma_dec_text(n as nat);
    assert(is_digit(t[0]));
    lemma_names();
    lemma_line("INV"@, t);
    crate::text::lemma_after_prefix("INV"@, t);
    let rest = "INV"@ + t;
    assert(rest[0] == 'I');
    assert("SAVE"@[0] == 'S' && "CAP"@[0] == 'C' && "CANCEL"@[0] == 'C' && "RESET"@[0] == 'R');
    assert("SETIDLE"@[0] == 'S' && "SETMAX"@[0] == 'S' && "DZ"@[0] == 'D');
    crate::text::lemma_not_after(rest, "SETIDLE"@, 0);
    crate::text::lemma_not_after(rest, "SETMAX"@, 0);
    crate::text::lemma_not_after(rest, "DZ"@, 0);
}

/// The commands without an argument, and blanks around any command.
pub proof fn plain_commands_are_read(before: Seq<char>, line: Seq<char>, behind: Seq<char>)
    requires
        forall|i: int| 0 <= i < before.len() ==> crate::text::is_white(#[trigger] before[i]),
        forall|i: int| 0 <= i < behind.len() ==> crate::text::is_white(#[trigger] behind[i]),
        line.len() > 0,
        !crate::text::is_white(line[0]),
        !crate::text::is_white(line.last()),
    ensures
        command_of(before + line + behind) == command_of(line),
        line == "?"@ ==> command_of(line) == Ok::<HostCmd, ParseError>(HostCmd::Status),
        line == seq!['@'] + "CAP"@ ==> command_of(line) == Ok::<HostCmd, ParseError>(HostCmd::Cap),
        line == seq!['@'] + "SAVE"@ ==> command_of(line) == Ok::<HostCmd, ParseError>(HostCmd::Save),
        line == seq!['@'] + "CANCEL"@ ==> command_of(line) == Ok::<HostCmd, ParseError>(
            HostCmd::Cancel,
        ),
        line == seq!['@'] + "RESET"@ ==> command_of(line) == Ok::<HostCmd, ParseError>(
            HostCmd::Reset,
        ),
        line[0] != '@' && line != "?"@ ==> command_of(line) == Err::<HostCmd, ParseError>(
            ParseError::Unknown,
        ),
{
    crate::text::trimming_keeps_the_middle(before, line, behind);
    crate::text::lemma_trim_none(line);
    lemma_names();
    assert("SAVE"@[0] == 'S' && "CAP"@[0] == 'C' && "CANCEL"@[0] == 'C' && "RESET"@[0] == 'R');
    assert("CAP"@.len() == 3 && "CANCEL"@.len() == 6);
    assert("?"@[0] == '?');
    assert((seq!['@'] + "CAP"@).skip(1) =~= "CAP"@);
    assert((seq!['@'] + "SAVE"@).skip(1) =~= "SAVE"@);
    assert((seq!['@'] + "CANCEL"@).skip(1) =~= "CANCEL"@);
    assert((seq!['@'] + "RESET"@).skip(1) =~= "RESET"@);
}

/// The axis is told in tenths of a percent of full scale, rounded down.
pub proof fn tenths_are_in_proportion(output: int)
    requires
        0 <= output <= 65535,
    ensures
        65535 * tenths(output) <= 1000 * output < 65535 * tenths(output) + 65535,
        tenths(0) == 0,
        tenths(65535) == 1000,
{
}

/// A line that starts with OK is an acceptance, one that starts with ERR a refusal,
/// each with what follows, trimmed; any other line is no reply.
pub proof fn replies_are_told_apart(rest: Seq<char>)
    requires
        rest.len() > 0,
        !crate::text::is_white(rest[0]),
        !crate::text::is_white(rest.last()),
    ensures
        reply_of("OK"@ + seq![' '] + rest) == Some(ReplyView::Okay(rest)),
        reply_of("ERR"@ + seq![' '] + rest) == Some(ReplyView::Error(rest)),
        rest[0] != 'O' && rest[0] != 'E' ==> reply_of(rest) is None,
{
    reveal_strlit("OK");
    reveal_strlit("ERR");
    let e = Seq::<char>::empty();
    let a = "OK"@ + seq![' '] + rest;
    let b = "ERR"@ + seq![' '] + rest;
    let tail = seq![' '] + rest;
    assert(a =~= "OK"@ + tail);
    assert(b =~= "ERR"@ + tail);
    assert(a[0] == 'O' && b[0] == 'E');
    assert(a.last() == rest.last() && b.last() == rest.last());
    crate::text::lemma_trim_none(a);
    crate::text::lemma_trim_none(b);
    crate::text::lemma_trim_none(rest);
    crate::text::trimming_keeps_the_middle(seq![' '], rest, e);
    assert(seq![' '] + rest + e =~= tail);
    crate::text::lemma_after_prefix("OK"@, tail);
    crate::text::lemma_after_prefix("ERR"@, tail);
    assert("OK"@[0] == 'O' && "ERR"@[0] == 'E');
    crate::text::lemma_not_after(b, "OK"@, 0);
    if rest[0] != 'O' && rest[0] != 'E' {
        crate::text::lemma_not_after(rest, "OK"@, 0);
        crate::text::lemma_not_after(rest, "ERR"@, 0);
    }
}

} // verus!
