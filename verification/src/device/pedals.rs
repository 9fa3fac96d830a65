//! A pedal as the host sees it: its commands, and what the replies mean.

use vstd::prelude::*;
use vstd::string::StringExecFns;
use crate::device::dash::command_line;
use crate::device::handbrake::{capabilities, pair_texts};
use crate::pedals::runtime::{asked, cap_text, status_text, Runtime, StepView};
use crate::pedals::status::{parse_reply_line, reply_of, status_of, PedalStatus, Reply};
use crate::text::{
    chars_of, is_white, key_values, lemma_after_prefix, lemma_not_after, trim, trim_end, trim_start,
};

verus! {

/// A command.
#[derive(Clone, Copy, Debug, PartialEq, Eq, Structural)]
pub enum PedalCmd {
    Status,
    Cap,
    GetConfig,
}

/// The text of a command.
pub open spec fn text_of(c: PedalCmd) -> Seq<char> {
    match c {
        PedalCmd::Status => "?"@,
        PedalCmd::Cap => "@CAP"@,
        PedalCmd::GetConfig => "@GETCFG"@,
    }
}

/// The line of a command.
pub fn host_line(c: PedalCmd) -> (s: String)
    ensures
        s@ == text_of(c) + "\n"@,
{
    proof {
        reveal_strlit("");
        assert(text_of(c) + ""@ =~= text_of(c));
    }
    match c {
        PedalCmd::Status => command_line("?", ""),
        PedalCmd::Cap => command_line("@CAP", ""),
        PedalCmd::GetConfig => command_line("@GETCFG", ""),
    }
}

/// The line that sends a configuration.
pub fn config_line(json: &str) -> (s: String)
    ensures
        s@ == "@CFG"@ + json@ + "\n"@,
{
    command_line("@CFG", json)
}

/// The line that sends the live effects.
pub fn action_line(json: &str) -> (s: String)
    ensures
        s@ == "@ACT"@ + json@ + "\n"@,
{
    command_line("@ACT", json)
}

/// What a line means while a reply is waited for.
#[derive(Debug, PartialEq)]
pub enum Wait {
    /// Nothing came in: the time is over.
    GiveUp,
    /// Not a reply.
    Again,
    Got(Reply),
}

/// What a line means while a reply is waited for.
pub fn on_line(line: &str) -> (r: Wait)
    ensures
        match r {
            Wait::GiveUp => line@.len() == 0,
            Wait::Again => line@.len() > 0 && reply_of(line@) is None,
            Wait::Got(x) => line@.len() > 0 && reply_of(line@) == Some(x@),
        },
{
    let c = chars_of(line);
    if c.len() == 0 {
        return Wait::GiveUp;
    }
    match parse_reply_line(line) {
        Some(x) => Wait::Got(x),
        None => Wait::Again,
    }
}

/// The outcome of a command, with the code of a refusal; no reply is a timeout.
pub fn outcome(reply: Option<Reply>) -> (r: Result<(), String>)
    ensures
        match reply {
            Some(Reply::Okay(_)) => r is Ok,
            Some(Reply::Error(code)) => r matches Err(e) && e@ == code@,
            None => r matches Err(e) && e@ == "timeout"@,
        },
{
    match reply {
        Some(Reply::Okay(_)) => Ok(()),
        Some(Reply::Error(code)) => Err(code),
        None => Err(String::from_str("timeout")),
    }
}

/// The capabilities that a reply tells; `None` where it is a refusal, or none came.
pub fn capabilities_of(reply: &Option<Reply>) -> (r: Option<Vec<(String, String)>>)
    ensures
        match *reply {
            Some(Reply::Okay(data)) => r matches Some(v) && pair_texts(v@) == key_values(data@),
            _ => r is None,
        },
{
    match reply {
        Some(Reply::Okay(data)) => Some(capabilities(data.as_str())),
        _ => None,
    }
}

/// The status that a reply tells; `None` where it is a refusal, or none came.
pub fn reported(reply: &Option<Reply>) -> (r: Option<PedalStatus>)
    ensures
        r == match *reply {
            Some(Reply::Okay(data)) => status_of(data@),
            _ => None,
        },
{
    match reply {
        Some(Reply::Okay(data)) => PedalStatus::parse(data.as_str()),
        _ => None,
    }
}

/// The body of a reply; `None` where it is a refusal, or none came.
pub fn body(reply: Option<Reply>) -> (r: Option<String>)
    ensures
        match reply {
            Some(Reply::Okay(data)) => r matches Some(s) && s@ == data@,
            _ => r is None,
        },
{
    match reply {
        Some(Reply::Okay(data)) => Some(data),
        _ => None,
    }
}

/// What the pedal takes a command as.
pub open spec fn meant(c: PedalCmd, rt: Runtime, fw: Seq<char>, serial: Seq<char>) -> StepView {
    match c {
        PedalCmd::Status => StepView::Reply(status_text(rt)),
        PedalCmd::Cap => StepView::Reply(cap_text(fw, serial)),
        PedalCmd::GetConfig => StepView::SendConfig,
    }
}

/// Every command that the host can send is read by the pedal as that command.
pub proof fn commands_are_understood(c: PedalCmd, rt: Runtime, fw: Seq<char>, serial: Seq<char>)
    ensures
        asked(rt, text_of(c) + "\n"@, fw, serial) == meant(c, rt, fw, serial),
{
    lemma_names();
    let t = text_of(c);
    lemma_line(t);
    lemma_not_after(t + "\n"@, "@OTA"@, if c is Status { 0 } else { 1 });
    assert(t[0] != '?' || c is Status);
    assert("?"@[0] == '?');
    assert("@CAP"@.len() == 4 && "@GETCFG"@.len() == 7);
}

/// A configuration and a set of live effects reach the pedal as they were written,
/// where no blank stands at their end.
pub proof fn pushes_are_understood(json: Seq<char>, rt: Runtime, fw: Seq<char>, serial: Seq<char>)
    requires
        json.len() > 0,
        !is_white(json.last()),
    ensures
        asked(rt, "@CFG"@ + json + "\n"@, fw, serial) == StepView::SetConfig(json),
        asked(rt, "@ACT"@ + json + "\n"@, fw, serial) == StepView::SetAction(json),
{
    lemma_names();
    let c = "@CFG"@ + json;
    let a = "@ACT"@ + json;
    assert(c.last() == json.last() && a.last() == json.last());
    assert(c[0] == '@' && c[1] == 'C' && c[2] == 'F');
    assert(a[0] == '@' && a[1] == 'A');
    lemma_line(c);
    lemma_line(a);
    lemma_not_after(c + "\n"@, "@OTA"@, 1);
    lemma_not_after(a + "\n"@, "@OTA"@, 1);
    lemma_after_prefix("@CFG"@, json);
    lemma_after_prefix("@ACT"@, json);
    lemma_not_after(a, "@CFG"@, 1);
    assert("?"@[0] == '?');
    assert("@CAP"@[1] == 'C' && "@CAP"@[2] == 'A');
    assert("@GETCFG"@[1] == 'G');
}

/// A line without blanks at its ends is left when its line end is cut off.
proof fn lemma_line(t: Seq<char>)
    requires
        t.len() > 0,
        !is_white(t[0]),
        !is_white(t.last()),
    ensures
        trim(t + "\n"@) == t,
{
    lemma_names();
    let s = t + "\n"@;
    assert(s[0] == t[0]);
    assert(s.last() == '\n');
    assert(s.drop_last() =~= t);
    assert(trim_start(s) == s);
    assert(trim_end(t) == t);
}

/// What the names look like.
proof fn lemma_names()
    ensures
        "?"@ =~= seq!['?'],
        "\n"@ =~= seq!['\n'],
        "@OTA"@ =~= seq!['@', 'O', 'T', 'A'],
        "@CAP"@ =~= seq!['@', 'C', 'A', 'P'],
        "@CFG"@ =~= seq!['@', 'C', 'F', 'G'],
        "@ACT"@ =~= seq!['@', 'A', 'C', 'T'],
        "@GETCFG"@ =~= seq!['@', 'G', 'E', 'T', 'C', 'F', 'G'],
{
    reveal_strlit("?");
    reveal_strlit("\n");
    reveal_strlit("@OTA");
    reveal_strlit("@CAP");
    reveal_strlit("@CFG");
    reveal_strlit("@ACT");
    reveal_strlit("@GETCFG");
}

} // verus!
