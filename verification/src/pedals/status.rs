//! The pedal as the host sees it: its replies and its status.

use vstd::prelude::*;
use crate::handbrake::calibration::bit;
use crate::handbrake::status::{flag_at, nat_at, read_flag, read_nat};
use crate::pedals::runtime::{status_pairs, Runtime};
use crate::text::{
    after_prefix, chars_of, dec_text, key_value_words, key_values, lemma_after_prefix,
    lemma_lookup, lemma_nat_text, lemma_number_is_plain, lemma_pairs_round_trip, pairs_text,
    plain_pair, string_of, strip_prefix, trim, trim_start, trimmed, words,
};

verus! {

/// The status of a pedal.
#[derive(Clone, Copy, Debug, PartialEq, Eq, Structural)]
pub struct PedalStatus {
    pub position_pct_x10: u16,
    pub force_n_x10: u16,
    pub joystick_output: u16,
    pub error_code: u8,
    pub servo_on: bool,
}

impl Default for PedalStatus {
    fn default() -> (r: PedalStatus)
        ensures
            r == (PedalStatus {
                position_pct_x10: 0,
                force_n_x10: 0,
                joystick_output: 0,
                error_code: 0,
                servo_on: false,
            }),
    {
        PedalStatus {
            position_pct_x10: 0,
            force_n_x10: 0,
            joystick_output: 0,
            error_code: 0,
            servo_on: false,
        }
    }
}

/// The status that a reply carries; `None` where a key is missing or malformed.
pub open spec fn status_of(s: Seq<char>) -> Option<PedalStatus> {
    let kv = key_values(s);
    match (
        nat_at(kv, "position"@, 65535),
        nat_at(kv, "force"@, 65535),
        nat_at(kv, "joy"@, 65535),
        nat_at(kv, "err"@, 255),
        flag_at(kv, "servo"@),
    ) {
        (Some(position), Some(force), Some(joy), Some(err), Some(servo_on)) => Some(
            PedalStatus {
                position_pct_x10: position as u16,
                force_n_x10: force as u16,
                joystick_output: joy as u16,
                error_code: err as u8,
                servo_on,
            },
        ),
        _ => None,
    }
}

impl PedalStatus {
    /// Reads a status reply.
    pub fn parse(body: &str) -> (r: Option<PedalStatus>)
        ensures
            r == status_of(body@),
    {
        let kv = key_value_words(body);
        match (
            read_nat(&kv, "position", 65_535),
            read_nat(&kv, "force", 65_535),
            read_nat(&kv, "joy", 65_535),
            read_nat(&kv, "err", 255),
            read_flag(&kv, "servo"),
        ) {
            (Some(position), Some(force), Some(joy), Some(err), Some(servo_on)) => Some(
                PedalStatus {
                    position_pct_x10: position as u16,
                    force_n_x10: force as u16,
                    joystick_output: joy as u16,
                    error_code: err as u8,
                    servo_on,
                },
            ),
            _ => None,
        }
    }
}

/// A reply of the pedal.
#[derive(Debug, PartialEq)]
pub enum Reply {
    /// `OK`, and all that follows it.
    Okay(String),
    /// `ERR`, and the code behind it.
    Error(String),
}

/// A reply as plain values.
pub enum ReplyView {
    Okay(Seq<char>),
    Error(Seq<char>),
}

impl View for Reply {
    type V = ReplyView;

    open spec fn view(&self) -> ReplyView {
        match *self {
            Reply::Okay(s) => ReplyView::Okay(s@),
            Reply::Error(s) => ReplyView::Error(s@),
        }
    }
}

/// The reply that a line is.
pub open spec fn reply_of(line: Seq<char>) -> Option<ReplyView> {
    match (after_prefix(line, "OK"@), after_prefix(line, "ERR"@)) {
        (Some(rest), _) => Some(ReplyView::Okay(rest)),
        (None, Some(rest)) => Some(ReplyView::Error(trim(rest))),
        (None, None) => None,
    }
}

/// Reads a reply.
pub fn parse_reply_line(line: &str) -> (r: Option<Reply>)
    ensures
        match r {
            Some(x) => reply_of(line@) == Some(x@),
            None => reply_of(line@) is None,
        },
{
    let c = chars_of(line);
    match strip_prefix(c.as_slice(), "OK") {
        Some(rest) => Some(Reply::Okay(string_of(rest))),
        None => match strip_prefix(c.as_slice(), "ERR") {
            Some(rest) => Some(Reply::Error(string_of(trimmed(rest)))),
            None => None,
        },
    }
}

/// What the pedal answers to a status request is read by the host as the state the
/// pedal is in.
pub proof fn status_round_trip(rt: Runtime)
    ensures
        ({
            let body = seq![' '] + pairs_text(status_pairs(rt));
            &&& reply_of("OK"@ + body) == Some(ReplyView::Okay(body))
            &&& status_of(body) == Some(
                PedalStatus {
                    position_pct_x10: rt.state.position_pct_x10,
                    force_n_x10: rt.state.force_n_x10,
                    joystick_output: rt.joystick,
                    error_code: rt.state.error_code,
                    servo_on: rt.state.servo_on,
                },
            )
        }),
{
    let p = status_pairs(rt);
    let text = pairs_text(p);
    let body = seq![' '] + text;
    lemma_after_prefix("OK"@, body);
    assert(body[0] == ' ');
    assert(body.drop_first() =~= text);
    assert(trim_start(body) == trim_start(text));
    assert(words(body) == words(text));
    lemma_keys();
    lemma_number_is_plain(rt.state.position_pct_x10 as int);
    lemma_number_is_plain(rt.state.force_n_x10 as int);
    lemma_number_is_plain(rt.joystick as int);
    lemma_number_is_plain(rt.state.error_code as int);
    lemma_number_is_plain(bit(rt.state.servo_on) as int);
    assert forall|i: int| 0 <= i < p.len() implies plain_pair(#[trigger] p[i]) by {
        assert(i == 0 || i == 1 || i == 2 || i == 3 || i == 4);
    }
    lemma_pairs_round_trip(p);
    assert(p[0].0.len() == 8);
    assert(p[1].0[0] == 'f');
    assert(p[2].0[0] == 'j');
    assert(p[3].0[0] == 'e');
    assert(p[4].0[0] == 's');
    assert(p[0].0[0] == 'p');
    lemma_lookup(p, 0);
    lemma_lookup(p, 1);
    lemma_lookup(p, 2);
    lemma_lookup(p, 3);
    lemma_lookup(p, 4);
    lemma_nat_text(rt.state.position_pct_x10 as nat, 65535);
    lemma_nat_text(rt.state.force_n_x10 as nat, 65535);
    lemma_nat_text(rt.joystick as nat, 65535);
    lemma_nat_text(rt.state.error_code as nat, 255);
    assert(dec_text(1) =~= seq!['1']);
    assert(dec_text(0) =~= seq!['0']);
    assert("1"@[0] == '1');
}

proof fn lemma_keys()
    ensures
        "position"@ =~= seq!['p', 'o', 's', 'i', 't', 'i', 'o', 'n'],
        "force"@ =~= seq!['f', 'o', 'r', 'c', 'e'],
        "joy"@ =~= seq!['j', 'o', 'y'],
        "err"@ =~= seq!['e', 'r', 'r'],
        "servo"@ =~= seq!['s', 'e', 'r', 'v', 'o'],
        "1"@ =~= seq!['1'],
{
    reveal_strlit("position");
    reveal_strlit("force");
    reveal_strlit("joy");
    reveal_strlit("err");
    reveal_strlit("servo");
    reveal_strlit("1");
}

/// A status is read key by key: each number of it is the one that stands behind its
/// own key, and the servo is on where a 1 stands behind its key.
pub proof fn status_is_read_by_key(s: Seq<char>)
    requires
        status_of(s) is Some,
    ensures
        ({
            let st = status_of(s)->0;
            let kv = key_values(s);
            &&& nat_at(kv, "position"@, 65535) == Some(st.position_pct_x10 as int)
            &&& nat_at(kv, "force"@, 65535) == Some(st.force_n_x10 as int)
            &&& nat_at(kv, "joy"@, 65535) == Some(st.joystick_output as int)
            &&& nat_at(kv, "err"@, 255) == Some(st.error_code as int)
            &&& flag_at(kv, "servo"@) == Some(st.servo_on)
        }),
{
    let kv = key_values(s);
    lemma_in_range(kv, "position"@, 65535);
    lemma_in_range(kv, "force"@, 65535);
    lemma_in_range(kv, "joy"@, 65535);
    lemma_in_range(kv, "err"@, 255);
}

proof fn lemma_in_range(kv: Seq<(Seq<char>, Seq<char>)>, key: Seq<char>, max: int)
    ensures
        nat_at(kv, key, max) matches Some(v) ==> 0 <= v <= max,
{
    if let Some(t) = crate::text::lookup(kv, key) {
        let d = if t.len() > 0 && t[0] == '+' {
            t.skip(1)
        } else {
            t
        };
        if crate::text::nat_of(t, max) is Some {
            crate::text::lemma_dec_val_bounds(d, 0);
            assert(d.take(0) =~= Seq::<char>::empty());
        }
    }
}

} // verus!
