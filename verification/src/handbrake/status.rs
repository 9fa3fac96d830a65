//! The handbrake as the host sees it: its status reply.

use vstd::prelude::*;
use crate::handbrake::calibration::{axis_in_range, bit};
use crate::handbrake::proto::{reply_of, ReplyView};
use crate::handbrake::runtime::{status_pairs, status_text, Runtime};
use crate::text::{
    chars_of, dec_text, int_of, is_white, key_value_words, key_values, lemma_after_prefix,
    lemma_int_text, lemma_lookup, lemma_nat_text, lemma_number_is_plain, lemma_pairs_round_trip,
    lemma_trim_none, lookup, nat_of, pair_text, pairs_text, parse_int, parse_nat, plain_pair,
    same_str, trim, trim_end, trim_start, value_of,
};

verus! {

/// The status of a handbrake.
#[derive(Clone, Copy, Debug, PartialEq, Eq, Structural)]
pub struct Status {
    pub raw: i32,
    pub pct_x10: u16,
    pub idle_raw: i32,
    pub max_raw: i32,
    pub deadzone_lo_pct: u8,
    pub deadzone_hi_pct: u8,
    pub inverted: bool,
    pub calibrated: bool,
}

/// The signed number of a key.
pub open spec fn int_at(kv: Seq<(Seq<char>, Seq<char>)>, key: Seq<char>) -> Option<int> {
    match lookup(kv, key) {
        Some(v) => int_of(v, i32::MIN as int, i32::MAX as int),
        None => None,
    }
}

/// The unsigned number of a key.
pub open spec fn nat_at(kv: Seq<(Seq<char>, Seq<char>)>, key: Seq<char>, max: int) -> Option<int> {
    match lookup(kv, key) {
        Some(v) => nat_of(v, max),
        None => None,
    }
}

/// Whether a key has the value `1`; `None` where the key is missing.
pub open spec fn flag_at(kv: Seq<(Seq<char>, Seq<char>)>, key: Seq<char>) -> Option<bool> {
    match lookup(kv, key) {
        Some(v) => Some(v == "1"@),
        None => None,
    }
}

/// The status that a reply carries; `None` where a key is missing or malformed.
pub open spec fn status_of(s: Seq<char>) -> Option<Status> {
    let kv = key_values(s);
    match (
        int_at(kv, "raw"@),
        nat_at(kv, "pct"@, 65535),
        int_at(kv, "idle"@),
        int_at(kv, "max"@),
        nat_at(kv, "dzlo"@, 255),
        nat_at(kv, "dzhi"@, 255),
        flag_at(kv, "inv"@),
        flag_at(kv, "calibrated"@),
    ) {
        (
            Some(raw),
            Some(pct),
            Some(idle),
            Some(max),
            Some(lo),
            Some(hi),
            Some(inverted),
            Some(calibrated),
        ) => Some(
            Status {
                raw: raw as i32,
                pct_x10: pct as u16,
                idle_raw: idle as i32,
                max_raw: max as i32,
                deadzone_lo_pct: lo as u8,
                deadzone_hi_pct: hi as u8,
                inverted,
                calibrated,
            },
        ),
        _ => None,
    }
}

/// Reads the signed number of a key.
pub fn read_int(kv: &Vec<(&str, &str)>, key: &str) -> (r: Option<i32>)
    ensures
        match r {
            Some(v) => int_at(crate::text::pair_views(kv@), key@) == Some(v as int),
            None => int_at(crate::text::pair_views(kv@), key@) is None,
        },
{
    match value_of(kv, key) {
        None => None,
        Some(v) => {
            let c = chars_of(v);
            match parse_int(c.as_slice(), -2_147_483_648, 2_147_483_647) {
                Some(n) => Some(n as i32),
                None => None,
            }
        },
    }
}

/// Reads the unsigned number of a key.
pub fn read_nat(kv: &Vec<(&str, &str)>, key: &str, max: u64) -> (r: Option<u64>)
    ensures
        match r {
            Some(v) => nat_at(crate::text::pair_views(kv@), key@, max as int) == Some(v as int) && v
                <= max,
            None => nat_at(crate::text::pair_views(kv@), key@, max as int) is None,
        },
{
    match value_of(kv, key) {
        None => None,
        Some(v) => {
            let c = chars_of(v);
            parse_nat(c.as_slice(), max)
        },
    }
}

/// Reads whether a key has the value `1`.
pub fn read_flag(kv: &Vec<(&str, &str)>, key: &str) -> (r: Option<bool>)
    ensures
        r == flag_at(crate::text::pair_views(kv@), key@),
{
    match value_of(kv, key) {
        None => None,
        Some(v) => Some(same_str(v, "1")),
    }
}

impl Status {
    /// Reads a status reply.
    pub fn parse(data: &str) -> (r: Option<Status>)
        ensures
            r == status_of(data@),
    {
        let kv = key_value_words(data);
        match (
            read_int(&kv, "raw"),
            read_nat(&kv, "pct", 65_535),
            read_int(&kv, "idle"),
            read_int(&kv, "max"),
            read_nat(&kv, "dzlo", 255),
            read_nat(&kv, "dzhi", 255),
            read_flag(&kv, "inv"),
            read_flag(&kv, "calibrated"),
        ) {
            (
                Some(raw),
                Some(pct),
                Some(idle_raw),
                Some(max_raw),
                Some(lo),
                Some(hi),
                Some(inverted),
                Some(calibrated),
            ) => Some(
                Status {
                    raw,
                    pct_x10: pct as u16,
                    idle_raw,
                    max_raw,
                    deadzone_lo_pct: lo as u8,
                    deadzone_hi_pct: hi as u8,
                    inverted,
                    calibrated,
                },
            ),
            _ => None,
        }
    }
}

/// The keys of the status reply.
proof fn lemma_keys()
    ensures
        "raw"@ =~= seq!['r', 'a', 'w'],
        "pct"@ =~= seq!['p', 'c', 't'],
        "idle"@ =~= seq!['i', 'd', 'l', 'e'],
        "max"@ =~= seq!['m', 'a', 'x'],
        "dzlo"@ =~= seq!['d', 'z', 'l', 'o'],
        "dzhi"@ =~= seq!['d', 'z', 'h', 'i'],
        "inv"@ =~= seq!['i', 'n', 'v'],
        "calibrated"@ =~= seq!['c', 'a', 'l', 'i', 'b', 'r', 'a', 't', 'e', 'd'],
        "1"@ =~= seq!['1'],
{
    reveal_strlit("raw");
    reveal_strlit("pct");
    reveal_strlit("idle");
    reveal_strlit("max");
    reveal_strlit("dzlo");
    reveal_strlit("dzhi");
    reveal_strlit("inv");
    reveal_strlit("calibrated");
    reveal_strlit("1");
}

/// What the device answers to a status request is read by the host as the
/// calibration in effect and the latest sample.
pub proof fn status_round_trip(rt: Runtime)
    ensures
        reply_of(status_text(rt)) == Some(ReplyView::Okay(pairs_text(status_pairs(rt)))),
        status_of(pairs_text(status_pairs(rt))) == Some(
            Status {
                raw: rt.raw,
                pct_x10: rt.pending.axis(rt.raw as int) as u16,
                idle_raw: rt.pending.idle_raw,
                max_raw: rt.pending.max_raw,
                deadzone_lo_pct: rt.pending.deadzone_lo_pct,
                deadzone_hi_pct: rt.pending.deadzone_hi_pct,
                inverted: rt.pending.inverted,
                calibrated: rt.pending.calibrated,
            },
        ),
{
    let p = status_pairs(rt);
    lemma_keys();
    axis_in_range(rt.pending, rt.raw as int);
    lemma_number_is_plain(rt.raw as int);
    lemma_number_is_plain(rt.pending.axis(rt.raw as int));
    lemma_number_is_plain(rt.pending.idle_raw as int);
    lemma_number_is_plain(rt.pending.max_raw as int);
    lemma_number_is_plain(rt.pending.deadzone_lo_pct as int);
    lemma_number_is_plain(rt.pending.deadzone_hi_pct as int);
    lemma_number_is_plain(bit(rt.pending.inverted) as int);
    lemma_number_is_plain(bit(rt.pending.calibrated) as int);
    assert forall|i: int| 0 <= i < p.len() implies plain_pair(#[trigger] p[i]) by {
        assert(i == 0 || i == 1 || i == 2 || i == 3 || i == 4 || i == 5 || i == 6 || i == 7);
    }
    lemma_pairs_round_trip(p);
    lemma_distinct_keys(rt);
    lemma_lookup(p, 0);
    lemma_lookup(p, 1);
    lemma_lookup(p, 2);
    lemma_lookup(p, 3);
    lemma_lookup(p, 4);
    lemma_lookup(p, 5);
    lemma_lookup(p, 6);
    lemma_lookup(p, 7);
    lemma_int_text(rt.raw as int, i32::MIN as int, i32::MAX as int);
    lemma_int_text(rt.pending.idle_raw as int, i32::MIN as int, i32::MAX as int);
    lemma_int_text(rt.pending.max_raw as int, i32::MIN as int, i32::MAX as int);
    lemma_nat_text(rt.pending.axis(rt.raw as int) as nat, 65535);
    lemma_nat_text(rt.pending.deadzone_lo_pct as nat, 255);
    lemma_nat_text(rt.pending.deadzone_hi_pct as nat, 255);
    assert(dec_text(1) =~= seq!['1']);
    assert(dec_text(0) =~= seq!['0']);
    assert("1"@[0] == '1');
    lemma_ok_reply(p);
}

proof fn lemma_distinct_keys(rt: Runtime)
    ensures
        forall|i: int, k: int|
            0 <= i < k < 8 ==> (#[trigger] status_pairs(rt)[i]).0 != (#[trigger] status_pairs(rt)[k]).0,
{
    lemma_keys();
    let p = status_pairs(rt);
    let key = |i: int| p[i].0;
    assert(p[0].0.len() == 3 && p[0].0[0] == 'r');
    assert(p[1].0.len() == 3 && p[1].0[0] == 'p');
    assert(p[2].0.len() == 4 && p[2].0[0] == 'i');
    assert(p[3].0.len() == 3 && p[3].0[0] == 'm');
    assert(p[4].0.len() == 4 && p[4].0[0] == 'd' && p[4].0[2] == 'l');
    assert(p[5].0.len() == 4 && p[5].0[0] == 'd' && p[5].0[2] == 'h');
    assert(p[6].0.len() == 3 && p[6].0[0] == 'i');
    assert(p[7].0.len() == 10);
}

/// An `OK` reply with pairs leaves the pairs.
pub proof fn lemma_ok_reply(p: Seq<(Seq<char>, Seq<char>)>)
    requires
        p.len() > 0,
        plain_pair(p[0]) && p[0].0.len() > 0,
        plain_pair(p.last()) && p.last().1.len() > 0,
    ensures
        reply_of("OK "@ + pairs_text(p) + "\n"@) == Some(ReplyView::Okay(pairs_text(p))),
{
    reveal_strlit("OK ");
    reveal_strlit("OK");
    reveal_strlit("\n");
    let body = pairs_text(p);
    lemma_ends(p);
    let s = "OK "@ + body + "\n"@;
    let t = "OK "@ + body;
    assert(s.drop_last() =~= t);
    assert(s.last() == '\n');
    assert(s[0] == 'O');
    assert(t[0] == 'O');
    assert(t.last() == body.last());
    assert(trim_start(s) == s);
    assert(trim_end(t) == t);
    assert(trim(s) == t);
    let rest = seq![' '] + body;
    assert(t =~= "OK"@ + rest);
    lemma_after_prefix("OK"@, rest);
    assert(rest.drop_first() =~= body);
    assert(trim_start(rest) == trim_start(body));
    lemma_trim_none(body);
    assert(trim(rest) == body);
}

proof fn lemma_ends(p: Seq<(Seq<char>, Seq<char>)>)
    requires
        p.len() > 0,
        plain_pair(p[0]) && p[0].0.len() > 0,
        plain_pair(p.last()) && p.last().1.len() > 0,
    ensures
        pairs_text(p).len() > 0,
        !is_white(pairs_text(p)[0]),
        !is_white(pairs_text(p).last()),
    decreases p.len(),
{
    let w = pair_text(p[0]);
    assert(w[0] == p[0].0[0]);
    lemma_last(p);
}

proof fn lemma_last(p: Seq<(Seq<char>, Seq<char>)>)
    requires
        p.len() > 0,
        plain_pair(p.last()) && p.last().1.len() > 0,
    ensures
        pairs_text(p).len() > 0,
        !is_white(pairs_text(p).last()),
    decreases p.len(),
{
    let v = p.last().1;
    if p.len() == 1 {
        let w = pair_text(p[0]);
        assert(w.last() == v[v.len() - 1]);
    } else {
        let more = p.drop_first();
        assert(more.last() == p.last());
        lemma_last(more);
        assert(pairs_text(p).last() == pairs_text(more).last());
    }
}

/// A status is read key by key: each number of it is the one that stands behind its
/// own key, and a flag is set where a 1 stands behind it.
pub proof fn status_is_read_by_key(s: Seq<char>)
    requires
        status_of(s) is Some,
    ensures
        ({
            let st = status_of(s)->0;
            let kv = key_values(s);
            &&& lookup(kv, "raw"@) matches Some(v) && int_of(v, i32::MIN as int, i32::MAX as int)
                == Some(st.raw as int)
            &&& lookup(kv, "pct"@) matches Some(v) && nat_of(v, 65535) == Some(st.pct_x10 as int)
            &&& lookup(kv, "idle"@) matches Some(v) && int_of(v, i32::MIN as int, i32::MAX as int)
                == Some(st.idle_raw as int)
            &&& lookup(kv, "max"@) matches Some(v) && int_of(v, i32::MIN as int, i32::MAX as int)
                == Some(st.max_raw as int)
            &&& lookup(kv, "dzlo"@) matches Some(v) && nat_of(v, 255) == Some(
                st.deadzone_lo_pct as int,
            )
            &&& lookup(kv, "dzhi"@) matches Some(v) && nat_of(v, 255) == Some(
                st.deadzone_hi_pct as int,
            )
            &&& lookup(kv, "inv"@) matches Some(v) && st.inverted == (v == "1"@)
            &&& lookup(kv, "calibrated"@) matches Some(v) && st.calibrated == (v == "1"@)
        }),
{
    let kv = key_values(s);
    lemma_in_range(kv, "pct"@, 65535);
    lemma_in_range(kv, "dzlo"@, 255);
    lemma_in_range(kv, "dzhi"@, 255);
}

proof fn lemma_in_range(kv: Seq<(Seq<char>, Seq<char>)>, key: Seq<char>, max: int)
    ensures
        nat_at(kv, key, max) matches Some(v) ==> 0 <= v <= max,
{
    if let Some(t) = lookup(kv, key) {
        let d = if t.len() > 0 && t[0] == '+' {
            t.skip(1)
        } else {
            t
        };
        if nat_of(t, max) is Some {
            crate::text::lemma_dec_val_bounds(d, 0);
            assert(d.take(0) =~= Seq::<char>::empty());
        }
    }
}

} // verus!
