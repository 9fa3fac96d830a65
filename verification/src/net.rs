//! The text packets of the WiFi link, one per datagram. A device broadcasts a
//! beacon; once a dashboard has subscribed, the device streams its axis, buttons
//! and state and answers commands.

use vstd::prelude::*;
use vstd::string::StringExecFns;
use crate::text::{
    after_prefix, chars_of, cut, dec_text, is_digit, is_white, lemma_after_prefix, lemma_dec_text,
    lemma_nat_text, lemma_no_split, lemma_split_once, lemma_trim_none, nat_of, parse_nat, push_dec,
    split_once, string_of, strip_prefix, trim, trim_end, trim_start, trimmed,
};

verus! {

/// Devices send to the dashboard on this UDP port.
pub const DISCOVERY_PORT: u16 = 42424;

/// The dashboard sends to a device on this UDP port.
pub const DEVICE_PORT: u16 = 42425;

/// `PITH <kind> <serial> <fw>`: the presence beacon.
pub const BEACON_PREFIX: &'static str = "PITH ";

/// `AX <serial> <value>`: the joystick axis.
pub const AXIS_PREFIX: &'static str = "AX ";

/// `BT <serial> <mask>`: the 32 buttons.
pub const BUTTONS_PREFIX: &'static str = "BT ";

/// `ST <serial> <text>`: the status line.
pub const STATE_PREFIX: &'static str = "ST ";

/// `RE <serial> <text>`: the reply to a command.
pub const REPLY_PREFIX: &'static str = "RE ";

/// The dashboard announces itself with this, and the device starts to stream.
pub const SUBSCRIBE_CMD: &'static str = "@SUB";

/// A packet from a device.
#[derive(Debug, Clone, PartialEq)]
pub enum DevicePacket {
    Beacon { kind: String, serial: String, fw: String },
    Axis { serial: String, value: u16 },
    Buttons { serial: String, mask: u32 },
    State { serial: String, text: String },
    Reply { serial: String, text: String },
}

/// A packet as plain values.
pub enum PacketView {
    Beacon { kind: Seq<char>, serial: Seq<char>, fw: Seq<char> },
    Axis { serial: Seq<char>, value: u16 },
    Buttons { serial: Seq<char>, mask: u32 },
    State { serial: Seq<char>, text: Seq<char> },
    Reply { serial: Seq<char>, text: Seq<char> },
}

impl View for DevicePacket {
    type V = PacketView;

    open spec fn view(&self) -> PacketView {
        match *self {
            DevicePacket::Beacon { kind, serial, fw } => PacketView::Beacon {
                kind: kind@,
                serial: serial@,
                fw: fw@,
            },
            DevicePacket::Axis { serial, value } => PacketView::Axis { serial: serial@, value },
            DevicePacket::Buttons { serial, mask } => PacketView::Buttons { serial: serial@, mask },
            DevicePacket::State { serial, text } => PacketView::State {
                serial: serial@,
                text: text@,
            },
            DevicePacket::Reply { serial, text } => PacketView::Reply {
                serial: serial@,
                text: text@,
            },
        }
    }
}

/// A prefix, a word, a blank and a rest.
pub open spec fn tagged(prefix: Seq<char>, word: Seq<char>, rest: Seq<char>) -> Seq<char> {
    prefix + (word + seq![' '] + rest)
}

/// The packet that a line is; `None` where it is none.
pub open spec fn packet_of(line: Seq<char>) -> Option<PacketView> {
    let s = trim(line);
    if after_prefix(s, "PITH "@) is Some {
        match split_once(after_prefix(s, "PITH "@)->0, ' ') {
            None => None,
            Some((kind, more)) => match split_once(more, ' ') {
                None => Some(PacketView::Beacon { kind, serial: more, fw: Seq::empty() }),
                Some((serial, fw)) => Some(PacketView::Beacon { kind, serial, fw }),
            },
        }
    } else if after_prefix(s, "AX "@) is Some {
        match split_once(after_prefix(s, "AX "@)->0, ' ') {
            None => None,
            Some((serial, value)) => match nat_of(trim(value), u16::MAX as int) {
                None => None,
                Some(v) => Some(PacketView::Axis { serial, value: v as u16 }),
            },
        }
    } else if after_prefix(s, "BT "@) is Some {
        match split_once(after_prefix(s, "BT "@)->0, ' ') {
            None => None,
            Some((serial, mask)) => match nat_of(trim(mask), u32::MAX as int) {
                None => None,
                Some(v) => Some(PacketView::Buttons { serial, mask: v as u32 }),
            },
        }
    } else if after_prefix(s, "ST "@) is Some {
        match split_once(after_prefix(s, "ST "@)->0, ' ') {
            None => None,
            Some((serial, text)) => Some(PacketView::State { serial, text }),
        }
    } else if after_prefix(s, "RE "@) is Some {
        match split_once(after_prefix(s, "RE "@)->0, ' ') {
            None => None,
            Some((serial, text)) => Some(PacketView::Reply { serial, text }),
        }
    } else {
        None
    }
}

/// A prefix, a word, a blank and a rest.
fn join(prefix: &str, word: &str, rest: &str) -> (s: String)
    ensures
        s@ == tagged(prefix@, word@, rest@),
{
    let mut s = String::from_str(prefix);
    s.append(word);
    s.push(' ');
    s.append(rest);
    proof {
        assert(s@ =~= tagged(prefix@, word@, rest@));
    }
    s
}

/// The line of a beacon, without a line end.
pub fn beacon(kind: &str, serial: &str, fw: &str) -> (s: String)
    ensures
        s@ == tagged("PITH "@, kind@, serial@ + seq![' '] + fw@),
{
    let mut rest = String::from_str(serial);
    rest.push(' ');
    rest.append(fw);
    proof {
        assert(rest@ =~= serial@ + seq![' '] + fw@);
    }
    join(BEACON_PREFIX, kind, rest.as_str())
}

/// The line of an axis packet.
pub fn axis_packet(serial: &str, value: u16) -> (s: String)
    ensures
        s@ == tagged("AX "@, serial@, dec_text(value as nat)),
{
    let mut n = String::new();
    push_dec(&mut n, value as u64);
    proof {
        assert(n@ =~= dec_text(value as nat));
    }
    join(AXIS_PREFIX, serial, n.as_str())
}

/// The line of a buttons packet.
pub fn buttons_packet(serial: &str, mask: u32) -> (s: String)
    ensures
        s@ == tagged("BT "@, serial@, dec_text(mask as nat)),
{
    let mut n = String::new();
    push_dec(&mut n, mask as u64);
    proof {
        assert(n@ =~= dec_text(mask as nat));
    }
    join(BUTTONS_PREFIX, serial, n.as_str())
}

/// The line of a state packet.
pub fn state_packet(serial: &str, text: &str) -> (s: String)
    ensures
        s@ == tagged("ST "@, serial@, text@),
{
    join(STATE_PREFIX, serial, text)
}

/// The line of a reply packet.
pub fn reply_packet(serial: &str, text: &str) -> (s: String)
    ensures
        s@ == tagged("RE "@, serial@, text@),
{
    join(REPLY_PREFIX, serial, text)
}

/// Reads a packet of a device.
pub fn parse_device_packet(line: &str) -> (r: Option<DevicePacket>)
    ensures
        match r {
            Some(p) => packet_of(line@) == Some(p@),
            None => packet_of(line@) is None,
        },
{
    let chars = chars_of(line);
    let s = trimmed(chars.as_slice());
    if let Some(rest) = strip_prefix(s, BEACON_PREFIX) {
        return match cut(rest, ' ') {
            None => None,
            Some((kind, more)) => match cut(more, ' ') {
                None => Some(
                    DevicePacket::Beacon {
                        kind: string_of(kind),
                        serial: string_of(more),
                        fw: String::new(),
                    },
                ),
                Some((serial, fw)) => Some(
                    DevicePacket::Beacon {
                        kind: string_of(kind),
                        serial: string_of(serial),
                        fw: string_of(fw),
                    },
                ),
            },
        };
    }
    if let Some(rest) = strip_prefix(s, AXIS_PREFIX) {
        return match cut(rest, ' ') {
            None => None,
            Some((serial, value)) => match parse_nat(trimmed(value), 65_535) {
                None => None,
                Some(v) => Some(DevicePacket::Axis { serial: string_of(serial), value: v as u16 }),
            },
        };
    }
    if let Some(rest) = strip_prefix(s, BUTTONS_PREFIX) {
        return match cut(rest, ' ') {
            None => None,
            Some((serial, mask)) => match parse_nat(trimmed(mask), 4_294_967_295) {
                None => None,
                Some(v) => Some(DevicePacket::Buttons { serial: string_of(serial), mask: v as u32 }),
            },
        };
    }
    if let Some(rest) = strip_prefix(s, STATE_PREFIX) {
        return match cut(rest, ' ') {
            None => None,
            Some((serial, text)) => Some(
                DevicePacket::State { serial: string_of(serial), text: string_of(text) },
            ),
        };
    }
    if let Some(rest) = strip_prefix(s, REPLY_PREFIX) {
        return match cut(rest, ' ') {
            None => None,
            Some((serial, text)) => Some(
                DevicePacket::Reply { serial: string_of(serial), text: string_of(text) },
            ),
        };
    }
    None
}

// -------------------------------------------------------------------- laws

/// The prefixes are told apart by their first characters.
proof fn lemma_prefixes(s: Seq<char>)
    ensures
        after_prefix(s, "PITH "@) is Some ==> s.len() >= 5 && s[0] == 'P',
        after_prefix(s, "AX "@) is Some ==> s.len() >= 3 && s[0] == 'A',
        after_prefix(s, "BT "@) is Some ==> s.len() >= 3 && s[0] == 'B',
        after_prefix(s, "ST "@) is Some ==> s.len() >= 3 && s[0] == 'S',
        after_prefix(s, "RE "@) is Some ==> s.len() >= 3 && s[0] == 'R',
        "PITH "@.len() == 5 && "PITH "@[0] == 'P',
        "AX "@.len() == 3 && "AX "@[0] == 'A',
        "BT "@.len() == 3 && "BT "@[0] == 'B',
        "ST "@.len() == 3 && "ST "@[0] == 'S',
        "RE "@.len() == 3 && "RE "@[0] == 'R',
{
    reveal_strlit("PITH ");
    reveal_strlit("AX ");
    reveal_strlit("BT ");
    reveal_strlit("ST ");
    reveal_strlit("RE ");
    assert(s.subrange(0, 5)[0] == s[0] || s.len() < 5);
    assert(s.subrange(0, 3)[0] == s[0] || s.len() < 3);
}

/// A tagged line does not change when it is trimmed, where its rest ends in no
/// whitespace.
proof fn lemma_tagged_trim(prefix: Seq<char>, word: Seq<char>, rest: Seq<char>)
    requires
        prefix.len() > 0 && !is_white(prefix[0]),
        rest.len() > 0 && !is_white(rest.last()),
    ensures
        trim(tagged(prefix, word, rest)) == tagged(prefix, word, rest),
{
    let s = tagged(prefix, word, rest);
    assert(s[0] == prefix[0]);
    assert(s.last() == rest.last());
    lemma_trim_none(s);
}

/// A beacon that was built is read back, where neither the kind nor the serial
/// holds a blank and the line does not end in whitespace (or only in the blank
/// before an empty version).
pub proof fn beacon_round_trip(kind: Seq<char>, serial: Seq<char>, fw: Seq<char>)
    requires
        !kind.contains(' '),
        !serial.contains(' '),
        if fw.len() > 0 {
            !is_white(fw.last())
        } else {
            serial.len() > 0 && !is_white(serial.last())
        },
    ensures
        packet_of(tagged("PITH "@, kind, serial + seq![' '] + fw)) == Some(
            PacketView::Beacon { kind, serial, fw },
        ),
{
    let rest = serial + seq![' '] + fw;
    let s = tagged("PITH "@, kind, rest);
    lemma_prefixes(s);
    if fw.len() > 0 {
        assert(rest.last() == fw.last());
        lemma_tagged_trim("PITH "@, kind, rest);
        lemma_after_prefix("PITH "@, kind + seq![' '] + rest);
        lemma_split_once(kind, ' ', rest);
        lemma_split_once(serial, ' ', fw);
    } else {
        let t = tagged("PITH "@, kind, serial);
        assert(s.drop_last() =~= t);
        assert(s.last() == ' ');
        assert(s[0] == 'P');
        lemma_tagged_trim("PITH "@, kind, serial);
        assert(t[0] == 'P');
        assert(trim_start(s) == s);
        assert(trim_end(s) == trim_end(t));
        assert(trim(s) == t);
        lemma_after_prefix("PITH "@, kind + seq![' '] + serial);
        lemma_split_once(kind, ' ', serial);
        lemma_no_split(serial, ' ');
        assert(fw =~= Seq::<char>::empty());
    }
}

/// An axis packet that was built is read back, where the serial holds no blank.
pub proof fn axis_round_trip(serial: Seq<char>, value: u16)
    requires
        !serial.contains(' '),
    ensures
        packet_of(tagged("AX "@, serial, dec_text(value as nat))) == Some(
            PacketView::Axis { serial, value },
        ),
{
    let n = dec_text(value as nat);
    lemma_prefixes(tagged("AX "@, serial, n));
    lemma_number(value as nat);
    lemma_tagged_trim("AX "@, serial, n);
    lemma_prefixes_of_axis(serial, n);
    lemma_after_prefix("AX "@, serial + seq![' '] + n);
    lemma_split_once(serial, ' ', n);
    lemma_nat_text(value as nat, u16::MAX as int);
}

proof fn lemma_prefixes_of_axis(serial: Seq<char>, n: Seq<char>)
    ensures
        after_prefix(tagged("AX "@, serial, n), "PITH "@) is None,
{
    let s = tagged("AX "@, serial, n);
    lemma_prefixes(s);
    assert(s[0] == "AX "@[0]);
}

/// A buttons packet that was built is read back, where the serial holds no blank.
pub proof fn buttons_round_trip(serial: Seq<char>, mask: u32)
    requires
        !serial.contains(' '),
    ensures
        packet_of(tagged("BT "@, serial, dec_text(mask as nat))) == Some(
            PacketView::Buttons { serial, mask },
        ),
{
    let n = dec_text(mask as nat);
    let s = tagged("BT "@, serial, n);
    lemma_prefixes(s);
    assert(s[0] == "BT "@[0]);
    lemma_number(mask as nat);
    lemma_tagged_trim("BT "@, serial, n);
    lemma_after_prefix("BT "@, serial + seq![' '] + n);
    lemma_split_once(serial, ' ', n);
    lemma_nat_text(mask as nat, u32::MAX as int);
}

/// The digits of a number are never trimmed.
proof fn lemma_number(n: nat)
    ensures
        dec_text(n).len() > 0,
        !is_white(dec_text(n).last()),
        trim(dec_text(n)) == dec_text(n),
{
    lemma_dec_text(n);
    let d = dec_text(n);
    assert(is_digit(d[0]));
    assert(is_digit(d[d.len() - 1]));
    lemma_trim_none(d);
}

/// A state packet that was built is read back, where the serial holds no blank
/// and the text ends in no whitespace.
pub proof fn state_round_trip(serial: Seq<char>, text: Seq<char>)
    requires
        !serial.contains(' '),
        text.len() > 0 && !is_white(text.last()),
    ensures
        packet_of(tagged("ST "@, serial, text)) == Some(PacketView::State { serial, text }),
{
    let s = tagged("ST "@, serial, text);
    lemma_prefixes(s);
    assert(s[0] == "ST "@[0]);
    lemma_tagged_trim("ST "@, serial, text);
    lemma_after_prefix("ST "@, serial + seq![' '] + text);
    lemma_split_once(serial, ' ', text);
}

/// A reply packet that was built is read back, where the serial holds no blank
/// and the text ends in no whitespace.
pub proof fn reply_round_trip(serial: Seq<char>, text: Seq<char>)
    requires
        !serial.contains(' '),
        text.len() > 0 && !is_white(text.last()),
    ensures
        packet_of(tagged("RE "@, serial, text)) == Some(PacketView::Reply { serial, text }),
{
    let s = tagged("RE "@, serial, text);
    lemma_prefixes(s);
    assert(s[0] == "RE "@[0]);
    lemma_tagged_trim("RE "@, serial, text);
    lemma_after_prefix("RE "@, serial + seq![' '] + text);
    lemma_split_once(serial, ' ', text);
}

/// A line that starts with none of the five tags is no packet; nor is one that has no
/// blank behind its first word.
pub proof fn other_lines_are_no_packets(line: Seq<char>, word: Seq<char>)
    requires
        line.len() > 0,
        !is_white(line[0]) && !is_white(line.last()),
        line[0] != 'P' && line[0] != 'A' && line[0] != 'B' && line[0] != 'S' && line[0] != 'R',
        word.len() > 0,
        !is_white(word.last()),
        !word.contains(' '),
    ensures
        packet_of(line) is None,
        packet_of("PITH "@ + word) is None,
        packet_of("AX "@ + word) is None,
        packet_of("BT "@ + word) is None,
        packet_of("ST "@ + word) is None,
        packet_of("RE "@ + word) is None,
{
    lemma_prefixes(line);
    lemma_trim_none(line);
    lemma_no_split(word, ' ');
    lemma_one_word("PITH "@, word);
    lemma_one_word("AX "@, word);
    lemma_one_word("BT "@, word);
    lemma_one_word("ST "@, word);
    lemma_one_word("RE "@, word);
}

proof fn lemma_one_word(p: Seq<char>, word: Seq<char>)
    requires
        p.len() > 0,
        !is_white(p[0]),
        word.len() > 0,
        !is_white(word.last()),
        split_once(word, ' ') is None,
        p == "PITH "@ || p == "AX "@ || p == "BT "@ || p == "ST "@ || p == "RE "@,
    ensures
        packet_of(p + word) is None,
{
    let s = p + word;
    lemma_prefixes(s);
    assert(s[0] == p[0]);
    assert(s.last() == word.last());
    lemma_trim_none(s);
    lemma_after_prefix(p, word);
}

/// A number that is too large for its packet makes it none: an axis ends at 65535.
pub proof fn large_numbers_are_refused(serial: Seq<char>, value: nat)
    requires
        !serial.contains(' '),
        value > 65535,
    ensures
        packet_of(tagged("AX "@, serial, dec_text(value))) is None,
{
    let n = dec_text(value);
    let s = tagged("AX "@, serial, n);
    lemma_number(value);
    lemma_prefixes(s);
    lemma_prefixes_of_axis(serial, n);
    lemma_tagged_trim("AX "@, serial, n);
    lemma_after_prefix("AX "@, serial + seq![' '] + n);
    lemma_split_once(serial, ' ', n);
    lemma_dec_text(value);
    assert(is_digit(n[0]));
}

} // verus!
