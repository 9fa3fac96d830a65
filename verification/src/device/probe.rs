//! The search for a servo drive on a serial port: every speed and every address is
//! asked for the drive model, and nothing is ever written.

use vstd::prelude::*;
use vstd::string::StringExecFns;
use crate::pedals::modbus::read_response;
use crate::pedals::servo_jss57p::{
    default_of, factory_value, identifies, identity_is_the_model, is_identity_response, DISCOVERY_BAUD_CANDIDATES,
    DISCOVERY_SLAVE_ID_MAX, DISCOVERY_SLAVE_ID_MIN,
};
use crate::text::{dec_len, dec_string, dec_text};

verus! {

/// What an address answered.
#[derive(Clone, Copy, Debug, PartialEq, Eq, Structural)]
pub enum Answer {
    Silent,
    /// Something answered, but it is no drive of this kind.
    Other,
    Found,
}

/// The search: the speed and the address that are asked next, and the drives found.
#[derive(Debug)]
pub struct Sweep {
    pub speed: usize,
    pub slave: u8,
    pub hits: Vec<(u32, u8)>,
}

/// What an answer says.
pub open spec fn answer_of(frame: Seq<u8>) -> Answer {
    if frame.len() == 0 {
        Answer::Silent
    } else if identifies(frame) {
        Answer::Found
    } else {
        Answer::Other
    }
}

impl Sweep {
    /// The speed is one of the candidates, or all have been tried.
    pub open spec fn wf(self) -> bool {
        self.speed <= 5 && DISCOVERY_SLAVE_ID_MIN <= self.slave <= DISCOVERY_SLAVE_ID_MAX
    }

    pub fn new() -> (r: Sweep)
        ensures
            r.wf(),
            r.speed == 0,
            r.slave == DISCOVERY_SLAVE_ID_MIN,
            r.slave == 1,
            r.hits@.len() == 0,
    {
        Sweep { speed: 0, slave: DISCOVERY_SLAVE_ID_MIN, hits: Vec::new() }
    }

    /// What is asked next; `None` once the search is over.
    pub fn next(&self) -> (r: Option<(u32, u8)>)
        requires
            self.wf(),
        ensures
            r == if self.speed < 5 {
                Some((DISCOVERY_BAUD_CANDIDATES[self.speed as int], self.slave))
            } else {
                None
            },
            r matches Some((baud, _)) ==> baud == 9600 || baud == 19200 || baud == 38400 || baud
                == 57600 || baud == 115200,
    {
        if self.speed < 5 {
            Some((DISCOVERY_BAUD_CANDIDATES[self.speed], self.slave))
        } else {
            None
        }
    }

    /// Takes what came back, which is empty where nothing did. Once a drive is found
    /// at a speed, the search goes on at the next.
    pub fn take(&mut self, frame: &[u8]) -> (r: Answer)
        requires
            old(self).wf(),
            old(self).speed < 5,
        ensures
            final(self).wf(),
            r == answer_of(frame@),
            final(self).hits@ == if r is Found {
                old(self).hits@.push(
                    (DISCOVERY_BAUD_CANDIDATES[old(self).speed as int], old(self).slave),
                )
            } else {
                old(self).hits@
            },
            (final(self).speed, final(self).slave) == if r is Found || old(self).slave
                == DISCOVERY_SLAVE_ID_MAX {
                ((old(self).speed + 1) as usize, DISCOVERY_SLAVE_ID_MIN)
            } else {
                (old(self).speed, (old(self).slave + 1) as u8)
            },
            final(self).slave >= 1 && final(self).slave <= 31,
    {
        let r = if frame.len() == 0 {
            Answer::Silent
        } else if is_identity_response(frame) {
            Answer::Found
        } else {
            Answer::Other
        };
        let found = r == Answer::Found;
        if found {
            self.hits.push((DISCOVERY_BAUD_CANDIDATES[self.speed], self.slave));
        }
        if found || self.slave == DISCOVERY_SLAVE_ID_MAX {
            self.speed = self.speed + 1;
            self.slave = DISCOVERY_SLAVE_ID_MIN;
        } else {
            self.slave = self.slave + 1;
        }
        r
    }

    /// The drive that the registers are read from: the first that was found.
    pub fn first(&self) -> (r: Option<(u32, u8)>)
        ensures
            r == if self.hits@.len() > 0 {
                Some(self.hits@[0])
            } else {
                None
            },
    {
        if self.hits.len() > 0 {
            Some(self.hits[0])
        } else {
            None
        }
    }
}

// ------------------------------------------------------------------- registers

/// What a register is.
pub open spec fn register_name(i: int) -> Seq<char> {
    if i == 0 {
        "drive model (RO)"@
    } else if i == 1 {
        "loop mode (0=open 1=closed)"@
    } else if i == 2 {
        "motor type (DO NOT WRITE)"@
    } else if i == 3 {
        "current loop Kp (RO)"@
    } else if i == 4 {
        "current loop Ki (RO)"@
    } else if i == 5 {
        "position loop Kp"@
    } else if i == 6 {
        "speed loop Kp"@
    } else if i == 7 {
        "speed loop Ki"@
    } else if i == 8 {
        "microsteps/rev (default dial)"@
    } else if i == 9 {
        "encoder resolution"@
    } else if i == 10 {
        "tracking error alarm threshold"@
    } else if i == 11 {
        "open-loop hold current x100mA"@
    } else if i == 12 {
        "closed-loop peak current x100mA"@
    } else if i == 13 {
        "pulse filter time x50us"@
    } else if i == 14 {
        "enable polarity"@
    } else if i == 15 {
        "alarm output polarity"@
    } else if i == 16 {
        "pulse input mode (0=PUL/DIR)"@
    } else if i == 17 {
        "pulse active edge"@
    } else if i == 18 {
        "PEND function (0=in-position)"@
    } else if i == 19 {
        "PEND polarity"@
    } else if i == 20 {
        "accel lo"@
    } else if i == 21 {
        "accel hi"@
    } else if i == 22 {
        "decel lo"@
    } else if i == 23 {
        "decel hi"@
    } else if i == 24 {
        "max speed lo"@
    } else if i == 25 {
        "max speed hi"@
    } else if i == 26 {
        "target pulses lo"@
    } else if i == 27 {
        "target pulses hi"@
    } else if i == 28 {
        "motion command"@
    } else if i == 29 {
        "position mode (0=incr 1=abs)"@
    } else if i == 30 {
        "abs position lo (RO)"@
    } else if i == 31 {
        "abs position hi (RO)"@
    } else if i == 32 {
        "motion state (RO)"@
    } else if i == 33 {
        "save to EEPROM"@
    } else if i == 34 {
        "factory reset (NEVER WRITE)"@
    } else {
        "?"@
    }
}

/// What a register is.
pub fn name_of(i: usize) -> (s: &'static str)
    ensures
        s@ == register_name(i as int),
{
    match i {
        0 => "drive model (RO)",
        1 => "loop mode (0=open 1=closed)",
        2 => "motor type (DO NOT WRITE)",
        3 => "current loop Kp (RO)",
        4 => "current loop Ki (RO)",
        5 => "position loop Kp",
        6 => "speed loop Kp",
        7 => "speed loop Ki",
        8 => "microsteps/rev (default dial)",
        9 => "encoder resolution",
        10 => "tracking error alarm threshold",
        11 => "open-loop hold current x100mA",
        12 => "closed-loop peak current x100mA",
        13 => "pulse filter time x50us",
        14 => "enable polarity",
        15 => "alarm output polarity",
        16 => "pulse input mode (0=PUL/DIR)",
        17 => "pulse active edge",
        18 => "PEND function (0=in-position)",
        19 => "PEND polarity",
        20 => "accel lo",
        21 => "accel hi",
        22 => "decel lo",
        23 => "decel hi",
        24 => "max speed lo",
        25 => "max speed hi",
        26 => "target pulses lo",
        27 => "target pulses hi",
        28 => "motion command",
        29 => "position mode (0=incr 1=abs)",
        30 => "abs position lo (RO)",
        31 => "abs position hi (RO)",
        32 => "motion state (RO)",
        33 => "save to EEPROM",
        34 => "factory reset (NEVER WRITE)",
        _ => "?",
    }
}

/// Blanks.
pub open spec fn blanks(n: nat) -> Seq<char> {
    Seq::new(n, |k: int| ' ')
}

/// A number, filled up with blanks on the left.
pub open spec fn right(n: nat, w: nat) -> Seq<char> {
    if dec_text(n).len() < w {
        blanks((w - dec_text(n).len()) as nat) + dec_text(n)
    } else {
        dec_text(n)
    }
}

/// A number, filled up with blanks on the left.
pub fn push_right(out: &mut String, n: u64, w: usize)
    ensures
        final(out)@ == old(out)@ + right(n as nat, w as nat),
{
    let len = dec_len(n);
    let mut k: usize = len;
    let ghost start = out@;
    while k < w
        invariant
            k <= w || k == len,
            len <= k,
            out@ == start + blanks((k - len) as nat),
        decreases w - k,
    {
        out.push(' ');
        proof {
            assert(start + blanks((k - len) as nat).push(' ') =~= start + blanks(
                (k + 1 - len) as nat,
            ));
        }
        k += 1;
    }
    let d = dec_string(n);
    out.append(d.as_str());
    proof {
        assert(out@ =~= start + right(n as nat, w as nat));
    }
}

/// The line of a register: where its value is not the one of the factory, that one
/// stands behind it.
pub open spec fn register_text(i: nat, v: u16) -> Seq<char> {
    "  reg "@ + right(i, 2) + " = "@ + right(v as nat, 6) + "  "@ + register_name(i as int)
        + match factory_value(i as int) {
        Some(d) => if d != v {
            " (manual default "@ + dec_text(d as nat) + ")"@
        } else {
            ""@
        },
        None => ""@,
    }
}

/// The line of a register.
pub fn register_line(i: usize, v: u16) -> (s: String)
    ensures
        s@ == register_text(i as nat, v),
{
    let mut s = String::from_str("  reg ");
    push_right(&mut s, i as u64, 2);
    s.append(" = ");
    push_right(&mut s, v as u64, 6);
    s.append("  ");
    s.append(name_of(i));
    let mut mark = String::from_str("");
    if i < 35 {
        match default_of(i as u16) {
            Some(d) => {
                if d != v {
                    mark = String::from_str(" (manual default ");
                    let n = dec_string(d as u64);
                    mark.append(n.as_str());
                    mark.append(")");
                }
            },
            None => {},
        }
    }
    s.append(mark.as_str());
    s
}

// -------------------------------------------------------------------- laws

/// No answer is silence; one that carries the drive's model is a find, and one that
/// carries anything else is something else.
pub proof fn answers_are_judged(slave: u8, values: Seq<u16>, frame: Seq<u8>)
    requires
        values.len() <= 127,
    ensures
        answer_of(Seq::empty()) is Silent,
        values.len() == 1 && values[0] == 57 <==> answer_of(read_response(slave, values)) is Found,
        frame.len() > 0 ==> !(answer_of(frame) is Silent),
{
    identity_is_the_model(slave, values);
    assert(read_response(slave, values).len() > 0);
    if values.len() == 1 && values[0] == 57 {
        assert(identifies(read_response(slave, values)));
    }
}

/// The registers by their names.
pub proof fn registers_have_their_names(i: int)
    ensures
        register_name(0) == "drive model (RO)"@,
        register_name(1) == "loop mode (0=open 1=closed)"@,
        register_name(2) == "motor type (DO NOT WRITE)"@,
        register_name(3) == "current loop Kp (RO)"@,
        register_name(4) == "current loop Ki (RO)"@,
        register_name(5) == "position loop Kp"@,
        register_name(6) == "speed loop Kp"@,
        register_name(7) == "speed loop Ki"@,
        register_name(8) == "microsteps/rev (default dial)"@,
        register_name(9) == "encoder resolution"@,
        register_name(10) == "tracking error alarm threshold"@,
        register_name(11) == "open-loop hold current x100mA"@,
        register_name(12) == "closed-loop peak current x100mA"@,
        register_name(13) == "pulse filter time x50us"@,
        register_name(14) == "enable polarity"@,
        register_name(15) == "alarm output polarity"@,
        register_name(16) == "pulse input mode (0=PUL/DIR)"@,
        register_name(17) == "pulse active edge"@,
        register_name(18) == "PEND function (0=in-position)"@,
        register_name(19) == "PEND polarity"@,
        register_name(20) == "accel lo"@,
        register_name(21) == "accel hi"@,
        register_name(22) == "decel lo"@,
        register_name(23) == "decel hi"@,
        register_name(24) == "max speed lo"@,
        register_name(25) == "max speed hi"@,
        register_name(26) == "target pulses lo"@,
        register_name(27) == "target pulses hi"@,
        register_name(28) == "motion command"@,
        register_name(29) == "position mode (0=incr 1=abs)"@,
        register_name(30) == "abs position lo (RO)"@,
        register_name(31) == "abs position hi (RO)"@,
        register_name(32) == "motion state (RO)"@,
        register_name(33) == "save to EEPROM"@,
        register_name(34) == "factory reset (NEVER WRITE)"@,
        i < 0 || i > 34 ==> register_name(i) == "?"@,
{
}

/// A number is filled up with blanks on its left to a width, and is never cut.
pub proof fn numbers_stand_to_the_right(n: nat, w: nat, k: int)
    requires
        0 <= k < right(n, w).len(),
    ensures
        right(n, w).len() == w || right(n, w).len() > w && right(n, w) == dec_text(n),
        right(n, w).len() >= dec_text(n).len(),
        ({
            let gap = right(n, w).len() - dec_text(n).len();
            &&& k < gap ==> right(n, w)[k] == ' '
            &&& k >= gap ==> right(n, w)[k] == dec_text(n)[k - gap]
        }),
{
}

/// The line of a register tells its number, its value and its name; the value of the
/// factory stands behind it exactly where there is one and it is another.
pub proof fn register_lines_tell_the_default(i: nat, v: u16)
    ensures
        ({
            let head = "  reg "@ + right(i, 2) + " = "@ + right(v as nat, 6) + "  "@
                + register_name(i as int);
            &&& factory_value(i as int) is None || factory_value(i as int) == Some(v)
                ==> register_text(i, v) == head
            &&& factory_value(i as int) matches Some(d) ==> (d != v ==> register_text(i, v) == head
                + (" (manual default "@ + dec_text(d as nat) + ")"@))
        }),
{
    reveal_strlit("");
    let head = "  reg "@ + right(i, 2) + " = "@ + right(v as nat, 6) + "  "@ + register_name(
        i as int,
    );
    assert(head + ""@ =~= head);
}

} // verus!
