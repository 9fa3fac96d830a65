//! The serial channel of the host: what a port is, and the lines that come in.

use vstd::prelude::*;
use vstd::slice::slice_subrange;
use vstd::string::StringExecFns;
use crate::device::hid::{
    find_newline, lemma_newline_at, line_text, lines_end_at_line_ends, newline_at, shear, shorn,
};
use crate::link::{lossy, lossy_text};
use crate::text::{
    after_prefix, chars_of, contains, has_text, lemma_after_prefix, lemma_find_is, lemma_not_after,
    same_str, string_of, strip_prefix,
};

verus! {

/// A serial port.
#[derive(Clone, Debug)]
pub struct PortInfo {
    pub device: String,
    pub label: String,
    pub is_dash: bool,
    pub manufacturer: String,
    pub product: String,
    pub vid: String,
    pub pid: String,
    pub is_esp: bool,
}

/// A serial port as plain values.
pub struct PortView {
    pub device: Seq<char>,
    pub label: Seq<char>,
    pub is_dash: bool,
    pub manufacturer: Seq<char>,
    pub product: Seq<char>,
    pub vid: Seq<char>,
    pub pid: Seq<char>,
    pub is_esp: bool,
}

impl View for PortInfo {
    type V = PortView;

    open spec fn view(&self) -> PortView {
        PortView {
            device: self.device@,
            label: self.label@,
            is_dash: self.is_dash,
            manufacturer: self.manufacturer@,
            product: self.product@,
            vid: self.vid@,
            pid: self.pid@,
            is_esp: self.is_esp,
        }
    }
}

impl Default for PortInfo {
    fn default() -> (r: PortInfo)
        ensures
            r.device@.len() == 0,
            r.label@.len() == 0,
            !r.is_dash,
            r.manufacturer@.len() == 0,
            r.product@.len() == 0,
            r.vid@.len() == 0,
            r.pid@.len() == 0,
            !r.is_esp,
    {
        PortInfo {
            device: String::new(),
            label: String::new(),
            is_dash: false,
            manufacturer: String::new(),
            product: String::new(),
            vid: String::new(),
            pid: String::new(),
            is_esp: false,
        }
    }
}

/// A port may belong to a device by its name.
pub open spec fn is_tty(name: Seq<char>) -> bool {
    after_prefix(name, "ttyACM"@) is Some || after_prefix(name, "ttyUSB"@) is Some
}

/// Whether a port may belong to a device by its name.
pub fn tty_name(name: &str) -> (r: bool)
    ensures
        r == is_tty(name@),
{
    let c = chars_of(name);
    strip_prefix(c.as_slice(), "ttyACM").is_some() || strip_prefix(c.as_slice(), "ttyUSB").is_some()
}

/// The USB ids of the makers of the chips that the devices are built from.
pub open spec fn esp_ids(vid: Seq<char>, pid: Seq<char>) -> bool {
    vid == "303a"@ || (vid == "10c4"@ && pid == "ea60"@) || vid == "1a86"@ || vid == "0403"@
}

/// A port from what the system says of it: a display unit has one port for commands
/// and may have one for data.
pub open spec fn port_of(
    name: Seq<char>,
    vid: Seq<char>,
    pid: Seq<char>,
    product: Seq<char>,
    manufacturer: Seq<char>,
    iface: Seq<char>,
) -> PortView {
    let dev = "/dev/"@ + name;
    let ours = vid == "303a"@ && pid == "4002"@;
    let data = has_text(iface, "Data"@);
    let cmd = has_text(iface, "Command"@);
    PortView {
        device: dev,
        label: if ours {
            dev + " — Pith "@ + (if cmd {
                "Command"@
            } else if data {
                "Data"@
            } else {
                "Dashboard"@
            })
        } else if product.len() > 0 {
            dev + " ("@ + product + ")"@
        } else {
            dev
        },
        is_dash: ours && (cmd || !data),
        manufacturer,
        product,
        vid,
        pid,
        is_esp: esp_ids(vid, pid),
    }
}

fn is_esp(vid: &str, pid: &str) -> (r: bool)
    ensures
        r == esp_ids(vid@, pid@),
{
    same_str(vid, "303a") || (same_str(vid, "10c4") && same_str(pid, "ea60")) || same_str(
        vid,
        "1a86",
    ) || same_str(vid, "0403")
}

/// A port from what the system says of it.
pub fn port_info(
    name: &str,
    vid: &str,
    pid: &str,
    product: &str,
    manufacturer: &str,
    iface: &str,
) -> (r: PortInfo)
    ensures
        r@ == port_of(name@, vid@, pid@, product@, manufacturer@, iface@),
{
    let mut dev = String::from_str("/dev/");
    dev.append(name);
    let mut label = String::from_str(dev.as_str());
    let mut is_dash = false;
    let p = chars_of(product);
    if same_str(vid, "303a") && same_str(pid, "4002") {
        let c = chars_of(iface);
        let data = contains(c.as_slice(), "Data");
        let cmd = contains(c.as_slice(), "Command");
        is_dash = cmd || !data;
        label.append(" — Pith ");
        label.append(
            if cmd {
                "Command"
            } else if data {
                "Data"
            } else {
                "Dashboard"
            },
        );
    } else if p.len() > 0 {
        label.append(" (");
        label.append(product);
        label.append(")");
    }
    PortInfo {
        device: dev,
        label,
        is_dash,
        manufacturer: String::from_str(manufacturer),
        product: String::from_str(product),
        vid: String::from_str(vid),
        pid: String::from_str(pid),
        is_esp: is_esp(vid, pid),
    }
}

/// A lower-case hex digit.
pub open spec fn hex_lower(d: int) -> char {
    if d < 10 {
        (d + 0x30) as char
    } else {
        (d + 0x57) as char
    }
}

/// Four lower-case hex digits.
pub open spec fn hex4(v: u16) -> Seq<char> {
    seq![
        hex_lower(v as int / 0x1000),
        hex_lower(v as int / 0x100 % 16),
        hex_lower(v as int / 0x10 % 16),
        hex_lower(v as int % 16),
    ]
}

fn lower(d: u16) -> (c: char)
    requires
        d < 16,
    ensures
        c == hex_lower(d as int),
{
    if d < 10 {
        (0x30u8 + d as u8) as char
    } else {
        (0x57u8 + d as u8) as char
    }
}

/// Four lower-case hex digits.
pub fn hex4_text(v: u16) -> (s: String)
    ensures
        s@ == hex4(v),
{
    let mut s = String::new();
    s.push(lower(v / 0x1000));
    s.push(lower(v / 0x100 % 16));
    s.push(lower(v / 0x10 % 16));
    s.push(lower(v % 16));
    proof {
        assert(s@ =~= hex4(v));
    }
    s
}

/// A USB port from its ids, where the system does not tell more.
pub fn usb_port(name: &str, vid: u16, pid: u16, manufacturer: &str, product: &str) -> (r: PortInfo)
    ensures
        r@ == (PortView {
            device: name@,
            label: name@,
            is_dash: vid == 0x303A && pid == 0x4002,
            manufacturer: manufacturer@,
            product: product@,
            vid: hex4(vid),
            pid: hex4(pid),
            is_esp: vid == 0x303A || (vid == 0x10C4 && pid == 0xEA60) || vid == 0x1A86 || vid == 0x0403,
        }),
{
    PortInfo {
        device: String::from_str(name),
        label: String::from_str(name),
        is_dash: vid == 0x303A && pid == 0x4002,
        manufacturer: String::from_str(manufacturer),
        product: String::from_str(product),
        vid: hex4_text(vid),
        pid: hex4_text(pid),
        is_esp: vid == 0x303A || (vid == 0x10C4 && pid == 0xEA60) || vid == 0x1A86 || vid == 0x0403,
    }
}

/// The first line of a text, without its line end; empty where there is none.
pub open spec fn first_line(s: Seq<char>) -> Seq<char> {
    let n = crate::text::find(s, '\n');
    if n < s.len() && n > 0 && s[n - 1] == '\r' {
        s.take(n - 1)
    } else {
        s.take(n)
    }
}

/// The first line of a text.
pub fn first_line_of(s: &str) -> (r: String)
    ensures
        r@ == first_line(s@),
{
    let c = chars_of(s);
    let n = crate::text::index_of(c.as_slice(), '\n');
    let end: usize = if n < c.len() && n > 0 && c[n - 1] == '\r' {
        n - 1
    } else {
        n
    };
    proof {
        assert(c@.subrange(0, end as int) =~= first_line(s@));
    }
    string_of(slice_subrange(c.as_slice(), 0, end))
}

// ---------------------------------------------------------------------- lines

/// The next line that is not empty, and what is left behind it; `None` where no such
/// line is complete, with what is left then.
pub open spec fn next_of(b: Seq<u8>) -> (Option<Seq<char>>, Seq<u8>)
    decreases b.len(),
{
    proof {
        lemma_newline_at(b);
    }
    let n = newline_at(b);
    if n >= b.len() {
        (None, b)
    } else {
        let t = line_text(b.take(n), true);
        if t.len() > 0 {
            (Some(t), b.skip(n + 1))
        } else {
            next_of(b.skip(n + 1))
        }
    }
}

/// The bytes that have come in.
#[derive(Debug)]
pub struct SerialRx {
    pub line_buf: Vec<u8>,
}

impl SerialRx {
    pub fn new() -> (r: SerialRx)
        ensures
            r.line_buf@ == Seq::<u8>::empty(),
    {
        SerialRx { line_buf: Vec::new() }
    }

    /// Takes bytes in.
    pub fn feed(&mut self, bytes: &[u8])
        ensures
            final(self).line_buf@ == old(self).line_buf@ + bytes@,
    {
        self.line_buf.extend_from_slice(bytes);
        proof {
            assert(self.line_buf@ =~= old(self).line_buf@ + bytes@);
        }
    }

    /// Forgets what has come in.
    pub fn clear(&mut self)
        ensures
            final(self).line_buf@ == Seq::<u8>::empty(),
    {
        self.line_buf = Vec::new();
    }

    /// Takes the next line that is not empty, if one is complete.
    pub fn next_line(&mut self) -> (r: Option<String>)
        ensures
            ({
                let (line, rest) = next_of(old(self).line_buf@);
                &&& final(self).line_buf@ == rest
                &&& match r {
                    Some(s) => line == Some(s@),
                    None => line is None,
                }
            }),
    {
        loop
            invariant
                next_of(self.line_buf@) == next_of(old(self).line_buf@),
            decreases self.line_buf@.len(),
        {
            let n = find_newline(self.line_buf.as_slice());
            if n >= self.line_buf.len() {
                return None;
            }
            let ghost b = self.line_buf@;
            let line = lossy(slice_subrange(self.line_buf.as_slice(), 0, n));
            let text = shear(line.as_str(), true);
            let mut rest: Vec<u8> = Vec::new();
            rest.extend_from_slice(
                slice_subrange(self.line_buf.as_slice(), n + 1, self.line_buf.len()),
            );
            proof {
                assert(rest@ =~= b.skip(n + 1));
                assert(b.subrange(0, n as int) =~= b.take(n as int));
            }
            self.line_buf = rest;
            let c = chars_of(text.as_str());
            if c.len() > 0 {
                return Some(text);
            }
        }
    }
}

// -------------------------------------------------------------------- laws

/// The names of the ports of a device: they start with `ttyACM` or with `ttyUSB`.
pub proof fn device_ports_are_named(name: Seq<char>)
    ensures
        is_tty("ttyACM"@ + name),
        is_tty("ttyUSB"@ + name),
        name.len() > 3 && (name[0] != 't' || name[1] != 't' || name[2] != 'y' || name[3] != 'A'
            && name[3] != 'U') ==> !is_tty(name),
        name.len() < 6 ==> !is_tty(name),
{
    reveal_strlit("ttyACM");
    reveal_strlit("ttyUSB");
    lemma_after_prefix("ttyACM"@, name);
    lemma_after_prefix("ttyUSB"@, name);
    assert("ttyACM"@[0] == 't' && "ttyACM"@[1] == 't' && "ttyACM"@[2] == 'y' && "ttyACM"@[3]
        == 'A');
    assert("ttyUSB"@[0] == 't' && "ttyUSB"@[1] == 't' && "ttyUSB"@[2] == 'y' && "ttyUSB"@[3]
        == 'U');
}

/// The chips that a device is built from, by their vendors; of one vendor, one
/// product.
pub proof fn chips_are_known_by_their_ids(vid: Seq<char>, pid: Seq<char>)
    ensures
        esp_ids("303a"@, pid) && esp_ids("1a86"@, pid) && esp_ids("0403"@, pid),
        esp_ids("10c4"@, "ea60"@),
        vid != "303a"@ && vid != "1a86"@ && vid != "0403"@ && (vid != "10c4"@ || pid != "ea60"@)
            ==> !esp_ids(vid, pid),
{
}

/// What is shown of a port. A display unit is known by its ids; of its two ports the
/// one for data is not the one to talk to. Any other is shown with its product, where
/// it has one.
pub proof fn ports_are_described(
    name: Seq<char>,
    vid: Seq<char>,
    pid: Seq<char>,
    product: Seq<char>,
    manufacturer: Seq<char>,
    iface: Seq<char>,
)
    ensures
        ({
            let p = port_of(name, vid, pid, product, manufacturer, iface);
            let dev = "/dev/"@ + name;
            &&& p.device == dev
            &&& p.vid == vid && p.pid == pid
            &&& p.product == product && p.manufacturer == manufacturer
            &&& p.is_esp == esp_ids(vid, pid)
            &&& vid != "303a"@ || pid != "4002"@ ==> {
                &&& !p.is_dash
                &&& product.len() == 0 ==> p.label == dev
                &&& product.len() > 0 ==> p.label == dev + " ("@ + product + ")"@
            }
        }),
        ({
            let p = port_of(name, "303a"@, "4002"@, product, manufacturer, iface);
            let head = "/dev/"@ + name + " — Pith "@;
            &&& p.is_esp
            &&& has_text(iface, "Command"@) ==> p.is_dash && p.label == head + "Command"@
            &&& !has_text(iface, "Command"@) && has_text(iface, "Data"@) ==> !p.is_dash && p.label
                == head + "Data"@
            &&& !has_text(iface, "Command"@) && !has_text(iface, "Data"@) ==> p.is_dash && p.label
                == head + "Dashboard"@
        }),
{
}

/// A character is the small hex digit of a number.
pub open spec fn spells(c: char, d: int) -> bool {
    &&& d < 10 ==> c as int == '0' as int + d
    &&& d >= 10 ==> c as int == 'a' as int + d - 10
}

/// An id is four small hex digits, the highest first.
pub proof fn ids_are_four_digits(a: u8, b: u8, c: u8, d: u8)
    requires
        a < 16 && b < 16 && c < 16 && d < 16,
    ensures
        ({
            let t = hex4((0x1000 * a + 0x100 * b + 0x10 * c + d) as u16);
            &&& t.len() == 4
            &&& spells(t[0], a as int) && spells(t[1], b as int)
            &&& spells(t[2], c as int) && spells(t[3], d as int)
        }),
{
    let v = 0x1000 * a + 0x100 * b + 0x10 * c + d;
    assert(v / 0x1000 == a && v / 0x100 == 0x10 * a + b && v / 0x10 == 0x100 * a + 0x10 * b + c);
    assert(v / 0x100 % 16 == b);
    assert(v / 0x10 % 16 == c);
    assert(v % 16 == d);
}

/// The first line of a text is what stands before its first line end, of which a
/// carriage return may be a part; a text without one is its own first line.
pub proof fn first_lines_end_at_line_ends(a: Seq<char>, b: Seq<char>)
    requires
        !a.contains('\n'),
    ensures
        first_line(a) == a,
        (a.len() == 0 || a.last() != '\r') ==> first_line(a + seq!['\n'] + b) == a,
        first_line(a + seq!['\r', '\n'] + b) == a,
{
    let n = a.len() as int;
    assert forall|i: int| 0 <= i < n implies #[trigger] a[i] != '\n' by {
        assert(a.contains(a[i]));
    }
    lemma_find_is(a, '\n', n);
    assert(a.take(n) =~= a);
    let s = a + seq!['\n'] + b;
    lemma_find_is(s, '\n', n);
    assert(s.take(n) =~= a);
    let t = a + seq!['\r', '\n'] + b;
    lemma_find_is(t, '\n', n + 1);
    assert(t.take(n) =~= a);
}

/// The next line is the first that is not empty, shorn of the blanks at its end; what
/// follows it is left. Bytes without a line end are left as they are.
pub proof fn lines_are_taken_in_order(a: Seq<u8>, b: Seq<u8>)
    requires
        forall|k: int| 0 <= k < a.len() ==> #[trigger] a[k] != 0x0A,
    ensures
        ({
            let t = shorn(lossy_text(a), true);
            &&& t.len() > 0 ==> next_of(a + seq![0x0Au8] + b) == (Some(t), b)
            &&& t.len() == 0 ==> next_of(a + seq![0x0Au8] + b) == next_of(b)
        }),
        next_of(a) == (None::<Seq<char>>, a),
{
    lines_end_at_line_ends(a, b);
    let s = a + seq![0x0Au8] + b;
    let n = a.len() as int;
    assert(s.take(n) =~= a);
    assert(s.skip(n + 1) =~= b);
}

} // verus!
