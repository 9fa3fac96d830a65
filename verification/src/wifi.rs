//! A device on the WiFi link: when it sends what, what it does with the lines that
//! come in, and the request to fetch a firmware image.

use vstd::prelude::*;
use vstd::string::StringExecFns;
use vstd::utf8::{
    decode_utf8, encode_utf8, encode_utf8_decode_utf8, encode_utf8_valid_utf8, valid_utf8,
};
use crate::net;
use crate::net::tagged;
use crate::text::{
    after_prefix, chars_of, dec_text, int_of, int_text, is_white, lemma_after_prefix, lemma_int_text,
    lemma_nat_text, lemma_not_after, lemma_number_is_plain, lemma_split_front, lemma_trim_none, nat_of,
    parse_int, parse_nat, same, split, split_all, string_of, strip_prefix, trim, trimmed,
    trimming_keeps_the_middle, utf8_str, views, word_list, words, words_are_separated,
};

verus! {

/// The beacon goes out this often.
pub const BEACON_MS: i64 = 1000;

/// The link is looked at this often.
pub const LINK_MS: i64 = 1000;

/// The axis goes out this often.
pub const AXIS_MS: i64 = 5;

/// The state goes out this often.
pub const STATE_MS: i64 = 250;

/// A failed connect is tried again after this long.
pub const RECONNECT_BACKOFF_S: u64 = 10;

/// What makes one kind of device different from another on the link.
#[derive(Clone, Copy, Debug)]
pub struct WifiOpts {
    /// What the beacon says: `ddu`, `handbrake` or `pedals`.
    pub kind: &'static str,
    /// The device streams an axis.
    pub stream_axis: bool,
    /// The device can fetch a firmware image.
    pub ota: bool,
}

/// What the link and the device's main loop share.
#[derive(Debug)]
pub struct WifiShared {
    pub axis: u16,
    pub connected: bool,
    pub state_line: String,
    /// Lines that came in for the main loop.
    pub rx: Vec<String>,
    /// Replies of the main loop.
    pub tx: Vec<String>,
    /// New credentials.
    pub new_creds: Option<(String, String)>,
}

/// Strings as plain values.
pub open spec fn texts(v: Seq<String>) -> Seq<Seq<char>> {
    v.map_values(|s: String| s@)
}

impl WifiShared {
    /// Nothing shared yet.
    pub fn new() -> (r: WifiShared)
        ensures
            r.axis == 0,
            !r.connected,
            r.state_line@.len() == 0,
            r.rx@.len() == 0,
            r.tx@.len() == 0,
            r.new_creds is None,
    {
        WifiShared {
            axis: 0,
            connected: false,
            state_line: String::new(),
            rx: Vec::new(),
            tx: Vec::new(),
            new_creds: None,
        }
    }
}

impl Default for WifiShared {
    fn default() -> (r: WifiShared)
        ensures
            r.axis == 0,
            !r.connected,
            r.state_line@.len() == 0,
            r.rx@.len() == 0,
            r.tx@.len() == 0,
            r.new_creds is None,
    {
        WifiShared::new()
    }
}

/// The stored credentials, where both are there and the network has a name.
pub fn usable_creds(ssid: Option<String>, pass: Option<String>) -> (r: Option<(String, String)>)
    ensures
        match r {
            Some((s, p)) => ssid == Some(s) && pass == Some(p) && s@.len() > 0,
            None => match (ssid, pass) {
                (Some(s), Some(p)) => s@.len() == 0,
                _ => true,
            },
        },
{
    match (ssid, pass) {
        (Some(s), Some(p)) => {
            let c = chars_of(s.as_str());
            if c.len() == 0 {
                None
            } else {
                Some((s, p))
            }
        },
        _ => None,
    }
}

// -------------------------------------------------------------------- inbound

/// A line that came in.
#[derive(Debug, PartialEq)]
pub enum Inbound {
    /// A dashboard subscribes.
    Subscribe,
    /// Fetch a firmware image, with these arguments.
    Ota(String),
    /// A line for the main loop.
    Line(String),
}

/// A line that came in, as plain values.
pub enum InboundView {
    Subscribe,
    Ota(Seq<char>),
    Line(Seq<char>),
}

impl View for Inbound {
    type V = InboundView;

    open spec fn view(&self) -> InboundView {
        match *self {
            Inbound::Subscribe => InboundView::Subscribe,
            Inbound::Ota(s) => InboundView::Ota(s@),
            Inbound::Line(s) => InboundView::Line(s@),
        }
    }
}

/// What a line is; `None` for an empty one.
pub open spec fn inbound_of(line: Seq<char>) -> Option<InboundView> {
    let s = trim(line);
    if s == "@SUB"@ {
        Some(InboundView::Subscribe)
    } else {
        match after_prefix(s, "@OTAWIFI"@) {
            Some(rest) => Some(InboundView::Ota(rest)),
            None => if s.len() == 0 {
                None
            } else {
                Some(InboundView::Line(s))
            },
        }
    }
}

/// What the first `n` lines are.
pub open spec fn inbounds(lines: Seq<Seq<char>>, n: nat) -> Seq<InboundView>
    decreases n,
{
    if n == 0 {
        Seq::empty()
    } else {
        let front = inbounds(lines, (n - 1) as nat);
        match inbound_of(lines[n - 1]) {
            Some(x) => front.push(x),
            None => front,
        }
    }
}

/// What a datagram holds; nothing where it is no UTF-8.
pub open spec fn datagram_of(b: Seq<u8>) -> Seq<InboundView> {
    if valid_utf8(b) {
        let lines = split(decode_utf8(b), '\n');
        inbounds(lines, lines.len())
    } else {
        Seq::empty()
    }
}

/// Lines that came in, as plain values.
pub open spec fn inbound_views(v: Seq<Inbound>) -> Seq<InboundView> {
    v.map_values(|x: Inbound| x@)
}

/// Reads a line.
fn read_inbound(line: &[char]) -> (r: Option<Inbound>)
    ensures
        match r {
            Some(x) => inbound_of(line@) == Some(x@),
            None => inbound_of(line@) is None,
        },
{
    let s = trimmed(line);
    if same(s, net::SUBSCRIBE_CMD) {
        return Some(Inbound::Subscribe);
    }
    match strip_prefix(s, "@OTAWIFI") {
        Some(rest) => Some(Inbound::Ota(string_of(rest))),
        None => if s.len() == 0 {
            None
        } else {
            Some(Inbound::Line(string_of(s)))
        },
    }
}

/// Reads a datagram.
pub fn read_datagram(b: &[u8]) -> (r: Vec<Inbound>)
    ensures
        inbound_views(r@) == datagram_of(b@),
{
    let mut out: Vec<Inbound> = Vec::new();
    proof {
        assert(inbound_views(out@) =~= Seq::<InboundView>::empty());
    }
    match utf8_str(b) {
        None => {},
        Some(text) => {
            proof {
                vstd::utf8::encode_utf8_decode_utf8(text@);
            }
            let c = chars_of(text);
            let lines = split_all(c.as_slice(), '\n');
            let ghost all = split(text@, '\n');
            let mut k: usize = 0;
            while k < lines.len()
                invariant
                    k <= lines@.len(),
                    views(lines@) == all,
                    inbound_views(out@) == inbounds(all, k as nat),
                decreases lines@.len() - k,
            {
                assert(all[k as int] == lines@[k as int]@);
                match read_inbound(lines[k]) {
                    Some(x) => {
                        let ghost before = inbound_views(out@);
                        out.push(x);
                        proof {
                            assert(inbound_views(out@) =~= before.push(x@));
                        }
                    },
                    None => {},
                }
                k += 1;
            }
            proof {
                assert(all.len() == lines@.len());
            }
        },
    }
    out
}

// ------------------------------------------------------------------- outbound

/// A packet to send.
#[derive(Debug, PartialEq)]
pub enum Send {
    /// To everybody.
    Broadcast(String),
    /// To the dashboard.
    Dashboard(String),
}

/// A packet to send, as plain values.
pub enum SendView {
    Broadcast(Seq<char>),
    Dashboard(Seq<char>),
}

impl View for Send {
    type V = SendView;

    open spec fn view(&self) -> SendView {
        match *self {
            Send::Broadcast(s) => SendView::Broadcast(s@),
            Send::Dashboard(s) => SendView::Dashboard(s@),
        }
    }
}

/// Packets to send, as plain values.
pub open spec fn send_views(v: Seq<Send>) -> Seq<SendView> {
    v.map_values(|x: Send| x@)
}

/// The clock of the link.
#[derive(Clone, Copy, Debug, PartialEq, Eq, Structural)]
pub struct Udp {
    /// A dashboard has subscribed.
    pub subscribed: bool,
    pub last_beacon: i64,
    pub last_link_check: i64,
    pub last_axis: i64,
    pub last_state: i64,
}

/// The clock when the link comes up at `now`.
pub open spec fn fresh(now: i64) -> Udp {
    Udp {
        subscribed: false,
        last_beacon: (now - BEACON_MS) as i64,
        last_link_check: now,
        last_axis: now,
        last_state: now,
    }
}

/// Whether something is due.
pub open spec fn due(now: int, last: int, every: int) -> bool {
    now - last >= every
}

/// The reply packets of the first `n` replies.
pub open spec fn replies_of(serial: Seq<char>, tx: Seq<Seq<char>>, n: nat) -> Seq<SendView>
    decreases n,
{
    if n == 0 {
        Seq::empty()
    } else {
        replies_of(serial, tx, (n - 1) as nat).push(
            SendView::Dashboard(tagged("RE "@, serial, trim(tx[n - 1]))),
        )
    }
}

/// What is sent at a time: the beacon; and to a dashboard that has subscribed the
/// axis, the state where there is one, and all replies.
pub open spec fn outbound_of(
    u: Udp,
    now: int,
    opts: WifiOpts,
    serial: Seq<char>,
    fw: Seq<char>,
    axis: u16,
    state: Seq<char>,
    tx: Seq<Seq<char>>,
) -> Seq<SendView> {
    let beacon = if due(now, u.last_beacon as int, BEACON_MS as int) {
        seq![SendView::Broadcast(tagged("PITH "@, opts.kind@, serial + seq![' '] + fw))]
    } else {
        Seq::empty()
    };
    let ax = if opts.stream_axis && due(now, u.last_axis as int, AXIS_MS as int) {
        seq![SendView::Dashboard(tagged("AX "@, serial, dec_text(axis as nat)))]
    } else {
        Seq::empty()
    };
    let st = if due(now, u.last_state as int, STATE_MS as int) && state.len() > 0 {
        seq![SendView::Dashboard(tagged("ST "@, serial, state))]
    } else {
        Seq::empty()
    };
    if u.subscribed {
        beacon + ax + st + replies_of(serial, tx, tx.len())
    } else {
        beacon
    }
}

/// The clock after sending.
pub open spec fn after_sending(u: Udp, now: i64, opts: WifiOpts) -> Udp {
    Udp {
        last_beacon: if due(now as int, u.last_beacon as int, BEACON_MS as int) {
            now
        } else {
            u.last_beacon
        },
        last_axis: if u.subscribed && opts.stream_axis && due(
            now as int,
            u.last_axis as int,
            AXIS_MS as int,
        ) {
            now
        } else {
            u.last_axis
        },
        last_state: if u.subscribed && due(now as int, u.last_state as int, STATE_MS as int) {
            now
        } else {
            u.last_state
        },
        ..u
    }
}

impl Udp {
    /// The times are close enough to the present for their distance to be computed.
    pub open spec fn near(self, now: i64) -> bool {
        &&& i64::MIN <= now - self.last_beacon <= i64::MAX
        &&& i64::MIN <= now - self.last_link_check <= i64::MAX
        &&& i64::MIN <= now - self.last_axis <= i64::MAX
        &&& i64::MIN <= now - self.last_state <= i64::MAX
    }

    /// The clock when the link comes up: a beacon is due at once.
    pub fn new(now: i64) -> (r: Udp)
        requires
            now >= i64::MIN + BEACON_MS,
        ensures
            r == fresh(now),
    {
        Udp {
            subscribed: false,
            last_beacon: now - BEACON_MS,
            last_link_check: now,
            last_axis: now,
            last_state: now,
        }
    }

    /// Whether the link is to be looked at now.
    pub fn link_due(&mut self, now: i64) -> (r: bool)
        requires
            old(self).near(now),
        ensures
            r == due(now as int, old(self).last_link_check as int, LINK_MS as int),
            *final(self) == (if r {
                Udp { last_link_check: now, ..*old(self) }
            } else {
                *old(self)
            }),
    {
        if now - self.last_link_check >= LINK_MS {
            self.last_link_check = now;
            true
        } else {
            false
        }
    }

    /// A dashboard has subscribed.
    pub fn subscribe(&mut self)
        ensures
            *final(self) == (Udp { subscribed: true, ..*old(self) }),
    {
        self.subscribed = true;
    }

    /// What is sent now. The replies are taken only where there is a dashboard to
    /// send them to.
    pub fn outbound(
        &mut self,
        now: i64,
        opts: &WifiOpts,
        serial: &str,
        fw: &str,
        shared: &mut WifiShared,
    ) -> (r: Vec<Send>)
        requires
            old(self).near(now),
        ensures
            *final(self) == after_sending(*old(self), now, *opts),
            send_views(r@) == outbound_of(
                *old(self),
                now as int,
                *opts,
                serial@,
                fw@,
                old(shared).axis,
                old(shared).state_line@,
                texts(old(shared).tx@),
            ),
            texts(final(shared).tx@) == if old(self).subscribed {
                Seq::empty()
            } else {
                texts(old(shared).tx@)
            },
            final(shared).axis == old(shared).axis,
            final(shared).connected == old(shared).connected,
            final(shared).state_line == old(shared).state_line,
            final(shared).rx == old(shared).rx,
            final(shared).new_creds == old(shared).new_creds,
    {
        let mut out: Vec<Send> = Vec::new();
        if now - self.last_beacon >= BEACON_MS {
            self.last_beacon = now;
            out.push(Send::Broadcast(net::beacon(opts.kind, serial, fw)));
        }
        if !self.subscribed {
            proof {
                assert(send_views(out@) =~= outbound_of(
                    *old(self),
                    now as int,
                    *opts,
                    serial@,
                    fw@,
                    shared.axis,
                    shared.state_line@,
                    texts(shared.tx@),
                ));
            }
            return out;
        }
        if opts.stream_axis && now - self.last_axis >= AXIS_MS {
            self.last_axis = now;
            out.push(Send::Dashboard(net::axis_packet(serial, shared.axis)));
        }
        if now - self.last_state >= STATE_MS {
            self.last_state = now;
            let c = chars_of(shared.state_line.as_str());
            if c.len() > 0 {
                out.push(Send::Dashboard(net::state_packet(serial, shared.state_line.as_str())));
            }
        }
        let ghost head = send_views(out@);
        let mut replies: Vec<String> = Vec::new();
        std::mem::swap(&mut replies, &mut shared.tx);
        let ghost tx = texts(replies@);
        let mut k: usize = 0;
        proof {
            assert(head + replies_of(serial@, tx, 0) =~= head);
            assert(texts(shared.tx@) =~= Seq::empty());
        }
        while k < replies.len()
            invariant
                k <= replies@.len(),
                tx == texts(replies@),
                send_views(out@) == head + replies_of(serial@, tx, k as nat),
            decreases replies@.len() - k,
        {
            let c = chars_of(replies[k].as_str());
            let t = string_of(trimmed(c.as_slice()));
            let ghost before = send_views(out@);
            assert(tx[k as int] == replies@[k as int]@);
            out.push(Send::Dashboard(net::reply_packet(serial, t.as_str())));
            proof {
                assert(send_views(out@) =~= before.push(
                    SendView::Dashboard(tagged("RE "@, serial@, trim(tx[k as int]))),
                ));
                assert(send_views(out@) =~= head + replies_of(serial@, tx, (k + 1) as nat));
            }
            k += 1;
        }
        proof {
            assert(tx.len() == replies@.len());
            assert(send_views(out@) =~= outbound_of(
                *old(self),
                now as int,
                *opts,
                serial@,
                fw@,
                old(shared).axis,
                old(shared).state_line@,
                tx,
            ));
        }
        out
    }
}

/// Whether the link is left: it has dropped, or there are new credentials.
pub fn leaves(connected: bool, new_creds: bool) -> (r: bool)
    ensures
        r == (!connected || new_creds),
{
    !connected || new_creds
}

/// As soon as the link is up a beacon goes out, and nothing else.
pub proof fn beacon_goes_out_at_once(
    now: i64,
    opts: WifiOpts,
    serial: Seq<char>,
    fw: Seq<char>,
    axis: u16,
    state: Seq<char>,
    tx: Seq<Seq<char>>,
)
    requires
        now >= i64::MIN + BEACON_MS,
    ensures
        outbound_of(fresh(now), now as int, opts, serial, fw, axis, state, tx) == seq![
            SendView::Broadcast(tagged("PITH "@, opts.kind@, serial + seq![' '] + fw)),
        ],
{
}

/// No more than one beacon goes out within a second.
pub proof fn beacons_are_spaced(u: Udp, now: i64, later: i64, opts: WifiOpts)
    requires
        due(now as int, u.last_beacon as int, BEACON_MS as int),
        now <= later < now + BEACON_MS,
    ensures
        !due(later as int, after_sending(u, now, opts).last_beacon as int, BEACON_MS as int),
{
}

/// Without a subscription nothing goes out but the beacon.
pub proof fn silent_without_dashboard(
    u: Udp,
    now: int,
    opts: WifiOpts,
    serial: Seq<char>,
    fw: Seq<char>,
    axis: u16,
    state: Seq<char>,
    tx: Seq<Seq<char>>,
)
    requires
        !u.subscribed,
    ensures
        forall|k: int|
            0 <= k < outbound_of(u, now, opts, serial, fw, axis, state, tx).len() ==> (
            #[trigger] outbound_of(u, now, opts, serial, fw, axis, state, tx)[k]) is Broadcast,
{
}

// ---------------------------------------------------------------------- update

/// Why a firmware image is not fetched.
#[derive(Clone, Copy, Debug, PartialEq, Eq, Structural)]
pub enum PullError {
    Unsupported,
    Usage,
    BadSize,
}

/// The port and the size of a request to fetch an image.
pub open spec fn pull_of(supported: bool, args: Seq<char>) -> Result<(int, int), PullError> {
    let w = words(args);
    if !supported {
        Err(PullError::Unsupported)
    } else if w.len() < 2 {
        Err(PullError::Usage)
    } else {
        match (nat_of(w[0], 65535), int_of(w[1], i32::MIN as int, i32::MAX as int)) {
            (Some(port), Some(size)) => if size <= 0 {
                Err(PullError::BadSize)
            } else {
                Ok((port, size))
            },
            _ => Err(PullError::Usage),
        }
    }
}

/// The answer to a request that is refused.
pub open spec fn pull_error_text(e: PullError) -> Seq<char> {
    match e {
        PullError::Unsupported => "ERR ota unsupported"@,
        PullError::Usage => "ERR usage @OTAWIFI port size"@,
        PullError::BadSize => "ERR bad size"@,
    }
}

/// The answer to a request that is refused.
pub fn pull_error_line(e: PullError) -> (s: &'static str)
    ensures
        s@ == pull_error_text(e),
{
    match e {
        PullError::Unsupported => "ERR ota unsupported",
        PullError::Usage => "ERR usage @OTAWIFI port size",
        PullError::BadSize => "ERR bad size",
    }
}

/// Reads a request to fetch an image.
pub fn read_pull(supported: bool, args: &str) -> (r: Result<(u16, i32), PullError>)
    ensures
        match r {
            Ok((port, size)) => pull_of(supported, args@) == Ok::<(int, int), PullError>(
                (port as int, size as int),
            ),
            Err(e) => pull_of(supported, args@) == Err::<(int, int), PullError>(e),
        },
{
    if !supported {
        return Err(PullError::Unsupported);
    }
    let c = chars_of(args);
    let w = word_list(c.as_slice());
    proof {
        assert(words(args@).len() == w@.len());
    }
    if w.len() < 2 {
        return Err(PullError::Usage);
    }
    proof {
        assert(words(args@)[0] == views(w@)[0]);
        assert(words(args@)[1] == views(w@)[1]);
    }
    match (parse_nat(w[0], 65_535), parse_int(w[1], -2_147_483_648, 2_147_483_647)) {
        (Some(port), Some(size)) => if size <= 0 {
            Err(PullError::BadSize)
        } else {
            Ok((port as u16, size as i32))
        },
        _ => Err(PullError::Usage),
    }
}

/// An image that is being fetched.
#[derive(Clone, Copy, Debug, PartialEq, Eq, Structural)]
pub struct Pull {
    pub size: i32,
    pub received: i64,
}

impl Pull {
    pub fn new(size: i32) -> (r: Pull)
        ensures
            r == (Pull { size, received: 0 }),
    {
        Pull { size, received: 0 }
    }

    /// Whether there is more to fetch.
    pub fn wants_more(&self) -> (r: bool)
        ensures
            r == (self.received < self.size),
    {
        self.received < self.size as i64
    }

    /// Bytes came in; they were taken or not. Whether the fetching goes on: not at
    /// the end of the stream, nor once the update has stopped taking bytes.
    pub fn got(&mut self, n: usize, fed: bool) -> (r: bool)
        requires
            old(self).received >= 0,
            old(self).received + n <= i64::MAX,
        ensures
            r == (n > 0 && fed),
            *final(self) == (Pull { received: (old(self).received + n) as i64, ..*old(self) }),
    {
        self.received = self.received + n as i64;
        n > 0 && fed
    }
}

// -------------------------------------------------------------------- laws

/// The two commands of the link are told from the lines of the main loop, which are
/// handed on without the whitespace around them; a blank line is nothing.
pub proof fn lines_are_told_apart(
    before: Seq<char>,
    rest: Seq<char>,
    line: Seq<char>,
    behind: Seq<char>,
)
    requires
        forall|i: int| 0 <= i < before.len() ==> is_white(#[trigger] before[i]),
        forall|i: int| 0 <= i < behind.len() ==> is_white(#[trigger] behind[i]),
        rest.len() > 0 && !is_white(rest.last()),
        line.len() > 0 && !is_white(line[0]) && !is_white(line.last()),
        line[0] != '@',
    ensures
        inbound_of(before + "@SUB"@ + behind) == Some(InboundView::Subscribe),
        inbound_of(before + ("@OTAWIFI"@ + rest) + behind) == Some(InboundView::Ota(rest)),
        inbound_of(before + line + behind) == Some(InboundView::Line(line)),
        inbound_of(before) is None,
{
    reveal_strlit("@SUB");
    reveal_strlit("@OTAWIFI");
    let ota = "@OTAWIFI"@ + rest;
    assert(ota[0] == '@' && ota.last() == rest.last());
    assert(ota[1] == 'O' && "@SUB"@[1] == 'S');
    trimming_keeps_the_middle(before, "@SUB"@, behind);
    trimming_keeps_the_middle(before, ota, behind);
    trimming_keeps_the_middle(before, line, behind);
    trimming_keeps_the_middle(before, Seq::empty(), Seq::empty());
    assert(before + Seq::<char>::empty() + Seq::<char>::empty() =~= before);
    lemma_after_prefix("@OTAWIFI"@, rest);
    lemma_not_after(line, "@OTAWIFI"@, 0);
    assert(line != "@SUB"@);
    assert("@SUB"@.len() == 4);
    assert(after_prefix(Seq::<char>::empty(), "@OTAWIFI"@) is None);
}

/// The lines of a datagram are read one after the other: what two lines hold is what
/// the first holds and then what the second does. One that is no text holds nothing.
pub proof fn datagrams_are_read_in_order(a: Seq<char>, b: Seq<char>, junk: Seq<u8>)
    requires
        !a.contains('\n'),
    ensures
        datagram_of(encode_utf8(a + seq!['\n'] + b)) == datagram_of(encode_utf8(a)) + datagram_of(
            encode_utf8(b),
        ),
        datagram_of(encode_utf8(a)) == match inbound_of(a) {
            Some(x) => seq![x],
            None => Seq::empty(),
        },
        !valid_utf8(junk) ==> datagram_of(junk).len() == 0,
{
    encode_utf8_valid_utf8(a);
    encode_utf8_decode_utf8(a);
    encode_utf8_valid_utf8(b);
    encode_utf8_decode_utf8(b);
    encode_utf8_valid_utf8(a + seq!['\n'] + b);
    encode_utf8_decode_utf8(a + seq!['\n'] + b);
    lemma_split_front(a, '\n', b);
    crate::text::lemma_no_split(a, '\n');
    let one = split(a, '\n');
    assert(one =~= seq![a]);
    let more = split(b, '\n');
    lemma_inbounds(a, more, more.len());
    assert(inbounds(one, 0) =~= Seq::empty());
    assert(inbounds(one, 1) == match inbound_of(a) {
        Some(x) => inbounds(one, 0).push(x),
        None => inbounds(one, 0),
    });
    assert(split(a + seq!['\n'] + b, '\n').len() == more.len() + 1);
}

proof fn lemma_inbounds(a: Seq<char>, more: Seq<Seq<char>>, n: nat)
    requires
        n <= more.len(),
    ensures
        inbounds(seq![a] + more, n + 1) == (match inbound_of(a) {
            Some(x) => seq![x],
            None => Seq::empty(),
        }) + inbounds(more, n),
    decreases n,
{
    let all = seq![a] + more;
    if n == 0 {
        assert(inbounds(all, 0) =~= Seq::empty());
        assert(all[0] == a);
        assert(inbounds(more, 0) =~= Seq::empty());
        assert(inbounds(all, 1) =~= (match inbound_of(a) {
            Some(x) => seq![x],
            None => Seq::empty(),
        }) + inbounds(more, 0));
    } else {
        lemma_inbounds(a, more, (n - 1) as nat);
        assert(all[n as int] == more[n - 1]);
        assert(inbounds(all, n + 1) =~= (match inbound_of(a) {
            Some(x) => seq![x],
            None => Seq::empty(),
        }) + inbounds(more, n));
    }
}

/// What is sent, and when: the beacon to everybody every 1000 milliseconds; and to a
/// dashboard that has subscribed, behind it and in this order, the axis every 5 where
/// there is one, the state every 250 where there is one, and all replies, trimmed and
/// in their order.
pub proof fn packets_go_out_in_order(
    u: Udp,
    now: int,
    opts: WifiOpts,
    serial: Seq<char>,
    fw: Seq<char>,
    axis: u16,
    state: Seq<char>,
    tx: Seq<Seq<char>>,
    k: int,
)
    requires
        0 <= k < tx.len(),
    ensures
        ({
            let out = outbound_of(u, now, opts, serial, fw, axis, state, tx);
            let b: int = if now - u.last_beacon >= 1000 {
                1
            } else {
                0
            };
            let a: int = if opts.stream_axis && now - u.last_axis >= 5 {
                1
            } else {
                0
            };
            let s: int = if now - u.last_state >= 250 && state.len() > 0 {
                1
            } else {
                0
            };
            &&& b == 1 ==> out[0] == SendView::Broadcast(
                "PITH "@ + (opts.kind@ + seq![' '] + (serial + seq![' '] + fw)),
            )
            &&& !u.subscribed ==> out.len() == b
            &&& u.subscribed ==> {
                &&& out.len() == b + a + s + tx.len()
                &&& a == 1 ==> out[b] == SendView::Dashboard(
                    "AX "@ + (serial + seq![' '] + dec_text(axis as nat)),
                )
                &&& s == 1 ==> out[b + a] == SendView::Dashboard(
                    "ST "@ + (serial + seq![' '] + state),
                )
                &&& out[b + a + s + k] == SendView::Dashboard(
                    "RE "@ + (serial + seq![' '] + trim(tx[k])),
                )
            }
        }),
{
    lemma_replies(serial, tx, tx.len(), k);
}

proof fn lemma_replies(serial: Seq<char>, tx: Seq<Seq<char>>, n: nat, k: int)
    requires
        0 <= k < n <= tx.len(),
    ensures
        replies_of(serial, tx, n).len() == n,
        replies_of(serial, tx, n)[k] == SendView::Dashboard(tagged("RE "@, serial, trim(tx[k]))),
    decreases n,
{
    if k < n - 1 {
        lemma_replies(serial, tx, (n - 1) as nat, k);
    } else if n > 1 {
        lemma_replies(serial, tx, (n - 1) as nat, 0);
    } else {
        assert(replies_of(serial, tx, 0).len() == 0);
    }
}

/// Each clock starts anew when its packet goes out, and only then: the beacon's in
/// any case, the other two only with a dashboard.
pub proof fn clocks_start_anew(u: Udp, now: i64, opts: WifiOpts)
    ensures
        ({
            let v = after_sending(u, now, opts);
            &&& v.last_beacon == now || v.last_beacon == u.last_beacon
            &&& now - u.last_beacon >= 1000 ==> v.last_beacon == now
            &&& now - u.last_beacon < 1000 ==> v.last_beacon == u.last_beacon
            &&& u.subscribed && opts.stream_axis && now - u.last_axis >= 5 ==> v.last_axis == now
            &&& !u.subscribed || !opts.stream_axis || now - u.last_axis < 5 ==> v.last_axis
                == u.last_axis
            &&& u.subscribed && now - u.last_state >= 250 ==> v.last_state == now
            &&& !u.subscribed || now - u.last_state < 250 ==> v.last_state == u.last_state
            &&& v.subscribed == u.subscribed
            &&& v.last_link_check == u.last_link_check
        }),
        now >= i64::MIN + 1000 ==> ({
            let f = fresh(now);
            &&& !f.subscribed
            &&& now - f.last_beacon == 1000
            &&& f.last_axis == now && f.last_state == now && f.last_link_check == now
        }),
{
}

/// A request names the port and then the size; a size that is not positive is
/// refused, a request without a size is not understood, and a device that cannot
/// update says so whatever is asked.
pub proof fn pulls_name_port_and_size(port: u16, size: i32, args: Seq<char>)
    ensures
        ({
            let asked = seq![' '] + (dec_text(port as nat) + seq![' '] + int_text(size as int));
            &&& size > 0 ==> pull_of(true, asked) == Ok::<(int, int), PullError>(
                (port as int, size as int),
            )
            &&& size <= 0 ==> pull_of(true, asked) == Err::<(int, int), PullError>(
                PullError::BadSize,
            )
        }),
        pull_of(true, dec_text(port as nat)) == Err::<(int, int), PullError>(PullError::Usage),
        pull_of(false, args) == Err::<(int, int), PullError>(PullError::Unsupported),
        pull_error_text(PullError::Unsupported) == "ERR ota unsupported"@,
        pull_error_text(PullError::Usage) == "ERR usage @OTAWIFI port size"@,
        pull_error_text(PullError::BadSize) == "ERR bad size"@,
{
    let p = dec_text(port as nat);
    let z = int_text(size as int);
    lemma_number_is_plain(port as int);
    lemma_number_is_plain(size as int);
    lemma_nat_text(port as nat, 65535);
    lemma_int_text(port as int, 0, 65535);
    lemma_int_text(size as int, i32::MIN as int, i32::MAX as int);
    words_are_separated(p, z);
    words_are_separated(z, z);
    words_are_separated(p, p + seq![' '] + z);
    let w = words(seq![' '] + (p + seq![' '] + z));
    assert(w =~= seq![p, z]);
}

} // verus!
