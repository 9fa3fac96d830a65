//! The HID channel of the host: commands go out in reports of 64 bytes; replies and
//! log lines come in by their report id.

use vstd::prelude::*;
use vstd::slice::slice_subrange;
use crate::link::{first_chunk, lossy, lossy_text, payload_of, CHUNK};
use crate::text::{chars_of, string_of};

verus! {

/// The report id of commands and replies.
pub const REPORT_CMD: u8 = 0x02;

/// The report id of log lines.
pub const REPORT_LOG: u8 = 0x03;

/// At most this many log lines are kept.
pub const LOG_MAX: usize = 2000;

// -------------------------------------------------------------------- sending

/// The report of a chunk: the id, the length, the bytes, and zeros up to 64.
pub open spec fn report_of(chunk: Seq<u8>) -> Seq<u8> {
    seq![REPORT_CMD, chunk.len() as u8] + chunk + Seq::new((62 - chunk.len()) as nat, |i: int| 0u8)
}

/// The reports of some bytes; at least one.
pub open spec fn reports_of(data: Seq<u8>) -> Seq<Seq<u8>>
    decreases data.len(),
{
    if data.len() <= CHUNK {
        seq![report_of(data)]
    } else {
        seq![report_of(data.take(CHUNK as int))] + reports_of(data.skip(CHUNK as int))
    }
}

/// Reports as plain values.
pub open spec fn report_views(v: Seq<[u8; 64]>) -> Seq<Seq<u8>> {
    v.map_values(|r: [u8; 64]| r@)
}

/// The report of a chunk.
fn report(chunk: &[u8]) -> (r: [u8; 64])
    requires
        chunk@.len() <= CHUNK,
    ensures
        r@ == report_of(chunk@),
{
    let mut r: [u8; 64] = [0; 64];
    r[0] = REPORT_CMD;
    r[1] = chunk.len() as u8;
    let mut k: usize = 0;
    while k < chunk.len()
        invariant
            k <= chunk@.len() <= CHUNK,
            r@.len() == 64,
            r@[0] == REPORT_CMD,
            r@[1] == chunk@.len(),
            forall|j: int|
                2 <= j < 64 ==> #[trigger] r@[j] == if j < k + 2 {
                    chunk@[j - 2]
                } else {
                    0
                },
        decreases chunk@.len() - k,
    {
        r[k + 2] = chunk[k];
        k += 1;
    }
    proof {
        assert(r@ =~= report_of(chunk@));
    }
    r
}

/// The reports that carry some bytes.
pub fn reports(data: &[u8]) -> (r: Vec<[u8; 64]>)
    ensures
        report_views(r@) == reports_of(data@),
{
    let mut out: Vec<[u8; 64]> = Vec::new();
    let mut off: usize = 0;
    proof {
        assert(data@.skip(0) =~= data@);
        assert(report_views(out@) + reports_of(data@) =~= reports_of(data@));
    }
    loop
        invariant_except_break
            off <= data@.len(),
            reports_of(data@) == report_views(out@) + reports_of(data@.skip(off as int)),
        ensures
            reports_of(data@) == report_views(out@),
        decreases data@.len() - off,
    {
        let left: usize = data.len() - off;
        let ghost before = report_views(out@);
        let ghost rest = data@.skip(off as int);
        if left <= CHUNK {
            let chunk = slice_subrange(data, off, data.len());
            out.push(report(chunk));
            proof {
                assert(chunk@ =~= rest);
                assert(report_views(out@) =~= before.push(report_of(rest)));
                assert(before + seq![report_of(rest)] =~= before.push(report_of(rest)));
            }
            break;
        }
        let chunk = slice_subrange(data, off, off + CHUNK);
        out.push(report(chunk));
        proof {
            assert(chunk@ =~= rest.take(CHUNK as int));
            assert(rest.skip(CHUNK as int) =~= data@.skip(off + CHUNK));
            let p = report_of(rest.take(CHUNK as int));
            assert(report_views(out@) =~= before.push(p));
            assert(before + (seq![p] + reports_of(rest.skip(CHUNK as int))) =~= before.push(p)
                + reports_of(rest.skip(CHUNK as int)));
        }
        off = off + CHUNK;
    }
    out
}

/// What a device takes out of reports: their payloads, one after the other. The
/// device does not see the report id.
pub open spec fn taken(reports: Seq<Seq<u8>>) -> Seq<u8>
    decreases reports.len(),
{
    if reports.len() == 0 {
        Seq::empty()
    } else {
        payload_of(reports[0].skip(1)) + taken(reports.drop_first())
    }
}

/// The bytes that the host writes are the bytes that the device takes out.
pub proof fn written_bytes_arrive(data: Seq<u8>)
    ensures
        taken(reports_of(data)) == data,
    decreases data.len(),
{
    let all = reports_of(data);
    if data.len() <= CHUNK {
        lemma_report(data);
        let none = Seq::<Seq<u8>>::empty();
        assert(all.drop_first() =~= none);
        assert(taken(none) =~= Seq::<u8>::empty());
        assert(all[0] == report_of(data));
        assert(taken(all) =~= data);
    } else {
        let head = data.take(CHUNK as int);
        let tail = data.skip(CHUNK as int);
        lemma_report(head);
        written_bytes_arrive(tail);
        assert(all.drop_first() =~= reports_of(tail));
        assert(taken(all) =~= head + tail);
        assert(head + tail =~= data);
    }
}

/// A report carries its chunk.
proof fn lemma_report(chunk: Seq<u8>)
    requires
        chunk.len() <= CHUNK,
    ensures
        payload_of(report_of(chunk).skip(1)) == chunk,
{
    let r = report_of(chunk).skip(1);
    assert(r[0] == chunk.len());
    assert(r.len() == 63);
    assert(r.subrange(1, chunk.len() + 1int) =~= chunk);
}

// ------------------------------------------------------------------ receiving

/// The place of the first line end; the length where there is none.
pub open spec fn newline_at(b: Seq<u8>) -> int
    decreases b.len(),
{
    if b.len() == 0 || b[0] == 0x0A {
        0
    } else {
        1 + newline_at(b.drop_first())
    }
}

/// The complete lines in some bytes, and what is left behind the last of them.
pub open spec fn lines_in(b: Seq<u8>) -> (Seq<Seq<u8>>, Seq<u8>)
    decreases b.len(),
{
    proof {
        lemma_newline_at(b);
    }
    let n = newline_at(b);
    if n >= b.len() {
        (Seq::empty(), b)
    } else {
        let (more, rest) = lines_in(b.skip(n + 1));
        (seq![b.take(n)] + more, rest)
    }
}

pub proof fn lemma_newline_at(b: Seq<u8>)
    ensures
        0 <= newline_at(b) <= b.len(),
        newline_at(b) < b.len() ==> b[newline_at(b)] == 0x0A,
        forall|k: int| 0 <= k < newline_at(b) ==> #[trigger] b[k] != 0x0A,
    decreases b.len(),
{
    if b.len() > 0 && b[0] != 0x0A {
        let t = b.drop_first();
        lemma_newline_at(t);
        assert forall|k: int| 0 <= k < newline_at(b) implies #[trigger] b[k] != 0x0A by {
            if k > 0 {
                assert(b[k] == t[k - 1]);
            }
        }
        if newline_at(b) < b.len() {
            assert(b[newline_at(b)] == t[newline_at(t)]);
        }
    }
}

proof fn lemma_newline_is(b: Seq<u8>, n: int)
    requires
        0 <= n <= b.len(),
        n < b.len() ==> b[n] == 0x0A,
        forall|k: int| 0 <= k < n ==> #[trigger] b[k] != 0x0A,
    ensures
        newline_at(b) == n,
    decreases n,
{
    if n > 0 {
        assert(b[0] != 0x0A);
        let t = b.drop_first();
        assert forall|k: int| 0 <= k < n - 1 implies #[trigger] t[k] != 0x0A by {
            assert(t[k] == b[k + 1]);
        }
        lemma_newline_is(t, n - 1);
    }
}

/// The place of the first line end.
pub fn find_newline(b: &[u8]) -> (r: usize)
    ensures
        r == newline_at(b@),
        r <= b@.len(),
{
    let mut k: usize = 0;
    while k < b.len() && b[k] != 0x0A
        invariant
            k <= b@.len(),
            forall|j: int| 0 <= j < k ==> #[trigger] b@[j] != 0x0A,
        decreases b@.len() - k,
    {
        k += 1;
    }
    proof {
        lemma_newline_is(b@, k as int);
    }
    k
}

/// A line without the carriage returns, and the blanks where `blanks`, at its end.
pub open spec fn shorn(s: Seq<char>, blanks: bool) -> Seq<char>
    decreases s.len(),
{
    if s.len() > 0 && (s.last() == '\r' || blanks && s.last() == ' ') {
        shorn(s.drop_last(), blanks)
    } else {
        s
    }
}

/// A line without what is at its end.
pub fn shear(s: &str, blanks: bool) -> (r: String)
    ensures
        r@ == shorn(s@, blanks),
{
    let c = chars_of(s);
    let mut n: usize = c.len();
    proof {
        assert(c@.take(n as int) =~= c@);
    }
    while n > 0 && (c[n - 1] == '\r' || blanks && c[n - 1] == ' ')
        invariant
            n <= c@.len(),
            shorn(c@.take(n as int), blanks) == shorn(c@, blanks),
        decreases n,
    {
        proof {
            assert(c@.take(n as int).drop_last() =~= c@.take(n - 1));
            assert(c@.take(n as int).last() == c@[n - 1]);
        }
        n -= 1;
    }
    proof {
        if n > 0 {
            assert(c@.take(n as int).last() == c@[n - 1]);
        }
        assert(c@.subrange(0, n as int) =~= c@.take(n as int));
    }
    string_of(slice_subrange(c.as_slice(), 0, n))
}

/// The text of a line.
pub open spec fn line_text(b: Seq<u8>, blanks: bool) -> Seq<char> {
    shorn(lossy_text(b), blanks)
}

/// The texts of lines that are not empty.
pub open spec fn kept_lines(lines: Seq<Seq<u8>>) -> Seq<Seq<char>>
    decreases lines.len(),
{
    if lines.len() == 0 {
        Seq::empty()
    } else {
        let t = line_text(lines[0], false);
        let more = kept_lines(lines.drop_first());
        if t.len() > 0 {
            seq![t] + more
        } else {
            more
        }
    }
}

/// The last [`LOG_MAX`] lines.
pub open spec fn newest(lines: Seq<Seq<char>>) -> Seq<Seq<char>> {
    if lines.len() > LOG_MAX {
        lines.skip(lines.len() - LOG_MAX)
    } else {
        lines
    }
}

/// What has come in: reply bytes, a growing log line, and complete log lines.
#[derive(Debug)]
pub struct HidRx {
    pub rx: Vec<u8>,
    pub log_acc: Vec<u8>,
    pub logs: Vec<String>,
}

/// What has come in, as plain values.
pub struct RxView {
    pub rx: Seq<u8>,
    pub log_acc: Seq<u8>,
    pub logs: Seq<Seq<char>>,
}

impl View for HidRx {
    type V = RxView;

    open spec fn view(&self) -> RxView {
        RxView {
            rx: self.rx@,
            log_acc: self.log_acc@,
            logs: self.logs@.map_values(|s: String| s@),
        }
    }
}

/// The payload of a report that came in with its id: a length byte, then that many
/// bytes, as far as they are there.
pub open spec fn routed_payload(report: Seq<u8>) -> Seq<u8> {
    if report.len() < 2 {
        Seq::empty()
    } else {
        payload_of(report.skip(1))
    }
}

/// What a report leads to.
pub open spec fn routed(v: RxView, report: Seq<u8>) -> RxView {
    let p = routed_payload(report);
    if p.len() == 0 {
        v
    } else if report[0] == REPORT_CMD {
        RxView { rx: v.rx + p, ..v }
    } else if report[0] == REPORT_LOG {
        let (lines, rest) = lines_in(v.log_acc + p);
        RxView { log_acc: rest, logs: newest(v.logs + kept_lines(lines)), ..v }
    } else {
        v
    }
}

impl HidRx {
    pub fn new() -> (r: HidRx)
        ensures
            r@ == (RxView { rx: Seq::empty(), log_acc: Seq::empty(), logs: Seq::empty() }),
    {
        let r = HidRx { rx: Vec::new(), log_acc: Vec::new(), logs: Vec::new() };
        proof {
            assert(r@.logs =~= Seq::<Seq<char>>::empty());
            assert(r@.rx =~= Seq::<u8>::empty());
            assert(r@.log_acc =~= Seq::<u8>::empty());
        }
        r
    }

    /// Completes the log lines.
    fn take_log_lines(&mut self)
        ensures
            ({
                let (lines, rest) = lines_in(old(self)@.log_acc);
                final(self)@ == (RxView {
                    log_acc: rest,
                    logs: old(self)@.logs + kept_lines(lines),
                    ..old(self)@
                })
            }),
    {
        let ghost goal_rest = lines_in(self@.log_acc).1;
        let ghost goal_logs = self@.logs + kept_lines(lines_in(self@.log_acc).0);
        let ghost rx = self@.rx;
        loop
            invariant_except_break
                self@.rx == rx,
                goal_rest == lines_in(self@.log_acc).1,
                goal_logs == self@.logs + kept_lines(lines_in(self@.log_acc).0),
            ensures
                self@.rx == rx,
                goal_rest == self@.log_acc,
                goal_logs == self@.logs,
            decreases self.log_acc@.len(),
        {
            let n = find_newline(self.log_acc.as_slice());
            let ghost acc = self.log_acc@;
            let ghost logs = self@.logs;
            if n >= self.log_acc.len() {
                proof {
                    assert(kept_lines(lines_in(acc).0) =~= Seq::<Seq<char>>::empty());
                    assert(logs + Seq::<Seq<char>>::empty() =~= logs);
                }
                break;
            }
            let line = lossy(slice_subrange(self.log_acc.as_slice(), 0, n));
            let text = shear(line.as_str(), false);
            let mut rest: Vec<u8> = Vec::new();
            rest.extend_from_slice(
                slice_subrange(self.log_acc.as_slice(), n + 1, self.log_acc.len()),
            );
            proof {
                assert(rest@ =~= acc.skip(n + 1));
                assert(acc.subrange(0, n as int) =~= acc.take(n as int));
                let (more, _) = lines_in(acc.skip(n + 1));
                let all = seq![acc.take(n as int)] + more;
                assert(all.drop_first() =~= more);
                assert(all[0] == acc.take(n as int));
                if text@.len() > 0 {
                    assert(logs + (seq![text@] + kept_lines(more)) =~= logs.push(text@)
                        + kept_lines(more));
                }
            }
            self.log_acc = rest;
            let c = chars_of(text.as_str());
            if c.len() > 0 {
                self.logs.push(text);
                proof {
                    assert(self@.logs =~= logs.push(text@));
                }
            }
        }
    }

    /// Drops the oldest log lines where there are too many.
    fn bound_logs(&mut self)
        ensures
            final(self)@ == (RxView { logs: newest(old(self)@.logs), ..old(self)@ }),
    {
        let ghost all = self@.logs;
        let ghost rx = self@.rx;
        let ghost acc = self@.log_acc;
        proof {
            assert(all.skip(0) =~= all);
        }
        while self.logs.len() > LOG_MAX
            invariant
                self@.rx == rx,
                self@.log_acc == acc,
                self.logs@.len() <= all.len(),
                self@.logs == all.skip(all.len() - self.logs@.len()),
                all.len() <= LOG_MAX ==> self.logs@.len() == all.len(),
                all.len() > LOG_MAX ==> self.logs@.len() >= LOG_MAX,
            decreases self.logs@.len(),
        {
            let ghost before = self@.logs;
            self.logs.remove(0);
            proof {
                assert(self@.logs =~= before.skip(1));
                assert(before.skip(1) =~= all.skip(all.len() - self.logs@.len()));
            }
        }
        proof {
            assert(self@.logs =~= newest(all));
        }
    }

    /// Takes a report in: replies and log lines are told apart by its id.
    pub fn route(&mut self, report: &[u8])
        ensures
            final(self)@ == routed(old(self)@, report@),
    {
        if report.len() < 2 {
            return;
        }
        let p = crate::link::hid_payload(slice_subrange(report, 1, report.len()));
        proof {
            assert(report@.subrange(1, report@.len() as int) =~= report@.skip(1));
        }
        if p.len() == 0 {
            return;
        }
        let id: u8 = report[0];
        if id == REPORT_CMD {
            self.rx.extend_from_slice(p);
            proof {
                assert(self@.rx =~= old(self)@.rx + p@);
            }
        } else if id == REPORT_LOG {
            self.log_acc.extend_from_slice(p);
            proof {
                assert(self@.log_acc =~= old(self)@.log_acc + p@);
            }
            self.take_log_lines();
            self.bound_logs();
        }
    }

    /// Hands out the log lines.
    pub fn take_logs(&mut self) -> (r: Vec<String>)
        ensures
            r@.map_values(|s: String| s@) == old(self)@.logs,
            final(self)@ == (RxView { logs: Seq::empty(), ..old(self)@ }),
    {
        let mut out: Vec<String> = Vec::new();
        std::mem::swap(&mut out, &mut self.logs);
        proof {
            assert(self@.logs =~= Seq::<Seq<char>>::empty());
        }
        out
    }

    /// Forgets replies that nobody waits for.
    pub fn forget_replies(&mut self)
        ensures
            final(self)@ == (RxView { rx: Seq::empty(), ..old(self)@ }),
    {
        self.rx = Vec::new();
        proof {
            assert(self@.rx =~= Seq::<u8>::empty());
        }
    }

    /// Takes the next reply line, if it is complete.
    pub fn next_line(&mut self) -> (r: Option<String>)
        ensures
            ({
                let b = old(self)@.rx;
                let n = newline_at(b);
                match r {
                    Some(s) => n < b.len() && s@ == line_text(b.take(n), false) && final(self)@ == (
                    RxView { rx: b.skip(n + 1), ..old(self)@ }),
                    None => n >= b.len() && final(self)@ == old(self)@,
                }
            }),
    {
        let n = find_newline(self.rx.as_slice());
        if n >= self.rx.len() {
            return None;
        }
        let ghost b = self.rx@;
        let line = lossy(slice_subrange(self.rx.as_slice(), 0, n));
        let text = shear(line.as_str(), false);
        let mut rest: Vec<u8> = Vec::new();
        rest.extend_from_slice(slice_subrange(self.rx.as_slice(), n + 1, self.rx.len()));
        proof {
            assert(rest@ =~= b.skip(n + 1));
            assert(b.subrange(0, n as int) =~= b.take(n as int));
        }
        self.rx = rest;
        Some(text)
    }
}

/// What a device sends in a report is what the host's replies grow by.
pub proof fn sent_chunks_arrive(v: RxView, waiting: Seq<u8>)
    requires
        waiting.len() > 0,
    ensures
        ({
            let chunk = first_chunk(waiting);
            let report = seq![REPORT_CMD] + (seq![chunk.len() as u8] + chunk);
            routed(v, report) == (RxView { rx: v.rx + chunk, ..v })
        }),
{
    let chunk = first_chunk(waiting);
    let body = seq![chunk.len() as u8] + chunk;
    let report = seq![REPORT_CMD] + body;
    assert(report.skip(1) =~= body);
    assert(body[0] == chunk.len());
    assert(body.subrange(1, chunk.len() + 1int) =~= chunk);
}

/// However many log lines come in, no more than [`LOG_MAX`] are kept.
pub proof fn logs_are_bounded(v: RxView, report: Seq<u8>)
    requires
        v.logs.len() <= LOG_MAX,
    ensures
        routed(v, report).logs.len() <= LOG_MAX,
{
}

/// A report is 64 bytes: the id of commands, how many bytes it carries, those bytes,
/// and zeros behind them.
pub proof fn reports_are_laid_out(chunk: Seq<u8>, k: int)
    requires
        chunk.len() <= 61,
        2 <= k < 64,
    ensures
        report_of(chunk).len() == 64,
        report_of(chunk)[0] == 2,
        report_of(chunk)[1] == chunk.len(),
        k < 2 + chunk.len() ==> report_of(chunk)[k] == chunk[k - 2],
        k >= 2 + chunk.len() ==> report_of(chunk)[k] == 0,
{
}

/// Bytes are cut into reports of 61, the last of which has what is left.
pub proof fn bytes_are_cut_into_reports(a: Seq<u8>, b: Seq<u8>)
    ensures
        a.len() == 61 && b.len() > 0 ==> reports_of(a + b) == seq![report_of(a)] + reports_of(b),
        a.len() <= 61 ==> reports_of(a) == seq![report_of(a)],
{
    if a.len() == 61 && b.len() > 0 {
        assert((a + b).take(61) =~= a);
        assert((a + b).skip(61) =~= b);
    }
}

/// Bytes without a line end are no line yet; with one behind them they are the first
/// line, and what follows is read on.
pub proof fn lines_end_at_line_ends(a: Seq<u8>, b: Seq<u8>)
    requires
        forall|k: int| 0 <= k < a.len() ==> #[trigger] a[k] != 0x0A,
    ensures
        lines_in(a) == (Seq::<Seq<u8>>::empty(), a),
        lines_in(a + seq![0x0Au8] + b) == (seq![a] + lines_in(b).0, lines_in(b).1),
        newline_at(a + seq![0x0Au8] + b) == a.len(),
        newline_at(a) == a.len(),
{
    let s = a + seq![0x0Au8] + b;
    let n = a.len() as int;
    lemma_newline_is(a, n);
    assert forall|k: int| 0 <= k < n implies #[trigger] s[k] != 0x0A by {
        assert(s[k] == a[k]);
    }
    lemma_newline_is(s, n);
    assert(s.take(n) =~= a);
    assert(s.skip(n + 1) =~= b);
}

/// What is cut off at the end of a line: carriage returns always, blanks where asked,
/// and nothing else.
pub proof fn ends_are_shorn(s: Seq<char>, c: char, blanks: bool)
    ensures
        shorn(s.push('\r'), blanks) == shorn(s, blanks),
        shorn(s.push(' '), true) == shorn(s, true),
        shorn(s.push(' '), false) == s.push(' '),
        c != '\r' && c != ' ' ==> shorn(s.push(c), blanks) == s.push(c),
        shorn(Seq::empty(), blanks).len() == 0,
{
    assert(s.push('\r').drop_last() =~= s);
    assert(s.push(' ').drop_last() =~= s);
}

/// The texts of lines are kept in their order, but for those that are empty.
pub proof fn empty_lines_are_dropped(line: Seq<u8>, more: Seq<Seq<u8>>)
    ensures
        ({
            let t = shorn(lossy_text(line), false);
            &&& t.len() > 0 ==> kept_lines(seq![line] + more) == seq![t] + kept_lines(more)
            &&& t.len() == 0 ==> kept_lines(seq![line] + more) == kept_lines(more)
        }),
        kept_lines(Seq::empty()).len() == 0,
{
    assert((seq![line] + more).drop_first() =~= more);
}

/// No more than the newest 2000 log lines stay.
pub proof fn newest_lines_stay(older: Seq<Seq<char>>, newer: Seq<Seq<char>>)
    ensures
        newer.len() == 2000 ==> newest(older + newer) == newer,
        older.len() + newer.len() <= 2000 ==> newest(older + newer) == older + newer,
{
    if newer.len() == 2000 {
        assert(newest(older + newer) =~= newer);
    }
}

/// Reports are told apart by their id: 2 brings bytes of a reply, 3 bytes of the log,
/// of which a whole line is kept; any other is passed over. Neither touches what the
/// other has brought.
pub proof fn reports_are_routed(v: RxView, id: u8, data: Seq<u8>, line: Seq<u8>)
    requires
        0 < data.len() <= 62,
        line.len() <= 61,
        forall|k: int| 0 <= k < line.len() ==> #[trigger] line[k] != 0x0A,
        v.log_acc.len() == 0,
    ensures
        ({
            let r = routed(v, seq![2u8, data.len() as u8] + data);
            r.rx == v.rx + data && r.log_acc == v.log_acc && r.logs == v.logs
        }),
        ({
            let sent = line.push(0x0A);
            let r = routed(v, seq![3u8, sent.len() as u8] + sent);
            let t = shorn(lossy_text(line), false);
            &&& r.rx == v.rx
            &&& r.log_acc.len() == 0
            &&& t.len() > 0 && v.logs.len() < 2000 ==> r.logs == v.logs.push(t)
            &&& t.len() == 0 && v.logs.len() <= 2000 ==> r.logs == v.logs
        }),
        id != 2 && id != 3 ==> routed(v, seq![id, data.len() as u8] + data) == v,
        routed(v, seq![id]) == v,
{
    lemma_routed_payload(2, data);
    lemma_routed_payload(id, data);
    let sent = line.push(0x0A);
    lemma_routed_payload(3, sent);
    lines_end_at_line_ends(line, Seq::empty());
    lines_end_at_line_ends(Seq::empty(), Seq::empty());
    assert(line + seq![0x0Au8] + Seq::<u8>::empty() =~= sent);
    assert(v.log_acc + sent =~= sent);
    let lines = lines_in(sent).0;
    assert(lines =~= seq![line] + Seq::<Seq<u8>>::empty());
    empty_lines_are_dropped(line, Seq::empty());
    assert(kept_lines(Seq::<Seq<u8>>::empty()) =~= Seq::empty());
    let t = shorn(lossy_text(line), false);
    if t.len() > 0 {
        assert(v.logs + kept_lines(lines) =~= v.logs.push(t));
    } else {
        assert(v.logs + kept_lines(lines) =~= v.logs);
    }
}

proof fn lemma_routed_payload(id: u8, data: Seq<u8>)
    requires
        data.len() <= 62,
    ensures
        routed_payload(seq![id, data.len() as u8] + data) == data,
        (seq![id, data.len() as u8] + data)[0] == id,
{
    let r = seq![id, data.len() as u8] + data;
    assert(r.skip(1) =~= seq![data.len() as u8] + data);
    assert(payload_of(r.skip(1)) =~= data);
}

} // verus!
