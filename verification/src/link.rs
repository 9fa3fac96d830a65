//! The byte channels of a device: commands come in as bytes and are put together
//! to lines; replies go out in chunks that fit an HID report.

use vstd::prelude::*;
use vstd::slice::slice_subrange;
use vstd::utf8::{decode_utf8, valid_utf8};

verus! {

/// The most payload bytes of one HID report.
pub const CHUNK: usize = 61;

/// The text that `String::from_utf8_lossy` makes of bytes.
pub uninterp spec fn lossy_text(bytes: Seq<u8>) -> Seq<char>;

/// `String::from_utf8_lossy`: the text of the bytes. What is no UTF-8 is replaced
/// in a way that is only named here; valid UTF-8 is decoded.
#[verifier::external_body]
pub(crate) fn lossy(bytes: &[u8]) -> (s: String)
    ensures
        s@ == lossy_text(bytes@),
        valid_utf8(bytes@) ==> s@ == decode_utf8(bytes@),
{
    String::from_utf8_lossy(bytes).into_owned()
}

// -------------------------------------------------------------------- lines

/// What the bytes so far have led to: the complete lines, and the line that is
/// still growing.
pub struct Lines {
    pub done: Seq<Seq<u8>>,
    pub open: Seq<u8>,
}

/// How lines are put together.
#[derive(Clone, Copy, Debug, PartialEq, Eq, Structural)]
pub struct LineRule {
    /// A line that grows to this many bytes is dropped.
    pub max: usize,
    /// A `$` starts a new line.
    pub dollar_starts: bool,
}

/// The growing line is complete, unless it is empty.
pub open spec fn ended(l: Lines) -> Lines {
    if l.open.len() == 0 {
        l
    } else {
        Lines { done: l.done.push(l.open), open: Seq::empty() }
    }
}

/// One more byte: a line end completes the line, any other byte is appended,
/// unless the line has grown too long, which drops it.
pub open spec fn with_byte(l: Lines, c: u8, rule: LineRule) -> Lines {
    if c == 0x0A || c == 0x0D {
        ended(l)
    } else {
        let m = if rule.dollar_starts && c == 0x24 {
            ended(l)
        } else {
            l
        };
        if m.open.len() < rule.max - 1 {
            Lines { open: m.open.push(c), ..m }
        } else {
            Lines { open: Seq::empty(), ..m }
        }
    }
}

/// A run of bytes, one after the other.
pub open spec fn with_bytes(l: Lines, bytes: Seq<u8>, rule: LineRule) -> Lines
    decreases bytes.len(),
{
    if bytes.len() == 0 {
        l
    } else {
        with_byte(with_bytes(l, bytes.drop_last(), rule), bytes.last(), rule)
    }
}

/// The bytes of lines.
pub open spec fn byte_lines(v: Seq<Vec<u8>>) -> Seq<Seq<u8>> {
    v.map_values(|x: Vec<u8>| x@)
}

/// It makes no difference how the bytes are cut into packets: feeding them in two
/// runs is the same as feeding them in one.
pub proof fn packets_do_not_matter(l: Lines, a: Seq<u8>, b: Seq<u8>, rule: LineRule)
    ensures
        with_bytes(l, a + b, rule) == with_bytes(with_bytes(l, a, rule), b, rule),
    decreases b.len(),
{
    if b.len() == 0 {
        assert(a + b =~= a);
    } else {
        packets_do_not_matter(l, a, b.drop_last(), rule);
        assert((a + b).drop_last() =~= a + b.drop_last());
        assert((a + b).last() == b.last());
    }
}

/// A growing line stays below the limit, whatever comes in.
pub proof fn open_line_is_bounded(l: Lines, bytes: Seq<u8>, rule: LineRule)
    requires
        rule.max >= 1,
        l.open.len() < rule.max,
    ensures
        with_bytes(l, bytes, rule).open.len() < rule.max,
    decreases bytes.len(),
{
    if bytes.len() > 0 {
        open_line_is_bounded(l, bytes.drop_last(), rule);
    }
}

/// No complete line is empty or holds a line end.
pub proof fn lines_are_clean(l: Lines, bytes: Seq<u8>, rule: LineRule)
    requires
        line_text(l.open),
        forall|k: int| 0 <= k < l.done.len() ==> clean_line(#[trigger] l.done[k]),
    ensures
        line_text(with_bytes(l, bytes, rule).open),
        forall|k: int|
            0 <= k < with_bytes(l, bytes, rule).done.len() ==> clean_line(
                #[trigger] with_bytes(l, bytes, rule).done[k],
            ),
    decreases bytes.len(),
{
    if bytes.len() > 0 {
        lines_are_clean(l, bytes.drop_last(), rule);
    }
}

/// Bytes without a line end.
pub open spec fn line_text(s: Seq<u8>) -> bool {
    forall|i: int| 0 <= i < s.len() ==> #[trigger] s[i] != 0x0A && s[i] != 0x0D
}

/// A line that is worth handing on.
pub open spec fn clean_line(s: Seq<u8>) -> bool {
    s.len() > 0 && line_text(s)
}

/// Puts bytes together to lines.
#[derive(Debug)]
pub struct LineBuf {
    pub buf: Vec<u8>,
}

impl LineBuf {
    pub fn new() -> (r: LineBuf)
        ensures
            r.buf@ == Seq::<u8>::empty(),
    {
        LineBuf { buf: Vec::new() }
    }

    /// Takes bytes in and hands out the lines they complete.
    pub fn feed(&mut self, bytes: &[u8], rule: LineRule) -> (lines: Vec<Vec<u8>>)
        requires
            rule.max >= 1,
        ensures
            ({
                let r = with_bytes(
                    Lines { done: Seq::empty(), open: old(self).buf@ },
                    bytes@,
                    rule,
                );
                byte_lines(lines@) == r.done && final(self).buf@ == r.open
            }),
    {
        let ghost start = Lines { done: Seq::empty(), open: self.buf@ };
        let mut lines: Vec<Vec<u8>> = Vec::new();
        let mut i: usize = 0;
        proof {
            assert(bytes@.take(0) =~= Seq::<u8>::empty());
            assert(byte_lines(lines@) =~= Seq::empty());
        }
        while i < bytes.len()
            invariant
                i <= bytes@.len(),
                rule.max >= 1,
                start == (Lines { done: Seq::empty(), open: old(self).buf@ }),
                ({
                    let r = with_bytes(start, bytes@.take(i as int), rule);
                    byte_lines(lines@) == r.done && self.buf@ == r.open
                }),
            decreases bytes@.len() - i,
        {
            let c: u8 = bytes[i];
            let ghost before = with_bytes(start, bytes@.take(i as int), rule);
            proof {
                let t = bytes@.take(i + 1);
                assert(t.drop_last() =~= bytes@.take(i as int));
                assert(t.last() == c);
            }
            if c == 0x0A || c == 0x0D {
                self.finish(&mut lines);
            } else {
                if rule.dollar_starts && c == 0x24 {
                    self.finish(&mut lines);
                }
                if self.buf.len() < rule.max - 1 {
                    self.buf.push(c);
                } else {
                    self.buf = Vec::new();
                }
            }
            i += 1;
        }
        proof {
            assert(bytes@.take(i as int) =~= bytes@);
        }
        lines
    }

    /// Completes the growing line.
    fn finish(&mut self, lines: &mut Vec<Vec<u8>>)
        ensures
            ({
                let r = ended(Lines { done: byte_lines(old(lines)@), open: old(self).buf@ });
                byte_lines(final(lines)@) == r.done && final(self).buf@ == r.open
            }),
    {
        if self.buf.len() > 0 {
            let ghost line = self.buf@;
            let ghost before = byte_lines(lines@);
            let mut full: Vec<u8> = Vec::new();
            std::mem::swap(&mut full, &mut self.buf);
            lines.push(full);
            proof {
                assert(byte_lines(lines@) =~= before.push(line));
            }
        }
    }

    /// Takes bytes in and hands out the text of the lines they complete.
    pub fn feed_text(&mut self, bytes: &[u8], rule: LineRule) -> (lines: Vec<String>)
        requires
            rule.max >= 1,
        ensures
            ({
                let r = with_bytes(
                    Lines { done: Seq::empty(), open: old(self).buf@ },
                    bytes@,
                    rule,
                );
                &&& final(self).buf@ == r.open
                &&& lines@.len() == r.done.len()
                &&& forall|k: int|
                    0 <= k < lines@.len() ==> (#[trigger] lines@[k])@ == lossy_text(r.done[k])
            }),
    {
        let raw = self.feed(bytes, rule);
        let mut out: Vec<String> = Vec::new();
        let mut k: usize = 0;
        let ghost done = byte_lines(raw@);
        while k < raw.len()
            invariant
                k <= raw@.len(),
                done == byte_lines(raw@),
                out@.len() == k,
                forall|j: int| 0 <= j < k ==> (#[trigger] out@[j])@ == lossy_text(done[j]),
            decreases raw@.len() - k,
        {
            let s = lossy(raw[k].as_slice());
            assert(done[k as int] == raw@[k as int]@);
            out.push(s);
            k += 1;
        }
        out
    }
}

/// The payload of an HID command report: a length byte, then that many bytes, as
/// far as they are there.
pub open spec fn payload_of(report: Seq<u8>) -> Seq<u8> {
    if report.len() < 1 {
        Seq::empty()
    } else {
        let n = if report[0] < report.len() - 1 {
            report[0] as int
        } else {
            report.len() - 1
        };
        report.subrange(1, 1 + n)
    }
}

/// The payload of an HID command report.
pub fn hid_payload<'a>(report: &'a [u8]) -> (r: &'a [u8])
    ensures
        r@ == payload_of(report@),
{
    if report.len() < 1 {
        return slice_subrange(report, 0, 0);
    }
    let n: usize = if (report[0] as usize) < report.len() - 1 {
        report[0] as usize
    } else {
        report.len() - 1
    };
    slice_subrange(report, 1, 1 + n)
}

// ------------------------------------------------------------------- sending

/// The last `n` bytes of `s`, all of them where there are no more.
pub open spec fn last_bytes(s: Seq<u8>, n: int) -> Seq<u8> {
    if s.len() > n {
        s.skip(s.len() - n)
    } else {
        s
    }
}

/// The first chunk of `s`.
pub open spec fn first_chunk(s: Seq<u8>) -> Seq<u8> {
    if s.len() > CHUNK {
        s.take(CHUNK as int)
    } else {
        s
    }
}

/// The bytes that wait to be sent.
#[derive(Debug)]
pub struct TxQueue {
    buf: Vec<u8>,
    pos: usize,
}

impl View for TxQueue {
    type V = Seq<u8>;

    closed spec fn view(&self) -> Seq<u8> {
        self.buf@.skip(self.pos as int)
    }
}

impl TxQueue {
    pub closed spec fn wf(self) -> bool {
        self.pos <= self.buf@.len()
    }

    pub fn new() -> (r: TxQueue)
        ensures
            r.wf(),
            r@ == Seq::<u8>::empty(),
    {
        let r = TxQueue { buf: Vec::new(), pos: 0 };
        proof {
            assert(r.buf@.skip(0) =~= Seq::<u8>::empty());
        }
        r
    }

    /// Appends bytes. At most `cap` bytes wait: where there are more, the oldest
    /// are dropped.
    pub fn queue(&mut self, bytes: &[u8], cap: usize)
        requires
            old(self).wf(),
        ensures
            final(self).wf(),
            final(self)@ == last_bytes(old(self)@ + bytes@, cap as int),
    {
        let waiting = slice_subrange(self.buf.as_slice(), self.pos, self.buf.len());
        let ghost all = self@ + bytes@;
        let mut next: Vec<u8> = Vec::new();
        next.extend_from_slice(waiting);
        next.extend_from_slice(bytes);
        proof {
            assert(next@ =~= all);
        }
        let pos: usize = if next.len() > cap {
            next.len() - cap
        } else {
            0
        };
        self.buf = next;
        self.pos = pos;
        proof {
            assert(self@ =~= last_bytes(all, cap as int));
        }
    }

    /// The report of the next chunk: its length, then its bytes. `None` where
    /// nothing waits.
    pub fn next_report(&self) -> (r: Option<Vec<u8>>)
        requires
            self.wf(),
        ensures
            match r {
                Some(v) => self@.len() > 0 && v@ == seq![first_chunk(self@).len() as u8]
                    + first_chunk(self@),
                None => self@.len() == 0,
            },
    {
        let waiting = slice_subrange(self.buf.as_slice(), self.pos, self.buf.len());
        if waiting.len() == 0 {
            return None;
        }
        let n: usize = if waiting.len() > CHUNK {
            CHUNK
        } else {
            waiting.len()
        };
        let mut out: Vec<u8> = Vec::new();
        out.push(n as u8);
        out.extend_from_slice(slice_subrange(waiting, 0, n));
        proof {
            assert(waiting@ =~= self@);
            assert(first_chunk(self@) =~= waiting@.subrange(0, n as int));
            assert(out@ =~= seq![n as u8] + first_chunk(self@));
        }
        Some(out)
    }

    /// The report of the next chunk has been sent.
    pub fn sent(&mut self)
        requires
            old(self).wf(),
        ensures
            final(self).wf(),
            final(self)@ == old(self)@.skip(first_chunk(old(self)@).len() as int),
    {
        let n: usize = self.buf.len() - self.pos;
        let ghost before = self@;
        self.pos = self.pos + if n > CHUNK {
            CHUNK
        } else {
            n
        };
        proof {
            assert(self@ =~= before.skip(first_chunk(before).len() as int));
        }
    }
}

// -------------------------------------------------------------------- laws

/// A line that fits comes out as it was sent, once its end arrives, and leaves
/// nothing behind; either of the two line ends will do.
pub proof fn lines_come_out_whole(l: Lines, line: Seq<u8>, end: u8, rule: LineRule)
    requires
        l.open.len() == 0,
        clean_line(line),
        line.len() < rule.max,
        end == 0x0A || end == 0x0D,
        rule.dollar_starts ==> forall|i: int| 1 <= i < line.len() ==> #[trigger] line[i] != 0x24,
    ensures
        with_bytes(l, line.push(end), rule).done == l.done.push(line),
        with_bytes(l, line.push(end), rule).open.len() == 0,
{
    lemma_line_grows(l, line, line.len() as int, rule);
    assert(line.take(line.len() as int) =~= line);
    assert(line.push(end).drop_last() =~= line);
}

proof fn lemma_line_grows(l: Lines, line: Seq<u8>, n: int, rule: LineRule)
    requires
        l.open.len() == 0,
        clean_line(line),
        line.len() < rule.max,
        rule.dollar_starts ==> forall|i: int| 1 <= i < line.len() ==> #[trigger] line[i] != 0x24,
        0 <= n <= line.len(),
    ensures
        with_bytes(l, line.take(n), rule) == (Lines { done: l.done, open: line.take(n) }),
    decreases n,
{
    if n == 0 {
        assert(line.take(0) =~= l.open);
    } else {
        lemma_line_grows(l, line, n - 1, rule);
        assert(line.take(n).drop_last() =~= line.take(n - 1));
        assert(line.take(n).last() == line[n - 1]);
        assert(line.take(n - 1).push(line[n - 1]) =~= line.take(n));
    }
}

/// A line end completes what stands before it and is not kept; where nothing does, it
/// changes nothing. A dollar sign that starts a line completes what stands before it
/// too, and is kept.
pub proof fn ends_complete_lines(l: Lines, end: u8, rule: LineRule)
    requires
        end == 0x0A || end == 0x0D,
        l.open.len() < rule.max,
        rule.max >= 2,
    ensures
        l.open.len() > 0 ==> with_byte(l, end, rule).done == l.done.push(l.open),
        l.open.len() == 0 ==> with_byte(l, end, rule).done == l.done,
        with_byte(l, end, rule).open.len() == 0,
        rule.dollar_starts && l.open.len() > 0 ==> with_byte(l, 0x24, rule).done == l.done.push(
            l.open,
        ),
        rule.dollar_starts ==> with_byte(l, 0x24, rule).open == seq![0x24u8],
        !rule.dollar_starts ==> with_byte(l, 0x24, rule).done == l.done,
{
    if rule.dollar_starts {
        assert(with_byte(l, 0x24, rule).open =~= seq![0x24u8]);
    }
}

/// A line that has grown to the limit is dropped, and the lines before it stay.
pub proof fn long_lines_are_dropped(l: Lines, c: u8, rule: LineRule)
    requires
        c != 0x0A && c != 0x0D && c != 0x24,
    ensures
        l.open.len() + 1 < rule.max ==> with_byte(l, c, rule).open == l.open.push(c),
        l.open.len() + 1 >= rule.max ==> with_byte(l, c, rule).open.len() == 0,
        with_byte(l, c, rule).done == l.done,
{
}

/// What was sent in a report is read out of it, whatever stands behind; where the
/// report is cut short, what is there of it is.
pub proof fn payloads_are_read(data: Seq<u8>, behind: Seq<u8>, cut: int)
    requires
        data.len() <= 255,
        0 <= cut <= data.len(),
    ensures
        payload_of(seq![data.len() as u8] + data + behind) == data,
        payload_of(seq![data.len() as u8] + data.take(cut)) == data.take(cut),
        payload_of(Seq::empty()).len() == 0,
{
    assert(payload_of(seq![data.len() as u8] + data + behind) =~= data);
    assert(payload_of(seq![data.len() as u8] + data.take(cut)) =~= data.take(cut));
}

/// Where more waits than may, the oldest bytes go; a chunk is the first 61 bytes, or
/// all there are.
pub proof fn oldest_bytes_go(older: Seq<u8>, newer: Seq<u8>)
    ensures
        last_bytes(older + newer, newer.len() as int) == newer,
        last_bytes(older, (older.len() + newer.len()) as int) == older,
        older.len() == 61 ==> first_chunk(older + newer) == older,
        older.len() <= 61 ==> first_chunk(older) == older,
{
    assert(last_bytes(older + newer, newer.len() as int) =~= newer);
    if older.len() == 61 {
        assert(first_chunk(older + newer) =~= older);
    }
}

} // verus!
