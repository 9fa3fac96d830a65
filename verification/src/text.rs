//! Characters, decimal numbers and the string operations the wire formats are
//! made of, each stated over the sequence of characters of a string.

use vstd::prelude::*;
use vstd::slice::slice_subrange;
use vstd::string::{StrSliceExecFns, StringSliceAdditionalSpecFns};
use vstd::utf8::valid_utf8;

verus! {

/// `String::push`: appends one character to the end of the string.
pub assume_specification[ String::push ](s: &mut String, c: char)
    ensures
        final(s)@ == old(s)@.push(c),
;

// ---------------------------------------------------------------- decimals

/// An ASCII decimal digit.
pub open spec fn is_digit(c: char) -> bool {
    '0' <= c && c <= '9'
}

/// The value of a digit.
pub open spec fn digit_val(c: char) -> int {
    c as int - '0' as int
}

/// The digit that stands for `d`, for `d` below ten.
pub open spec fn digit_char(d: int) -> char {
    (d + 48) as char
}

/// Every character of `s` is a digit.
pub open spec fn all_digits(s: Seq<char>) -> bool {
    forall|i: int| 0 <= i < s.len() ==> is_digit(#[trigger] s[i])
}

/// The number that a run of digits denotes (0 for the empty run).
pub open spec fn dec_val(s: Seq<char>) -> int
    decreases s.len(),
{
    if s.len() == 0 {
        0
    } else {
        10 * dec_val(s.drop_last()) + digit_val(s.last())
    }
}

/// The decimal digits of `n`, without leading zeros.
pub open spec fn dec_text(n: nat) -> Seq<char>
    decreases n,
{
    if n < 10 {
        seq![digit_char(n as int)]
    } else {
        dec_text(n / 10).push(digit_char((n % 10) as int))
    }
}

/// The decimal text of an integer: a minus sign where it is negative, then its digits.
pub open spec fn int_text(v: int) -> Seq<char> {
    if v < 0 {
        seq!['-'] + dec_text((-v) as nat)
    } else {
        dec_text(v as nat)
    }
}

/// `w` zeros.
pub open spec fn zeros(w: nat) -> Seq<char> {
    Seq::new(w, |i: int| '0')
}

/// The digits of `n`, filled up with zeros on the left to at least `w` characters.
pub open spec fn pad_text(n: nat, w: nat) -> Seq<char> {
    if dec_text(n).len() < w {
        zeros((w - dec_text(n).len()) as nat) + dec_text(n)
    } else {
        dec_text(n)
    }
}

/// How many characters at the start of `s` are digits.
pub open spec fn digit_run(s: Seq<char>) -> nat
    decreases s.len(),
{
    if s.len() > 0 && is_digit(s[0]) {
        1 + digit_run(s.drop_first())
    } else {
        0
    }
}

/// An unsigned decimal number of at most `max`: an optional plus sign and at
/// least one digit, nothing else.
pub open spec fn nat_of(s: Seq<char>, max: int) -> Option<int> {
    let d = if s.len() > 0 && s[0] == '+' {
        s.skip(1)
    } else {
        s
    };
    if d.len() > 0 && all_digits(d) && dec_val(d) <= max {
        Some(dec_val(d))
    } else {
        None
    }
}

/// A signed decimal number between `min` and `max`: an optional sign and at
/// least one digit, nothing else.
pub open spec fn int_of(s: Seq<char>, min: int, max: int) -> Option<int> {
    let signed = s.len() > 0 && (s[0] == '+' || s[0] == '-');
    let d = if signed {
        s.skip(1)
    } else {
        s
    };
    let v = if signed && s[0] == '-' {
        -dec_val(d)
    } else {
        dec_val(d)
    };
    if d.len() > 0 && all_digits(d) && min <= v && v <= max {
        Some(v)
    } else {
        None
    }
}

/// A run of digits never denotes a negative number, and dropping its last
/// digits never makes it larger.
pub proof fn lemma_dec_val_bounds(s: Seq<char>, k: int)
    requires
        all_digits(s),
        0 <= k <= s.len(),
    ensures
        0 <= dec_val(s.take(k)) <= dec_val(s),
    decreases s.len(),
{
    if s.len() == 0 {
        assert(s.take(k) =~= s);
    } else {
        assert(all_digits(s.drop_last()));
        assert(is_digit(s.last()));
        if k == s.len() {
            assert(s.take(k) =~= s);
            lemma_dec_val_bounds(s.drop_last(), k - 1);
        } else {
            lemma_dec_val_bounds(s.drop_last(), k);
            assert(s.drop_last().take(k) =~= s.take(k));
        }
    }
}

/// The digits of a number are digits, there is at least one, and they denote
/// that number again.
pub proof fn lemma_dec_text(n: nat)
    ensures
        dec_text(n).len() >= 1,
        all_digits(dec_text(n)),
        dec_val(dec_text(n)) == n,
    decreases n,
{
    if n < 10 {
        let s = dec_text(n);
        assert(s.drop_last() =~= Seq::<char>::empty());
        assert(dec_val(s.drop_last()) == 0);
    } else {
        lemma_dec_text(n / 10);
        let s = dec_text(n);
        assert(s.drop_last() =~= dec_text(n / 10));
    }
}

/// The text of an integer reads back as that integer.
pub proof fn lemma_int_text(v: int, min: int, max: int)
    requires
        min <= v <= max,
    ensures
        int_of(int_text(v), min, max) == Some(v),
        int_text(v).len() >= 1,
{
    if v < 0 {
        lemma_dec_text((-v) as nat);
        assert(int_text(v).skip(1) =~= dec_text((-v) as nat));
    } else {
        lemma_dec_text(v as nat);
        let t = dec_text(v as nat);
        assert(is_digit(t[0]));
    }
}

/// The digits of a natural number read back as that number.
pub proof fn lemma_nat_text(v: nat, max: int)
    requires
        v <= max,
    ensures
        nat_of(dec_text(v), max) == Some(v as int),
{
    lemma_dec_text(v);
    assert(is_digit(dec_text(v)[0]));
}

/// Where the digit run of `s` ends.
pub proof fn lemma_digit_run(s: Seq<char>, n: int)
    requires
        0 <= n <= s.len(),
        forall|i: int| 0 <= i < n ==> is_digit(#[trigger] s[i]),
        n == s.len() || !is_digit(s[n]),
    ensures
        digit_run(s) == n,
    decreases n,
{
    if n > 0 {
        assert(is_digit(s[0]));
        let t = s.drop_first();
        assert forall|i: int| 0 <= i < n - 1 implies is_digit(#[trigger] t[i]) by {
            assert(t[i] == s[i + 1]);
        }
        lemma_digit_run(t, n - 1);
    }
}

/// Whether `c` is a decimal digit.
pub fn digit(c: char) -> (r: bool)
    ensures
        r == is_digit(c),
{
    '0' <= c && c <= '9'
}

/// The value of the digit run `s`, unless it is above `max`.
pub fn dec_value(s: &[char], max: u64) -> (r: Option<u64>)
    requires
        all_digits(s@),
    ensures
        match r {
            Some(v) => v == dec_val(s@) && v <= max,
            None => dec_val(s@) > max,
        },
{
    let mut v: u64 = 0;
    let mut i: usize = 0;
    while i < s.len()
        invariant
            0 <= i <= s@.len(),
            all_digits(s@),
            v == dec_val(s@.take(i as int)),
            v <= max,
        decreases s@.len() - i,
    {
        proof {
            let t = s@.take(i + 1);
            assert(t.drop_last() =~= s@.take(i as int));
            assert(t.last() == s@[i as int]);
            assert(is_digit(s@[i as int]));
            lemma_dec_val_bounds(s@, i + 1);
        }
        let next: u128 = v as u128 * 10 + (s[i] as u32 - '0' as u32) as u128;
        if next > max as u128 {
            return None;
        }
        v = next as u64;
        i += 1;
    }
    proof {
        assert(s@.take(i as int) =~= s@);
    }
    Some(v)
}

/// Reads an unsigned decimal number of at most `max`.
pub fn parse_nat(s: &[char], max: u64) -> (r: Option<u64>)
    ensures
        match r {
            Some(v) => nat_of(s@, max as int) == Some(v as int),
            None => nat_of(s@, max as int) is None,
        },
{
    let from: usize = if s.len() > 0 && s[0] == '+' {
        1
    } else {
        0
    };
    let d = slice_subrange(s, from, s.len());
    proof {
        assert(d@ =~= if from == 1 { s@.skip(1) } else { s@ });
    }
    if d.len() == 0 || !only_digits(d) {
        return None;
    }
    dec_value(d, max)
}

/// Reads a signed decimal number between `min` and `max`.
pub fn parse_int(s: &[char], min: i64, max: i64) -> (r: Option<i64>)
    requires
        i64::MIN < min <= 0 <= max,
    ensures
        match r {
            Some(v) => int_of(s@, min as int, max as int) == Some(v as int),
            None => int_of(s@, min as int, max as int) is None,
        },
{
    let neg = s.len() > 0 && s[0] == '-';
    let from: usize = if neg || (s.len() > 0 && s[0] == '+') {
        1
    } else {
        0
    };
    let d = slice_subrange(s, from, s.len());
    proof {
        assert(d@ =~= if from == 1 { s@.skip(1) } else { s@ });
    }
    if d.len() == 0 || !only_digits(d) {
        return None;
    }
    proof {
        lemma_dec_val_bounds(d@, 0);
    }
    if neg {
        match dec_value(d, (-min) as u64) {
            Some(v) => Some(-(v as i64)),
            None => None,
        }
    } else {
        match dec_value(d, max as u64) {
            Some(v) => Some(v as i64),
            None => None,
        }
    }
}

/// Whether every character is a digit.
pub fn only_digits(s: &[char]) -> (r: bool)
    ensures
        r == all_digits(s@),
{
    let mut i: usize = 0;
    while i < s.len()
        invariant
            0 <= i <= s@.len(),
            forall|k: int| 0 <= k < i ==> is_digit(#[trigger] s@[k]),
        decreases s@.len() - i,
    {
        if !digit(s[i]) {
            return false;
        }
        i += 1;
    }
    true
}

/// The index after the run of digits that starts at `from`.
pub fn run_end(s: &[char], from: usize) -> (r: usize)
    requires
        from <= s@.len(),
    ensures
        r == from + digit_run(s@.skip(from as int)),
        from <= r <= s@.len(),
        forall|k: int| from <= k < r ==> is_digit(#[trigger] s@[k]),
        r < s@.len() ==> !is_digit(s@[r as int]),
{
    let mut i: usize = from;
    while i < s.len() && digit(s[i])
        invariant
            from <= i <= s@.len(),
            forall|k: int| from <= k < i ==> is_digit(#[trigger] s@[k]),
        decreases s@.len() - i,
    {
        i += 1;
    }
    proof {
        let t = s@.skip(from as int);
        assert forall|k: int| 0 <= k < i - from implies is_digit(#[trigger] t[k]) by {
            assert(t[k] == s@[k + from]);
        }
        lemma_digit_run(t, i - from);
    }
    i
}

/// Appends the digits of `n`.
pub fn push_dec(out: &mut String, n: u64)
    ensures
        final(out)@ == old(out)@ + dec_text(n as nat),
    decreases n,
{
    if n >= 10 {
        push_dec(out, n / 10);
    }
    out.push((48u8 + (n % 10) as u8) as char);
    proof {
        assert(dec_text(n as nat) =~= if n < 10 {
            seq![digit_char(n as int)]
        } else {
            dec_text(n as nat / 10).push(digit_char((n % 10) as int))
        });
    }
}

/// Appends the decimal text of `v`.
pub fn push_int(out: &mut String, v: i64)
    requires
        v > i64::MIN,
    ensures
        final(out)@ == old(out)@ + int_text(v as int),
{
    if v < 0 {
        out.push('-');
        push_dec(out, (-v) as u64);
        proof {
            assert(old(out)@.push('-') + dec_text((-v) as nat) =~= old(out)@ + int_text(v as int));
        }
    } else {
        push_dec(out, v as u64);
    }
}

/// How many digits `n` has.
pub fn dec_len(n: u64) -> (r: usize)
    ensures
        r == dec_text(n as nat).len(),
        1 <= r <= 20,
{
    let mut r: usize = 1;
    let mut m: u64 = n;
    let ghost mut p: int = 1;
    proof {
        vstd::arithmetic::power::lemma_pow0(10);
    }
    while m >= 10
        invariant
            1 <= r <= 20,
            r - 1 + dec_text(m as nat).len() == dec_text(n as nat).len(),
            p >= 1,
            m * p <= n,
            p == vstd::arithmetic::power::pow(10, (r - 1) as nat),
        decreases m,
    {
        proof {
            let q = p * 10;
            assert((m / 10) * q <= m * p) by (nonlinear_arith)
                requires
                    q == p * 10,
                    p >= 1,
                    m >= 10,
            ;
            assert(1 * q <= (m / 10) * q) by (nonlinear_arith)
                requires
                    q >= 1,
                    m >= 10,
            ;
            reveal_with_fuel(vstd::arithmetic::power::pow, 22);
            if r >= 20 {
                assert(q == 100_000_000_000_000_000_000int);
                assert(false);
            }
            p = q;
        }
        m = m / 10;
        r += 1;
    }
    r
}

/// Appends the digits of `n`, filled up with zeros on the left to `w` characters.
pub fn push_padded(out: &mut String, n: u64, w: usize)
    ensures
        final(out)@ == old(out)@ + pad_text(n as nat, w as nat),
{
    let len = dec_len(n);
    let mut k: usize = len;
    let ghost start = out@;
    while k < w
        invariant
            k <= w || k == len,
            len <= k,
            out@ == start + zeros((k - len) as nat),
        decreases w - k,
    {
        out.push('0');
        k += 1;
        proof {
            assert(start + zeros((k - 1 - len) as nat).push('0') =~= start + zeros((k - len) as nat));
        }
    }
    push_dec(out, n);
    proof {
        if len >= w {
            assert(start + zeros(0) =~= start);
        }
        assert(start + zeros((k - len) as nat) + dec_text(n as nat) =~= start + pad_text(n as nat, w as nat));
    }
}

// ------------------------------------------------------- characters and strings

/// The characters of `s`.
pub fn chars_of(s: &str) -> (v: Vec<char>)
    ensures
        v@ == s@,
{
    let mut out: Vec<char> = Vec::new();
    for c in it: s.chars()
        invariant
            out@ == it.seq().take(it.index()),
    {
        out.push(c);
    }
    out
}

/// The string made of the characters `s`.
pub fn string_of(s: &[char]) -> (r: String)
    ensures
        r@ == s@,
{
    let mut out = String::new();
    push_chars(&mut out, s);
    out
}

/// Appends the characters `s`.
pub fn push_chars(out: &mut String, s: &[char])
    ensures
        final(out)@ == old(out)@ + s@,
{
    let ghost start = out@;
    let mut i: usize = 0;
    while i < s.len()
        invariant
            i <= s@.len(),
            out@ == start + s@.take(i as int),
        decreases s@.len() - i,
    {
        out.push(s[i]);
        i += 1;
        proof {
            assert((start + s@.take(i - 1)).push(s@[i - 1]) =~= start + s@.take(i as int));
        }
    }
    proof {
        assert(s@.take(i as int) =~= s@);
    }
}

/// Whether two runs of characters are the same.
pub fn same_chars(a: &[char], b: &[char]) -> (r: bool)
    ensures
        r == (a@ == b@),
{
    if a.len() != b.len() {
        return false;
    }
    let mut i: usize = 0;
    while i < a.len()
        invariant
            a@.len() == b@.len(),
            i <= a@.len(),
            forall|k: int| 0 <= k < i ==> a@[k] == b@[k],
        decreases a@.len() - i,
    {
        if a[i] != b[i] {
            return false;
        }
        i += 1;
    }
    proof {
        assert(a@ =~= b@);
    }
    true
}

/// Whether the characters `a` are those of `b`.
pub fn same(a: &[char], b: &str) -> (r: bool)
    ensures
        r == (a@ == b@),
{
    let v = chars_of(b);
    same_chars(a, v.as_slice())
}

/// Whether two strings hold the same characters.
pub fn same_str(a: &str, b: &str) -> (r: bool)
    ensures
        r == (a@ == b@),
{
    let u = chars_of(a);
    same(u.as_slice(), b)
}

/// What is left of `s` behind the prefix `p`, where `s` starts with it.
pub open spec fn after_prefix(s: Seq<char>, p: Seq<char>) -> Option<Seq<char>> {
    if p.is_prefix_of(s) {
        Some(s.skip(p.len() as int))
    } else {
        None
    }
}

/// A string that was put together from a prefix and a rest starts with that
/// prefix and leaves that rest.
pub proof fn lemma_after_prefix(p: Seq<char>, rest: Seq<char>)
    ensures
        after_prefix(p + rest, p) == Some(rest),
{
    assert((p + rest).skip(p.len() as int) =~= rest);
    assert(p.is_prefix_of(p + rest)) by {
        assert((p + rest).subrange(0, p.len() as int) =~= p);
    }
}

/// A text that differs from a prefix in one place does not start with it.
pub proof fn lemma_not_after(s: Seq<char>, p: Seq<char>, k: int)
    requires
        0 <= k < p.len(),
        k < s.len(),
        s[k] != p[k],
    ensures
        after_prefix(s, p) is None,
{
    if s.len() >= p.len() {
        assert(s.take(p.len() as int)[k] == s[k]);
    }
}

/// Strips the prefix `p`.
pub fn strip_prefix<'a>(s: &'a [char], p: &str) -> (r: Option<&'a [char]>)
    ensures
        match r {
            Some(t) => after_prefix(s@, p@) == Some(t@),
            None => after_prefix(s@, p@) is None,
        },
{
    let v = chars_of(p);
    if v.len() > s.len() {
        return None;
    }
    if same_chars(slice_subrange(s, 0, v.len()), v.as_slice()) {
        Some(slice_subrange(s, v.len(), s.len()))
    } else {
        None
    }
}

/// The index of the first `c` in `s`, the length of `s` where there is none.
pub open spec fn find(s: Seq<char>, c: char) -> int
    decreases s.len(),
{
    if s.len() == 0 || s[0] == c {
        0
    } else {
        1 + find(s.drop_first(), c)
    }
}

/// What `find` finds.
pub proof fn lemma_find(s: Seq<char>, c: char)
    ensures
        0 <= find(s, c) <= s.len(),
        find(s, c) < s.len() ==> s[find(s, c)] == c,
        forall|i: int| 0 <= i < find(s, c) ==> #[trigger] s[i] != c,
    decreases s.len(),
{
    if s.len() > 0 && s[0] != c {
        let t = s.drop_first();
        lemma_find(t, c);
        assert forall|i: int| 0 <= i < find(s, c) implies #[trigger] s[i] != c by {
            if i > 0 {
                assert(s[i] == t[i - 1]);
            }
        }
        if find(s, c) < s.len() {
            assert(s[find(s, c)] == t[find(t, c)]);
        }
    }
}

/// The index that `find` gives is the only one before which no `c` stands.
pub proof fn lemma_find_is(s: Seq<char>, c: char, n: int)
    requires
        0 <= n <= s.len(),
        n < s.len() ==> s[n] == c,
        forall|i: int| 0 <= i < n ==> #[trigger] s[i] != c,
    ensures
        find(s, c) == n,
{
    lemma_find(s, c);
    let m = find(s, c);
    if m < n {
        assert(s[m] != c);
    }
}

/// The index of the first `c`, the length where there is none.
pub fn index_of(s: &[char], c: char) -> (r: usize)
    ensures
        r == find(s@, c),
        r <= s@.len(),
        r < s@.len() ==> s@[r as int] == c,
{
    let mut i: usize = 0;
    while i < s.len() && s[i] != c
        invariant
            i <= s@.len(),
            forall|k: int| 0 <= k < i ==> #[trigger] s@[k] != c,
        decreases s@.len() - i,
    {
        i += 1;
    }
    proof {
        lemma_find_is(s@, c, i as int);
    }
    i
}

/// The parts of `s` between the characters `c`; one part where there is none.
pub open spec fn split(s: Seq<char>, c: char) -> Seq<Seq<char>>
    decreases s.len(),
{
    proof {
        lemma_find(s, c);
    }
    let i = find(s, c);
    if i < s.len() {
        seq![s.take(i)] + split(s.skip(i + 1), c)
    } else {
        seq![s]
    }
}

/// The two sides of the first `c`.
pub open spec fn split_once(s: Seq<char>, c: char) -> Option<(Seq<char>, Seq<char>)> {
    let i = find(s, c);
    if i < s.len() {
        Some((s.take(i), s.skip(i + 1)))
    } else {
        None
    }
}

/// Splits at the first `c`.
pub fn cut<'a>(s: &'a [char], c: char) -> (r: Option<(&'a [char], &'a [char])>)
    ensures
        match r {
            Some((a, b)) => split_once(s@, c) == Some((a@, b@)),
            None => split_once(s@, c) is None,
        },
{
    let i = index_of(s, c);
    if i < s.len() {
        let a = slice_subrange(s, 0, i);
        let b = slice_subrange(s, i + 1, s.len());
        Some((a, b))
    } else {
        None
    }
}

/// A text without `c`, then `c`, then a rest, splits there.
pub proof fn lemma_split_once(a: Seq<char>, c: char, b: Seq<char>)
    requires
        !a.contains(c),
    ensures
        find(a + seq![c] + b, c) == a.len(),
        split_once(a + seq![c] + b, c) == Some((a, b)),
{
    let s = a + seq![c] + b;
    assert forall|i: int| 0 <= i < a.len() implies #[trigger] s[i] != c by {
        assert(s[i] == a[i]);
        assert(a.contains(a[i]));
    }
    lemma_find_is(s, c, a.len() as int);
    assert(s.take(a.len() as int) =~= a);
    assert(s.skip(a.len() as int + 1) =~= b);
}

/// A text without `c` does not split.
pub proof fn lemma_no_split(a: Seq<char>, c: char)
    requires
        !a.contains(c),
    ensures
        find(a, c) == a.len(),
        split_once(a, c) is None,
        split(a, c) == seq![a],
{
    assert forall|i: int| 0 <= i < a.len() implies #[trigger] a[i] != c by {
        assert(a.contains(a[i]));
    }
    lemma_find_is(a, c, a.len() as int);
}

// ---------------------------------------------------------------- whitespace

/// A character with the Unicode property White_Space.
pub open spec fn is_white(c: char) -> bool {
    let u = c as int;
    (9 <= u && u <= 13) || u == 32 || u == 0x85 || u == 0xA0 || u == 0x1680 || (0x2000 <= u && u
        <= 0x200A) || u == 0x2028 || u == 0x2029 || u == 0x202F || u == 0x205F || u == 0x3000
}

/// `s` without the whitespace at its start.
pub open spec fn trim_start(s: Seq<char>) -> Seq<char>
    decreases s.len(),
{
    if s.len() > 0 && is_white(s[0]) {
        trim_start(s.drop_first())
    } else {
        s
    }
}

/// `s` without the whitespace at its end.
pub open spec fn trim_end(s: Seq<char>) -> Seq<char>
    decreases s.len(),
{
    if s.len() > 0 && is_white(s.last()) {
        trim_end(s.drop_last())
    } else {
        s
    }
}

/// `s` without the whitespace at either end.
pub open spec fn trim(s: Seq<char>) -> Seq<char> {
    trim_end(trim_start(s))
}

/// Nothing is trimmed from a text that neither starts nor ends in whitespace.
pub proof fn lemma_trim_none(s: Seq<char>)
    requires
        s.len() > 0 ==> !is_white(s[0]) && !is_white(s.last()),
    ensures
        trim(s) == s,
{
}

/// Whether `c` is whitespace.
pub fn white(c: char) -> (r: bool)
    ensures
        r == is_white(c),
{
    let u: u32 = c as u32;
    (9 <= u && u <= 13) || u == 32 || u == 0x85 || u == 0xA0 || u == 0x1680 || (0x2000 <= u && u
        <= 0x200A) || u == 0x2028 || u == 0x2029 || u == 0x202F || u == 0x205F || u == 0x3000
}

/// Strips the whitespace at the start.
pub fn trimmed_start<'a>(s: &'a [char]) -> (r: &'a [char])
    ensures
        r@ == trim_start(s@),
        r@.len() <= s@.len(),
{
    let mut i: usize = 0;
    proof {
        assert(s@.skip(0) =~= s@);
    }
    while i < s.len() && white(s[i])
        invariant
            i <= s@.len(),
            trim_start(s@.skip(i as int)) == trim_start(s@),
        decreases s@.len() - i,
    {
        proof {
            assert(s@.skip(i as int).drop_first() =~= s@.skip(i + 1));
        }
        i += 1;
    }
    slice_subrange(s, i, s.len())
}

/// Strips the whitespace at the end.
pub fn trimmed_end<'a>(s: &'a [char]) -> (r: &'a [char])
    ensures
        r@ == trim_end(s@),
        r@.len() <= s@.len(),
{
    let mut n: usize = s.len();
    proof {
        assert(s@.take(n as int) =~= s@);
    }
    while n > 0 && white(s[n - 1])
        invariant
            n <= s@.len(),
            trim_end(s@.take(n as int)) == trim_end(s@),
        decreases n,
    {
        proof {
            assert(s@.take(n as int).drop_last() =~= s@.take(n - 1));
        }
        n -= 1;
    }
    slice_subrange(s, 0, n)
}

/// Strips the whitespace at both ends.
pub fn trimmed<'a>(s: &'a [char]) -> (r: &'a [char])
    ensures
        r@ == trim(s@),
        r@.len() <= s@.len(),
{
    trimmed_end(trimmed_start(s))
}

/// The bounds of what is left when the whitespace at both ends is stripped.
pub fn trim_bounds(s: &[char]) -> (r: (usize, usize))
    ensures
        r.0 <= r.1 <= s@.len(),
        s@.subrange(r.0 as int, r.1 as int) == trim(s@),
{
    let a = s.len() - trimmed_start(s).len();
    proof {
        lemma_trim_start_is_suffix(s@);
    }
    let t = slice_subrange(s, a, s.len());
    let n = trimmed_end(t).len();
    proof {
        assert(t@ =~= trim_start(s@));
        lemma_trim_end_is_prefix(t@);
        assert(s@.subrange(a as int, a + n) =~= t@.take(n as int));
    }
    (a, a + n)
}

pub proof fn lemma_trim_start_is_suffix(s: Seq<char>)
    ensures
        trim_start(s).len() <= s.len(),
        trim_start(s) == s.skip(s.len() - trim_start(s).len()),
    decreases s.len(),
{
    if s.len() > 0 && is_white(s[0]) {
        let t = s.drop_first();
        lemma_trim_start_is_suffix(t);
        assert(t.skip(t.len() - trim_start(t).len()) =~= s.skip(s.len() - trim_start(s).len()));
    } else {
        assert(s.skip(0) =~= s);
    }
}

pub proof fn lemma_trim_end_is_prefix(s: Seq<char>)
    ensures
        trim_end(s).len() <= s.len(),
        trim_end(s) == s.take(trim_end(s).len() as int),
    decreases s.len(),
{
    if s.len() > 0 && is_white(s.last()) {
        let t = s.drop_last();
        lemma_trim_end_is_prefix(t);
        assert(t.take(trim_end(t).len() as int) =~= s.take(trim_end(s).len() as int));
    } else {
        assert(s.take(s.len() as int) =~= s);
    }
}

/// Strips the whitespace at both ends of a string.
pub fn trim_str<'a>(s: &'a str) -> (r: &'a str)
    ensures
        r@ == trim(s@),
{
    let v = chars_of(s);
    let (a, b) = trim_bounds(v.as_slice());
    s.substring_char(a, b)
}

/// The sequences of characters that `v` refers to.
pub open spec fn views(v: Seq<&[char]>) -> Seq<Seq<char>> {
    v.map_values(|x: &[char]| x@)
}

/// The parts between the characters `c`.
pub fn split_all<'a>(s: &'a [char], c: char) -> (r: Vec<&'a [char]>)
    ensures
        views(r@) == split(s@, c),
        r@.len() >= 1,
{
    let mut out: Vec<&'a [char]> = Vec::new();
    let mut rest: &'a [char] = s;
    proof {
        assert(views(out@) + split(s@, c) =~= split(s@, c));
    }
    loop
        invariant_except_break
            split(s@, c) == views(out@) + split(rest@, c),
        ensures
            split(s@, c) == views(out@),
            out@.len() >= 1,
        decreases rest@.len(),
    {
        let ghost before = views(out@);
        proof {
            lemma_find(rest@, c);
        }
        match cut(rest, c) {
            Some((a, b)) => {
                out.push(a);
                proof {
                    assert(views(out@) =~= before.push(a@));
                    assert(before + (seq![a@] + split(b@, c)) =~= before.push(a@) + split(b@, c));
                }
                rest = b;
            },
            None => {
                out.push(rest);
                proof {
                    assert(views(out@) =~= before.push(rest@));
                    assert(before + seq![rest@] =~= before.push(rest@));
                }
                break;
            },
        }
    }
    out
}

/// Splitting a text that has a part without `c`, then `c`, then a rest.
pub proof fn lemma_split_front(a: Seq<char>, c: char, b: Seq<char>)
    requires
        !a.contains(c),
    ensures
        split(a + seq![c] + b, c) == seq![a] + split(b, c),
{
    lemma_split_once(a, c, b);
}

/// How many characters at the start of `s` are not whitespace.
pub open spec fn word_len(s: Seq<char>) -> nat
    decreases s.len(),
{
    if s.len() > 0 && !is_white(s[0]) {
        1 + word_len(s.drop_first())
    } else {
        0
    }
}

/// The words of `s`, which whitespace parts.
pub open spec fn words(s: Seq<char>) -> Seq<Seq<char>>
    decreases s.len(),
{
    proof {
        lemma_trim_start_is_suffix(s);
        lemma_word_len(trim_start(s));
        lemma_trim_start_done(s);
    }
    let t = trim_start(s);
    let n = word_len(t) as int;
    if t.len() == 0 {
        Seq::empty()
    } else {
        seq![t.take(n)] + words(t.skip(n))
    }
}

pub proof fn lemma_trim_start_done(s: Seq<char>)
    ensures
        trim_start(s).len() > 0 ==> !is_white(trim_start(s)[0]),
    decreases s.len(),
{
    if s.len() > 0 && is_white(s[0]) {
        lemma_trim_start_done(s.drop_first());
    }
}

pub proof fn lemma_word_len(s: Seq<char>)
    ensures
        word_len(s) <= s.len(),
    decreases s.len(),
{
    if s.len() > 0 && !is_white(s[0]) {
        lemma_word_len(s.drop_first());
    }
}

/// The two sides of the first `=` in each word that has one.
pub open spec fn pairs(w: Seq<Seq<char>>) -> Seq<(Seq<char>, Seq<char>)>
    decreases w.len(),
{
    if w.len() == 0 {
        Seq::empty()
    } else {
        match split_once(w[0], '=') {
            Some(kv) => seq![kv] + pairs(w.drop_first()),
            None => pairs(w.drop_first()),
        }
    }
}

/// The `key=value` words of `s`.
pub open spec fn key_values(s: Seq<char>) -> Seq<(Seq<char>, Seq<char>)> {
    pairs(words(s))
}

/// The value of the first pair with that key.
pub open spec fn lookup(kv: Seq<(Seq<char>, Seq<char>)>, key: Seq<char>) -> Option<Seq<char>>
    decreases kv.len(),
{
    if kv.len() == 0 {
        None
    } else if kv[0].0 == key {
        Some(kv[0].1)
    } else {
        lookup(kv.drop_first(), key)
    }
}

/// The characters of each pair.
pub open spec fn pair_views(v: Seq<(&str, &str)>) -> Seq<(Seq<char>, Seq<char>)> {
    v.map_values(|p: (&str, &str)| (p.0@, p.1@))
}

/// The index of the first character from `i` on that is not whitespace.
fn skip_white(s: &[char], i: usize) -> (r: usize)
    requires
        i <= s@.len(),
    ensures
        i <= r <= s@.len(),
        s@.skip(r as int) == trim_start(s@.skip(i as int)),
{
    let mut k: usize = i;
    while k < s.len() && white(s[k])
        invariant
            i <= k <= s@.len(),
            trim_start(s@.skip(k as int)) == trim_start(s@.skip(i as int)),
        decreases s@.len() - k,
    {
        proof {
            assert(s@.skip(k as int).drop_first() =~= s@.skip(k + 1));
        }
        k += 1;
    }
    k
}

/// The index behind the word at `i`.
fn word_end(s: &[char], i: usize) -> (r: usize)
    requires
        i <= s@.len(),
    ensures
        i <= r <= s@.len(),
        r == i + word_len(s@.skip(i as int)),
{
    let mut k: usize = i;
    while k < s.len() && !white(s[k])
        invariant
            i <= k <= s@.len(),
            word_len(s@.skip(i as int)) == (k - i) + word_len(s@.skip(k as int)),
        decreases s@.len() - k,
    {
        proof {
            assert(s@.skip(k as int).drop_first() =~= s@.skip(k + 1));
        }
        k += 1;
    }
    k
}

/// The words of `s`.
pub fn word_list<'a>(s: &'a [char]) -> (r: Vec<&'a [char]>)
    ensures
        views(r@) == words(s@),
{
    let mut out: Vec<&'a [char]> = Vec::new();
    let mut i: usize = 0;
    proof {
        assert(s@.skip(0) =~= s@);
        assert(views(out@) + words(s@) =~= words(s@));
    }
    loop
        invariant_except_break
            i <= s@.len(),
            words(s@) == views(out@) + words(s@.skip(i as int)),
        ensures
            views(out@) == words(s@),
        decreases s@.len() - i,
    {
        let a = skip_white(s, i);
        let ghost t = s@.skip(a as int);
        if a >= s.len() {
            proof {
                assert(t.len() == 0);
                assert(views(out@) + Seq::empty() =~= views(out@));
            }
            break;
        }
        let b = word_end(s, a);
        let ghost done = views(out@);
        proof {
            lemma_trim_start_done(s@.skip(i as int));
            assert(t.skip(b - a) =~= s@.skip(b as int));
            assert(s@.subrange(a as int, b as int) =~= t.take(b - a));
        }
        let word = slice_subrange(s, a, b);
        out.push(word);
        proof {
            assert(views(out@) =~= done.push(word@));
            assert(done + (seq![word@] + words(s@.skip(b as int))) =~= done.push(word@) + words(
                s@.skip(b as int),
            ));
        }
        i = b;
    }
    out
}

// ----------------------------------------------------------------- searching

/// Whether `part` stands at place `k` of `s`.
pub open spec fn stands_at(s: Seq<char>, part: Seq<char>, k: int) -> bool {
    0 <= k && k + part.len() <= s.len() && s.subrange(k, k + part.len()) == part
}

/// Whether `part` stands anywhere in `s`.
pub open spec fn has_text(s: Seq<char>, part: Seq<char>) -> bool {
    exists|k: int| #[trigger] stands_at(s, part, k)
}

/// Whether a text stands in another.
pub fn contains(s: &[char], part: &str) -> (r: bool)
    ensures
        r == has_text(s@, part@),
{
    let p = chars_of(part);
    let n: usize = p.len();
    if n > s.len() {
        return false;
    }
    let last: usize = s.len() - n;
    let mut k: usize = 0;
    loop
        invariant_except_break
            n == p@.len(),
            p@ == part@,
            last == s@.len() - n,
            k <= last,
            forall|j: int| 0 <= j < k ==> !#[trigger] stands_at(s@, part@, j),
        ensures
            forall|j: int| 0 <= j <= last ==> !#[trigger] stands_at(s@, part@, j),
        decreases last - k,
    {
        let len: usize = s.len();
        assert(k + n <= len);
        if same_chars(slice_subrange(s, k, k + n), p.as_slice()) {
            proof {
                assert(stands_at(s@, part@, k as int));
            }
            return true;
        }
        proof {
            assert(!stands_at(s@, part@, k as int));
        }
        if k == last {
            break;
        }
        k += 1;
    }
    false
}

/// The `key=value` words of a string.
pub fn key_value_words<'a>(s: &'a str) -> (r: Vec<(&'a str, &'a str)>)
    ensures
        pair_views(r@) == key_values(s@),
{
    let v = chars_of(s);
    let c = v.as_slice();
    let mut out: Vec<(&'a str, &'a str)> = Vec::new();
    let mut i: usize = 0;
    proof {
        assert(s@.skip(0) =~= s@);
        assert(pair_views(out@) + pairs(words(s@)) =~= pairs(words(s@)));
    }
    loop
        invariant_except_break
            i <= c@.len(),
            c@ == s@,
            key_values(s@) == pair_views(out@) + pairs(words(s@.skip(i as int))),
        ensures
            pair_views(out@) == key_values(s@),
        decreases c@.len() - i,
    {
        let a = skip_white(c, i);
        let ghost t = s@.skip(a as int);
        if a >= c.len() {
            proof {
                assert(t.len() == 0);
                assert(pair_views(out@) + Seq::empty() =~= pair_views(out@));
            }
            break;
        }
        let b = word_end(c, a);
        let ghost done = pair_views(out@);
        let ghost rest = words(s@.skip(b as int));
        proof {
            lemma_trim_start_done(s@.skip(i as int));
            assert(t.skip(b - a) =~= s@.skip(b as int));
            let w = t.take(b - a);
            let all = seq![w] + rest;
            assert(all.drop_first() =~= rest);
            assert(all[0] == w);
            assert(s@.subrange(a as int, b as int) =~= w);
        }
        let word = slice_subrange(c, a, b);
        let e = index_of(word, '=');
        if e < word.len() {
            let key = s.substring_char(a, a + e);
            let value = s.substring_char(a + e + 1, b);
            out.push((key, value));
            proof {
                assert(key@ =~= word@.take(e as int));
                assert(value@ =~= word@.skip(e + 1));
                assert(pair_views(out@) =~= done.push((key@, value@)));
                assert(done + (seq![(key@, value@)] + pairs(rest)) =~= done.push((key@, value@))
                    + pairs(rest));
            }
        }
        i = b;
    }
    out
}

/// Looks a key up among pairs.
pub fn value_of<'a>(kv: &Vec<(&'a str, &'a str)>, key: &str) -> (r: Option<&'a str>)
    ensures
        match r {
            Some(v) => lookup(pair_views(kv@), key@) == Some(v@),
            None => lookup(pair_views(kv@), key@) is None,
        },
{
    let mut k: usize = 0;
    let ghost all = pair_views(kv@);
    proof {
        assert(all.skip(0) =~= all);
    }
    while k < kv.len()
        invariant
            k <= kv@.len(),
            all == pair_views(kv@),
            lookup(all, key@) == lookup(all.skip(k as int), key@),
        decreases kv@.len() - k,
    {
        proof {
            assert(all.skip(k as int)[0] == all[k as int]);
            assert(all.skip(k as int).drop_first() =~= all.skip(k + 1));
        }
        if same_str(kv[k].0, key) {
            return Some(kv[k].1);
        }
        k += 1;
    }
    None
}

/// No character of `s` is whitespace.
pub open spec fn no_white(s: Seq<char>) -> bool {
    forall|i: int| 0 <= i < s.len() ==> !is_white(#[trigger] s[i])
}

/// `key=value`.
pub open spec fn pair_text(p: (Seq<char>, Seq<char>)) -> Seq<char> {
    p.0 + seq!['='] + p.1
}

/// `key=value` words with a blank between them.
pub open spec fn pairs_text(kv: Seq<(Seq<char>, Seq<char>)>) -> Seq<char>
    decreases kv.len(),
{
    if kv.len() == 0 {
        Seq::empty()
    } else if kv.len() == 1 {
        pair_text(kv[0])
    } else {
        pair_text(kv[0]) + seq![' '] + pairs_text(kv.drop_first())
    }
}

/// Neither the key nor the value holds whitespace, and the key no `=`.
pub open spec fn plain_pair(p: (Seq<char>, Seq<char>)) -> bool {
    no_white(p.0) && no_white(p.1) && !p.0.contains('=')
}

proof fn lemma_word_len_is(w: Seq<char>, rest: Seq<char>)
    requires
        no_white(w),
        rest.len() > 0 ==> is_white(rest[0]),
    ensures
        word_len(w + rest) == w.len(),
    decreases w.len(),
{
    let s = w + rest;
    if w.len() > 0 {
        let v = w.drop_first();
        assert(s[0] == w[0]);
        assert(s.drop_first() =~= v + rest);
        assert forall|i: int| 0 <= i < v.len() implies !is_white(#[trigger] v[i]) by {
            assert(v[i] == w[i + 1]);
        }
        lemma_word_len_is(v, rest);
    } else {
        assert(s =~= rest);
    }
}

/// A word before a blank is the first word.
proof fn lemma_words_front(w: Seq<char>, rest: Seq<char>)
    requires
        w.len() > 0,
        no_white(w),
    ensures
        words(w + seq![' '] + rest) == seq![w] + words(rest),
        words(w) == seq![w],
{
    let s = w + seq![' '] + rest;
    let tail = seq![' '] + rest;
    assert(!is_white(w[0]));
    assert(s[0] == w[0]);
    assert(s =~= w + tail);
    lemma_word_len_is(w, tail);
    assert(s.take(w.len() as int) =~= w);
    assert(s.skip(w.len() as int) =~= tail);
    assert(tail.drop_first() =~= rest);
    assert(trim_start(tail) == trim_start(rest));
    assert(words(tail) == words(rest));
    lemma_word_len_is(w, Seq::empty());
    assert(w + Seq::<char>::empty() =~= w);
    assert(w.take(w.len() as int) =~= w);
    assert(w.skip(w.len() as int) =~= Seq::<char>::empty());
    assert(words(Seq::<char>::empty()) =~= Seq::empty());
    assert(seq![w] + Seq::<Seq<char>>::empty() =~= seq![w]);
}

/// Pairs that were written as words are read back.
pub proof fn lemma_pairs_round_trip(kv: Seq<(Seq<char>, Seq<char>)>)
    requires
        forall|i: int| 0 <= i < kv.len() ==> plain_pair(#[trigger] kv[i]),
    ensures
        key_values(pairs_text(kv)) == kv,
    decreases kv.len(),
{
    if kv.len() == 0 {
        assert(pairs_text(kv) =~= Seq::<char>::empty());
        assert(words(Seq::<char>::empty()) =~= Seq::empty());
        assert(kv =~= Seq::empty());
    } else {
        let w = pair_text(kv[0]);
        let more = kv.drop_first();
        assert(plain_pair(kv[0]));
        assert forall|i: int| 0 <= i < w.len() implies !is_white(#[trigger] w[i]) by {
            if i < kv[0].0.len() {
                assert(w[i] == kv[0].0[i]);
            } else if i > kv[0].0.len() {
                assert(w[i] == kv[0].1[i - kv[0].0.len() - 1]);
            }
        }
        assert forall|i: int| 0 <= i < more.len() implies plain_pair(#[trigger] more[i]) by {
            assert(more[i] == kv[i + 1]);
        }
        lemma_pairs_round_trip(more);
        lemma_split_once(kv[0].0, '=', kv[0].1);
        let rest = pairs_text(more);
        lemma_words_front(w, rest);
        let all = words(pairs_text(kv));
        if kv.len() == 1 {
            assert(more =~= Seq::empty());
            assert(all =~= seq![w]);
            assert(all.drop_first() =~= Seq::empty());
            assert(pairs(all) =~= seq![kv[0]]);
            assert(kv =~= seq![kv[0]]);
        } else {
            assert(all == seq![w] + words(rest));
            assert(all.drop_first() =~= words(rest));
            assert(all[0] == w);
            assert(pairs(all) == seq![kv[0]] + pairs(words(rest)));
            assert(seq![kv[0]] + more =~= kv);
        }
    }
}

/// The value of a key is that of the first pair that has it.
pub proof fn lemma_lookup(kv: Seq<(Seq<char>, Seq<char>)>, k: int)
    requires
        0 <= k < kv.len(),
        forall|i: int| 0 <= i < k ==> (#[trigger] kv[i]).0 != kv[k].0,
    ensures
        lookup(kv, kv[k].0) == Some(kv[k].1),
    decreases k,
{
    if k > 0 {
        let more = kv.drop_first();
        assert(kv[0].0 != kv[k].0);
        assert(more[k - 1] == kv[k]);
        assert forall|i: int| 0 <= i < k - 1 implies (#[trigger] more[i]).0 != more[k - 1].0 by {
            assert(more[i] == kv[i + 1]);
        }
        lemma_lookup(more, k - 1);
    }
}

/// The text of a number holds no whitespace.
pub proof fn lemma_number_is_plain(v: int)
    ensures
        no_white(int_text(v)),
        v >= 0 ==> int_text(v) == dec_text(v as nat),
{
    let m = if v < 0 {
        (-v) as nat
    } else {
        v as nat
    };
    lemma_dec_text(m);
    let t = int_text(v);
    assert forall|k: int| 0 <= k < t.len() implies !is_white(#[trigger] t[k]) by {
        if v < 0 {
            if k > 0 {
                assert(is_digit(dec_text(m)[k - 1]));
            }
        } else {
            assert(is_digit(dec_text(m)[k]));
        }
    }
}

/// The characters of pairs whose values are owned.
pub open spec fn owned_pairs(v: Seq<(&str, String)>) -> Seq<(Seq<char>, Seq<char>)> {
    v.map_values(|p: (&str, String)| (p.0@, p.1@))
}

/// Appends `key=value` words with a blank between them.
pub fn push_pairs(out: &mut String, kv: &Vec<(&str, String)>)
    ensures
        final(out)@ == old(out)@ + pairs_text(owned_pairs(kv@)),
{
    let ghost start = out@;
    let ghost all = owned_pairs(kv@);
    let mut k: usize = 0;
    proof {
        assert(all.skip(0) =~= all);
        if all.len() == 0 {
            assert(start + pairs_text(all) =~= start);
        }
    }
    while k < kv.len()
        invariant
            k <= kv@.len(),
            all == owned_pairs(kv@),
            start + pairs_text(all) == if k == 0 {
                out@ + pairs_text(all.skip(0))
            } else if k < kv@.len() {
                out@ + (seq![' '] + pairs_text(all.skip(k as int)))
            } else {
                out@
            },
        decreases kv@.len() - k,
    {
        let ghost before = out@;
        let ghost t = all.skip(k as int);
        proof {
            assert(t[0] == all[k as int]);
            assert(t.drop_first() =~= all.skip(k + 1));
        }
        if k > 0 {
            out.push(' ');
        }
        vstd::string::StringExecFns::append(out, kv[k].0);
        out.push('=');
        vstd::string::StringExecFns::append(out, kv[k].1.as_str());
        proof {
            let w = pair_text(t[0]);
            let lead = if k > 0 {
                before.push(' ')
            } else {
                before
            };
            assert(out@ =~= lead + w);
            if k + 1 < all.len() {
                let rest = pairs_text(all.skip(k + 1));
                if k > 0 {
                    assert(before + (seq![' '] + (w + seq![' '] + rest)) =~= out@ + (seq![' '] + rest));
                } else {
                    assert(before + (w + seq![' '] + rest) =~= out@ + (seq![' '] + rest));
                }
            } else {
                if k > 0 {
                    assert(before + (seq![' '] + w) =~= out@);
                }
            }
        }
        k += 1;
    }
}

/// The decimal text of `v`.
pub fn int_string(v: i64) -> (s: String)
    requires
        v > i64::MIN,
    ensures
        s@ == int_text(v as int),
{
    let mut s = String::new();
    push_int(&mut s, v);
    proof {
        assert(s@ =~= int_text(v as int));
    }
    s
}

/// The digits of `n`.
pub fn dec_string(n: u64) -> (s: String)
    ensures
        s@ == dec_text(n as nat),
{
    let mut s = String::new();
    push_dec(&mut s, n);
    proof {
        assert(s@ =~= dec_text(n as nat));
    }
    s
}

// ----------------------------------------------------------------- bytes

/// `core::str::from_utf8`: the string that the bytes encode, where they are valid
/// UTF-8.
#[verifier::external_body]
pub(crate) fn utf8_str<'a>(b: &'a [u8]) -> (r: Option<&'a str>)
    ensures
        match r {
            Some(s) => valid_utf8(b@) && s.spec_bytes() == b@,
            None => !valid_utf8(b@),
        },
{
    core::str::from_utf8(b).ok()
}

// -------------------------------------------------------------------- laws

/// Trimming takes the whitespace at both ends and nothing else: what stands
/// between two runs of whitespace, and itself neither starts nor ends in it, is
/// what is left.
pub proof fn trimming_keeps_the_middle(before: Seq<char>, middle: Seq<char>, behind: Seq<char>)
    requires
        forall|i: int| 0 <= i < before.len() ==> is_white(#[trigger] before[i]),
        forall|i: int| 0 <= i < behind.len() ==> is_white(#[trigger] behind[i]),
        middle.len() > 0 ==> !is_white(middle[0]) && !is_white(middle.last()),
    ensures
        trim(before + middle + behind) == middle,
    decreases before.len() + behind.len(),
{
    let s = before + middle + behind;
    if before.len() > 0 {
        assert(is_white(before[0]));
        let less = before.drop_first();
        assert forall|i: int| 0 <= i < less.len() implies is_white(#[trigger] less[i]) by {
            assert(less[i] == before[i + 1]);
        }
        trimming_keeps_the_middle(less, middle, behind);
        assert(s.drop_first() =~= less + middle + behind);
    } else if behind.len() > 0 {
        assert(is_white(behind.last()));
        if middle.len() == 0 {
            assert(s =~= behind);
            let less = behind.drop_first();
            assert forall|i: int| 0 <= i < less.len() implies is_white(#[trigger] less[i]) by {
                assert(less[i] == behind[i + 1]);
            }
            trimming_keeps_the_middle(before, middle, less);
            assert(is_white(behind[0]));
            assert(s.drop_first() =~= before + middle + less);
        } else {
            let less = behind.drop_last();
            assert forall|i: int| 0 <= i < less.len() implies is_white(#[trigger] less[i]) by {
                assert(less[i] == behind[i]);
            }
            trimming_keeps_the_middle(before, middle, less);
            assert(s[0] == middle[0]);
            assert((before + middle + less)[0] == middle[0]);
            assert(s.drop_last() =~= before + middle + less);
        }
    } else {
        assert(s =~= middle);
    }
}

/// Among the ASCII characters the blank and the five line and tab characters are
/// whitespace, and no other is.
pub proof fn ascii_whitespace(c: char)
    requires
        (c as int) < 128,
    ensures
        is_white(c) <==> c == ' ' || 9 <= (c as int) <= 13,
{
}

/// A run of digits is weighed by place: with one digit more behind it, what `s`
/// denotes counts ten times and the new digit once.
pub proof fn decimals_are_weighed(s: Seq<char>, c: char)
    ensures
        dec_val(s.push(c)) == 10 * dec_val(s) + (c as int - 48),
        dec_val(Seq::<char>::empty()) == 0,
{
    assert(s.push(c).drop_last() =~= s);
}

/// The digits of a number have no leading zero and end with its last digit: in
/// front of it stand the digits of a tenth of the number.
pub proof fn decimals_are_written(n: nat)
    ensures
        n < 10 ==> dec_text(n).len() == 1,
        n >= 10 ==> dec_text(n).drop_last() == dec_text(n / 10),
        dec_text(n).last() as int == 48 + n % 10,
        n > 0 ==> dec_text(n)[0] != '0',
    decreases n,
{
    if n >= 10 {
        decimals_are_written(n / 10);
        assert(dec_text(n).drop_last() =~= dec_text(n / 10));
        lemma_dec_text(n / 10);
        assert(dec_text(n)[0] == dec_text(n / 10)[0]);
    }
}

/// A text that is cut at a character and joined with it again is the same text: no
/// part holds the character.
pub proof fn parts_make_the_whole(s: Seq<char>, c: char)
    ensures
        split(s, c).len() >= 1,
        joined(split(s, c), c) == s,
        forall|k: int| 0 <= k < split(s, c).len() ==> !(#[trigger] split(s, c)[k]).contains(c),
    decreases s.len(),
{
    lemma_find(s, c);
    let i = find(s, c);
    let parts = split(s, c);
    if i < s.len() {
        let rest = s.skip(i + 1);
        parts_make_the_whole(rest, c);
        let more = split(rest, c);
        assert(parts =~= seq![s.take(i)] + more);
        assert(parts.drop_first() =~= more);
        assert(joined(parts, c) =~= s) by {
            assert(s =~= s.take(i) + seq![c] + rest);
        }
        assert forall|k: int| 0 <= k < parts.len() implies !(#[trigger] parts[k]).contains(c) by {
            if k == 0 {
                assert forall|j: int| 0 <= j < i implies #[trigger] s.take(i)[j] != c by {
                    assert(s.take(i)[j] == s[j]);
                }
            } else {
                assert(parts[k] == more[k - 1]);
            }
        }
    } else {
        assert forall|j: int| 0 <= j < s.len() implies #[trigger] s[j] != c by {}
    }
}

/// The parts, a `c` between each two.
pub open spec fn joined(parts: Seq<Seq<char>>, c: char) -> Seq<char>
    decreases parts.len(),
{
    if parts.len() == 0 {
        Seq::empty()
    } else if parts.len() == 1 {
        parts[0]
    } else {
        parts[0] + seq![c] + joined(parts.drop_first(), c)
    }
}

/// Filling up with zeros makes a number at least `w` characters long, changes
/// nothing where it is that long already, and does not change what it denotes.
pub proof fn padding_keeps_the_number(n: nat, w: nat)
    ensures
        pad_text(n, w).len() >= w,
        all_digits(pad_text(n, w)),
        dec_val(pad_text(n, w)) == n,
        dec_text(n).len() >= w ==> pad_text(n, w) == dec_text(n),
        dec_text(n).len() <= w ==> pad_text(n, w).len() == w,
{
    lemma_dec_text(n);
    let d = dec_text(n);
    if d.len() < w {
        let z = zeros((w - d.len()) as nat);
        lemma_leading_zeros(z.len(), d);
        assert forall|i: int| 0 <= i < (z + d).len() implies is_digit(#[trigger] (z + d)[i]) by {
            if i >= z.len() {
                assert(is_digit(d[i - z.len()]));
            }
        }
    }
}

proof fn lemma_leading_zeros(k: nat, d: Seq<char>)
    ensures
        dec_val(zeros(k) + d) == dec_val(d),
    decreases k + d.len(),
{
    let s = zeros(k) + d;
    if d.len() > 0 {
        lemma_leading_zeros(k, d.drop_last());
        assert(s.drop_last() =~= zeros(k) + d.drop_last());
        assert(s.last() == d.last());
    } else if k > 0 {
        let m = (k - 1) as nat;
        lemma_leading_zeros(m, d);
        assert(s.drop_last() =~= zeros(m) + d);
        assert(s.last() == '0');
    } else {
        assert(s =~= d);
    }
}

/// Words stand between whitespace: a word and a blank in front of a text are its
/// first word and leave the rest; a blank in front of it makes no difference; and a
/// word alone is one word.
pub proof fn words_are_separated(w: Seq<char>, rest: Seq<char>)
    requires
        w.len() > 0,
        no_white(w),
    ensures
        words(w + seq![' '] + rest) == seq![w] + words(rest),
        words(seq![' '] + rest) == words(rest),
        words(w) == seq![w],
        words(Seq::empty()).len() == 0,
{
    lemma_words_front(w, rest);
    let tail = seq![' '] + rest;
    assert(tail.drop_first() =~= rest);
    assert(trim_start(tail) == trim_start(rest));
    assert(words(Seq::<char>::empty()) =~= Seq::empty());
}

/// A text stands in another exactly where that one is made of something, the text,
/// and something more.
pub proof fn parts_stand_in_the_whole(a: Seq<char>, part: Seq<char>, b: Seq<char>, s: Seq<char>)
    ensures
        has_text(a + part + b, part),
        has_text(s, part) ==> exists|x: Seq<char>, y: Seq<char>| s == #[trigger] (x + part + y),
        s.len() < part.len() ==> !has_text(s, part),
{
    let w = a + part + b;
    assert(w.subrange(a.len() as int, (a.len() + part.len()) as int) =~= part);
    assert(stands_at(w, part, a.len() as int));
    if has_text(s, part) {
        let k = choose|k: int| #[trigger] stands_at(s, part, k);
        let x = s.take(k);
        let y = s.skip(k + part.len());
        assert(s =~= x + part + y);
    }
}

/// What is read as a number: digits, behind a sign or without, where what they denote is
/// within the bounds; a plain number takes no minus. A sign alone, nothing at all, and
/// anything with another character are none.
pub proof fn numbers_are_read_or_refused(
    d: Seq<char>,
    min: int,
    max: int,
    junk: Seq<char>,
    k: int,
)
    requires
        d.len() > 0,
        all_digits(d),
        0 < k < junk.len(),
        !is_digit(junk[k]),
    ensures
        ({
            let v = dec_val(d);
            &&& int_of(d, min, max) == (if min <= v && v <= max { Some(v) } else { None })
            &&& int_of(seq!['+'] + d, min, max) == int_of(d, min, max)
            &&& int_of(seq!['-'] + d, min, max) == (if min <= -v && -v <= max {
                Some(-v)
            } else {
                None
            })
            &&& nat_of(d, max) == (if v <= max { Some(v) } else { None })
            &&& nat_of(seq!['+'] + d, max) == nat_of(d, max)
            &&& nat_of(seq!['-'] + d, max) is None
        }),
        int_of(junk, min, max) is None && nat_of(junk, max) is None,
        int_of(Seq::empty(), min, max) is None && nat_of(Seq::empty(), max) is None,
        int_of(seq!['-'], min, max) is None && int_of(seq!['+'], min, max) is None && nat_of(
            seq!['+'],
            max,
        ) is None,
{
    assert(is_digit(d[0]));
    let p = seq!['+'] + d;
    let m = seq!['-'] + d;
    assert(p.skip(1) =~= d && m.skip(1) =~= d);
    assert(!is_digit(m[0]));
    assert(junk.skip(1)[k - 1] == junk[k]);
    assert(seq!['-'].skip(1).len() == 0 && seq!['+'].skip(1).len() == 0);
}

/// The whitespace of Unicode, by its code points.
pub proof fn unicode_whitespace(c: char)
    ensures
        ({
            let u = c as int;
            is_white(c) <==> 9 <= u <= 13 || u == 32 || u == 0x85 || u == 0xA0 || u == 0x1680
                || 0x2000 <= u <= 0x200A || u == 0x2028 || u == 0x2029 || u == 0x202F || u == 0x205F
                || u == 0x3000
        }),
{
}

} // verus!
