//! The serial number of a device, from the address of its chip.

use vstd::prelude::*;
use vstd::string::StringExecFns;

verus! {

/// An upper-case hex digit.
pub open spec fn hex_upper(d: int) -> char {
    if d < 10 {
        (d + 0x30) as char
    } else {
        (d + 0x37) as char
    }
}

/// A byte as two upper-case hex digits.
pub open spec fn hex_byte(b: u8) -> Seq<char> {
    seq![hex_upper(b as int / 16), hex_upper(b as int % 16)]
}

/// Bytes as upper-case hex digits.
pub open spec fn hex_bytes(b: Seq<u8>) -> Seq<char>
    decreases b.len(),
{
    if b.len() == 0 {
        Seq::empty()
    } else {
        hex_bytes(b.drop_last()) + hex_byte(b.last())
    }
}

/// The serial number.
pub open spec fn serial_text(mac: Seq<u8>) -> Seq<char> {
    "PITH-"@ + hex_bytes(mac)
}

fn upper(d: u8) -> (c: char)
    requires
        d < 16,
    ensures
        c == hex_upper(d as int),
{
    if d < 10 {
        (0x30u8 + d) as char
    } else {
        (0x37u8 + d) as char
    }
}

/// The serial number of the chip with that address.
pub fn serial(mac: [u8; 6]) -> (s: String)
    ensures
        s@ == serial_text(mac@),
{
    let mut s = String::from_str("PITH-");
    let mut k: usize = 0;
    proof {
        assert(mac@.take(0) =~= Seq::<u8>::empty());
        assert(s@ =~= "PITH-"@ + hex_bytes(mac@.take(0)));
    }
    while k < 6
        invariant
            k <= 6,
            s@ == "PITH-"@ + hex_bytes(mac@.take(k as int)),
        decreases 6 - k,
    {
        let b: u8 = mac[k];
        let ghost before = s@;
        s.push(upper(b / 16));
        s.push(upper(b % 16));
        proof {
            let t = mac@.take(k + 1);
            assert(t.drop_last() =~= mac@.take(k as int));
            assert(t.last() == b);
            assert(s@ =~= before + hex_byte(b));
            assert(s@ =~= "PITH-"@ + hex_bytes(t));
        }
        k += 1;
    }
    proof {
        assert(mac@.take(6) =~= mac@);
    }
    s
}

/// Two chips have the same serial number only where they have the same address.
pub proof fn serials_are_unique(a: Seq<u8>, b: Seq<u8>)
    requires
        serial_text(a) == serial_text(b),
    ensures
        a == b,
{
    assert(hex_bytes(a) =~= serial_text(a).skip("PITH-"@.len() as int));
    assert(hex_bytes(b) =~= serial_text(b).skip("PITH-"@.len() as int));
    lemma_hex_bytes(a, b);
}

proof fn lemma_hex_bytes(a: Seq<u8>, b: Seq<u8>)
    requires
        hex_bytes(a) == hex_bytes(b),
    ensures
        a == b,
    decreases a.len(),
{
    lemma_len(a);
    lemma_len(b);
    if a.len() == 0 {
        assert(a =~= b);
    } else {
        let n = 2 * (a.len() - 1);
        let x = hex_bytes(a.drop_last());
        let y = hex_bytes(b.drop_last());
        lemma_len(a.drop_last());
        lemma_len(b.drop_last());
        assert(x =~= hex_bytes(a).take(n));
        assert(y =~= hex_bytes(b).take(n));
        lemma_hex_bytes(a.drop_last(), b.drop_last());
        assert(hex_bytes(a)[n] == hex_byte(a.last())[0]);
        assert(hex_bytes(b)[n] == hex_byte(b.last())[0]);
        assert(hex_bytes(a)[n + 1] == hex_byte(a.last())[1]);
        assert(hex_bytes(b)[n + 1] == hex_byte(b.last())[1]);
        let p = a.last() as int;
        let q = b.last() as int;
        assert(hex_upper(p / 16) as int == hex_upper(q / 16) as int);
        assert(hex_upper(p % 16) as int == hex_upper(q % 16) as int);
        assert(a =~= a.drop_last().push(a.last()));
        assert(b =~= b.drop_last().push(b.last()));
    }
}

proof fn lemma_len(a: Seq<u8>)
    ensures
        hex_bytes(a).len() == 2 * a.len(),
    decreases a.len(),
{
    if a.len() > 0 {
        lemma_len(a.drop_last());
    }
}

/// A serial number is `PITH-` and then two digits for each byte of the address in its
/// order, the high one first; the digits above nine are capital letters.
pub proof fn digits_spell_the_address(mac: Seq<u8>, k: int)
    requires
        0 <= k < mac.len(),
    ensures
        serial_text(mac).len() == 5 + 2 * mac.len(),
        serial_text(mac).take(5) == "PITH-"@,
        spells(serial_text(mac)[5 + 2 * k], mac[k] as int / 16),
        spells(serial_text(mac)[6 + 2 * k], mac[k] as int % 16),
{
    reveal_strlit("PITH-");
    lemma_len(mac);
    lemma_digits(mac, k);
    assert(serial_text(mac).take(5) =~= "PITH-"@);
}

/// A character is the capital hex digit of a number.
pub open spec fn spells(c: char, d: int) -> bool {
    &&& d < 10 ==> c as int == '0' as int + d
    &&& d >= 10 ==> c as int == 'A' as int + d - 10
}

proof fn lemma_digits(mac: Seq<u8>, k: int)
    requires
        0 <= k < mac.len(),
    ensures
        hex_bytes(mac).len() == 2 * mac.len(),
        spells(hex_bytes(mac)[2 * k], mac[k] as int / 16),
        spells(hex_bytes(mac)[2 * k + 1], mac[k] as int % 16),
    decreases mac.len(),
{
    lemma_len(mac);
    lemma_len(mac.drop_last());
    if k < mac.len() - 1 {
        lemma_digits(mac.drop_last(), k);
    }
}

} // verus!
