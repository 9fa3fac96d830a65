//! Standings and relatives: the cars around the player, which ride a line of
//! their own, `@REL|<player>|place,gapLeader,gapRel,laps,flags,name|...`

use vstd::prelude::*;
use vstd::slice::slice_subrange;
use vstd::string::{StrSliceExecFns, StringExecFns, StringSliceAdditionalSpecFns};
use vstd::utf8::{decode_utf8, encode_utf8, is_char_boundary, valid_utf8};
use crate::format::abs;
use crate::le;
use crate::order::{
    all_below, as_ints, indices, key_ints, lemma_sort_items, ordered, sort_by, stable_sort,
    stable_sort_sorts, upto,
};
use crate::text::{
    after_prefix, chars_of, dec_text, int_of, int_text, is_digit, lemma_after_prefix,
    lemma_dec_text, lemma_int_text, lemma_nat_text, lemma_no_split, lemma_split_front, nat_of,
    parse_int, parse_nat, push_dec, push_int, split, split_all, strip_prefix, trim, trim_str,
    utf8_str, views,
};

verus! {

/// The most cars on one line.
pub const MAX_REL: usize = 12;

/// The bytes of a car's name.
pub const NAME_LEN: usize = 14;

pub const FLAG_PLAYER: u8 = 1;

pub const FLAG_IN_PITS: u8 = 2;

/// One car of the list.
#[derive(Clone, Copy, Debug)]
pub struct RelCar {
    /// Race position, from 1 on.
    pub place: u8,
    /// Gap to the leader.
    pub gap_leader_ms: i32,
    /// Signed gap to the player on track: positive ahead, negative behind.
    pub gap_rel_ms: i32,
    /// Laps completed.
    pub laps: i16,
    /// [`FLAG_PLAYER`] and [`FLAG_IN_PITS`].
    pub flags: u8,
    /// ASCII, filled up with NUL.
    pub name: [u8; 14],
}

/// A car as plain values.
pub struct CarView {
    pub place: u8,
    pub gap_leader_ms: i32,
    pub gap_rel_ms: i32,
    pub laps: i16,
    pub flags: u8,
    pub name: Seq<u8>,
}

impl View for RelCar {
    type V = CarView;

    open spec fn view(&self) -> CarView {
        CarView {
            place: self.place,
            gap_leader_ms: self.gap_leader_ms,
            gap_rel_ms: self.gap_rel_ms,
            laps: self.laps,
            flags: self.flags,
            name: self.name@,
        }
    }
}

/// A name of NUL bytes only.
pub open spec fn blank_name() -> Seq<u8> {
    Seq::new(NAME_LEN as nat, |k: int| 0u8)
}

/// A place of the list without a car.
pub open spec fn empty_place() -> CarView {
    CarView {
        place: 0,
        gap_leader_ms: 0,
        gap_rel_ms: 0,
        laps: 0,
        flags: 0,
        name: blank_name(),
    }
}

impl Default for RelCar {
    fn default() -> (r: RelCar)
        ensures
            r@ == empty_place(),
    {
        let r = RelCar {
            place: 0,
            gap_leader_ms: 0,
            gap_rel_ms: 0,
            laps: 0,
            flags: 0,
            name: [0; 14],
        };
        proof {
            assert(r.name@ =~= blank_name());
        }
        r
    }
}

/// The byte that stands for `b` in a name: itself where it is printable ASCII
/// and no separator of the line, else an underscore.
pub open spec fn clean(b: u8) -> u8 {
    if 0x20 <= b && b < 0x7f && b != 0x7C && b != 0x2C {
        b
    } else {
        0x5F
    }
}

/// The name that is stored for the bytes `b`.
pub open spec fn stored_name(b: Seq<u8>) -> Seq<u8> {
    Seq::new(
        NAME_LEN as nat,
        |k: int|
            if k < b.len() {
                clean(b[k])
            } else {
                0
            },
    )
}

/// The index of the first NUL, the length where there is none.
pub open spec fn nul_at(b: Seq<u8>) -> nat
    decreases b.len(),
{
    if b.len() == 0 || b[0] == 0 {
        0
    } else {
        1 + nul_at(b.drop_first())
    }
}

/// The text of a stored name: up to the first NUL, empty where that is no UTF-8.
pub open spec fn name_text(name: Seq<u8>) -> Seq<char> {
    let b = name.take(nul_at(name) as int);
    if valid_utf8(b) {
        decode_utf8(b)
    } else {
        Seq::empty()
    }
}

proof fn lemma_nul_at(b: Seq<u8>, n: int)
    requires
        0 <= n <= b.len(),
        forall|k: int| 0 <= k < n ==> #[trigger] b[k] != 0,
        n < b.len() ==> b[n] == 0,
    ensures
        nul_at(b) == n,
    decreases n,
{
    if n > 0 {
        assert(b[0] != 0);
        let t = b.drop_first();
        assert forall|k: int| 0 <= k < n - 1 implies #[trigger] t[k] != 0 by {
            assert(t[k] == b[k + 1]);
        }
        lemma_nul_at(t, n - 1);
    }
}

/// The bytes up to the first NUL within `from..to`.
fn until_nul<'a>(b: &'a [u8], from: usize, to: usize) -> (r: &'a [u8])
    requires
        from <= to <= b@.len(),
    ensures
        ({
            let s = b@.subrange(from as int, to as int);
            r@ == s.take(nul_at(s) as int)
        }),
{
    let mut i: usize = from;
    while i < to && b[i] != 0
        invariant
            from <= i <= to <= b@.len(),
            forall|k: int| from <= k < i ==> #[trigger] b@[k] != 0,
        decreases to - i,
    {
        i += 1;
    }
    proof {
        let s = b@.subrange(from as int, to as int);
        assert forall|k: int| 0 <= k < i - from implies #[trigger] s[k] != 0 by {
            assert(s[k] == b@[k + from]);
        }
        lemma_nul_at(s, i - from);
        assert(b@.subrange(from as int, i as int) =~= s.take(i - from));
    }
    slice_subrange(b, from, i)
}

impl RelCar {
    /// The player's own car.
    pub fn is_player(&self) -> (r: bool)
        ensures
            r == (self.flags & FLAG_PLAYER != 0),
    {
        self.flags & FLAG_PLAYER != 0
    }

    /// A car in the pits.
    pub fn in_pits(&self) -> (r: bool)
        ensures
            r == (self.flags & FLAG_IN_PITS != 0),
    {
        self.flags & FLAG_IN_PITS != 0
    }

    /// The name, up to the first NUL.
    pub fn name_str(&self) -> (r: &str)
        ensures
            r@ == name_text(self.name@),
    {
        let b = until_nul(self.name.as_slice(), 0, NAME_LEN);
        proof {
            assert(self.name@.subrange(0, NAME_LEN as int) =~= self.name@);
        }
        match utf8_str(b) {
            Some(s) => {
                proof {
                    vstd::utf8::encode_utf8_decode_utf8(s@);
                }
                s
            },
            None => {
                proof {
                    reveal_strlit("");
                    assert(""@ =~= Seq::<char>::empty());
                }
                ""
            },
        }
    }

    /// Sets the name: cut to its first bytes, cleaned of what the line cannot carry.
    pub fn set_name(&mut self, s: &str)
        ensures
            final(self)@ == (CarView { name: stored_name(s.spec_bytes()), ..old(self)@ }),
    {
        let b = s.as_bytes();
        let mut name: [u8; 14] = [0; 14];
        let mut k: usize = 0;
        while k < NAME_LEN && k < b.len()
            invariant
                k <= NAME_LEN,
                k <= b@.len(),
                forall|j: int| 0 <= j < k ==> #[trigger] name@[j] == clean(b@[j]),
                forall|j: int| k <= j < NAME_LEN ==> #[trigger] name@[j] == 0,
            decreases NAME_LEN - k,
        {
            let x: u8 = b[k];
            name[k] = if 0x20 <= x && x < 0x7f && x != 0x7C && x != 0x2C {
                x
            } else {
                0x5F
            };
            k += 1;
        }
        self.name = name;
        proof {
            assert(self.name@ =~= stored_name(b@));
        }
    }
}

/// A bounded list of cars and the player's place in it.
#[derive(Clone, Debug)]
pub struct Relatives {
    pub cars: [RelCar; 12],
    pub count: u8,
    /// The index of the player's car, or 0.
    pub player: u8,
}

impl Relatives {
    pub open spec fn wf(self) -> bool {
        self.count <= MAX_REL
    }

    /// The places behind the cars are empty.
    pub open spec fn rest_is_empty(self) -> bool {
        forall|k: int| self.count <= k < 12 ==> (#[trigger] self.cars@[k])@ == empty_place()
    }

    /// The cars of the list.
    pub open spec fn list(self) -> Seq<CarView> {
        Seq::new(self.count as nat, |k: int| self.cars@[k]@)
    }
}

impl Default for Relatives {
    fn default() -> (r: Relatives)
        ensures
            r.count == 0,
            r.player == 0,
            r.rest_is_empty(),
            r.wf(),
    {
        Relatives { cars: [RelCar::default(); 12], count: 0, player: 0 }
    }
}

impl Relatives {
    /// The cars of the list.
    pub fn entries(&self) -> (r: &[RelCar])
        requires
            self.wf(),
        ensures
            r@ == self.cars@.take(self.count as int),
    {
        slice_subrange(self.cars.as_slice(), 0, self.count as usize)
    }
}

// --------------------------------------------------------------- the line

/// The fields of a car on the line.
pub open spec fn record_text(c: CarView) -> Seq<char> {
    dec_text(c.place as nat) + seq![','] + (int_text(c.gap_leader_ms as int) + seq![','] + (int_text(
        c.gap_rel_ms as int,
    ) + seq![','] + (int_text(c.laps as int) + seq![','] + (dec_text(c.flags as nat) + seq![',']
        + name_text(c.name)))))
}

/// The cars on the line, a `|` before each.
pub open spec fn records_text(cars: Seq<CarView>) -> Seq<char>
    decreases cars.len(),
{
    if cars.len() == 0 {
        Seq::empty()
    } else {
        records_text(cars.drop_last()) + (seq!['|'] + record_text(cars.last()))
    }
}

/// The line of a list of cars.
pub open spec fn wire_text(player: u8, cars: Seq<CarView>) -> Seq<char> {
    "@REL|"@ + (dec_text(player as nat) + records_text(cars))
}

/// The car that a record of the line describes; `None` where one of its five
/// numbers is missing or malformed. A missing name is empty.
pub open spec fn car_of(rec: Seq<char>) -> Option<CarView> {
    let f = split(rec, ',');
    if f.len() < 5 {
        None
    } else {
        match (
            nat_of(f[0], 255),
            int_of(f[1], i32::MIN as int, i32::MAX as int),
            int_of(f[2], i32::MIN as int, i32::MAX as int),
            int_of(f[3], i16::MIN as int, i16::MAX as int),
            nat_of(f[4], 255),
        ) {
            (Some(place), Some(gl), Some(gr), Some(laps), Some(flags)) => Some(
                CarView {
                    place: place as u8,
                    gap_leader_ms: gl as i32,
                    gap_rel_ms: gr as i32,
                    laps: laps as i16,
                    flags: flags as u8,
                    name: stored_name(
                        encode_utf8(
                            if f.len() > 5 {
                                f[5]
                            } else {
                                Seq::empty()
                            },
                        ),
                    ),
                },
            ),
            _ => None,
        }
    }
}

/// The first `n` cars that the records describe; malformed records are skipped.
pub open spec fn cars_of(recs: Seq<Seq<char>>, n: nat) -> Seq<CarView>
    decreases recs.len(),
{
    if recs.len() == 0 || n == 0 {
        Seq::empty()
    } else {
        match car_of(recs[0]) {
            Some(c) => seq![c] + cars_of(recs.drop_first(), (n - 1) as nat),
            None => cars_of(recs.drop_first(), n),
        }
    }
}

/// What a line says: the player and the cars. `None` where the prefix or the
/// player is missing.
pub open spec fn wire_of(s: Seq<char>) -> Option<(u8, Seq<CarView>)> {
    match after_prefix(s, "@REL|"@) {
        None => None,
        Some(body) => {
            let parts = split(body, '|');
            match nat_of(parts[0], 255) {
                None => None,
                Some(p) => Some((p as u8, cars_of(parts.drop_first(), MAX_REL as nat))),
            }
        },
    }
}

/// Reads one record.
fn read_car(rec: &[char]) -> (r: Option<RelCar>)
    ensures
        match r {
            Some(c) => car_of(rec@) == Some(c@),
            None => car_of(rec@) is None,
        },
{
    let f = split_all(rec, ',');
    let ghost parts = split(rec@, ',');
    proof {
        assert(parts.len() == f@.len());
        assert forall|k: int| 0 <= k < f@.len() implies #[trigger] f@[k]@ == parts[k] by {
            assert(views(f@)[k] == f@[k]@);
        }
    }
    if f.len() < 5 {
        return None;
    }
    match (
        parse_nat(f[0], 255),
        parse_int(f[1], -2_147_483_648, 2_147_483_647),
        parse_int(f[2], -2_147_483_648, 2_147_483_647),
        parse_int(f[3], -32_768, 32_767),
        parse_nat(f[4], 255),
    ) {
        (Some(place), Some(gl), Some(gr), Some(laps), Some(flags)) => {
            let mut car = RelCar::default();
            car.place = place as u8;
            car.gap_leader_ms = gl as i32;
            car.gap_rel_ms = gr as i32;
            car.laps = laps as i16;
            car.flags = flags as u8;
            if f.len() > 5 {
                let name = crate::text::string_of(f[5]);
                car.set_name(name.as_str());
            } else {
                proof {
                    reveal_strlit("");
                    assert(""@ =~= Seq::<char>::empty());
                }
                car.set_name("");
            }
            Some(car)
        },
        _ => None,
    }
}

proof fn lemma_field_then(x: Seq<char>, f: Seq<char>, t: Seq<char>)
    ensures
        x + (f + seq![','] + t) == (x + f).push(',') + t,
{
    assert(x + (f + seq![','] + t) =~= (x + f).push(',') + t);
}

/// Appends `|` and the record of a car.
fn push_record(s: &mut String, c: &RelCar)
    ensures
        final(s)@ == old(s)@ + (seq!['|'] + record_text(c@)),
{
    let ghost t5 = name_text(c.name@);
    let ghost t4 = dec_text(c.flags as nat) + seq![','] + t5;
    let ghost t3 = int_text(c.laps as int) + seq![','] + t4;
    let ghost t2 = int_text(c.gap_rel_ms as int) + seq![','] + t3;
    let ghost t1 = int_text(c.gap_leader_ms as int) + seq![','] + t2;
    proof {
        assert(s@.push('|') + record_text(c@) =~= s@ + (seq!['|'] + record_text(c@)));
    }
    s.push('|');
    proof {
        lemma_field_then(s@, dec_text(c.place as nat), t1);
    }
    push_dec(s, c.place as u64);
    s.push(',');
    proof {
        lemma_field_then(s@, int_text(c.gap_leader_ms as int), t2);
    }
    push_int(s, c.gap_leader_ms as i64);
    s.push(',');
    proof {
        lemma_field_then(s@, int_text(c.gap_rel_ms as int), t3);
    }
    push_int(s, c.gap_rel_ms as i64);
    s.push(',');
    proof {
        lemma_field_then(s@, int_text(c.laps as int), t4);
    }
    push_int(s, c.laps as i64);
    s.push(',');
    proof {
        lemma_field_then(s@, dec_text(c.flags as nat), t5);
    }
    push_dec(s, c.flags as u64);
    s.push(',');
    s.append(c.name_str());
}

impl Relatives {
    /// The line of this list.
    pub fn to_wire(&self) -> (s: String)
        requires
            self.wf(),
        ensures
            s@ == wire_text(self.player, self.list()),
    {
        let mut s = String::from_str("@REL|");
        push_dec(&mut s, self.player as u64);
        let ghost cars = self.list();
        let ghost head = "@REL|"@ + dec_text(self.player as nat);
        let mut k: usize = 0;
        proof {
            assert(cars.take(0) =~= Seq::<CarView>::empty());
            assert(head + records_text(cars.take(0)) =~= head);
        }
        while k < self.count as usize
            invariant
                self.wf(),
                k <= self.count,
                cars == self.list(),
                s@ == head + records_text(cars.take(k as int)),
            decreases self.count - k,
        {
            let c = &self.cars[k];
            push_record(&mut s, c);
            proof {
                let t = cars.take(k + 1);
                assert(t.drop_last() =~= cars.take(k as int));
                assert(t.last() == c@);
                assert(s@ =~= head + records_text(t));
            }
            k += 1;
        }
        proof {
            assert(cars.take(k as int) =~= cars);
            assert(s@ =~= wire_text(self.player, cars));
        }
        s
    }

    /// Reads a line. Malformed cars are skipped; `None` where the prefix or the
    /// player is missing.
    pub fn from_wire(line: &str) -> (r: Option<Relatives>)
        ensures
            match r {
                Some(rel) => rel.wf() && rel.rest_is_empty() && wire_of(line@) == Some(
                    (rel.player, rel.list()),
                ),
                None => wire_of(line@) is None,
            },
    {
        let text = chars_of(line);
        let body = match strip_prefix(text.as_slice(), "@REL|") {
            Some(b) => b,
            None => return None,
        };
        let parts = split_all(body, '|');
        let ghost recs = split(body@, '|');
        proof {
            assert(recs.len() == parts@.len());
            assert forall|k: int| 0 <= k < parts@.len() implies #[trigger] parts@[k]@ == recs[k] by {
                assert(views(parts@)[k] == parts@[k]@);
            }
        }
        let player: u8 = match parse_nat(parts[0], 255) {
            Some(p) => p as u8,
            None => return None,
        };
        let mut out = Relatives::default();
        out.player = player;
        let mut k: usize = 1;
        let ghost want = cars_of(recs.drop_first(), MAX_REL as nat);
        proof {
            assert(recs.skip(1) =~= recs.drop_first());
            assert(out.list() + want =~= want);
        }
        while k < parts.len() && (out.count as usize) < MAX_REL
            invariant
                1 <= k <= parts@.len(),
                out.wf(),
                out.rest_is_empty(),
                out.player == player,
                recs.len() == parts@.len(),
                forall|j: int| 0 <= j < parts@.len() ==> #[trigger] parts@[j]@ == recs[j],
                want == out.list() + cars_of(recs.skip(k as int), (MAX_REL - out.count) as nat),
            decreases parts@.len() - k,
        {
            proof {
                assert(recs.skip(k as int).drop_first() =~= recs.skip(k + 1));
                assert(recs.skip(k as int)[0] == recs[k as int]);
            }
            match read_car(parts[k]) {
                Some(car) => {
                    let ghost before = out.list();
                    let ghost more = cars_of(recs.skip(k + 1), (MAX_REL - out.count - 1) as nat);
                    let n = out.count as usize;
                    out.cars[n] = car;
                    out.count += 1;
                    proof {
                        assert(out.list() =~= before.push(car@));
                        assert(before + (seq![car@] + more) =~= before.push(car@) + more);
                    }
                },
                None => {},
            }
            k += 1;
        }
        proof {
            assert(out.list() + Seq::<CarView>::empty() =~= out.list());
        }
        Some(out)
    }
}

/// A stored name whose bytes before the first NUL are all clean.
pub open spec fn is_stored(name: Seq<u8>) -> bool {
    name == stored_name(name.take(nul_at(name) as int))
}

/// The characters of clean bytes.
proof fn lemma_clean_text(b: Seq<u8>)
    requires
        forall|k: int| 0 <= k < b.len() ==> 0x20 <= #[trigger] b[k] < 0x7f,
    ensures
        valid_utf8(b),
        decode_utf8(b) == b.map_values(|x: u8| x as char),
        encode_utf8(decode_utf8(b)) == b,
{
    let c = b.map_values(|x: u8| x as char);
    assert(vstd::utf8::is_ascii_chars(c));
    vstd::utf8::is_ascii_chars_encode_utf8(c);
    assert(encode_utf8(c) =~= b);
    vstd::utf8::encode_utf8_valid_utf8(c);
    vstd::utf8::encode_utf8_decode_utf8(c);
}

/// The text of a stored name holds no separator, and stores as the same name.
proof fn lemma_stored_name(name: Seq<u8>)
    requires
        is_stored(name),
    ensures
        !name_text(name).contains(','),
        !name_text(name).contains('|'),
        stored_name(encode_utf8(name_text(name))) == name,
{
    let n = nul_at(name) as int;
    lemma_nul_at_bound(name);
    let b = name.take(n);
    assert forall|k: int| 0 <= k < b.len() implies 0x20 <= #[trigger] b[k] < 0x7f && b[k] != 0x7C && b[k]
        != 0x2C by {
        assert(name[k] == stored_name(b)[k]);
    }
    lemma_clean_text(b);
    let t = name_text(name);
    assert forall|k: int| 0 <= k < t.len() implies #[trigger] t[k] != ',' && t[k] != '|' by {
        assert(t[k] == b[k] as char);
    }
}

proof fn lemma_nul_at_bound(b: Seq<u8>)
    ensures
        nul_at(b) <= b.len(),
    decreases b.len(),
{
    if b.len() > 0 && b[0] != 0 {
        lemma_nul_at_bound(b.drop_first());
    }
}

/// The text of a number holds no separator.
proof fn lemma_number_text(v: int)
    ensures
        !int_text(v).contains(','),
        !int_text(v).contains('|'),
        v >= 0 ==> int_text(v) == dec_text(v as nat),
{
    let d = dec_text(abs(v) as nat);
    lemma_dec_text(abs(v) as nat);
    let t = int_text(v);
    assert forall|k: int| 0 <= k < t.len() implies #[trigger] t[k] != ',' && t[k] != '|' by {
        if v < 0 {
            if k > 0 {
                assert(t[k] == d[k - 1]);
                assert(is_digit(d[k - 1]));
            }
        } else {
            assert(is_digit(d[k]));
        }
    }
}

/// A record that was written reads back as the same car.
proof fn lemma_record(c: CarView)
    requires
        is_stored(c.name),
    ensures
        car_of(record_text(c)) == Some(c),
        !record_text(c).contains('|'),
{
    lemma_stored_name(c.name);
    let t5 = name_text(c.name);
    let t4 = dec_text(c.flags as nat) + seq![','] + t5;
    let t3 = int_text(c.laps as int) + seq![','] + t4;
    let t2 = int_text(c.gap_rel_ms as int) + seq![','] + t3;
    let t1 = int_text(c.gap_leader_ms as int) + seq![','] + t2;
    lemma_number_text(c.place as int);
    lemma_number_text(c.gap_leader_ms as int);
    lemma_number_text(c.gap_rel_ms as int);
    lemma_number_text(c.laps as int);
    lemma_number_text(c.flags as int);
    lemma_no_split(t5, ',');
    lemma_split_front(dec_text(c.flags as nat), ',', t5);
    lemma_split_front(int_text(c.laps as int), ',', t4);
    lemma_split_front(int_text(c.gap_rel_ms as int), ',', t3);
    lemma_split_front(int_text(c.gap_leader_ms as int), ',', t2);
    lemma_split_front(dec_text(c.place as nat), ',', t1);
    let f = split(record_text(c), ',');
    assert(f =~= seq![
        dec_text(c.place as nat),
        int_text(c.gap_leader_ms as int),
        int_text(c.gap_rel_ms as int),
        int_text(c.laps as int),
        dec_text(c.flags as nat),
        t5,
    ]);
    lemma_nat_text(c.place as nat, 255);
    lemma_int_text(c.gap_leader_ms as int, i32::MIN as int, i32::MAX as int);
    lemma_int_text(c.gap_rel_ms as int, i32::MIN as int, i32::MAX as int);
    lemma_int_text(c.laps as int, i16::MIN as int, i16::MAX as int);
    lemma_nat_text(c.flags as nat, 255);
    let r = record_text(c);
    assert forall|k: int| 0 <= k < r.len() implies #[trigger] r[k] != '|' by {
        lemma_not_in_concat(dec_text(c.flags as nat), t5);
        lemma_not_in_concat(int_text(c.laps as int), t4);
        lemma_not_in_concat(int_text(c.gap_rel_ms as int), t3);
        lemma_not_in_concat(int_text(c.gap_leader_ms as int), t2);
        lemma_not_in_concat(dec_text(c.place as nat), t1);
        assert(r.contains(r[k]));
    }
}

proof fn lemma_not_in_concat(a: Seq<char>, b: Seq<char>)
    requires
        !a.contains('|'),
        !b.contains('|'),
    ensures
        !(a + seq![','] + b).contains('|'),
{
    let s = a + seq![','] + b;
    assert forall|k: int| 0 <= k < s.len() implies #[trigger] s[k] != '|' by {
        if k < a.len() {
            assert(a.contains(a[k]));
        } else if k > a.len() {
            assert(b.contains(b[k - a.len() - 1]));
        }
    }
}

proof fn lemma_records_text_front(cars: Seq<CarView>)
    requires
        cars.len() > 0,
    ensures
        records_text(cars) == seq!['|'] + (record_text(cars[0]) + records_text(cars.drop_first())),
    decreases cars.len(),
{
    let want = seq!['|'] + (record_text(cars[0]) + records_text(cars.drop_first()));
    if cars.len() == 1 {
        assert(cars.drop_last() =~= Seq::<CarView>::empty());
        assert(cars.drop_first() =~= Seq::<CarView>::empty());
        assert(records_text(cars) =~= want);
    } else {
        lemma_records_text_front(cars.drop_last());
        assert(cars.drop_first().drop_last() =~= cars.drop_last().drop_first());
        assert(records_text(cars) =~= want);
    }
}

/// The parts of a line: what stands before the cars, then each car.
proof fn lemma_split_records(p: Seq<char>, cars: Seq<CarView>)
    requires
        !p.contains('|'),
        forall|k: int| 0 <= k < cars.len() ==> is_stored((#[trigger] cars[k]).name),
    ensures
        split(p + records_text(cars), '|') == seq![p] + cars.map_values(|c: CarView| record_text(c)),
    decreases cars.len(),
{
    let text = |c: CarView| record_text(c);
    if cars.len() == 0 {
        assert(p + records_text(cars) =~= p);
        lemma_no_split(p, '|');
        assert(seq![p] + cars.map_values(text) =~= seq![p]);
    } else {
        let more = cars.drop_first();
        let first = record_text(cars[0]);
        lemma_records_text_front(cars);
        assert(p + records_text(cars) =~= p + seq!['|'] + (first + records_text(more)));
        lemma_split_front(p, '|', first + records_text(more));
        lemma_record(cars[0]);
        assert forall|k: int| 0 <= k < more.len() implies is_stored((#[trigger] more[k]).name) by {
            assert(more[k] == cars[k + 1]);
        }
        lemma_split_records(first, more);
        assert(seq![p] + (seq![first] + more.map_values(text)) =~= seq![p] + cars.map_values(text));
    }
}

proof fn lemma_cars_of(cars: Seq<CarView>, n: nat)
    requires
        cars.len() <= n,
        forall|k: int| 0 <= k < cars.len() ==> is_stored((#[trigger] cars[k]).name),
    ensures
        cars_of(cars.map_values(|c: CarView| record_text(c)), n) == cars,
    decreases cars.len(),
{
    let text = |c: CarView| record_text(c);
    if cars.len() > 0 {
        let more = cars.drop_first();
        lemma_record(cars[0]);
        assert forall|k: int| 0 <= k < more.len() implies is_stored((#[trigger] more[k]).name) by {
            assert(more[k] == cars[k + 1]);
        }
        lemma_cars_of(more, (n - 1) as nat);
        assert(cars.map_values(text).drop_first() =~= more.map_values(text));
        assert(seq![cars[0]] + more =~= cars);
    } else {
        assert(cars =~= Seq::<CarView>::empty());
    }
}

/// A list of at most [`MAX_REL`] cars whose names were stored by
/// [`RelCar::set_name`] reads back from its own line unchanged.
pub proof fn wire_round_trip(player: u8, cars: Seq<CarView>)
    requires
        cars.len() <= MAX_REL,
        forall|k: int| 0 <= k < cars.len() ==> is_stored((#[trigger] cars[k]).name),
    ensures
        wire_of(wire_text(player, cars)) == Some((player, cars)),
{
    let p = dec_text(player as nat);
    lemma_after_prefix("@REL|"@, p + records_text(cars));
    lemma_number_text(player as int);
    lemma_split_records(p, cars);
    lemma_nat_text(player as nat, 255);
    lemma_cars_of(cars, MAX_REL as nat);
    let parts = split(p + records_text(cars), '|');
    assert(parts.drop_first() =~= cars.map_values(|c: CarView| record_text(c)));
}

/// What [`RelCar::set_name`] stores of a name without NUL stays as it is when it
/// is read and stored again.
pub proof fn stored_names_are_stored(b: Seq<u8>)
    ensures
        is_stored(stored_name(b)),
{
    let s = stored_name(b);
    let n = if b.len() < NAME_LEN {
        b.len() as int
    } else {
        NAME_LEN as int
    };
    assert forall|k: int| 0 <= k < n implies #[trigger] s[k] != 0 by {
        assert(s[k] == clean(b[k]));
    }
    lemma_nul_at(s, n);
    assert(stored_name(s.take(n)) =~= s);
}

// -------------------------------------------------------- picking the cars

/// The race positions of the cars.
pub open spec fn places(cars: Seq<CarView>) -> Seq<int> {
    cars.map_values(|c: CarView| c.place as int)
}

/// How far the cars are from the player on track.
pub open spec fn distances(cars: Seq<CarView>) -> Seq<int> {
    cars.map_values(|c: CarView| abs(c.gap_rel_ms as int))
}

/// `keep`, filled up to [`MAX_REL`] items with those of `order` that it does not
/// hold yet.
pub open spec fn fill(keep: Seq<int>, order: Seq<int>) -> Seq<int>
    decreases order.len(),
{
    if order.len() == 0 || keep.len() >= MAX_REL {
        keep
    } else if keep.contains(order[0]) {
        fill(keep, order.drop_first())
    } else {
        fill(keep.push(order[0]), order.drop_first())
    }
}

/// How many leading cars are always kept.
pub const TOP: usize = 5;

/// The cars to send, by their index: all of them where they fit, else the
/// leading ones and the ones nearest to the player on track. They come in the
/// order of their race positions.
pub open spec fn kept(cars: Seq<CarView>) -> Seq<int> {
    let all = upto(cars.len());
    if cars.len() <= MAX_REL {
        stable_sort(all, places(cars))
    } else {
        let top = stable_sort(all, places(cars)).take(TOP as int);
        stable_sort(fill(top, stable_sort(all, distances(cars))), places(cars))
    }
}

/// The cars to send.
pub open spec fn selected(cars: Seq<CarView>) -> Seq<CarView> {
    kept(cars).map_values(|i: int| cars[i])
}

/// The index of the last car that is flagged as the player's; 0 where none is.
pub open spec fn player_slot(cars: Seq<CarView>) -> int
    decreases cars.len(),
{
    if cars.len() == 0 {
        0
    } else if cars.last().flags & FLAG_PLAYER != 0 {
        cars.len() - 1
    } else {
        player_slot(cars.drop_last())
    }
}

/// The cars behind the records.
pub open spec fn car_views(cars: Seq<RelCar>) -> Seq<CarView> {
    cars.map_values(|c: RelCar| c@)
}

/// Whether `x` is among the items.
fn holds(v: &Vec<usize>, x: usize) -> (r: bool)
    ensures
        r == as_ints(v@).contains(x as int),
{
    let mut k: usize = 0;
    while k < v.len()
        invariant
            k <= v@.len(),
            forall|j: int| 0 <= j < k ==> #[trigger] v@[j] != x,
        decreases v@.len() - k,
    {
        if v[k] == x {
            proof {
                assert(as_ints(v@)[k as int] == x);
            }
            return true;
        }
        k += 1;
    }
    proof {
        let s = as_ints(v@);
        assert forall|j: int| 0 <= j < s.len() implies #[trigger] s[j] != x by {
            assert(s[j] == v@[j]);
        }
    }
    false
}

/// Fills `keep` up with items of `order` that it does not hold yet.
fn fill_up(keep: Vec<usize>, order: &Vec<usize>, Ghost(n): Ghost<int>) -> (r: Vec<usize>)
    requires
        all_below(as_ints(keep@), n),
        all_below(as_ints(order@), n),
        keep@.len() <= MAX_REL,
    ensures
        as_ints(r@) == fill(as_ints(keep@), as_ints(order@)),
        all_below(as_ints(r@), n),
        r@.len() <= MAX_REL,
{
    let mut out = keep;
    let mut k: usize = 0;
    let ghost want = as_ints(order@);
    let ghost goal = fill(as_ints(keep@), want);
    proof {
        assert(want.skip(0) =~= want);
    }
    while k < order.len() && out.len() < MAX_REL
        invariant
            k <= order@.len(),
            want == as_ints(order@),
            all_below(want, n),
            all_below(as_ints(out@), n),
            out@.len() <= MAX_REL,
            goal == fill(as_ints(out@), want.skip(k as int)),
        decreases order@.len() - k,
    {
        let x: usize = order[k];
        proof {
            assert(want.skip(k as int)[0] == x);
            assert(want[k as int] == x);
            assert(want.skip(k as int).drop_first() =~= want.skip(k + 1));
        }
        if !holds(&out, x) {
            let ghost before = as_ints(out@);
            out.push(x);
            proof {
                assert(as_ints(out@) =~= before.push(x as int));
            }
        }
        k += 1;
    }
    out
}

/// The list that is sent of `built`.
fn select(built: &Vec<RelCar>) -> (r: Relatives)
    ensures
        r.wf(),
        r.rest_is_empty(),
        r.list() == selected(car_views(built@)),
        r.player == player_slot(r.list()),
{
    let ghost cars = car_views(built@);
    let mut by_place: Vec<i64> = Vec::new();
    let mut by_near: Vec<i64> = Vec::new();
    let mut k: usize = 0;
    while k < built.len()
        invariant
            k <= built@.len(),
            by_place@.len() == k,
            by_near@.len() == k,
            forall|j: int| 0 <= j < k ==> #[trigger] by_place@[j] == built@[j].place,
            forall|j: int| 0 <= j < k ==> #[trigger] by_near@[j] == abs(built@[j].gap_rel_ms as int),
        decreases built@.len() - k,
    {
        by_place.push(built[k].place as i64);
        let gap: i32 = built[k].gap_rel_ms;
        by_near.push(
            if gap < 0 {
                -(gap as i64)
            } else {
                gap as i64
            },
        );
        k += 1;
    }
    proof {
        assert(key_ints(by_place@) =~= places(cars));
        assert(key_ints(by_near@) =~= distances(cars));
    }
    let all = indices(built.len());
    let sorted = sort_by(&all, &by_place);
    let keep: Vec<usize> = if built.len() <= MAX_REL {
        sorted
    } else {
        let near = sort_by(&all, &by_near);
        let mut top: Vec<usize> = Vec::new();
        let mut j: usize = 0;
        while j < TOP
            invariant
                j <= TOP,
                TOP <= sorted@.len(),
                top@ == sorted@.take(j as int),
            decreases TOP - j,
        {
            top.push(sorted[j]);
            j += 1;
        }
        let ghost n = built@.len() as int;
        proof {
            assert(as_ints(top@) =~= as_ints(sorted@).take(TOP as int));
            assert forall|i: int| 0 <= i < top@.len() implies 0 <= #[trigger] as_ints(top@)[i] < n by {
                assert(as_ints(top@)[i] == as_ints(sorted@)[i]);
            }
        }
        let filled = fill_up(top, &near, Ghost(n));
        sort_by(&filled, &by_place)
    };
    proof {
        assert(as_ints(keep@) == kept(cars));
    }
    let mut out = Relatives::default();
    let mut i: usize = 0;
    proof {
        assert(out.list() =~= selected(cars).take(0));
    }
    while i < keep.len()
        invariant
            i <= keep@.len(),
            keep@.len() <= MAX_REL,
            out.count == i,
            out.rest_is_empty(),
            cars == car_views(built@),
            as_ints(keep@) == kept(cars),
            all_below(as_ints(keep@), built@.len() as int),
            out.list() == selected(cars).take(i as int),
            out.player == player_slot(out.list()),
            out.player < MAX_REL,
        decreases keep@.len() - i,
    {
        let x: usize = keep[i];
        proof {
            assert(as_ints(keep@)[i as int] == x);
        }
        let c: RelCar = built[x];
        let ghost before = out.list();
        out.cars[i] = c;
        out.count = (i + 1) as u8;
        if c.is_player() {
            out.player = i as u8;
        }
        proof {
            assert(out.list() =~= before.push(c@));
            assert(out.list().drop_last() =~= before);
            assert(out.list() =~= selected(cars).take(i + 1));
        }
        i += 1;
    }
    proof {
        assert(selected(cars).take(i as int) =~= selected(cars));
    }
    out
}

/// The list that is sent of the cars a source has put together.
pub fn from_cars(built: Vec<RelCar>, player_i: usize) -> (r: Relatives)
    ensures
        r.wf(),
        r.rest_is_empty(),
        r.list() == selected(car_views(built@)),
        r.player == player_slot(r.list()),
{
    select(&built)
}

proof fn lemma_fill(keep: Seq<int>, order: Seq<int>)
    ensures
        keep.is_prefix_of(fill(keep, order)),
        keep.no_duplicates() ==> fill(keep, order).no_duplicates(),
        keep.len() <= MAX_REL ==> fill(keep, order).len() <= MAX_REL,
        forall|x: int|
            #[trigger] fill(keep, order).contains(x) ==> keep.contains(x) || order.contains(x),
        fill(keep, order).len() >= MAX_REL || forall|x: int| #[trigger]
            order.contains(x) ==> fill(keep, order).contains(x),
    decreases order.len(),
{
    let r = fill(keep, order);
    if order.len() == 0 || keep.len() >= MAX_REL {
        assert(keep.is_prefix_of(keep));
    } else {
        let rest = order.drop_first();
        let next = if keep.contains(order[0]) {
            keep
        } else {
            keep.push(order[0])
        };
        lemma_fill(next, rest);
        assert(next.contains(order[0])) by {
            if !keep.contains(order[0]) {
                assert(next[keep.len() as int] == order[0]);
            }
        }
        assert(keep.is_prefix_of(r)) by {
            assert(r.take(next.len() as int) =~= next);
            assert(next.take(keep.len() as int) =~= keep);
            assert(r.take(keep.len() as int) =~= keep);
        }
        assert forall|x: int| #[trigger] r.contains(x) implies keep.contains(x) || order.contains(x) by {
            if rest.contains(x) {
                let j = choose|j: int| 0 <= j < rest.len() && rest[j] == x;
                assert(order[j + 1] == x);
            } else {
                let j = choose|j: int| 0 <= j < next.len() && next[j] == x;
                if j < keep.len() {
                    assert(keep[j] == x);
                } else {
                    assert(order[0] == x);
                }
            }
        }
        assert(keep.no_duplicates() ==> next.no_duplicates());
        if r.len() < MAX_REL {
            assert forall|x: int| #[trigger] order.contains(x) implies r.contains(x) by {
                let j = choose|j: int| 0 <= j < order.len() && order[j] == x;
                if j == 0 {
                    let i = choose|i: int| 0 <= i < next.len() && next[i] == x;
                    assert(r[i] == next[i]);
                } else {
                    assert(rest[j - 1] == x);
                    assert(rest.contains(x));
                }
            }
        }
    }
}

/// What is filled up goes by the order: an item that was taken from it has all those
/// before it in the result.
proof fn lemma_fill_order(keep: Seq<int>, order: Seq<int>, i: int, j: int)
    requires
        order.no_duplicates(),
        0 <= i < j < order.len(),
        !keep.contains(order[j]),
        fill(keep, order).contains(order[j]),
    ensures
        fill(keep, order).contains(order[i]),
    decreases order.len(),
{
    if keep.len() < MAX_REL {
        let rest = order.drop_first();
        let next = if keep.contains(order[0]) {
            keep
        } else {
            keep.push(order[0])
        };
        if i == 0 {
            lemma_fill(next, rest);
            let r = fill(keep, order);
            assert(next.contains(order[0])) by {
                if !keep.contains(order[0]) {
                    assert(next[keep.len() as int] == order[0]);
                }
            }
            let k = choose|k: int| 0 <= k < next.len() && next[k] == order[0];
            assert(r.take(next.len() as int) =~= next);
            assert(r[k] == next[k]);
        } else {
            assert(rest[i - 1] == order[i] && rest[j - 1] == order[j]);
            assert(order[0] != order[j]);
            assert forall|a: int, b: int| 0 <= a < b < rest.len() implies rest[a] != rest[b] by {
                assert(order[a + 1] != order[b + 1]);
            }
            assert(!next.contains(order[j])) by {
                if next.contains(order[j]) {
                    let k = choose|k: int| 0 <= k < next.len() && next[k] == order[j];
                    if k < keep.len() {
                        assert(keep[k] == order[j]);
                    }
                }
            }
            lemma_fill_order(next, rest, i - 1, j - 1);
        }
    }
}

/// The leading cars, by their index.
pub open spec fn leaders(cars: Seq<CarView>) -> Seq<int> {
    stable_sort(upto(cars.len()), places(cars)).take(TOP as int)
}

/// Behind the leaders the remaining places go to the cars nearest to the player: where a
/// car is sent that is no leader, no car that is left out is nearer.
pub proof fn nearest_cars_are_kept(cars: Seq<CarView>, sent: int, left_out: int)
    requires
        cars.len() > MAX_REL,
        kept(cars).contains(sent),
        !leaders(cars).contains(sent),
        0 <= left_out < cars.len(),
        !kept(cars).contains(left_out),
    ensures
        distances(cars)[sent] <= distances(cars)[left_out],
{
    let all = upto(cars.len());
    let top = leaders(cars);
    let near = stable_sort(all, distances(cars));
    let keep = fill(top, near);
    assert(all.no_duplicates());
    stable_sort_sorts(all, distances(cars));
    lemma_sort_items(all, distances(cars));
    lemma_sort_items(keep, places(cars));
    lemma_fill(top, near);
    assert(near.contains(sent));
    assert(all[left_out] == left_out);
    assert(all.contains(left_out));
    assert(near.contains(left_out));
    let a = choose|a: int| 0 <= a < near.len() && near[a] == sent;
    let b = choose|b: int| 0 <= b < near.len() && near[b] == left_out;
    if b < a {
        lemma_fill_order(top, near, b, a);
        assert(false);
    }
    assert(distances(cars)[near[a]] <= distances(cars)[near[b]]);
}

/// What is sent of a field of cars: as many as there are, but no more than
/// [`MAX_REL`]; every one a car of the field and none twice; in the order of the
/// race positions; and the leading [`TOP`] always among them.
pub proof fn selection_laws(cars: Seq<CarView>)
    ensures
        kept(cars).len() == if cars.len() <= MAX_REL {
            cars.len()
        } else {
            MAX_REL as nat
        },
        all_below(kept(cars), cars.len() as int),
        kept(cars).no_duplicates(),
        ordered(kept(cars), places(cars)),
        forall|k: int|
            0 <= k < TOP && k < cars.len() ==> kept(cars).contains(
                #[trigger] stable_sort(upto(cars.len()), places(cars))[k],
            ),
{
    let n = cars.len();
    let all = upto(n);
    let sorted = stable_sort(all, places(cars));
    assert(all.no_duplicates());
    assert(all_below(all, n as int));
    stable_sort_sorts(all, places(cars));
    lemma_sort_items(all, places(cars));
    if n <= MAX_REL {
        assert forall|k: int| 0 <= k < n implies kept(cars).contains(#[trigger] sorted[k]) by {
            assert(sorted[k] == kept(cars)[k]);
        }
    } else {
        let near = stable_sort(all, distances(cars));
        stable_sort_sorts(all, distances(cars));
        lemma_sort_items(all, distances(cars));
        let top = sorted.take(TOP as int);
        let keep = fill(top, near);
        lemma_fill(top, near);
        stable_sort_sorts(keep, places(cars));
        lemma_sort_items(keep, places(cars));
        assert(top.no_duplicates());
        if keep.len() < MAX_REL {
            assert forall|x: int| #[trigger] all.to_set().contains(x) implies keep.to_set().contains(x) by {
                assert(near.contains(x));
                assert(keep.contains(x));
            }
            all.unique_seq_to_set();
            keep.lemma_cardinality_of_set();
            assert(all.to_set().subset_of(keep.to_set()));
            vstd::set_lib::lemma_len_subset(all.to_set(), keep.to_set());
            assert(false);
        }
        assert forall|k: int| 0 <= k < keep.len() implies 0 <= #[trigger] keep[k] < n by {
            assert(keep.contains(keep[k]));
            if top.contains(keep[k]) {
                let j = choose|j: int| 0 <= j < top.len() && top[j] == keep[k];
                assert(all_below(sorted, n as int));
                assert(0 <= sorted[j] < n);
            } else {
                assert(near.contains(keep[k]));
                let j = choose|j: int| 0 <= j < near.len() && near[j] == keep[k];
                assert(all_below(near, n as int));
                assert(0 <= near[j] < n);
            }
        }
        assert(all_below(keep, n as int));
        assert forall|k: int| 0 <= k < TOP implies kept(cars).contains(#[trigger] sorted[k]) by {
            assert(top[k] == sorted[k]);
            assert(keep[k] == top[k]);
            assert(keep.contains(sorted[k]));
        }
    }
}

// ---------------------------------------------------------- scoring buffers

/// A separator of the words of a name.
pub open spec fn is_word_sep(c: char) -> bool {
    c == ' ' || c == '_'
}

/// The index behind the last separator; 0 where there is none.
pub open spec fn word_start(t: Seq<char>) -> nat
    decreases t.len(),
{
    if t.len() == 0 || is_word_sep(t.last()) {
        t.len()
    } else {
        word_start(t.drop_last())
    }
}

/// A compact label of a name: the whole name where it fits, else its last word
/// where that fits, else its first bytes.
pub open spec fn short_text(name: Seq<char>) -> Seq<char> {
    let t = trim(name);
    let word = t.skip(word_start(t) as int);
    if encode_utf8(t).len() <= NAME_LEN {
        t
    } else if encode_utf8(word).len() <= NAME_LEN {
        word
    } else {
        decode_utf8(encode_utf8(t).take(NAME_LEN as int))
    }
}

/// Where a name has to be cut within its last word, the cut is not within a
/// character.
pub open spec fn shortens(name: Seq<char>) -> bool {
    let t = trim(name);
    let word = t.skip(word_start(t) as int);
    encode_utf8(t).len() <= NAME_LEN || encode_utf8(word).len() <= NAME_LEN || is_char_boundary(
        encode_utf8(t),
        NAME_LEN as int,
    )
}

/// The last word of a name.
fn last_word<'a>(t: &'a str) -> (r: &'a str)
    ensures
        r@ == t@.skip(word_start(t@) as int),
{
    let v = chars_of(t);
    let mut n: usize = v.len();
    proof {
        assert(t@.take(n as int) =~= t@);
    }
    while n > 0 && v[n - 1] != ' ' && v[n - 1] != '_'
        invariant
            n <= v@.len(),
            v@ == t@,
            word_start(t@) == word_start(t@.take(n as int)),
        decreases n,
    {
        proof {
            assert(t@.take(n as int).drop_last() =~= t@.take(n - 1));
        }
        n -= 1;
    }
    t.substring_char(n, v.len())
}

/// Whether a name can be shortened.
pub fn can_shorten(name: &str) -> (r: bool)
    ensures
        r == shortens(name@),
{
    let t = trim_str(name);
    t.as_bytes().len() <= NAME_LEN || last_word(t).as_bytes().len() <= NAME_LEN || t.is_char_boundary(
        NAME_LEN,
    )
}

/// A compact label of a name.
pub fn short_name(name: &str) -> (r: &str)
    requires
        shortens(name@),
    ensures
        r@ == short_text(name@),
{
    let t = trim_str(name);
    if t.as_bytes().len() <= NAME_LEN {
        return t;
    }
    let word = last_word(t);
    if word.as_bytes().len() <= NAME_LEN {
        return word;
    }
    let (head, tail) = t.split_at(NAME_LEN);
    proof {
        vstd::utf8::encode_utf8_decode_utf8(head@);
        assert(head.spec_bytes() =~= t.spec_bytes().take(NAME_LEN as int));
    }
    head
}

/// The offset of the first vehicle of a scoring buffer.
pub const VEH_BASE: usize = 560;

/// The size of a vehicle of a scoring buffer.
pub const VEH_STRIDE: usize = 584;

/// A vehicle of a scoring buffer. Lengths and times stand as the bit patterns of
/// 64-bit floats.
#[derive(Debug, PartialEq)]
pub struct RawCar {
    pub place: u8,
    pub laps: i16,
    pub lapdist: u64,
    pub best_s: u64,
    pub behind_leader_s: u64,
    pub in_pits: bool,
    pub is_player: bool,
    pub name: String,
}

/// What a scoring buffer holds.
#[derive(Debug, PartialEq)]
pub struct Scoring {
    /// The length of the track, the bit pattern of a 64-bit float.
    pub track_len: u64,
    pub cars: Vec<RawCar>,
    /// The index of the player's car.
    pub player: usize,
}

/// The text of a NUL-terminated field of at most `max` bytes, trimmed; empty
/// where it is no UTF-8.
pub open spec fn field_text(b: Seq<u8>, o: int, max: int) -> Seq<char> {
    trim(name_text(b.subrange(o, o + max)))
}

/// The name of the vehicle at `o`: its driver, or else the vehicle.
pub open spec fn vehicle_name(b: Seq<u8>, o: int) -> Seq<char> {
    let driver = field_text(b, o + 4, 32);
    if driver.len() == 0 {
        field_text(b, o + 36, 64)
    } else {
        driver
    }
}

/// The vehicle at `o`.
pub open spec fn is_vehicle(c: RawCar, b: Seq<u8>, o: int) -> bool {
    &&& c.place == b[o + 199]
    &&& c.laps == le::signed(le::le_nat(b, o + 100, 2) as int, 0x8000)
    &&& c.lapdist == le::le_nat(b, o + 104, 8)
    &&& c.best_s == le::le_nat(b, o + 144, 8)
    &&& c.behind_leader_s == le::le_nat(b, o + 244, 8)
    &&& c.in_pits == (b[o + 198] != 0)
    &&& c.is_player == (b[o + 196] != 0)
    &&& c.name@ == vehicle_name(b, o)
}

/// How many vehicles the buffer announces, at most 128.
pub open spec fn announced(b: Seq<u8>) -> int {
    let n = le::signed(le::le_nat(b, 116, 4) as int, 0x8000_0000);
    if n < 0 {
        0
    } else if n > 128 {
        128
    } else {
        n
    }
}

/// How many of the announced vehicles the buffer holds.
pub open spec fn present(b: Seq<u8>) -> int {
    let room = if b.len() < VEH_BASE {
        0
    } else {
        (b.len() - VEH_BASE) / VEH_STRIDE as int
    };
    if announced(b) < room {
        announced(b)
    } else {
        room
    }
}

/// The offset of vehicle `i`.
pub open spec fn vehicle_at(i: int) -> int {
    VEH_BASE + i * VEH_STRIDE
}

/// Vehicle `i` is the player's.
pub open spec fn player_at(b: Seq<u8>, i: int) -> bool {
    b[vehicle_at(i) + 196] != 0
}

/// Reads a NUL-terminated field.
fn read_field(b: &[u8], o: usize, max: usize) -> (r: String)
    requires
        o + max <= b@.len(),
    ensures
        r@ == field_text(b@, o as int, max as int),
{
    let n: usize = b.len();
    assert(o + max <= n);
    let raw = until_nul(b, o, o + max);
    match utf8_str(raw) {
        Some(s) => {
            proof {
                vstd::utf8::encode_utf8_decode_utf8(s@);
            }
            String::from_str(trim_str(s))
        },
        None => String::new(),
    }
}

/// Reads the vehicle at `o`.
fn read_vehicle(b: &[u8], o: usize) -> (c: RawCar)
    requires
        o + VEH_STRIDE <= b@.len(),
    ensures
        is_vehicle(c, b@, o as int),
{
    let n: usize = b.len();
    assert(o + VEH_STRIDE <= n);
    let driver = read_field(b, o + 4, 32);
    let name = if driver.as_str().is_empty() {
        read_field(b, o + 36, 64)
    } else {
        driver
    };
    RawCar {
        place: b[o + 199],
        laps: le::i16(b, o + 100),
        lapdist: le::bits64(b, o + 104),
        best_s: le::bits64(b, o + 144),
        behind_leader_s: le::bits64(b, o + 244),
        in_pits: b[o + 198] != 0,
        is_player: b[o + 196] != 0,
        name,
    }
}

/// The bit pattern of infinity.
pub const INFINITE: u64 = 0x7FF0_0000_0000_0000;

/// The bit pattern of 1.
pub const ONE: u64 = 0x3FF0_0000_0000_0000;

/// The pattern is that of a number above 0. Such patterns are ordered as their
/// numbers are.
pub open spec fn positive(bits: u64) -> bool {
    0 < bits <= INFINITE
}

/// The pattern is that of a finite number above 1.
pub open spec fn usable_length(bits: u64) -> bool {
    ONE < bits < INFINITE
}

/// The fastest lap that any of the cars has driven; infinity where none has.
pub open spec fn fastest(cars: Seq<RawCar>) -> u64
    decreases cars.len(),
{
    if cars.len() == 0 {
        INFINITE
    } else {
        let rest = fastest(cars.drop_last());
        let own = cars.last().best_s;
        if positive(own) && own < rest {
            own
        } else {
            rest
        }
    }
}

/// The lap that the pace is taken from: the player's best, or else the fastest of the
/// field; 0 where there is neither.
pub open spec fn pace_lap(s: Scoring) -> u64 {
    let own = s.cars@[s.player as int].best_s;
    if positive(own) {
        own
    } else if fastest(s.cars@) < INFINITE {
        fastest(s.cars@)
    } else {
        0
    }
}

/// The lap that the pace is taken from, as the bit pattern of its time in seconds; 0
/// where there is none.
pub fn reference_lap(s: &Scoring) -> (r: u64)
    requires
        s.player < s.cars@.len(),
    ensures
        r == pace_lap(*s),
{
    let own: u64 = s.cars[s.player].best_s;
    if 0 < own && own <= INFINITE {
        return own;
    }
    let mut best: u64 = INFINITE;
    let mut i: usize = 0;
    while i < s.cars.len()
        invariant
            i <= s.cars@.len(),
            best == fastest(s.cars@.take(i as int)),
        decreases s.cars@.len() - i,
    {
        proof {
            assert(s.cars@.take(i + 1).drop_last() =~= s.cars@.take(i as int));
        }
        let t: u64 = s.cars[i].best_s;
        if 0 < t && t <= INFINITE && t < best {
            best = t;
        }
        i += 1;
    }
    proof {
        assert(s.cars@.take(i as int) =~= s.cars@);
    }
    if best < INFINITE {
        best
    } else {
        0
    }
}

/// Reads a scoring buffer. `None` where it is too short for its head, announces
/// no vehicle or no track, or holds no player.
pub fn read_scoring(scoring: &[u8]) -> (r: Option<Scoring>)
    ensures
        match r {
            Some(s) => {
                &&& scoring@.len() >= 120
                &&& announced(scoring@) > 0
                &&& usable_length(s.track_len)
                &&& s.track_len == le::le_nat(scoring@, 100, 8)
                &&& s.cars@.len() == present(scoring@)
                &&& forall|i: int|
                    0 <= i < s.cars@.len() ==> is_vehicle(
                        #[trigger] s.cars@[i],
                        scoring@,
                        vehicle_at(i),
                    )
                &&& s.player < s.cars@.len()
                &&& player_at(scoring@, s.player as int)
                &&& forall|i: int| 0 <= i < s.player ==> !#[trigger] player_at(scoring@, i)
            },
            None => scoring@.len() < 120 || announced(scoring@) == 0 || !usable_length(
                le::le_nat(scoring@, 100, 8) as u64,
            ) || forall|i: int|
                0 <= i < present(scoring@) ==> !#[trigger] player_at(scoring@, i),
        },
{
    if scoring.len() < 120 {
        return None;
    }
    let raw: i32 = le::i32(scoring, 116);
    let n: usize = if raw < 0 {
        0
    } else if raw > 128 {
        128
    } else {
        raw as usize
    };
    let track_len: u64 = le::bits64(scoring, 100);
    if n == 0 || track_len <= ONE || track_len >= INFINITE {
        return None;
    }
    let mut cars: Vec<RawCar> = Vec::new();
    let mut player: Option<usize> = None;
    let mut i: usize = 0;
    while i < n && scoring.len() >= VEH_BASE + (i + 1) * VEH_STRIDE
        invariant
            i <= n <= 128,
            n == announced(scoring@),
            usable_length(track_len),
            track_len == le::le_nat(scoring@, 100, 8),
            i == 0 || VEH_BASE + i * VEH_STRIDE <= scoring@.len(),
            cars@.len() == i,
            forall|k: int|
                0 <= k < i ==> is_vehicle(#[trigger] cars@[k], scoring@, vehicle_at(k)),
            match player {
                Some(p) => p < i && player_at(scoring@, p as int) && forall|k: int|
                    0 <= k < p ==> !#[trigger] player_at(scoring@, k),
                None => forall|k: int| 0 <= k < i ==> !#[trigger] player_at(scoring@, k),
            },
        decreases n - i,
    {
        let car = read_vehicle(scoring, VEH_BASE + i * VEH_STRIDE);
        if car.is_player && player.is_none() {
            player = Some(i);
        }
        cars.push(car);
        i += 1;
    }
    proof {
        let len = scoring@.len() as int;
        if len >= VEH_BASE {
            let room = (len - VEH_BASE) / VEH_STRIDE as int;
            assert(room * 584 <= len - 560 < (room + 1) * 584) by (nonlinear_arith)
                requires
                    room == (len - 560) / 584,
            ;
        }
        assert(i == present(scoring@));
    }
    match player {
        Some(p) => Some(Scoring { track_len, cars, player: p }),
        None => None,
    }
}

/// The car that is sent for a vehicle, given its gaps.
pub open spec fn built_car(c: RawCar, is_self: bool, gap_leader_ms: i32, gap_rel_ms: i32) -> CarView {
    CarView {
        place: c.place,
        gap_leader_ms,
        gap_rel_ms: if is_self {
            0
        } else {
            gap_rel_ms
        },
        laps: if c.laps < 0 {
            0
        } else {
            c.laps
        },
        flags: if c.is_player && c.in_pits {
            3
        } else if c.is_player {
            1
        } else if c.in_pits {
            2
        } else {
            0
        },
        name: stored_name(encode_utf8(short_text(c.name@))),
    }
}

/// The cars that are built for a scoring buffer.
pub open spec fn built_cars(s: Scoring, gaps: Seq<(i32, i32)>) -> Seq<CarView> {
    Seq::new(
        s.cars@.len(),
        |i: int| built_car(s.cars@[i], i == s.player, gaps[i].0, gaps[i].1),
    )
}

/// The list of a scoring buffer. `gaps` holds for each vehicle its gap to the
/// leader and its signed gap to the player on track, in milliseconds.
pub fn relatives_from_scoring(s: &Scoring, gaps: &Vec<(i32, i32)>) -> (r: Relatives)
    requires
        gaps@.len() == s.cars@.len(),
        forall|i: int| 0 <= i < s.cars@.len() ==> shortens((#[trigger] s.cars@[i]).name@),
    ensures
        r.wf(),
        r.rest_is_empty(),
        r.list() == selected(built_cars(*s, gaps@)),
        r.player == player_slot(r.list()),
{
    let mut built: Vec<RelCar> = Vec::new();
    let mut i: usize = 0;
    while i < s.cars.len()
        invariant
            i <= s.cars@.len(),
            gaps@.len() == s.cars@.len(),
            forall|k: int| 0 <= k < s.cars@.len() ==> shortens((#[trigger] s.cars@[k]).name@),
            car_views(built@) == built_cars(*s, gaps@).take(i as int),
            built@.len() == i,
        decreases s.cars@.len() - i,
    {
        let c = &s.cars[i];
        let (gl, gr): (i32, i32) = gaps[i];
        let mut rc = RelCar::default();
        rc.place = c.place;
        rc.gap_leader_ms = gl;
        rc.gap_rel_ms = if i == s.player {
            0
        } else {
            gr
        };
        rc.laps = if c.laps < 0 {
            0
        } else {
            c.laps
        };
        rc.flags = if c.is_player && c.in_pits {
            3
        } else if c.is_player {
            1
        } else if c.in_pits {
            2
        } else {
            0
        };
        rc.set_name(short_name(c.name.as_str()));
        let ghost before = car_views(built@);
        built.push(rc);
        proof {
            assert(car_views(built@) =~= before.push(rc@));
            assert(car_views(built@) =~= built_cars(*s, gaps@).take(i + 1));
        }
        i += 1;
    }
    proof {
        assert(built_cars(*s, gaps@).take(i as int) =~= built_cars(*s, gaps@));
    }
    select(&built)
}

// ------------------------------------------------- what is read and sent

/// A NUL-terminated field holds the text whose bytes stand at its start, trimmed.
proof fn lemma_field_holds(b: Seq<u8>, o: int, max: int, s: Seq<char>)
    requires
        0 <= o,
        0 <= max,
        o + max <= b.len(),
        encode_utf8(s).len() <= max,
        b.subrange(o, o + encode_utf8(s).len()) == encode_utf8(s),
        forall|k: int| 0 <= k < encode_utf8(s).len() ==> #[trigger] encode_utf8(s)[k] != 0,
        encode_utf8(s).len() < max ==> b[o + encode_utf8(s).len()] == 0,
    ensures
        field_text(b, o, max) == trim(s),
{
    let e = encode_utf8(s);
    let n = e.len() as int;
    let f = b.subrange(o, o + max);
    assert forall|k: int| 0 <= k < n implies #[trigger] f[k] != 0 by {
        assert(f[k] == b.subrange(o, o + n)[k]);
        assert(e[k] != 0);
    }
    if n < max {
        assert(f[n] == b[o + n]);
    }
    lemma_nul_at(f, n);
    assert(f.take(n) =~= e) by {
        assert forall|k: int| 0 <= k < n implies #[trigger] f.take(n)[k] == e[k] by {
            assert(f[k] == b.subrange(o, o + n)[k]);
        }
    }
    vstd::utf8::encode_utf8_valid_utf8(s);
    vstd::utf8::encode_utf8_decode_utf8(s);
}

/// The driver's name comes first. Where the 32 bytes from byte 4 of a vehicle on
/// hold the text `driver`, up to a NUL or to their end, and that text is not blank,
/// the vehicle is read with that name, trimmed, whatever its other bytes say.
pub proof fn drivers_name_their_cars(c: RawCar, b: Seq<u8>, o: int, driver: Seq<char>)
    requires
        0 <= o,
        o + 584 <= b.len(),
        is_vehicle(c, b, o),
        encode_utf8(driver).len() <= 32,
        b.subrange(o + 4, o + 4 + encode_utf8(driver).len()) == encode_utf8(driver),
        forall|k: int|
            0 <= k < encode_utf8(driver).len() ==> #[trigger] encode_utf8(driver)[k] != 0,
        encode_utf8(driver).len() < 32 ==> b[o + 4 + encode_utf8(driver).len()] == 0,
        trim(driver).len() > 0,
    ensures
        c.name@ == trim(driver),
{
    lemma_field_holds(b, o + 4, 32, driver);
}

/// Where the driver's field is blank, the car is read with the text of the 64 bytes
/// from byte 36 of the vehicle on, trimmed.
pub proof fn unnamed_drivers_take_the_vehicle(
    c: RawCar,
    b: Seq<u8>,
    o: int,
    driver: Seq<char>,
    vehicle: Seq<char>,
)
    requires
        0 <= o,
        o + 584 <= b.len(),
        is_vehicle(c, b, o),
        encode_utf8(driver).len() <= 32,
        b.subrange(o + 4, o + 4 + encode_utf8(driver).len()) == encode_utf8(driver),
        forall|k: int|
            0 <= k < encode_utf8(driver).len() ==> #[trigger] encode_utf8(driver)[k] != 0,
        encode_utf8(driver).len() < 32 ==> b[o + 4 + encode_utf8(driver).len()] == 0,
        trim(driver).len() == 0,
        encode_utf8(vehicle).len() <= 64,
        b.subrange(o + 36, o + 36 + encode_utf8(vehicle).len()) == encode_utf8(vehicle),
        forall|k: int|
            0 <= k < encode_utf8(vehicle).len() ==> #[trigger] encode_utf8(vehicle)[k] != 0,
        encode_utf8(vehicle).len() < 64 ==> b[o + 36 + encode_utf8(vehicle).len()] == 0,
    ensures
        c.name@ == trim(vehicle),
{
    lemma_field_holds(b, o + 4, 32, driver);
    lemma_field_holds(b, o + 36, 64, vehicle);
}

/// The bytes of a vehicle: the race position at byte 199, the marks of the player
/// and of the pits at 196 and 198, the laps as a signed 16-bit number at 100, and
/// the distance, the best lap and the gap to the leader as eight bytes each at 104,
/// 144 and 244, the lowest byte first.
pub proof fn vehicle_bytes_are_read(c: RawCar, b: Seq<u8>, o: int)
    requires
        is_vehicle(c, b, o),
    ensures
        c.place == b[o + 199],
        c.is_player <==> b[o + 196] != 0,
        c.in_pits <==> b[o + 198] != 0,
        c.laps == b[o + 100] + 0x100 * b[o + 101] || c.laps == b[o + 100] + 0x100 * b[o + 101]
            - 0x1_0000,
        c.lapdist % 0x100 == b[o + 104],
        c.lapdist / 0x100_0000_0000_0000 == b[o + 111],
        c.lapdist == b[o + 104] + 0x100 * b[o + 105] + 0x1_0000 * b[o + 106] + 0x100_0000 * b[o
            + 107] + 0x1_0000_0000 * b[o + 108] + 0x100_0000_0000 * b[o + 109]
            + 0x1_0000_0000_0000 * b[o + 110] + 0x100_0000_0000_0000 * b[o + 111],
        c.best_s == b[o + 144] + 0x100 * b[o + 145] + 0x1_0000 * b[o + 146] + 0x100_0000 * b[o
            + 147] + 0x1_0000_0000 * b[o + 148] + 0x100_0000_0000 * b[o + 149]
            + 0x1_0000_0000_0000 * b[o + 150] + 0x100_0000_0000_0000 * b[o + 151],
        c.behind_leader_s == b[o + 244] + 0x100 * b[o + 245] + 0x1_0000 * b[o + 246] + 0x100_0000
            * b[o + 247] + 0x1_0000_0000 * b[o + 248] + 0x100_0000_0000 * b[o + 249]
            + 0x1_0000_0000_0000 * b[o + 250] + 0x100_0000_0000_0000 * b[o + 251],
{
    le::bytes_are_weighed(b, o + 100);
    le::bytes_are_weighed(b, o + 104);
    le::bytes_are_weighed(b, o + 144);
    le::bytes_are_weighed(b, o + 244);
}

/// Vehicles stand one behind the other, the first at byte 560 and each 584 bytes
/// long. As many are read as the signed 32-bit number at byte 116 says, but none
/// for a negative number, no more than 128 and no more than the buffer holds whole.
pub proof fn vehicles_are_counted(b: Seq<u8>, n: int, i: int)
    requires
        n == b[116] + 0x100 * b[117] + 0x1_0000 * b[118] + 0x100_0000 * b[119],
        i >= 0,
    ensures
        vehicle_at(0) == 560,
        vehicle_at(i + 1) == vehicle_at(i) + 584,
        n >= 0x8000_0000 ==> present(b) == 0,
        n < 0x8000_0000 ==> (i < present(b) <==> i < n && i < 128 && vehicle_at(i + 1) <= b.len()),
        0 <= present(b) <= 128,
{
    le::bytes_are_weighed(b, 116);
    let len = b.len() as int;
    if len >= 560 {
        let room = (len - 560) / 584;
        assert(room * 584 <= len - 560 < (room + 1) * 584) by (nonlinear_arith)
            requires
                room == (len - 560) / 584,
        ;
        assert(i < room <==> (i + 1) * 584 <= len - 560) by (nonlinear_arith)
            requires
                room * 584 <= len - 560 < (room + 1) * 584,
        ;
    }
}

/// A car is sent with its own position, the gap to the leader that was worked out
/// for it, its gap to the player, which is 0 for the player's own car, and no fewer
/// than 0 laps; bit 0 of its flags marks the player and bit 1 the pits.
pub proof fn cars_are_built_from_vehicles(s: Scoring, gaps: Seq<(i32, i32)>, i: int)
    requires
        0 <= i < s.cars@.len(),
        gaps.len() == s.cars@.len(),
    ensures
        ({
            let c = s.cars@[i];
            let r = built_cars(s, gaps)[i];
            let (gl, gr) = gaps[i];
            &&& built_cars(s, gaps).len() == s.cars@.len()
            &&& r.place == c.place
            &&& r.gap_leader_ms == gl
            &&& i == s.player ==> r.gap_rel_ms == 0
            &&& i != s.player ==> r.gap_rel_ms == gr
            &&& c.laps >= 0 ==> r.laps == c.laps
            &&& c.laps < 0 ==> r.laps == 0
            &&& r.flags % 2 == 1 <==> c.is_player
            &&& r.flags / 2 == 1 <==> c.in_pits
            &&& r.flags < 4
            &&& r.name == stored_name(encode_utf8(short_text(c.name@)))
        }),
{
}

/// The player is found in the list: where a car of the list is marked as the
/// player's, so is the one at the player's index, and none behind it is; where none
/// is marked, the index is 0.
pub proof fn players_are_found(cars: Seq<CarView>)
    ensures
        ({
            let p = player_slot(cars);
            &&& (exists|k: int| 0 <= k < cars.len() && (#[trigger] cars[k]).flags & 1 != 0) ==> 0
                <= p < cars.len() && cars[p].flags & 1 != 0
            &&& (forall|k: int| 0 <= k < cars.len() ==> (#[trigger] cars[k]).flags & 1 == 0) ==> p == 0
            &&& forall|k: int| p < k < cars.len() ==> (#[trigger] cars[k]).flags & 1 == 0
        }),
    decreases cars.len(),
{
    if cars.len() > 0 {
        let front = cars.drop_last();
        players_are_found(front);
        if cars.last().flags & 1 == 0 {
            assert(cars[cars.len() - 1] == cars.last());
            if exists|k: int| 0 <= k < cars.len() && (#[trigger] cars[k]).flags & 1 != 0 {
                let k = choose|k: int| 0 <= k < cars.len() && (#[trigger] cars[k]).flags & 1 != 0;
                assert(front[k] == cars[k]);
            }
            assert forall|k: int| player_slot(cars) < k < cars.len() implies (#[trigger] cars[k]).flags
                & 1 == 0 by {
                if k < cars.len() - 1 {
                    assert(front[k] == cars[k]);
                }
            }
            if forall|k: int| 0 <= k < cars.len() ==> (#[trigger] cars[k]).flags & 1 == 0 {
                assert forall|k: int| 0 <= k < front.len() implies (#[trigger] front[k]).flags & 1
                    == 0 by {
                    assert(front[k] == cars[k]);
                }
            }
        } else {
            assert(cars[cars.len() - 1] == cars.last());
        }
    }
}

/// No more than 12 cars are sent, all of them where there are no more. Of a larger
/// field the first five by race position are sent, and of the others no car that is
/// left out is nearer to the player on track than one that is sent.
pub proof fn leaders_and_neighbours_are_sent(cars: Seq<CarView>, sent: int, left_out: int)
    requires
        kept(cars).contains(sent),
        0 <= left_out < cars.len(),
        !kept(cars).contains(left_out),
    ensures
        cars.len() > 12,
        kept(cars).len() == 12,
        selected(cars).len() == 12,
        ({
            let by_place = stable_sort(upto(cars.len()), places(cars));
            &&& forall|k: int| 0 <= k < 5 ==> kept(cars).contains(#[trigger] by_place[k])
            &&& by_place.take(5).contains(sent) || {
                let near = cars[sent].gap_rel_ms as int;
                let far = cars[left_out].gap_rel_ms as int;
                (-far <= near <= far) || (far <= near <= -far)
            }
        }),
{
    selection_laws(cars);
    let all = upto(cars.len());
    assert(all[left_out] == left_out);
    assert(all.contains(left_out));
    stable_sort_sorts(all, places(cars));
    lemma_sort_items(all, places(cars));
    let by_place = stable_sort(all, places(cars));
    assert(by_place.contains(left_out));
    if cars.len() > 12 {
        assert(leaders(cars) == by_place.take(5));
        if !leaders(cars).contains(sent) {
            nearest_cars_are_kept(cars, sent, left_out);
            let k = choose|k: int| 0 <= k < kept(cars).len() && kept(cars)[k] == sent;
            assert(0 <= kept(cars)[k] < cars.len());
            assert(distances(cars)[sent] == abs(cars[sent].gap_rel_ms as int));
            assert(distances(cars)[left_out] == abs(cars[left_out].gap_rel_ms as int));
        }
    }
}

/// The list that is sent holds the cars themselves, in the order of their race
/// positions, and where two have one position in the order they came in.
pub proof fn sent_cars_are_in_order(cars: Seq<CarView>, i: int, j: int)
    requires
        0 <= i < j < selected(cars).len(),
    ensures
        selected(cars)[i].place <= selected(cars)[j].place,
        exists|k: int| 0 <= k < cars.len() && #[trigger] cars[k] == selected(cars)[i],
{
    selection_laws(cars);
    let k = kept(cars);
    assert(0 <= k[i] < cars.len() && 0 <= k[j] < cars.len());
    assert(places(cars)[k[i]] <= places(cars)[k[j]]);
    assert(cars[k[i]] == selected(cars)[i]);
}

/// The fields of a car on the line stand in one order: its position, its gap to the
/// leader, its gap to the player, its laps, its flags, its name.
pub proof fn records_are_separated_fields(c: CarView)
    requires
        !name_text(c.name).contains(','),
    ensures
        split(record_text(c), ',') == seq![
            dec_text(c.place as nat),
            int_text(c.gap_leader_ms as int),
            int_text(c.gap_rel_ms as int),
            int_text(c.laps as int),
            dec_text(c.flags as nat),
            name_text(c.name),
        ],
{
    let t5 = name_text(c.name);
    let t4 = dec_text(c.flags as nat) + seq![','] + t5;
    let t3 = int_text(c.laps as int) + seq![','] + t4;
    let t2 = int_text(c.gap_rel_ms as int) + seq![','] + t3;
    let t1 = int_text(c.gap_leader_ms as int) + seq![','] + t2;
    lemma_number_text(c.place as int);
    lemma_number_text(c.gap_leader_ms as int);
    lemma_number_text(c.gap_rel_ms as int);
    lemma_number_text(c.laps as int);
    lemma_number_text(c.flags as int);
    lemma_no_split(t5, ',');
    lemma_split_front(dec_text(c.flags as nat), ',', t5);
    lemma_split_front(int_text(c.laps as int), ',', t4);
    lemma_split_front(int_text(c.gap_rel_ms as int), ',', t3);
    lemma_split_front(int_text(c.gap_leader_ms as int), ',', t2);
    lemma_split_front(dec_text(c.place as nat), ',', t1);
    assert(split(record_text(c), ',') =~= seq![
        dec_text(c.place as nat),
        int_text(c.gap_leader_ms as int),
        int_text(c.gap_rel_ms as int),
        int_text(c.laps as int),
        dec_text(c.flags as nat),
        t5,
    ]);
}

/// A record whose numbers are written in that order is read into the fields of the
/// same name; a record with fewer than five fields is no car.
pub proof fn fields_are_read_in_order(
    place: u8,
    gap_leader: i32,
    gap_rel: i32,
    laps: i16,
    flags: u8,
    name: Seq<char>,
    rec: Seq<char>,
)
    requires
        split(rec, ',') == seq![
            dec_text(place as nat),
            int_text(gap_leader as int),
            int_text(gap_rel as int),
            int_text(laps as int),
            dec_text(flags as nat),
            name,
        ],
    ensures
        car_of(rec) matches Some(c) && c.place == place && c.gap_leader_ms == gap_leader
            && c.gap_rel_ms == gap_rel && c.laps == laps && c.flags == flags && c.name
            == stored_name(encode_utf8(name)),
        forall|r: Seq<char>| split(r, ',').len() < 5 ==> #[trigger] car_of(r) is None,
{
    lemma_nat_text(place as nat, 255);
    lemma_int_text(gap_leader as int, i32::MIN as int, i32::MAX as int);
    lemma_int_text(gap_rel as int, i32::MIN as int, i32::MAX as int);
    lemma_int_text(laps as int, i16::MIN as int, i16::MAX as int);
    lemma_nat_text(flags as nat, 255);
}

/// A record that is no car changes nothing for the others.
pub proof fn malformed_records_are_skipped(
    before: Seq<Seq<char>>,
    rec: Seq<char>,
    behind: Seq<Seq<char>>,
    n: nat,
)
    requires
        car_of(rec) is None,
    ensures
        cars_of(before + seq![rec] + behind, n) == cars_of(before + behind, n),
    decreases before.len(),
{
    let a = before + seq![rec] + behind;
    let b = before + behind;
    if before.len() == 0 {
        assert(a.drop_first() =~= behind);
        assert(b =~= behind);
        assert(a[0] == rec);
    } else {
        let less = before.drop_first();
        assert(a.drop_first() =~= less + seq![rec] + behind);
        assert(b.drop_first() =~= less + behind);
        assert(a[0] == before[0] && b[0] == before[0]);
        if n > 0 {
            malformed_records_are_skipped(less, rec, behind, (n - 1) as nat);
            malformed_records_are_skipped(less, rec, behind, n);
        }
    }
}

/// A name of at most 14 printable ASCII characters without a separator is kept as
/// it is; of a longer one the first 14 characters are kept.
pub proof fn plain_names_are_kept(s: Seq<char>)
    requires
        forall|k: int|
            0 <= k < s.len() ==> ' ' <= #[trigger] s[k] && s[k] <= '~' && s[k] != '|' && s[k] != ',',
    ensures
        name_text(stored_name(encode_utf8(s))) == if s.len() <= 14 {
            s
        } else {
            s.take(14)
        },
{
    assert(vstd::utf8::is_ascii_chars(s));
    vstd::utf8::is_ascii_chars_encode_utf8(s);
    let e = encode_utf8(s);
    let name = stored_name(e);
    let n = if s.len() <= 14 {
        s.len() as int
    } else {
        14
    };
    assert forall|k: int| 0 <= k < n implies #[trigger] name[k] == s[k] as u8 && name[k] != 0 by {
        assert(e[k] == s[k] as u8);
    }
    lemma_nul_at(name, n);
    let b = name.take(n);
    assert forall|k: int| 0 <= k < b.len() implies 0x20 <= #[trigger] b[k] < 0x7f by {
        assert(b[k] == name[k]);
        assert(name[k] == s[k] as u8);
    }
    lemma_clean_text(b);
    let t = decode_utf8(b);
    assert(t =~= s.take(n)) by {
        assert forall|k: int| 0 <= k < n implies #[trigger] t[k] == s[k] by {
            assert(t[k] == b[k] as char);
            assert(b[k] == name[k]);
        }
    }
    assert(s.take(s.len() as int) =~= s);
}

/// Every byte of a name that is no printable ASCII character, and every separator,
/// is stored as an underscore; behind the name stand NUL bytes up to the fourteenth.
pub proof fn names_are_cleaned(b: Seq<u8>, k: int)
    requires
        0 <= k < 14,
    ensures
        stored_name(b).len() == 14,
        k >= b.len() ==> stored_name(b)[k] == 0,
        k < b.len() && (b[k] < 0x20 || b[k] >= 0x7f || b[k] == '|' as u8 || b[k] == ',' as u8)
            ==> stored_name(b)[k] == '_' as u8,
        k < b.len() && 0x20 <= b[k] < 0x7f && b[k] != '|' as u8 && b[k] != ',' as u8
            ==> stored_name(b)[k] == b[k],
{
}

/// A name that fits is its own label. One that does not is labelled by its last
/// word, behind the last blank or underscore, where that fits. Where that does not
/// fit either, an ASCII name is cut to 14 characters.
pub proof fn labels_shorten_names(front: Seq<char>, sep: char, word: Seq<char>)
    requires
        sep == ' ' || sep == '_',
        !word.contains(' '),
        !word.contains('_'),
        trim(front + seq![sep] + word) == front + seq![sep] + word,
    ensures
        ({
            let name = front + seq![sep] + word;
            let r = short_text(name);
            &&& encode_utf8(name).len() <= 14 ==> r == name
            &&& encode_utf8(name).len() > 14 && encode_utf8(word).len() <= 14 ==> r == word
            &&& encode_utf8(word).len() > 14 && vstd::utf8::is_ascii_chars(name) ==> r == name.take(14)
        }),
{
    let name = front + seq![sep] + word;
    lemma_word_start(front + seq![sep], word);
    assert(front + seq![sep] + word =~= (front + seq![sep]) + word);
    assert(name.skip(front.len() as int + 1) =~= word);
    if vstd::utf8::is_ascii_chars(name) && encode_utf8(word).len() > 14 {
        vstd::utf8::is_ascii_chars_encode_utf8(name);
        assert forall|k: int| 0 <= k < word.len() implies '\0' <= #[trigger] word[k] <= '\u{7f}' by {
            assert(name[k + front.len() + 1] == word[k]);
        }
        assert(vstd::utf8::is_ascii_chars(word));
        vstd::utf8::is_ascii_chars_encode_utf8(word);
        let cut = name.take(14);
        assert(vstd::utf8::is_ascii_chars(cut));
        vstd::utf8::is_ascii_chars_encode_utf8(cut);
        assert(encode_utf8(cut) =~= encode_utf8(name).take(14));
        vstd::utf8::encode_utf8_decode_utf8(cut);
    }
}

proof fn lemma_word_start(front: Seq<char>, word: Seq<char>)
    requires
        front.len() > 0 ==> is_word_sep(front.last()),
        !word.contains(' '),
        !word.contains('_'),
    ensures
        word_start(front + word) == front.len(),
    decreases word.len(),
{
    let t = front + word;
    if word.len() == 0 {
        assert(t =~= front);
    } else {
        assert(word.contains(word.last()));
        assert(t.last() == word.last());
        let less = word.drop_last();
        assert(!less.contains(' ') && !less.contains('_')) by {
            assert forall|k: int| 0 <= k < less.len() implies #[trigger] less[k] != ' ' && less[k]
                != '_' by {
                assert(less[k] == word[k]);
                assert(word.contains(word[k]));
            }
        }
        lemma_word_start(front, less);
        assert(t.drop_last() =~= front + less);
    }
}

/// The pace is the player's best lap where they have driven one. Where they have
/// not, it is the fastest lap of the field: one that a car has driven and that no
/// driven lap is below. Where nobody has driven one, there is none. A lap counts as
/// driven where its bits are those of a number above 0.
pub proof fn pace_is_own_or_fastest(s: Scoring)
    requires
        s.player < s.cars@.len(),
    ensures
        ({
            let own = s.cars@[s.player as int].best_s;
            let r = pace_lap(s);
            &&& 0 < own <= 0x7FF0_0000_0000_0000 ==> r == own
            &&& (own == 0 || own > 0x7FF0_0000_0000_0000) && r != 0 ==> exists|k: int|
                0 <= k < s.cars@.len() && (#[trigger] s.cars@[k]).best_s == r
            &&& (own == 0 || own > 0x7FF0_0000_0000_0000) && r != 0 ==> forall|k: int|
                0 <= k < s.cars@.len() ==> (#[trigger] s.cars@[k]).best_s == 0 || s.cars@[k].best_s
                    >= r
            &&& r == 0 ==> forall|k: int|
                0 <= k < s.cars@.len() ==> (#[trigger] s.cars@[k]).best_s == 0 || s.cars@[k].best_s
                    >= 0x7FF0_0000_0000_0000
        }),
{
    lemma_fastest(s.cars@);
}

proof fn lemma_fastest(cars: Seq<RawCar>)
    ensures
        forall|k: int|
            0 <= k < cars.len() ==> (#[trigger] cars[k]).best_s == 0 || cars[k].best_s >= fastest(
                cars,
            ),
        fastest(cars) <= INFINITE,
        fastest(cars) < INFINITE ==> 0 < fastest(cars) && exists|k: int|
            0 <= k < cars.len() && (#[trigger] cars[k]).best_s == fastest(cars),
    decreases cars.len(),
{
    if cars.len() > 0 {
        let front = cars.drop_last();
        lemma_fastest(front);
        assert forall|k: int| 0 <= k < cars.len() implies (#[trigger] cars[k]).best_s == 0
            || cars[k].best_s >= fastest(cars) by {
            if k < front.len() {
                assert(front[k] == cars[k]);
            }
        }
        if fastest(cars) < INFINITE {
            if fastest(front) == fastest(cars) {
                let k = choose|k: int| 0 <= k < front.len() && (#[trigger] front[k]).best_s == fastest(
                    front,
                );
                assert(cars[k].best_s == fastest(cars));
            } else {
                assert(cars[cars.len() - 1].best_s == fastest(cars));
            }
        }
    }
}

/// The player's vehicle is the one whose byte 196 is not 0. A track is usable where
/// the pattern of its length is between those of 1 and of infinity.
pub proof fn players_are_marked(b: Seq<u8>, i: int, bits: u64)
    requires
        i >= 0,
    ensures
        player_at(b, i) <==> b[560 + 584 * i + 196] != 0,
        usable_length(bits) <==> bits > 0x3FF0_0000_0000_0000 && bits < 0x7FF0_0000_0000_0000,
{
}

/// An empty place of the list holds nothing: no number and a name of 14 zeros.
pub proof fn empty_places_hold_nothing(k: int)
    requires
        0 <= k < 14,
    ensures
        empty_place().place == 0 && empty_place().gap_leader_ms == 0,
        empty_place().gap_rel_ms == 0 && empty_place().laps == 0 && empty_place().flags == 0,
        empty_place().name.len() == 14,
        empty_place().name[k] == 0,
{
}

/// A record is a car exactly where its first five fields are numbers within their
/// bounds; the name behind them may be missing, and is empty then.
pub proof fn records_need_five_numbers(rec: Seq<char>, f: Seq<Seq<char>>)
    requires
        split(rec, ',') == f,
        f.len() >= 5,
    ensures
        car_of(rec) is Some <==> nat_of(f[0], 255) is Some && int_of(
            f[1],
            -0x8000_0000,
            0x7FFF_FFFF,
        ) is Some && int_of(f[2], -0x8000_0000, 0x7FFF_FFFF) is Some && int_of(
            f[3],
            -0x8000,
            0x7FFF,
        ) is Some && nat_of(f[4], 255) is Some,
        car_of(rec) is Some && f.len() == 5 ==> (car_of(rec)->0).name == stored_name(
            encode_utf8(Seq::empty()),
        ),
        car_of(rec) is Some && f.len() > 5 ==> (car_of(rec)->0).name == stored_name(
            encode_utf8(f[5]),
        ),
{
}

/// A line of cars starts with `@REL|` and the player's index, which is a number up to 255;
/// one that does not is none. At most twelve records behind it are read.
pub proof fn lines_name_the_player_first(
    player: u8,
    records: Seq<char>,
    other: Seq<char>,
)
    requires
        other.len() > 0,
        other[0] != '@',
    ensures
        wire_of("@REL|"@ + (dec_text(player as nat) + seq!['|'] + records)) == Some(
            (player, cars_of(split(records, '|'), 12)),
        ),
        wire_of(other) is None,
        wire_of("@REL|"@ + (seq!['|'] + records)) is None,
{
    reveal_strlit("@REL|");
    let n = dec_text(player as nat);
    let body = n + seq!['|'] + records;
    lemma_after_prefix("@REL|"@, body);
    lemma_after_prefix("@REL|"@, seq!['|'] + records);
    lemma_dec_text(player as nat);
    assert(!n.contains('|')) by {
        if n.contains('|') {
            let k = choose|k: int| 0 <= k < n.len() && n[k] == '|';
            assert(is_digit(n[k]));
        }
    }
    crate::text::lemma_split_front(n, '|', records);
    crate::text::lemma_split_front(Seq::empty(), '|', records);
    assert(Seq::<char>::empty() + seq!['|'] + records =~= seq!['|'] + records);
    lemma_nat_text(player as nat, 255);
    let parts = seq![n] + split(records, '|');
    assert(parts.drop_first() =~= split(records, '|'));
    crate::text::lemma_not_after(other, "@REL|"@, 0);
}

} // verus!
