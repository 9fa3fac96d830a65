//! Modbus RTU framing: the checksum and the function codes for reading holding
//! registers and writing one or several of them.

use vstd::prelude::*;
use vstd::slice::slice_subrange;

verus! {

/// Why a reply is refused.
#[derive(Clone, Copy, Debug, PartialEq, Eq, Structural)]
pub enum ModbusError {
    ShortFrame,
    BadCrc,
    Exception { function: u8, code: u8 },
    UnexpectedFunction,
    MalformedPayload,
}

/// Reading holding registers.
pub const FC_READ: u8 = 0x03;

/// Writing one register.
pub const FC_WRITE: u8 = 0x06;

/// Writing several registers.
pub const FC_WRITE_MANY: u8 = 0x10;

/// One bit through the shift register of the checksum.
pub open spec fn crc_bit(c: u16) -> u16 {
    if c & 1 != 0 {
        (c >> 1) ^ 0xA001
    } else {
        c >> 1
    }
}

/// `n` bits through the shift register.
pub open spec fn crc_bits(c: u16, n: nat) -> u16
    decreases n,
{
    if n == 0 {
        c
    } else {
        crc_bit(crc_bits(c, (n - 1) as nat))
    }
}

/// The CRC-16 of Modbus RTU: polynomial 0x8005 reflected, start value 0xFFFF.
pub open spec fn crc_of(data: Seq<u8>) -> u16
    decreases data.len(),
{
    if data.len() == 0 {
        0xFFFF
    } else {
        crc_bits(crc_of(data.drop_last()) ^ data.last() as u16, 8)
    }
}

/// The CRC-16 of Modbus RTU.
pub fn crc16(data: &[u8]) -> (r: u16)
    ensures
        r == crc_of(data@),
{
    let mut crc: u16 = 0xFFFF;
    let mut i: usize = 0;
    proof {
        assert(data@.take(0) =~= Seq::<u8>::empty());
    }
    while i < data.len()
        invariant
            i <= data@.len(),
            crc == crc_of(data@.take(i as int)),
        decreases data@.len() - i,
    {
        proof {
            let t = data@.take(i + 1);
            assert(t.drop_last() =~= data@.take(i as int));
        }
        crc = crc ^ data[i] as u16;
        let ghost start = crc;
        let mut k: u32 = 0;
        while k < 8
            invariant
                k <= 8,
                crc == crc_bits(start, k as nat),
            decreases 8 - k,
        {
            if crc & 1 != 0 {
                crc = (crc >> 1) ^ 0xA001;
            } else {
                crc = crc >> 1;
            }
            k += 1;
        }
        i += 1;
    }
    proof {
        assert(data@.take(i as int) =~= data@);
    }
    crc
}

/// The high byte of a word.
pub open spec fn hi(w: int) -> u8 {
    (w / 256 % 256) as u8
}

/// The low byte of a word.
pub open spec fn lo(w: int) -> u8 {
    (w % 256) as u8
}

/// A frame: the body, then its checksum, the low byte first.
pub open spec fn framed(body: Seq<u8>) -> Seq<u8> {
    body + seq![lo(crc_of(body) as int), hi(crc_of(body) as int)]
}

/// The words as bytes, the high byte first.
pub open spec fn word_bytes(values: Seq<u16>) -> Seq<u8>
    decreases values.len(),
{
    if values.len() == 0 {
        Seq::empty()
    } else {
        word_bytes(values.drop_last()) + seq![hi(values.last() as int), lo(values.last() as int)]
    }
}

/// Two words behind an address and a function code.
pub open spec fn request(slave: u8, function: u8, a: int, b: int) -> Seq<u8> {
    framed(seq![slave, function, hi(a), lo(a), hi(b), lo(b)])
}

/// The frame that writes several registers.
pub open spec fn write_many(slave: u8, addr: int, values: Seq<u16>) -> Seq<u8> {
    let n = values.len() as int;
    framed(
        seq![slave, FC_WRITE_MANY, hi(addr), lo(addr), hi(n), lo(n), lo(2 * n)] + word_bytes(values),
    )
}

/// The checksum of the frame holds.
pub open spec fn crc_ok(frame: Seq<u8>) -> bool {
    let n = frame.len() - 2;
    crc_of(frame.take(n)) == frame[n] + 256 * frame[n + 1]
}

/// The payload of a reply to `function`. An exception reply that was cut off before its
/// exception code is too short.
pub open spec fn payload(frame: Seq<u8>, function: u8) -> Result<Seq<u8>, ModbusError> {
    if frame.len() < 4 {
        Err(ModbusError::ShortFrame)
    } else if !crc_ok(frame) {
        Err(ModbusError::BadCrc)
    } else if frame[1] == function + 0x80 {
        if frame.len() == 4 {
            Err(ModbusError::ShortFrame)
        } else {
            Err(ModbusError::Exception { function: frame[1], code: frame[2] })
        }
    } else if frame[1] != function {
        Err(ModbusError::UnexpectedFunction)
    } else {
        Ok(frame.subrange(2, frame.len() - 2))
    }
}

/// The words that pairs of bytes hold, the high byte first.
pub open spec fn words_of(b: Seq<u8>) -> Seq<u16> {
    Seq::new(b.len() / 2, |k: int| (b[2 * k] * 256 + b[2 * k + 1]) as u16)
}

/// The registers that a read reply carries.
pub open spec fn read_reply(frame: Seq<u8>) -> Result<Seq<u16>, ModbusError> {
    match payload(frame, FC_READ) {
        Err(e) => Err(e),
        Ok(p) => if p.len() == 0 || p.len() - 1 != p[0] || p[0] % 2 != 0 {
            Err(ModbusError::MalformedPayload)
        } else {
            Ok(words_of(p.skip(1)))
        },
    }
}

/// What the reply to a write says, which repeats the address and a second word.
pub open spec fn ack(frame: Seq<u8>, function: u8, a: int, b: int) -> Result<(), ModbusError> {
    match payload(frame, function) {
        Err(e) => Err(e),
        Ok(p) => if p.len() == 4 && p[0] * 256 + p[1] == a && p[2] * 256 + p[3] == b {
            Ok(())
        } else {
            Err(ModbusError::MalformedPayload)
        },
    }
}

/// Appends the checksum.
fn push_crc(frame: &mut Vec<u8>)
    ensures
        final(frame)@ == framed(old(frame)@),
{
    let crc: u16 = crc16(frame.as_slice());
    frame.push((crc % 256) as u8);
    frame.push((crc / 256) as u8);
    proof {
        assert(frame@ =~= framed(old(frame)@));
    }
}

/// The frame of an address, a function code and two words.
fn encode(slave: u8, function: u8, a: u16, b: u16) -> (f: Vec<u8>)
    ensures
        f@ == request(slave, function, a as int, b as int),
{
    let mut f: Vec<u8> = Vec::new();
    f.push(slave);
    f.push(function);
    f.push((a / 256) as u8);
    f.push((a % 256) as u8);
    f.push((b / 256) as u8);
    f.push((b % 256) as u8);
    proof {
        assert(f@ =~= seq![slave, function, hi(a as int), lo(a as int), hi(b as int), lo(b as int)]);
    }
    push_crc(&mut f);
    f
}

/// The request that reads `count` registers from `addr` on.
pub fn encode_read_holding(slave: u8, addr: u16, count: u16) -> (f: Vec<u8>)
    ensures
        f@ == request(slave, FC_READ, addr as int, count as int),
{
    encode(slave, FC_READ, addr, count)
}

/// The request that writes one register.
pub fn encode_write_single(slave: u8, addr: u16, value: u16) -> (f: Vec<u8>)
    ensures
        f@ == request(slave, FC_WRITE, addr as int, value as int),
{
    encode(slave, FC_WRITE, addr, value)
}

/// The request that writes several registers from `addr` on.
pub fn encode_write_multiple(slave: u8, addr: u16, values: &[u16]) -> (f: Vec<u8>)
    ensures
        f@ == write_many(slave, addr as int, values@),
{
    let n: usize = values.len();
    let mut f: Vec<u8> = Vec::new();
    f.push(slave);
    f.push(FC_WRITE_MANY);
    f.push((addr / 256) as u8);
    f.push((addr % 256) as u8);
    f.push((n / 256 % 256) as u8);
    f.push((n % 256) as u8);
    f.push((n % 128 * 2) as u8);
    let ghost head = f@;
    proof {
        assert(2 * n as int % 256 == n as int % 128 * 2);
        assert(head =~= seq![
            slave,
            FC_WRITE_MANY,
            hi(addr as int),
            lo(addr as int),
            hi(n as int),
            lo(n as int),
            lo(2 * n),
        ]);
        assert(values@.take(0) =~= Seq::<u16>::empty());
        assert(head + word_bytes(values@.take(0)) =~= head);
    }
    let mut i: usize = 0;
    while i < values.len()
        invariant
            i <= values@.len(),
            f@ == head + word_bytes(values@.take(i as int)),
        decreases values@.len() - i,
    {
        let v: u16 = values[i];
        let ghost before = f@;
        f.push((v / 256) as u8);
        f.push((v % 256) as u8);
        proof {
            let t = values@.take(i + 1);
            assert(t.drop_last() =~= values@.take(i as int));
            assert(f@ =~= head + word_bytes(t));
        }
        i += 1;
    }
    proof {
        assert(values@.take(i as int) =~= values@);
    }
    push_crc(&mut f);
    f
}

/// Whether the checksum of a frame holds.
fn has_crc(frame: &[u8]) -> (r: bool)
    requires
        frame@.len() >= 2,
    ensures
        r == crc_ok(frame@),
{
    let n: usize = frame.len() - 2;
    let body = slice_subrange(frame, 0, n);
    proof {
        assert(body@ =~= frame@.take(n as int));
    }
    crc16(body) == frame[n] as u16 + 256 * frame[n + 1] as u16
}

/// The payload of a reply, after its checksum and its function code have been
/// checked.
fn check_and_strip<'a>(frame: &'a [u8], function: u8) -> (r: Result<&'a [u8], ModbusError>)
    requires
        function < 0x80,
    ensures
        match r {
            Ok(p) => payload(frame@, function) == Ok::<Seq<u8>, ModbusError>(p@),
            Err(e) => payload(frame@, function) == Err::<Seq<u8>, ModbusError>(e),
        },
{
    if frame.len() < 4 {
        return Err(ModbusError::ShortFrame);
    }
    if !has_crc(frame) {
        return Err(ModbusError::BadCrc);
    }
    let f: u8 = frame[1];
    if f == function + 0x80 {
        if frame.len() == 4 {
            return Err(ModbusError::ShortFrame);
        }
        return Err(ModbusError::Exception { function: f, code: frame[2] });
    }
    if f != function {
        return Err(ModbusError::UnexpectedFunction);
    }
    Ok(slice_subrange(frame, 2, frame.len() - 2))
}

/// Reads the registers of a read reply.
pub fn decode_read_holding_response(frame: &[u8]) -> (r: Result<Vec<u16>, ModbusError>)
    ensures
        match r {
            Ok(v) => read_reply(frame@) == Ok::<Seq<u16>, ModbusError>(v@),
            Err(e) => read_reply(frame@) == Err::<Seq<u16>, ModbusError>(e),
        },
{
    let p = match check_and_strip(frame, FC_READ) {
        Ok(p) => p,
        Err(e) => return Err(e),
    };
    if p.len() == 0 {
        return Err(ModbusError::MalformedPayload);
    }
    let count: usize = p[0] as usize;
    if p.len() - 1 != count || count % 2 != 0 {
        return Err(ModbusError::MalformedPayload);
    }
    let data = slice_subrange(p, 1, p.len());
    proof {
        assert(data@ =~= p@.skip(1));
    }
    let mut out: Vec<u16> = Vec::new();
    let mut k: usize = 0;
    while 2 * k < data.len()
        invariant
            data@.len() == count,
            count % 2 == 0,
            count <= 255,
            2 * k <= data@.len(),
            out@.len() == k,
            forall|j: int| 0 <= j < k ==> #[trigger] out@[j] == words_of(data@)[j],
        decreases data@.len() - 2 * k,
    {
        out.push(data[2 * k] as u16 * 256 + data[2 * k + 1] as u16);
        k += 1;
    }
    proof {
        assert(out@ =~= words_of(data@));
    }
    Ok(out)
}

/// Checks the reply to a write.
fn check_ack(frame: &[u8], function: u8, a: u16, b: u16) -> (r: Result<(), ModbusError>)
    requires
        function < 0x80,
    ensures
        r == ack(frame@, function, a as int, b as int),
{
    let p = match check_and_strip(frame, function) {
        Ok(p) => p,
        Err(e) => return Err(e),
    };
    if p.len() == 4 && p[0] as u16 * 256 + p[1] as u16 == a && p[2] as u16 * 256 + p[3] as u16 == b {
        Ok(())
    } else {
        Err(ModbusError::MalformedPayload)
    }
}

/// Checks the reply to a write of one register.
pub fn decode_write_single_ack(frame: &[u8], addr: u16, value: u16) -> (r: Result<(), ModbusError>)
    ensures
        r == ack(frame@, FC_WRITE, addr as int, value as int),
{
    check_ack(frame, FC_WRITE, addr, value)
}

/// Checks the reply to a write of several registers.
pub fn decode_write_multiple_ack(frame: &[u8], addr: u16, count: u16) -> (r: Result<
    (),
    ModbusError,
>)
    ensures
        r == ack(frame@, FC_WRITE_MANY, addr as int, count as int),
{
    check_ack(frame, FC_WRITE_MANY, addr, count)
}

// -------------------------------------------------------------------- laws

/// A frame that was put together passes the check of its own checksum, and its
/// body is what stands before it.
pub proof fn framed_passes(body: Seq<u8>)
    ensures
        framed(body).len() == body.len() + 2,
        framed(body).take(body.len() as int) == body,
        crc_ok(framed(body)),
{
    let f = framed(body);
    assert(f.take(body.len() as int) =~= body);
}

/// A frame whose checksum bytes were changed is refused.
pub proof fn wrong_checksum_is_refused(body: Seq<u8>, c0: u8, c1: u8, function: u8)
    requires
        body.len() >= 2,
        c0 + 256 * c1 != crc_of(body),
    ensures
        payload(body + seq![c0, c1], function) == Err::<Seq<u8>, ModbusError>(ModbusError::BadCrc),
{
    let f = body + seq![c0, c1];
    assert(f.take(body.len() as int) =~= body);
}

/// A drive that echoes the request of a single write acknowledges that write, and
/// no other.
pub proof fn echo_acknowledges(slave: u8, addr: u16, value: u16, a: u16, v: u16)
    ensures
        ack(request(slave, FC_WRITE, addr as int, value as int), FC_WRITE, a as int, v as int) is Ok
            <==> a == addr && v == value,
{
    let body = seq![
        slave,
        FC_WRITE,
        hi(addr as int),
        lo(addr as int),
        hi(value as int),
        lo(value as int),
    ];
    framed_passes(body);
    let f = framed(body);
    let p = f.subrange(2, f.len() - 2);
    assert(p =~= body.skip(2));
}

/// The reply to a read that carries the registers `values`.
pub open spec fn read_response(slave: u8, values: Seq<u16>) -> Seq<u8> {
    framed(seq![slave, FC_READ, (2 * values.len()) as u8] + word_bytes(values))
}

proof fn lemma_word_bytes(values: Seq<u16>)
    ensures
        word_bytes(values).len() == 2 * values.len(),
        words_of(word_bytes(values)) == values,
    decreases values.len(),
{
    if values.len() == 0 {
        assert(words_of(word_bytes(values)) =~= values);
    } else {
        let front = values.drop_last();
        lemma_word_bytes(front);
        let b = word_bytes(values);
        let w = words_of(b);
        assert(w.len() == values.len());
        assert forall|k: int| 0 <= k < values.len() implies #[trigger] w[k] == values[k] by {
            if k < front.len() {
                assert(words_of(word_bytes(front))[k] == front[k]);
                assert(b[2 * k] == word_bytes(front)[2 * k]);
                assert(b[2 * k + 1] == word_bytes(front)[2 * k + 1]);
            } else {
                assert(b[2 * k] == hi(values.last() as int));
                assert(b[2 * k + 1] == lo(values.last() as int));
            }
        }
        assert(w =~= values);
    }
}

/// The registers of a read reply are read back, as many as one reply can carry.
pub proof fn read_reply_round_trip(slave: u8, values: Seq<u16>)
    requires
        values.len() <= 127,
    ensures
        read_reply(read_response(slave, values)) == Ok::<Seq<u16>, ModbusError>(values),
{
    let wb = word_bytes(values);
    lemma_word_bytes(values);
    let body = seq![slave, FC_READ, (2 * values.len()) as u8] + wb;
    framed_passes(body);
    let f = framed(body);
    let p = f.subrange(2, f.len() - 2);
    assert(p =~= body.skip(2));
    assert(p.skip(1) =~= wb);
}

/// One bit through the checksum: an even value is halved, an odd one too, and is then
/// turned by the polynomial.
pub proof fn checksum_halves_and_turns(c: u16)
    ensures
        c % 2 == 0 ==> 2 * crc_bit(c) == c,
        c % 2 == 1 ==> 2 * (crc_bit(c) ^ 0xA001) + 1 == c,
{
    assert(c % 2 == 0 ==> (c & 1 == 0 && 2 * (c >> 1) == c)) by (bit_vector);
    assert(c % 2 == 1 ==> (c & 1 != 0 && 2 * (((c >> 1) ^ 0xA001) ^ 0xA001) + 1 == c)) by (bit_vector);
}

/// A byte more goes into the low end of the checksum and takes eight bits through it;
/// the checksum of nothing is 0xFFFF.
pub proof fn checksum_takes_bytes(data: Seq<u8>, b: u8, n: nat)
    ensures
        crc_of(Seq::empty()) == 0xFFFF,
        crc_of(data.push(b)) == crc_bits(crc_of(data) ^ (b as u16), 8),
        crc_bits(crc_of(data), 0) == crc_of(data),
        crc_bits(crc_of(data), n + 1) == crc_bit(crc_bits(crc_of(data), n)),
{
    assert(data.push(b).drop_last() =~= data);
}

/// The bytes of a request: the address of the drive, the function, the first and the
/// second word with the high byte first, and the checksum of those six with the low
/// byte first.
pub proof fn requests_are_laid_out(slave: u8, function: u8, a: u16, b: u16)
    ensures
        ({
            let f = request(slave, function, a as int, b as int);
            &&& f.len() == 8
            &&& f[0] == slave
            &&& f[1] == function
            &&& f[2] * 256 + f[3] == a
            &&& f[4] * 256 + f[5] == b
            &&& f[6] + 256 * f[7] == crc_of(f.take(6))
        }),
        FC_READ == 3,
        FC_WRITE == 6,
        FC_WRITE_MANY == 16,
{
    let body = seq![slave, function, hi(a as int), lo(a as int), hi(b as int), lo(b as int)];
    assert(request(slave, function, a as int, b as int).take(6) =~= body);
}

/// The bytes of a request that writes several registers: behind the address of the
/// first come their number, the number of the bytes, and each value with its high
/// byte first.
pub proof fn writes_of_many_are_laid_out(slave: u8, addr: u16, values: Seq<u16>, k: int)
    requires
        values.len() <= 123,
        0 <= k < values.len(),
    ensures
        ({
            let f = write_many(slave, addr as int, values);
            &&& f.len() == 9 + 2 * values.len()
            &&& f[0] == slave
            &&& f[1] == 16
            &&& f[2] * 256 + f[3] == addr
            &&& f[4] * 256 + f[5] == values.len()
            &&& f[6] == 2 * values.len()
            &&& f[7 + 2 * k] * 256 + f[8 + 2 * k] == values[k]
        }),
{
    let n = values.len() as int;
    let wb = word_bytes(values);
    lemma_word_bytes(values);
    let f = write_many(slave, addr as int, values);
    assert(words_of(wb)[k] == values[k]);
    assert(f[7 + 2 * k] == wb[2 * k]);
    assert(f[8 + 2 * k] == wb[2 * k + 1]);
}

/// Why a reply is refused, in this order: it is too short, its checksum is wrong, it
/// reports an exception, or it answers another function. Otherwise it holds what
/// stands between its function and its checksum.
pub proof fn replies_are_judged_in_order(f: Seq<u8>, function: u8)
    requires
        function < 0x80,
    ensures
        ({
            let r = payload(f, function);
            let sum = f[f.len() - 2] + 256 * f[f.len() - 1];
            let good = crc_of(f.take(f.len() - 2)) == sum;
            &&& f.len() < 4 ==> r == Err::<Seq<u8>, ModbusError>(ModbusError::ShortFrame)
            &&& f.len() >= 4 && !good ==> r == Err::<Seq<u8>, ModbusError>(ModbusError::BadCrc)
            &&& f.len() > 4 && good && f[1] == function + 0x80 ==> r == Err::<Seq<u8>, ModbusError>(
                ModbusError::Exception { function: f[1], code: f[2] },
            )
            &&& f.len() >= 4 && good && f[1] != function && f[1] != function + 0x80 ==> r == Err::<
                Seq<u8>,
                ModbusError,
            >(ModbusError::UnexpectedFunction)
            &&& f.len() >= 4 && good && f[1] == function ==> r == Ok::<Seq<u8>, ModbusError>(
                f.subrange(2, f.len() - 2),
            )
        }),
{
}

/// A drive that answers a write of several registers with their first address and
/// their number acknowledges that write, and no other.
pub proof fn counts_acknowledge(slave: u8, addr: u16, count: u16, a: u16, n: u16)
    ensures
        ack(request(slave, 16, addr as int, count as int), 16, a as int, n as int) is Ok <==> a
            == addr && n == count,
{
    let body = seq![slave, 16u8, hi(addr as int), lo(addr as int), hi(count as int), lo(count as int)];
    framed_passes(body);
    let f = framed(body);
    let p = f.subrange(2, f.len() - 2);
    assert(p =~= body.skip(2));
}

} // verus!
