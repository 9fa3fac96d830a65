//! A firmware update over the command channel: `@OTA<size>`, then the image as raw
//! bytes, acknowledged every so often, then the reboot.

use vstd::prelude::*;

verus! {

/// The image is acknowledged every this many bytes.
pub const ACK_CHUNK: i32 = 2048;

/// A transfer without bytes for this long is given up.
pub const TIMEOUT_US: i64 = 4_000_000;

/// A transfer that is running.
#[derive(Clone, Copy, Debug, PartialEq, Eq, Structural)]
pub struct Transfer {
    /// The bytes still to come.
    pub remaining: i32,
    /// The bytes not acknowledged yet.
    pub acc: i32,
    /// When bytes last came in.
    pub last_us: i64,
}

/// The update state.
#[derive(Clone, Copy, Debug, PartialEq, Eq, Structural)]
pub struct Ota {
    pub transfer: Option<Transfer>,
    /// An image is complete and waits for the reboot.
    pub reboot: bool,
}

/// What follows a write to flash.
#[derive(Clone, Copy, Debug, PartialEq, Eq, Structural)]
pub enum Post {
    /// Nothing to say.
    Quiet,
    /// Acknowledge.
    Ack,
    /// The image is there: finish it (see [`Ota::finished`]).
    Finish,
    /// Tell that the update failed.
    Failed,
}

/// The reply to the start of an update.
pub open spec fn started_text(ok: bool) -> Seq<char> {
    if ok {
        "OTAREADY\n"@
    } else {
        "OTAERR\n"@
    }
}

/// The reply to its end.
pub open spec fn finished_text(ok: bool) -> Seq<char> {
    if ok {
        "OTADONE\n"@
    } else {
        "OTAERR\n"@
    }
}

/// How many of `len` bytes belong to an image that lacks `remaining`.
pub open spec fn taken(remaining: int, len: int) -> int {
    if len < remaining {
        len
    } else {
        remaining
    }
}

/// A transfer after `n` of its bytes were written, or the write failed, and what
/// follows.
pub open spec fn after_write(t: Transfer, n: int, ok: bool, now_us: i64) -> (Option<Transfer>, Post) {
    let left = t.remaining - n;
    let acc = t.acc + n;
    if !ok {
        (None, Post::Failed)
    } else if left == 0 {
        (None, Post::Finish)
    } else if acc >= ACK_CHUNK {
        (
            Some(
                Transfer {
                    remaining: left as i32,
                    acc: (acc - ACK_CHUNK) as i32,
                    last_us: now_us,
                },
            ),
            Post::Ack,
        )
    } else {
        (
            Some(Transfer { remaining: left as i32, acc: acc as i32, last_us: now_us }),
            Post::Quiet,
        )
    }
}

impl Ota {
    /// A running transfer has bytes to come, and what is not acknowledged is part of
    /// the image.
    pub open spec fn wf(self) -> bool {
        self.transfer matches Some(t) ==> t.remaining > 0 && t.acc >= 0 && t.acc + t.remaining
            <= i32::MAX
    }

    pub fn new() -> (r: Ota)
        ensures
            r == (Ota { transfer: None, reboot: false }),
            r.wf(),
    {
        Ota { transfer: None, reboot: false }
    }

    /// Whether an update is running.
    pub fn active(&self) -> (r: bool)
        ensures
            r == (self.transfer is Some),
    {
        self.transfer.is_some()
    }

    /// Whether the device should reboot into a new image.
    pub fn should_reboot(&self) -> (r: bool)
        ensures
            r == self.reboot,
    {
        self.reboot
    }

    /// Whether an update of that size is worth starting.
    pub fn may_begin(size: i32) -> (r: bool)
        ensures
            r == (size > 0),
    {
        size > 0
    }

    /// The slot has been prepared for `size` bytes, or has not. Returns the reply.
    pub fn began(&mut self, size: i32, ok: bool, now_us: i64) -> (s: &'static str)
        requires
            old(self).wf(),
            size > 0,
        ensures
            final(self).wf(),
            *final(self) == (if ok {
                Ota {
                    transfer: Some(Transfer { remaining: size, acc: 0, last_us: now_us }),
                    ..*old(self)
                }
            } else {
                *old(self)
            }),
            s@ == started_text(ok),
    {
        if ok {
            self.transfer = Some(Transfer { remaining: size, acc: 0, last_us: now_us });
            "OTAREADY\n"
        } else {
            "OTAERR\n"
        }
    }

    /// How many of `len` bytes that came in belong to the image; `None` where no
    /// update is running and the bytes are commands.
    pub fn accept(&self, len: usize) -> (r: Option<usize>)
        requires
            self.wf(),
        ensures
            match r {
                Some(n) => self.transfer matches Some(t) && n == taken(
                    t.remaining as int,
                    len as int,
                ),
                None => self.transfer is None,
            },
    {
        match self.transfer {
            None => None,
            Some(t) => {
                let left: usize = t.remaining as usize;
                Some(
                    if len < left {
                        len
                    } else {
                        left
                    },
                )
            },
        }
    }

    /// The accepted bytes have been written, or the write has failed.
    pub fn written(&mut self, n: usize, ok: bool, now_us: i64) -> (r: Post)
        requires
            old(self).wf(),
            old(self).transfer matches Some(t) && n <= t.remaining,
        ensures
            final(self).wf(),
            final(self).reboot == old(self).reboot,
            (final(self).transfer, r) == after_write(old(self).transfer->0, n as int, ok, now_us),
    {
        match self.transfer {
            None => Post::Quiet,
            Some(t) => {
                if !ok {
                    self.transfer = None;
                    return Post::Failed;
                }
                let left: i32 = t.remaining - n as i32;
                let acc: i32 = t.acc + n as i32;
                if left == 0 {
                    self.transfer = None;
                    Post::Finish
                } else if acc >= ACK_CHUNK {
                    self.transfer = Some(
                        Transfer { remaining: left, acc: acc - ACK_CHUNK, last_us: now_us },
                    );
                    Post::Ack
                } else {
                    self.transfer = Some(Transfer { remaining: left, acc, last_us: now_us });
                    Post::Quiet
                }
            },
        }
    }

    /// The image has been closed and made the one to boot, or has not. Returns the
    /// reply.
    pub fn finished(&mut self, ok: bool) -> (s: &'static str)
        ensures
            *final(self) == (Ota { reboot: old(self).reboot || ok, ..*old(self) }),
            s@ == finished_text(ok),
    {
        if ok {
            self.reboot = true;
            "OTADONE\n"
        } else {
            "OTAERR\n"
        }
    }

    /// Gives up a transfer that has been silent for too long. Returns whether it
    /// did.
    pub fn check_timeout(&mut self, now_us: i64) -> (r: bool)
        requires
            old(self).wf(),
            old(self).transfer matches Some(t) ==> i64::MIN <= now_us - t.last_us <= i64::MAX,
        ensures
            final(self).wf(),
            r == (old(self).transfer matches Some(t) && now_us - t.last_us > TIMEOUT_US),
            r == (old(self).transfer matches Some(t) && now_us - t.last_us > 4_000_000),
            *final(self) == (if r {
                Ota { transfer: None, ..*old(self) }
            } else {
                *old(self)
            }),
    {
        match self.transfer {
            Some(t) => {
                if now_us - t.last_us > TIMEOUT_US {
                    self.transfer = None;
                    true
                } else {
                    false
                }
            },
            None => false,
        }
    }
}

/// What is left of a transfer of `size` bytes after packets of these lengths, each
/// cut to what is still missing.
pub open spec fn left_after(size: int, packets: Seq<nat>) -> int
    decreases packets.len(),
{
    if packets.len() == 0 {
        size
    } else {
        let left = left_after(size, packets.drop_last());
        left - taken(left, packets.last() as int)
    }
}

/// The bytes of all packets together.
pub open spec fn total(packets: Seq<nat>) -> nat
    decreases packets.len(),
{
    if packets.len() == 0 {
        0
    } else {
        total(packets.drop_last()) + packets.last()
    }
}

/// An image is complete exactly when as many bytes have come in as were announced,
/// however they were cut into packets, and it never takes more.
pub proof fn image_is_complete(size: int, packets: Seq<nat>)
    requires
        size > 0,
    ensures
        left_after(size, packets) == if total(packets) < size {
            size - total(packets)
        } else {
            0
        },
    decreases packets.len(),
{
    if packets.len() > 0 {
        image_is_complete(size, packets.drop_last());
    }
}

/// A transfer and how often it was acknowledged, after packets of these lengths.
pub open spec fn run_of(size: i32, packets: Seq<nat>, now_us: i64) -> (Option<Transfer>, nat)
    decreases packets.len(),
{
    if packets.len() == 0 {
        (Some(Transfer { remaining: size, acc: 0, last_us: now_us }), 0)
    } else {
        let (t, acks) = run_of(size, packets.drop_last(), now_us);
        match t {
            None => (None, acks),
            Some(t) => {
                let n = taken(t.remaining as int, packets.last() as int);
                let (next, post) = after_write(t, n, true, now_us);
                (
                    next,
                    acks + if post == Post::Ack {
                        1nat
                    } else {
                        0nat
                    },
                )
            },
        }
    }
}

/// The host is never left without the acknowledgement it waits for: while an image is
/// incomplete, every full chunk of it has been acknowledged exactly once, however the
/// bytes were cut into packets no larger than a chunk.
pub proof fn chunks_are_acknowledged(size: i32, packets: Seq<nat>, now_us: i64)
    requires
        forall|k: int| 0 <= k < packets.len() ==> #[trigger] packets[k] <= ACK_CHUNK,
        total(packets) < size,
    ensures
        ({
            let (t, acks) = run_of(size, packets, now_us);
            &&& t is Some
            &&& t->0.remaining == size - total(packets)
            &&& acks == total(packets) / (ACK_CHUNK as nat)
            &&& t->0.acc == total(packets) % (ACK_CHUNK as nat)
        }),
    decreases packets.len(),
{
    if packets.len() > 0 {
        let before = packets.drop_last();
        assert forall|k: int| 0 <= k < before.len() implies #[trigger] before[k] <= ACK_CHUNK by {
            assert(before[k] == packets[k]);
        }
        assert(packets[packets.len() - 1] <= ACK_CHUNK);
        chunks_are_acknowledged(size, before, now_us);
    }
}

/// A packet is taken as far as the image lacks it: all of it before the end, and no
/// more than is missing.
pub proof fn packets_are_cut_to_the_image(remaining: int, len: int)
    requires
        remaining > 0,
        len >= 0,
    ensures
        taken(remaining, len) <= len,
        taken(remaining, len) <= remaining,
        taken(remaining, len) == len || taken(remaining, len) == remaining,
{
}

/// What follows a write: a failure ends the transfer, the last byte finishes the
/// image, and before that every 2048 bytes since the last acknowledgement call for
/// one. The bytes that are left and the time go on.
pub proof fn writes_are_answered(t: Transfer, n: int, now_us: i64)
    requires
        0 <= n <= t.remaining,
        t.acc >= 0,
        t.remaining > 0,
        t.acc + t.remaining <= i32::MAX,
    ensures
        after_write(t, n, false, now_us) == (None::<Transfer>, Post::Failed),
        n == t.remaining ==> after_write(t, n, true, now_us) == (None::<Transfer>, Post::Finish),
        n < t.remaining ==> ({
            let (r, post) = after_write(t, n, true, now_us);
            &&& r matches Some(u) && {
                &&& u.remaining == t.remaining - n
                &&& u.last_us == now_us
                &&& t.acc + n < 2048 ==> post == Post::Quiet && u.acc == t.acc + n
                &&& t.acc + n >= 2048 ==> post == Post::Ack && u.acc == t.acc + n - 2048
            }
        }),
{
}

/// The words that the host waits for.
pub proof fn updates_answer_in_words(ok: bool)
    ensures
        started_text(true) == "OTAREADY\n"@,
        finished_text(true) == "OTADONE\n"@,
        started_text(false) == "OTAERR\n"@,
        finished_text(false) == "OTAERR\n"@,
{
}

} // verus!
