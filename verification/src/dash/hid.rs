//! The button box: 32 buttons that the sim sees as a game controller.

use vstd::prelude::*;

verus! {

/// The number of buttons.
pub const BUTTONS: usize = 32;

/// Whether a button is held in a mask.
pub open spec fn is_held(mask: u32, btn: int) -> bool {
    (mask >> (btn as u32)) & 1u32 == 1u32
}

/// The state of the button box.
#[derive(Clone, Copy, Debug, PartialEq, Eq, Structural)]
pub struct Gamepad {
    /// The buttons that are held.
    pub mask: u32,
    /// The buttons that the host knows to be held.
    pub sent: u32,
    /// The host has got a report since it was connected.
    pub baseline_sent: bool,
}

/// The bytes of a mask, the lowest first.
pub open spec fn mask_bytes(mask: u32) -> Seq<u8> {
    seq![
        (mask % 256) as u8,
        (mask / 0x100 % 256) as u8,
        (mask / 0x1_0000 % 256) as u8,
        (mask / 0x100_0000) as u8,
    ]
}

impl Gamepad {
    pub fn new() -> (r: Gamepad)
        ensures
            r == (Gamepad { mask: 0, sent: 0, baseline_sent: false }),
    {
        Gamepad { mask: 0, sent: 0, baseline_sent: false }
    }

    /// Holds or releases a button; one that is not there is ignored.
    pub fn set(&mut self, btn: usize, pressed: bool)
        ensures
            btn >= BUTTONS ==> *final(self) == *old(self),
            btn < BUTTONS ==> forall|k: int|
                0 <= k < 32 ==> #[trigger] is_held(final(self).mask, k) == if k == btn {
                    pressed
                } else {
                    is_held(old(self).mask, k)
                },
            final(self).sent == old(self).sent,
            final(self).baseline_sent == old(self).baseline_sent,
    {
        if btn >= BUTTONS {
            return;
        }
        let b: u32 = btn as u32;
        let m: u32 = self.mask;
        if pressed {
            self.mask = m | (1u32 << b);
            proof {
                assert forall|k: int| 0 <= k < 32 implies #[trigger] is_held(self.mask, k) == if k
                    == btn {
                    pressed
                } else {
                    is_held(m, k)
                } by {
                    lemma_set(m, b, k as u32);
                }
            }
        } else {
            self.mask = m & !(1u32 << b);
            proof {
                assert forall|k: int| 0 <= k < 32 implies #[trigger] is_held(self.mask, k) == if k
                    == btn {
                    pressed
                } else {
                    is_held(m, k)
                } by {
                    lemma_clear(m, b, k as u32);
                }
            }
        }
    }

    /// The report to send, if any: where the buttons changed, and once after the
    /// host was connected.
    pub fn service(&mut self, ready: bool) -> (r: Option<[u8; 4]>)
        ensures
            *final(self) == (Gamepad {
                baseline_sent: old(self).baseline_sent && ready,
                ..*old(self)
            }),
            match r {
                Some(b) => ready && (old(self).mask != old(self).sent || !old(self).baseline_sent)
                    && b@ == mask_bytes(old(self).mask),
                None => !ready || old(self).mask == old(self).sent && old(self).baseline_sent,
            },
    {
        if !ready {
            self.baseline_sent = false;
            return None;
        }
        if self.mask == self.sent && self.baseline_sent {
            return None;
        }
        let m: u32 = self.mask;
        let b: [u8; 4] = [
            (m % 256) as u8,
            (m / 0x100 % 256) as u8,
            (m / 0x1_0000 % 256) as u8,
            (m / 0x100_0000) as u8,
        ];
        proof {
            assert(b@ =~= mask_bytes(m));
        }
        Some(b)
    }

    /// The report of a mask has been sent. A button that changed since then is reported
    /// next.
    pub fn reported(&mut self, mask: u32)
        ensures
            *final(self) == (Gamepad { sent: mask, baseline_sent: true, ..*old(self) }),
    {
        self.sent = mask;
        self.baseline_sent = true;
    }
}

proof fn lemma_set(m: u32, b: u32, k: u32)
    requires
        b < 32,
        k < 32,
    ensures
        is_held(m | (1u32 << b), k as int) == (k == b || is_held(m, k as int)),
{
    assert((((m | (1u32 << b)) >> k) & 1u32 == 1u32) == (k == b || (m >> k) & 1u32 == 1u32))
        by (bit_vector)
        requires
            b < 32,
            k < 32,
    ;
}

proof fn lemma_clear(m: u32, b: u32, k: u32)
    requires
        b < 32,
        k < 32,
    ensures
        is_held(m & !(1u32 << b), k as int) == (k != b && is_held(m, k as int)),
{
    assert((((m & !(1u32 << b)) >> k) & 1u32 == 1u32) == (k != b && (m >> k) & 1u32 == 1u32))
        by (bit_vector)
        requires
            b < 32,
            k < 32,
    ;
}

/// The buttons of a new button box are all released.
pub proof fn starts_released(k: int)
    requires
        0 <= k < 32,
    ensures
        !is_held(0, k),
{
    let j = k as u32;
    assert((0u32 >> j) & 1u32 != 1u32) by (bit_vector);
}

/// The bytes of a report tell the buttons: two masks with the same bytes are one.
pub proof fn reports_tell_masks(a: u32, b: u32)
    requires
        mask_bytes(a) == mask_bytes(b),
    ensures
        a == b,
{
    assert(mask_bytes(a)[0] == mask_bytes(b)[0]);
    assert(mask_bytes(a)[1] == mask_bytes(b)[1]);
    assert(mask_bytes(a)[2] == mask_bytes(b)[2]);
    assert(mask_bytes(a)[3] == mask_bytes(b)[3]);
}

/// The bytes of a report are weighed by place, the lowest first: together they are
/// the mask.
pub proof fn reports_hold_the_mask(m: u32)
    ensures
        mask_bytes(m).len() == 4,
        mask_bytes(m)[0] + 0x100 * mask_bytes(m)[1] + 0x1_0000 * mask_bytes(m)[2] + 0x100_0000
            * mask_bytes(m)[3] == m,
{
}

/// Button `b` is the bit of its number: the mask of that one button is 2 to the
/// power of it, so button 0 is the lowest bit and each next one the next.
pub proof fn buttons_are_bits(b: u32)
    requires
        b < 32,
    ensures
        is_held(1u32 << b, b as int),
        forall|k: int| 0 <= k < 32 && k != b ==> !#[trigger] is_held(1u32 << b, k),
        is_held(1, 0),
        is_held(2, 1),
        is_held(0x8000_0000, 31),
{
    assert((1u32 << b) >> b & 1u32 == 1u32) by (bit_vector)
        requires
            b < 32,
    ;
    assert forall|k: int| 0 <= k < 32 && k != b implies !#[trigger] is_held(1u32 << b, k) by {
        let j = k as u32;
        assert(((1u32 << b) >> j) & 1u32 != 1u32) by (bit_vector)
            requires
                b < 32,
                j < 32,
                b != j,
        ;
    }
    assert((1u32 >> 0u32) & 1u32 == 1u32 && (2u32 >> 1u32) & 1u32 == 1u32 && (0x8000_0000u32
        >> 31u32) & 1u32 == 1u32) by (bit_vector);
}

} // verus!
