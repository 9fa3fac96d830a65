//! When a unit sleeps: without telemetry and touch for a while, its panels and lights go
//! dark until either comes back.

use vstd::prelude::*;

verus! {

/// The last signs of use, in milliseconds.
#[derive(Clone, Copy, Debug, PartialEq, Eq, Structural)]
pub struct Activity {
    pub telem_ms: i64,
    pub touch_ms: i64,
}

/// Nothing has come in since `last_ms` for `timeout_s` seconds.
pub open spec fn quiet(now_ms: int, last_ms: int, timeout_s: int) -> bool {
    now_ms - last_ms >= timeout_s * 1000
}

impl Activity {
    /// A unit that was switched on at `now_ms`.
    pub fn new(now_ms: i64) -> (r: Activity)
        ensures
            r == (Activity { telem_ms: now_ms, touch_ms: now_ms }),
    {
        Activity { telem_ms: now_ms, touch_ms: now_ms }
    }

    /// Whether the unit sleeps; with a time to sleep of 0 it never does.
    pub fn sleeps(&self, now_ms: i64, timeout_s: u16) -> (r: bool)
        ensures
            r == (timeout_s > 0 && quiet(now_ms as int, self.telem_ms as int, timeout_s as int)
                && quiet(now_ms as int, self.touch_ms as int, timeout_s as int)),
            r == (timeout_s > 0 && now_ms - self.telem_ms >= 1000 * timeout_s && now_ms
                - self.touch_ms >= 1000 * timeout_s),
    {
        let ms: i128 = timeout_s as i128 * 1000;
        timeout_s > 0 && now_ms as i128 - self.telem_ms as i128 >= ms && now_ms as i128
            - self.touch_ms as i128 >= ms
    }
}

/// Telemetry or a touch wakes a unit at once and keeps it awake, whatever else is quiet.
pub proof fn use_keeps_awake(a: Activity, now_ms: i64, timeout_s: u16)
    requires
        timeout_s > 0,
        a.telem_ms == now_ms || a.touch_ms == now_ms,
    ensures
        !(quiet(now_ms as int, a.telem_ms as int, timeout_s as int) && quiet(
            now_ms as int,
            a.touch_ms as int,
            timeout_s as int,
        )),
{
}

} // verus!
