//! When an effect is triggered. The wave forms themselves are floating-point and
//! live with the control loop.

use vstd::prelude::*;
use crate::pedals::protocol::PedalAction;

verus! {

/// Fires once when its input goes from inactive to active.
#[derive(Clone, Copy, Debug, PartialEq, Eq, Structural)]
pub struct EdgeTrigger {
    pub was_active: bool,
}

impl Default for EdgeTrigger {
    fn default() -> (r: EdgeTrigger)
        ensures
            !r.was_active,
    {
        EdgeTrigger { was_active: false }
    }
}

impl EdgeTrigger {
    /// Takes the input and says whether it has just become active.
    pub fn update(&mut self, active: bool) -> (fired: bool)
        ensures
            fired == (active && !old(self).was_active),
            final(self).was_active == active,
    {
        let fired = active && !self.was_active;
        self.was_active = active;
        fired
    }
}

/// How often a trigger fires over a run of inputs, given whether the input before
/// them was active.
pub open spec fn firings(was_active: bool, inputs: Seq<bool>) -> nat
    decreases inputs.len(),
{
    if inputs.len() == 0 {
        0
    } else {
        firings(inputs[0], inputs.drop_first()) + if inputs[0] && !was_active {
            1nat
        } else {
            0nat
        }
    }
}

/// An input that stays active fires at most once, however long it stays.
pub proof fn held_input_fires_once(was_active: bool, inputs: Seq<bool>)
    requires
        forall|k: int| 0 <= k < inputs.len() ==> #[trigger] inputs[k],
    ensures
        firings(was_active, inputs) == if inputs.len() > 0 && !was_active {
            1nat
        } else {
            0nat
        },
    decreases inputs.len(),
{
    if inputs.len() > 0 {
        let more = inputs.drop_first();
        assert(inputs[0]);
        assert forall|k: int| 0 <= k < more.len() implies #[trigger] more[k] by {
            assert(more[k] == inputs[k + 1]);
        }
        held_input_fires_once(true, more);
    }
}

/// When each effect was last triggered, and the action that did it.
#[derive(Clone, Copy, Debug)]
pub struct Triggers {
    pub abs_ms: i64,
    pub rpm_ms: i64,
    pub wheel_slip_ms: i64,
    pub cv_ms: [i64; 4],
}

impl Triggers {
    pub fn new() -> (r: Triggers)
        ensures
            r.abs_ms == 0,
            r.rpm_ms == 0,
            r.wheel_slip_ms == 0,
            r.cv_ms@ == Seq::new(4, |k: int| 0i64),
    {
        let r = Triggers { abs_ms: 0, rpm_ms: 0, wheel_slip_ms: 0, cv_ms: [0; 4] };
        proof {
            assert(r.cv_ms@ =~= Seq::new(4, |k: int| 0i64));
        }
        r
    }

    /// A new action: every effect it turns on is triggered now, and its RPM value
    /// counts as fresh.
    pub fn apply_action(&mut self, action: &PedalAction, now_ms: i64)
        ensures
            final(self).rpm_ms == now_ms,
            final(self).abs_ms == if action.trigger_abs {
                now_ms
            } else {
                old(self).abs_ms
            },
            final(self).wheel_slip_ms == if action.wheel_slip > 0 {
                now_ms
            } else {
                old(self).wheel_slip_ms
            },
            forall|k: int|
                0 <= k < 4 ==> #[trigger] final(self).cv_ms@[k] == if action.trigger_cv@[k] {
                    now_ms
                } else {
                    old(self).cv_ms@[k]
                },
    {
        if action.trigger_abs {
            self.abs_ms = now_ms;
        }
        self.rpm_ms = now_ms;
        if action.wheel_slip > 0 {
            self.wheel_slip_ms = now_ms;
        }
        let mut k: usize = 0;
        let ghost before = self.cv_ms@;
        while k < 4
            invariant
                k <= 4,
                before.len() == 4,
                forall|j: int|
                    0 <= j < 4 ==> #[trigger] self.cv_ms@[j] == if j < k && action.trigger_cv@[j] {
                        now_ms
                    } else {
                        before[j]
                    },
                self.rpm_ms == now_ms,
                self.abs_ms == if action.trigger_abs {
                    now_ms
                } else {
                    old(self).abs_ms
                },
                self.wheel_slip_ms == if action.wheel_slip > 0 {
                    now_ms
                } else {
                    old(self).wheel_slip_ms
                },
                before == old(self).cv_ms@,
            decreases 4 - k,
        {
            if action.trigger_cv[k] {
                self.cv_ms[k] = now_ms;
            }
            k += 1;
        }
    }
}

/// Firings add up: over two runs of inputs a trigger fires as often as over the first,
/// and then over the second with what the first left.
pub proof fn firings_add_up(was_active: bool, a: Seq<bool>, b: Seq<bool>)
    ensures
        firings(was_active, a + b) == firings(was_active, a) + firings(
            if a.len() > 0 {
                a.last()
            } else {
                was_active
            },
            b,
        ),
        firings(was_active, seq![true]) == (if was_active {
            0nat
        } else {
            1nat
        }),
        firings(was_active, seq![false]) == 0,
    decreases a.len(),
{
    assert(seq![true].drop_first() =~= Seq::<bool>::empty());
    assert(seq![false].drop_first() =~= Seq::<bool>::empty());
    assert(firings(true, Seq::<bool>::empty()) == 0 && firings(false, Seq::<bool>::empty()) == 0);
    if a.len() == 0 {
        assert(a + b =~= b);
    } else {
        firings_add_up(a[0], a.drop_first(), b);
        assert((a + b).drop_first() =~= a.drop_first() + b);
        if a.len() > 1 {
            assert(a.drop_first().last() == a.last());
        }
    }
}

} // verus!
