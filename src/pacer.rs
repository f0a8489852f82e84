//! Dispatch authorizations at a fixed rate, scheduled from a fixed origin.
//!
//! Times are nanoseconds since the origin. Tick `k` is due at `k * period`;
//! a tick asked for late fires at once, and the one after it is due at the
//! next slot of the grid, so a late tick never starts a catch-up burst.

use vstd::arithmetic::div_mod::*;
use vstd::prelude::*;

verus! {

/// The latest instant a pacer accepts: about 146 years after the origin.
pub const HORIZON_NANOS: u64 = 0x4000_0000_0000_0000;

/// The longest period a pacer accepts: one second, the period of the lowest
/// positive rate.
pub const MAX_PERIOD_NANOS: u64 = 1_000_000_000;

/// When a tick fires that is due at `deadline` and asked for at `now`.
pub open spec fn fire_time(deadline: nat, now: nat) -> nat {
    if now <= deadline {
        deadline
    } else {
        now
    }
}

/// When the tick after one due at `deadline` and fired at `fire` is due:
/// one period later if that is still ahead, else the first slot of the grid
/// after `fire`.
pub open spec fn following_deadline(deadline: nat, fire: nat, period: nat) -> nat
    recommends
        period > 0,
{
    if fire < deadline + period {
        deadline + period
    } else {
        (fire / period + 1) * period
    }
}

/// The tick schedule: its period, the instant the next tick is due, and the
/// instant the last one fired.
#[derive(Debug, Clone, Copy, PartialEq, Eq, Structural)]
pub struct Pacer {
    /// Nanoseconds between ticks.
    pub period: u64,
    /// When the next tick is due.
    pub deadline: u64,
    /// When the last tick fired (the origin before the first).
    pub last_fire: u64,
}

impl Pacer {
    /// The next tick is due on the grid, after the last fire and at most one
    /// period after it.
    pub open spec fn wf(self) -> bool {
        &&& 1 <= self.period <= MAX_PERIOD_NANOS
        &&& self.deadline % self.period == 0
        &&& self.last_fire <= self.deadline <= self.last_fire + self.period
        &&& self.last_fire <= HORIZON_NANOS + self.period
    }

    /// A schedule whose first tick is due at the origin.
    pub fn new(period: u64) -> (r: Pacer)
        requires
            1 <= period <= MAX_PERIOD_NANOS,
        ensures
            r.wf(),
            r.period == period,
            r.deadline == 0,
            r.last_fire == 0,
    {
        proof {
            lemma_small_mod(0, period as nat);
        }
        Pacer { period, deadline: 0, last_fire: 0 }
    }

    /// Takes the next tick, asked for at `now`, and returns when it fires:
    /// when it is due, or at once if that has passed.
    pub fn tick(&mut self, now: u64) -> (fire: u64)
        requires
            old(self).wf(),
            old(self).last_fire <= now <= HORIZON_NANOS,
        ensures
            final(self).wf(),
            fire as nat == fire_time(old(self).deadline as nat, now as nat),
            final(self).deadline as nat == following_deadline(
                old(self).deadline as nat,
                fire as nat,
                old(self).period as nat,
            ),
            final(self).period == old(self).period,
            final(self).last_fire == fire,
            fire < final(self).deadline,
    {
        let p = self.period;
        let d = self.deadline;
        let fire: u64 = if now <= d {
            d
        } else {
            now
        };
        let next: u64 = if fire < d + p {
            d + p
        } else {
            proof {
                lemma_fundamental_div_mod(fire as int, p as int);
                lemma_mod_bound(fire as int, p as int);
                lemma_mod_multiples_basic(fire as int / p as int + 1, p as int);
                assert((fire as int / p as int + 1) * p == (fire as int / p as int) * p + p)
                    by (nonlinear_arith);
                assert((fire as int / p as int) * p == p * (fire as int / p as int))
                    by (nonlinear_arith);
            }
            (fire / p + 1) * p
        };
        proof {
            if fire < d + p {
                lemma_mod_add_multiples_vanish(d as int, p as int);
            }
        }
        self.deadline = next;
        self.last_fire = fire;
        fire
    }
}

/// A tick asked for no later than it is due fires exactly when due, and if
/// the next is also asked for in time, it fires exactly one period later,
/// however long the work between the two took.
pub proof fn lemma_on_time_ticks_one_period_apart(p: Pacer, now1: nat, now2: nat)
    requires
        p.wf(),
        now1 <= p.deadline,
        fire_time(p.deadline as nat, now1) <= now2,
        now2 <= following_deadline(
            p.deadline as nat,
            fire_time(p.deadline as nat, now1),
            p.period as nat,
        ),
    ensures
        fire_time(p.deadline as nat, now1) == p.deadline,
        fire_time(
            following_deadline(
                p.deadline as nat,
                fire_time(p.deadline as nat, now1),
                p.period as nat,
            ),
            now2,
        ) == p.deadline + p.period,
{
}

} // verus!
