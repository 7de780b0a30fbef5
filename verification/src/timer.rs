//! The cadence of the timers: sixty ticks a second of the host's clock,
//! whatever the rate at which instructions run.

use vstd::prelude::*;
use crate::chip8::Chip8;

verus! {

/// The number of timer ticks in a second.
pub const TIMER_HZ: u64 = 60;

/// The number of microseconds in a second.
pub const MICROS_PER_SECOND: u64 = 1_000_000;

/// The number of ticks that have come due `micros` microseconds after the
/// clock started: one for every full sixtieth of a second.
pub open spec fn ticks_due(micros: nat) -> nat {
    micros * TIMER_HZ as nat / MICROS_PER_SECOND as nat
}

/// The number of ticks that come due between two readings of the clock.
/// A clock that has gone backwards yields none.
pub open spec fn ticks_between(since: nat, now: nat) -> nat {
    if now >= since {
        (ticks_due(now) - ticks_due(since)) as nat
    } else {
        0
    }
}

/// Ticks come due in step with the clock: the later the reading, the more
/// ticks are due.
pub proof fn lemma_ticks_due_monotonic(earlier: nat, later: nat)
    requires
        earlier <= later,
    ensures
        ticks_due(earlier) <= ticks_due(later),
{
    assert(earlier * 60 <= later * 60);
    vstd::arithmetic::div_mod::lemma_div_is_ordered(
        (earlier * 60) as int,
        (later * 60) as int,
        1_000_000,
    );
}

/// After a whole number of seconds, sixty ticks are due for each.
pub proof fn lemma_ticks_due_per_second(seconds: nat)
    ensures
        ticks_due(seconds * MICROS_PER_SECOND as nat) == TIMER_HZ * seconds,
{
    assert(seconds * 1_000_000 * 60 == (60 * seconds) * 1_000_000) by (nonlinear_arith);
    vstd::arithmetic::div_mod::lemma_div_by_multiple((60 * seconds) as int, 1_000_000);
}

/// The ticks that come due over two stretches of time that follow each
/// other are those that come due over the whole.
pub proof fn lemma_ticks_between_adds(a: nat, b: nat, c: nat)
    requires
        a <= b <= c,
    ensures
        ticks_between(a, b) + ticks_between(b, c) == ticks_between(a, c),
{
    lemma_ticks_due_monotonic(a, b);
    lemma_ticks_due_monotonic(b, c);
}

/// The number of ticks that have come due `micros` microseconds after the
/// clock started.
pub fn ticks_elapsed(micros: u64) -> (ticks: u64)
    ensures
        ticks == ticks_due(micros as nat),
{
    let seconds: u64 = micros / 1_000_000;
    let rest: u64 = micros % 1_000_000;
    proof {
        let whole = 60 * seconds + (rest * 60) / 1_000_000;
        let left = (rest * 60) % 1_000_000;
        assert(micros * 60 == whole * 1_000_000 + left);
        vstd::arithmetic::div_mod::lemma_fundamental_div_mod_converse(
            micros * 60,
            1_000_000,
            whole,
            left,
        );
    }
    seconds * 60 + rest * 60 / 1_000_000
}

impl Chip8 {
    /// Counts the timers down by the ticks that came due between two
    /// readings of the host's clock, `since` and `now`, both in
    /// microseconds from the same start. Sixty ticks come due each second,
    /// however many instructions have run in between.
    pub fn run_timers(&mut self, since: u64, now: u64)
        ensures
            final(self)@ == old(self)@.tick(ticks_between(since as nat, now as nat)),
            final(self).wf() == old(self).wf(),
    {
        if now >= since {
            proof {
                lemma_ticks_due_monotonic(since as nat, now as nat);
            }
            let ticks: u64 = ticks_elapsed(now) - ticks_elapsed(since);
            self.advance_timers(ticks);
        } else {
            self.advance_timers(0);
        }
    }
}

} // verus!
