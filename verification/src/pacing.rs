use vstd::prelude::*;

verus! {

/// Microseconds in one second.
pub const MICROS_PER_SECOND: u64 = 1_000_000;

/// The tick period for a target frame rate, in microseconds.
///
/// Rates above one tick per microsecond would give a zero period and
/// an unpaced loop, so they are excluded.
pub fn period_micros(fps: u32) -> (p: u64)
    requires
        1 <= fps <= MICROS_PER_SECOND,
    ensures
        p == MICROS_PER_SECOND as int / fps as int,
        1 <= p <= MICROS_PER_SECOND,
{
    proof {
        vstd::arithmetic::div_mod::lemma_div_nonincreasing(
            MICROS_PER_SECOND as int,
            fps as int,
        );
        assert(MICROS_PER_SECOND as int / fps as int >= 1) by (nonlinear_arith)
            requires
                1 <= fps <= MICROS_PER_SECOND,
        ;
    }
    MICROS_PER_SECOND / fps as u64
}

/// Fixed-period tick scheduling: a base instant and a period, both in
/// microseconds, with the deadline of the next tick. Processing time
/// is subtracted from each sleep because the next deadline is computed
/// from the previous deadline, never from the current time; a slow
/// tick shortens the following sleep to zero instead of shifting every
/// later deadline.
pub struct Pacer {
    pub period: u64,
    pub deadline: u64,
}

/// The deadline of the `n`-th tick under fixed-period scheduling: each
/// tick moves the deadline forward by exactly one period from the
/// previous deadline.
pub open spec fn spec_nth_deadline(base: int, period: int, n: nat) -> int
    decreases n,
{
    if n == 0 {
        base
    } else {
        spec_nth_deadline(base, period, (n - 1) as nat) + period
    }
}

/// Fixed-period scheduling does not drift: the `n`-th deadline is the
/// base plus exactly `n` periods, however long each tick's processing
/// took.
pub proof fn lemma_fixed_period_schedule(base: int, period: int, n: nat)
    ensures
        spec_nth_deadline(base, period, n) == base + n * period,
    decreases n,
{
    if n == 0 {
        assert(n * period == 0) by (nonlinear_arith)
            requires
                n == 0,
        ;
    } else {
        let m = (n - 1) as nat;
        lemma_fixed_period_schedule(base, period, m);
        assert(n * period == m * period + period) by (nonlinear_arith)
            requires
                n == m + 1,
        ;
    }
}

impl Pacer {
    /// The period is non-zero, so deadlines strictly advance.
    pub open spec fn wf(self) -> bool {
        self.period >= 1
    }

    /// Starts pacing at `now`: the first tick's deadline is one period
    /// later.
    pub fn new(now: u64, fps: u32) -> (p: Pacer)
        requires
            1 <= fps <= MICROS_PER_SECOND,
            now + MICROS_PER_SECOND <= u64::MAX,
        ensures
            p.period == MICROS_PER_SECOND as int / fps as int,
            p.deadline == now + p.period,
            p.wf(),
    {
        let period = period_micros(fps);
        Pacer { period, deadline: now + period }
    }

    /// How long to sleep from `now` until the next deadline: zero when
    /// the deadline has already passed, so a late loop catches up
    /// immediately instead of drifting.
    pub fn sleep_micros(&self, now: u64) -> (d: u64)
        ensures
            d == (if now >= self.deadline {
                0int
            } else {
                self.deadline - now
            }),
    {
        if now >= self.deadline {
            0
        } else {
            self.deadline - now
        }
    }

    /// Moves the deadline to the next tick: exactly one period later,
    /// regardless of how long the tick's processing took.
    pub fn advance(&mut self)
        requires
            old(self).deadline + old(self).period <= u64::MAX,
        ensures
            final(self).period == old(self).period,
            final(self).deadline == old(self).deadline + old(self).period,
    {
        self.deadline = self.deadline + self.period;
    }
}

} // verus!
