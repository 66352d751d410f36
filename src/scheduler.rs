use vstd::prelude::*;

verus! {

/// Microseconds in the fixed tick of the observed configuration (1/50 s).
pub const DEFAULT_TICK_PERIOD_US: u64 = 20_000;

/// When simulation ticks run.
#[derive(Clone, Copy, Debug, PartialEq, Eq, Structural)]
pub enum TickPolicy {
    /// One tick each time `period_us` microseconds have passed since the last one.
    FixedPeriod { period_us: u64 },
    /// One tick on every rendered frame.
    EveryFrame,
}

/// Decides, at each frame, whether a simulation tick is due.
#[derive(Clone, Copy, Debug, PartialEq, Eq, Structural)]
pub struct FrameScheduler {
    pub policy: TickPolicy,
    /// The time that the last tick stands for, in microseconds.
    pub last_tick_us: u64,
}

pub open spec fn policy_valid(p: TickPolicy) -> bool {
    match p {
        TickPolicy::FixedPeriod { period_us } => period_us > 0,
        TickPolicy::EveryFrame => true,
    }
}

/// Whether a tick of `period` is due at `now` when the last one stands for `last`.
pub open spec fn due(last: u64, period: u64, now: u64) -> bool {
    now >= last && now - last >= period
}

/// The scheduler after a poll at `now`, and whether a tick runs. A tick that runs
/// stands for the moment one period after the last, so time left over is kept.
pub open spec fn poll_spec(s: FrameScheduler, now: u64) -> (FrameScheduler, bool) {
    match s.policy {
        TickPolicy::FixedPeriod { period_us } => if due(s.last_tick_us, period_us, now) {
            (FrameScheduler { last_tick_us: (s.last_tick_us + period_us) as u64, ..s }, true)
        } else {
            (s, false)
        },
        TickPolicy::EveryFrame => (FrameScheduler { last_tick_us: now, ..s }, true),
    }
}

/// The scheduler after polls at each time of `times`, and how many ticks ran.
pub open spec fn run_polls(s: FrameScheduler, times: Seq<u64>) -> (FrameScheduler, nat)
    decreases times.len(),
{
    if times.len() == 0 {
        (s, 0)
    } else {
        let prev = run_polls(s, times.drop_last());
        let step = poll_spec(prev.0, times.last());
        (step.0, if step.1 { prev.1 + 1 } else { prev.1 })
    }
}

/// Polls start at `start` and never come more than one period apart.
pub open spec fn paced(start: u64, period: u64, times: Seq<u64>) -> bool {
    &&& forall|k: int| 0 <= k < times.len() ==> start <= #[trigger] times[k]
    &&& times.len() > 0 ==> times[0] - start <= period
    &&& forall|k: int|
        0 < k < times.len() ==> times[k - 1] <= #[trigger] times[k] && times[k] - times[k - 1] <= period
}

/// Polls start at `start` and the clock never goes back.
pub open spec fn monotone(start: u64, times: Seq<u64>) -> bool {
    &&& forall|k: int| 0 <= k < times.len() ==> start <= #[trigger] times[k]
    &&& forall|k: int| 0 < k < times.len() ==> times[k - 1] <= #[trigger] times[k]
}

pub open spec fn last_time(start: u64, times: Seq<u64>) -> u64 {
    if times.len() == 0 {
        start
    } else {
        times.last()
    }
}

impl FrameScheduler {
    pub open spec fn valid(self) -> bool {
        policy_valid(self.policy)
    }

    /// A scheduler whose clock starts at `now_us`.
    pub fn new(policy: TickPolicy, now_us: u64) -> (r: FrameScheduler)
        requires
            policy_valid(policy),
        ensures
            r.valid(),
            r.policy == policy,
            r.last_tick_us == now_us,
    {
        FrameScheduler { policy, last_tick_us: now_us }
    }

    /// Polled once per frame: returns whether one simulation tick runs now.
    pub fn poll(&mut self, now_us: u64) -> (tick: bool)
        requires
            old(self).valid(),
        ensures
            final(self).valid(),
            (*final(self), tick) == poll_spec(*old(self), now_us),
    {
        match self.policy {
            TickPolicy::FixedPeriod { period_us } => {
                if now_us >= self.last_tick_us && now_us - self.last_tick_us >= period_us {
                    self.last_tick_us = self.last_tick_us + period_us;
                    true
                } else {
                    false
                }
            },
            TickPolicy::EveryFrame => {
                self.last_tick_us = now_us;
                true
            },
        }
    }
}

proof fn lemma_run_fixed(s: FrameScheduler, period: u64, times: Seq<u64>)
    requires
        s.policy == (TickPolicy::FixedPeriod { period_us: period }),
        period > 0,
        monotone(s.last_tick_us, times),
    ensures
        run_polls(s, times).0.policy == s.policy,
        run_polls(s, times).0.last_tick_us == s.last_tick_us + run_polls(s, times).1 * period,
        run_polls(s, times).0.last_tick_us <= last_time(s.last_tick_us, times),
    decreases times.len(),
{
    if times.len() > 0 {
        lemma_run_fixed(s, period, times.drop_last());
        assert(times.len() > 1 ==> times.drop_last().last() <= times.last()) by {
            if times.len() > 1 {
                assert(times[times.len() - 2] <= times[times.len() - 1]);
            }
        }
        let prev = run_polls(s, times.drop_last());
        assert(prev.0.last_tick_us + period == s.last_tick_us + (prev.1 + 1) * period) by (nonlinear_arith)
            requires
                prev.0.last_tick_us == s.last_tick_us + prev.1 * period,
        ;
    }
}

proof fn lemma_run_paced(s: FrameScheduler, period: u64, times: Seq<u64>)
    requires
        s.policy == (TickPolicy::FixedPeriod { period_us: period }),
        period > 0,
        paced(s.last_tick_us, period, times),
    ensures
        run_polls(s, times).0.policy == s.policy,
        last_time(s.last_tick_us, times) - run_polls(s, times).0.last_tick_us < period,
        run_polls(s, times).0.last_tick_us <= last_time(s.last_tick_us, times),
    decreases times.len(),
{
    if times.len() > 0 {
        let init = times.drop_last();
        assert(paced(s.last_tick_us, period, init));
        lemma_run_paced(s, period, init);
        let k = times.len() - 1;
        if times.len() > 1 {
            assert(times[k - 1] <= times[k] && times[k] - times[k - 1] <= period);
            assert(last_time(s.last_tick_us, init) == times[k - 1]);
        } else {
            assert(times[0] - s.last_tick_us <= period);
        }
        assert(times.last() == times[k]);
    }
}

/// With a fixed period, the ticks that run over any polls of a clock that never
/// goes back are at most the periods that have fully passed; when polls come no
/// more than one period apart, exactly that many run, and none before a full period.
pub proof fn lemma_tick_count(start: u64, period: u64, times: Seq<u64>)
    requires
        period > 0,
        monotone(start, times),
    ensures
        ({
            let s = FrameScheduler { policy: TickPolicy::FixedPeriod { period_us: period }, last_tick_us: start };
            let elapsed = last_time(start, times) - start;
            &&& run_polls(s, times).1 <= elapsed / (period as int)
            &&& paced(start, period, times) ==> run_polls(s, times).1 == elapsed / (period as int)
            &&& elapsed < period ==> run_polls(s, times).1 == 0
        }),
{
    let s = FrameScheduler { policy: TickPolicy::FixedPeriod { period_us: period }, last_tick_us: start };
    lemma_run_fixed(s, period, times);
    let n = run_polls(s, times).1;
    let elapsed = last_time(start, times) - start;
    let p = period as int;
    assert(n * p <= elapsed);
    assert(n <= elapsed / p) by (nonlinear_arith)
        requires
            n * p <= elapsed,
            p > 0,
            n >= 0,
    {
        vstd::arithmetic::div_mod::lemma_fundamental_div_mod(elapsed, p);
        vstd::arithmetic::div_mod::lemma_mod_bound(elapsed, p);
    }
    if paced(start, period, times) {
        lemma_run_paced(s, period, times);
        assert(elapsed - n * p < p);
        assert(n == elapsed / p) by (nonlinear_arith)
            requires
                n * p <= elapsed,
                elapsed - n * p < p,
                p > 0,
                n >= 0,
        {
            vstd::arithmetic::div_mod::lemma_fundamental_div_mod(elapsed, p);
            vstd::arithmetic::div_mod::lemma_mod_bound(elapsed, p);
        }
    }
    if elapsed < period {
        vstd::arithmetic::div_mod::lemma_basic_div(elapsed, p);
    }
}

} // verus!
