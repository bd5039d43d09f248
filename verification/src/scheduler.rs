//! Publish-side scheduling: a fixed-cadence tick clock that compensates for
//! drift by advancing an absolute deadline, batch planning over the topic
//! set, and the per-message jitter bookkeeping.
//!
//! The core invariant is that the next wake time is always the previous
//! intended wake time plus the period — never "now" plus the period — so a
//! tick that overruns makes the loop sleep less on the next iteration
//! instead of shifting the whole cadence forward.

use vstd::prelude::*;

verus! {

/// Default size of the topic set.
pub const DEFAULT_TOPIC_COUNT: usize = 5000;

/// Default number of topics served per tick.
pub const DEFAULT_BATCH_SIZE: usize = 375;

/// Default tick period, in microseconds (80 ms).
pub const DEFAULT_PERIOD_US: u64 = 80_000;

/// A whole batch taking longer than this, in microseconds, draws an
/// operator-visible warning (20 ms). Diagnostic only.
pub const BATCH_WARN_US: u64 = 20_000;

/// A single delivery taking longer than this, in microseconds, draws an
/// operator-visible warning (10 ms). Diagnostic only.
pub const SINGLE_SEND_WARN_US: u64 = 10_000;

/// Static configuration of the publish scheduler, passed once at startup.
#[derive(Clone, Copy, Debug, PartialEq, Eq, Structural)]
pub struct SchedulerConfig {
    pub topic_count: usize,
    pub batch_size: usize,
    pub period_us: u64,
}

impl SchedulerConfig {
    /// A batch may not outsize the topic set, and the cadence must be a
    /// real period.
    pub open spec fn wf(&self) -> bool {
        self.batch_size <= self.topic_count && self.period_us > 0
    }

    /// Builds a configuration, rejecting a batch size larger than the topic
    /// set and a zero period.
    pub fn new(topic_count: usize, batch_size: usize, period_us: u64) -> (r: Option<
        SchedulerConfig,
    >)
        ensures
            (batch_size <= topic_count && period_us > 0) ==> (r matches Some(c) && c.topic_count
                == topic_count && c.batch_size == batch_size && c.period_us == period_us && c.wf()),
            !(batch_size <= topic_count && period_us > 0) ==> r is None,
    {
        if batch_size <= topic_count && period_us > 0 {
            Some(SchedulerConfig { topic_count, batch_size, period_us })
        } else {
            None
        }
    }
}

/// The tick clock: one mutable absolute deadline, in microseconds on a
/// monotonic timebase, advanced by exactly one period per tick.
#[derive(Clone, Copy, Debug, PartialEq, Eq, Structural)]
pub struct TickScheduler {
    pub deadline_us: u64,
    pub period_us: u64,
}

impl TickScheduler {
    pub open spec fn wf(&self) -> bool {
        self.period_us > 0
    }

    /// Anchors the clock: the first tick fires one period from `now_us`.
    pub fn new(now_us: u64, period_us: u64) -> (s: TickScheduler)
        requires
            period_us > 0,
            now_us + period_us <= u64::MAX,
        ensures
            s.wf(),
            s.deadline_us == now_us + period_us,
            s.period_us == period_us,
    {
        TickScheduler { deadline_us: now_us + period_us, period_us }
    }

    /// How long to suspend before the tick may fire: the gap to the
    /// deadline, or nothing when the deadline has already passed — the loop
    /// then self-corrects by not sleeping at all.
    pub fn sleep_gap_us(&self, now_us: u64) -> (r: u64)
        ensures
            now_us < self.deadline_us ==> r == self.deadline_us - now_us,
            now_us >= self.deadline_us ==> r == 0,
    {
        if now_us < self.deadline_us {
            self.deadline_us - now_us
        } else {
            0
        }
    }

    /// Advances the deadline by one period — anchored to the previous
    /// deadline, never recomputed from the current time.
    pub fn advance(&mut self)
        requires
            old(self).wf(),
            old(self).deadline_us + old(self).period_us <= u64::MAX,
        ensures
            final(self).wf(),
            final(self).period_us == old(self).period_us,
            final(self).deadline_us == old(self).deadline_us + old(self).period_us,
    {
        self.deadline_us = self.deadline_us + self.period_us;
    }
}

/// One tick of the publish loop, reduced to its time bookkeeping: the loop
/// wakes no earlier than the deadline, spends `latency` serving the batch,
/// and the deadline advances by one period. Returns the time after the tick
/// and the next deadline.
pub open spec fn tick_times(now: int, deadline: int, period: int, latency: int) -> (int, int) {
    let wake = if now < deadline {
        deadline
    } else {
        now
    };
    (wake + latency, deadline + period)
}

/// The clock state after a whole run: `tick_times` folded over the
/// per-tick latencies.
pub open spec fn run_times(now: int, deadline: int, period: int, latencies: Seq<int>) -> (
    int,
    int,
)
    decreases latencies.len(),
{
    if latencies.len() == 0 {
        (now, deadline)
    } else {
        let stepped = tick_times(now, deadline, period, latencies[0]);
        run_times(stepped.0, stepped.1, period, latencies.skip(1))
    }
}

/// Drift compensation: after K ticks the intended deadline is the initial
/// deadline plus exactly K periods, whatever the individual tick latencies
/// were. Overruns change how long the loop sleeps, never the cadence.
pub proof fn lemma_drift_free(now: int, deadline: int, period: int, latencies: Seq<int>)
    ensures
        run_times(now, deadline, period, latencies).1 == deadline + latencies.len() * period,
    decreases latencies.len(),
{
    if latencies.len() == 0 {
        assert(latencies.len() * period == 0) by (nonlinear_arith)
            requires
                latencies.len() == 0,
        ;
    } else {
        let stepped = tick_times(now, deadline, period, latencies[0]);
        lemma_drift_free(stepped.0, stepped.1, period, latencies.skip(1));
        assert(period + latencies.skip(1).len() * period == latencies.len() * period)
            by (nonlinear_arith)
            requires
                latencies.skip(1).len() == latencies.len() - 1,
                latencies.len() >= 1,
        ;
    }
}

/// Intra-batch jitter: microseconds from the tick's intended deadline to
/// the instant a message is about to be sent. The loop only reaches this
/// point at or after the deadline, so the value is never negative.
pub fn jitter_us(now_us: u64, deadline_us: u64) -> (r: i64)
    requires
        deadline_us <= now_us,
        now_us - deadline_us <= i64::MAX,
    ensures
        r == now_us - deadline_us,
{
    (now_us - deadline_us) as i64
}

/// Later sends in a batch never report less jitter: jitter grows exactly
/// as the capture time does, since all of a tick's messages share one
/// deadline. The first capture at the deadline itself reports zero.
pub proof fn lemma_jitter_monotone(deadline: int, t1: int, t2: int)
    requires
        deadline <= t1 <= t2,
    ensures
        t1 - deadline <= t2 - deadline,
        t1 == deadline ==> t1 - deadline == 0,
{
}

/// The ids served in one tick: the first `batch_size` topics, in stable
/// registration order, so ids within a tick are exactly 0, 1, …, B-1 and
/// strictly increasing.
pub fn batch_ids(cfg: &SchedulerConfig) -> (r: Vec<i32>)
    requires
        cfg.wf(),
        cfg.batch_size <= i32::MAX,
    ensures
        r@.len() == cfg.batch_size,
        forall|i: int| 0 <= i < r@.len() ==> r@[i] == i,
        forall|i: int, j: int| 0 <= i < j < r@.len() ==> r@[i] < r@[j],
{
    let mut ids: Vec<i32> = Vec::new();
    let mut k: usize = 0;
    while k < cfg.batch_size
        invariant
            k <= cfg.batch_size,
            cfg.batch_size <= i32::MAX,
            ids@.len() == k,
            forall|i: int| 0 <= i < k ==> ids@[i] == i,
        decreases cfg.batch_size - k,
    {
        ids.push(k as i32);
        k = k + 1;
    }
    ids
}

/// Diagnostic guardrail: did serving the whole batch overrun the warning
/// threshold? Never alters control flow or the deadline.
pub fn batch_overrun(elapsed_us: u64) -> (r: bool)
    ensures
        r == (elapsed_us > BATCH_WARN_US),
{
    elapsed_us > BATCH_WARN_US
}

/// Diagnostic guardrail: did one delivery overrun the warning threshold?
pub fn single_send_overrun(elapsed_us: u64) -> (r: bool)
    ensures
        r == (elapsed_us > SINGLE_SEND_WARN_US),
{
    elapsed_us > SINGLE_SEND_WARN_US
}

} // verus!
