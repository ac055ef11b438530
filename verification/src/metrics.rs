//! Process-wide runtime counters: RPC latency histograms, gauges and throughput totals.
//!
//! Counters wrap on overflow, as atomic `fetch_add` does; maxima only ever grow.
use vstd::prelude::*;
use vstd::wrapping::u64_specs::{wrapping_add, wrapping_sub};

verus! {

/// Number of latency histogram buckets.
pub const LATENCY_BUCKET_COUNT: usize = 15;

/// Upper bound (inclusive, microseconds) of latency bucket `i`; the last bucket is unbounded.
pub open spec fn bucket_upper(i: int) -> u64 {
    if i == 0 {
        1_000
    } else if i == 1 {
        2_000
    } else if i == 2 {
        5_000
    } else if i == 3 {
        10_000
    } else if i == 4 {
        20_000
    } else if i == 5 {
        50_000
    } else if i == 6 {
        100_000
    } else if i == 7 {
        200_000
    } else if i == 8 {
        300_000
    } else if i == 9 {
        500_000
    } else if i == 10 {
        1_000_000
    } else if i == 11 {
        2_000_000
    } else if i == 12 {
        5_000_000
    } else if i == 13 {
        10_000_000
    } else {
        u64::MAX
    }
}

fn bucket_upper_us(i: usize) -> (u: u64)
    ensures
        u == bucket_upper(i as int),
{
    if i == 0 {
        1_000
    } else if i == 1 {
        2_000
    } else if i == 2 {
        5_000
    } else if i == 3 {
        10_000
    } else if i == 4 {
        20_000
    } else if i == 5 {
        50_000
    } else if i == 6 {
        100_000
    } else if i == 7 {
        200_000
    } else if i == 8 {
        300_000
    } else if i == 9 {
        500_000
    } else if i == 10 {
        1_000_000
    } else if i == 11 {
        2_000_000
    } else if i == 12 {
        5_000_000
    } else if i == 13 {
        10_000_000
    } else {
        u64::MAX
    }
}

/// The first bucket at or after `i` whose bound holds `elapsed_us`.
pub open spec fn bucket_index_from(elapsed_us: u64, i: int) -> int
    decreases LATENCY_BUCKET_COUNT - i,
{
    if i >= LATENCY_BUCKET_COUNT - 1 || elapsed_us <= bucket_upper(i) {
        i
    } else {
        bucket_index_from(elapsed_us, i + 1)
    }
}

/// The histogram bucket of a latency: the first whose bound is at least the latency.
pub open spec fn bucket_index(elapsed_us: u64) -> int {
    bucket_index_from(elapsed_us, 0)
}

/// The kinds of RPC whose latency is tracked.
#[derive(Debug, Clone, Copy, PartialEq, Eq)]
pub enum RpcKind {
    TransformOther,
    TransformCarrier,
    TransformPlane,
    Hook,
}

impl RpcKind {
    /// Position of the kind in the per-kind statistics.
    pub fn index(self) -> (i: usize)
        ensures
            i == match self {
                RpcKind::TransformOther => 0usize,
                RpcKind::TransformCarrier => 1,
                RpcKind::TransformPlane => 2,
                RpcKind::Hook => 3,
            },
    {
        match self {
            RpcKind::TransformOther => 0,
            RpcKind::TransformCarrier => 1,
            RpcKind::TransformPlane => 2,
            RpcKind::Hook => 3,
        }
    }

    /// Log label of the kind.
    pub fn label(self) -> (s: &'static str)
        ensures
            s@ == match self {
                RpcKind::TransformOther => "transform_other"@,
                RpcKind::TransformCarrier => "transform_carrier"@,
                RpcKind::TransformPlane => "transform_plane"@,
                RpcKind::Hook => "hook"@,
            },
    {
        match self {
            RpcKind::TransformOther => "transform_other",
            RpcKind::TransformCarrier => "transform_carrier",
            RpcKind::TransformPlane => "transform_plane",
            RpcKind::Hook => "hook",
        }
    }
}

/// How a timed operation ended.
#[derive(Debug, Clone, Copy, PartialEq, Eq)]
pub enum TimerOutcome {
    Success,
    Error,
    Timeout,
}

/// Call counts and latency histogram of one kind of operation.
#[derive(Debug, Clone, Copy)]
pub struct LatencyStats {
    pub calls: u64,
    pub successes: u64,
    pub errors: u64,
    pub timeouts: u64,
    pub total_us: u64,
    pub max_us: u64,
    pub buckets: [u64; 15],
}

/// Summary of a `LatencyStats`, latencies in microseconds.
#[derive(Debug, Clone, Copy, PartialEq, Eq)]
pub struct LatencySnapshot {
    pub calls: u64,
    pub successes: u64,
    pub errors: u64,
    pub timeouts: u64,
    pub total_us: u64,
    pub max_us: u64,
    pub p50_us: u64,
    pub p95_us: u64,
    pub p99_us: u64,
}

/// `min(a + b, u64::MAX)`.
pub open spec fn sat_add(a: u64, b: u64) -> u64 {
    if a + b > u64::MAX {
        u64::MAX
    } else {
        (a + b) as u64
    }
}

/// Saturating count of the first `i` buckets.
pub open spec fn cumulative(buckets: Seq<u64>, i: int) -> u64
    decreases i,
{
    if i <= 0 {
        0
    } else {
        sat_add(cumulative(buckets, i - 1), buckets[i - 1])
    }
}

/// The bound reported for bucket `i`: the unbounded last bucket reports the last finite bound.
pub open spec fn reported_bound(i: int) -> u64 {
    if bucket_upper(i) == u64::MAX {
        bucket_upper(LATENCY_BUCKET_COUNT - 2)
    } else {
        bucket_upper(i)
    }
}

/// The first bucket at or after `i` whose cumulative count reaches `target`.
pub open spec fn percentile_bucket_from(buckets: Seq<u64>, target: u64, i: int) -> Option<int>
    decreases LATENCY_BUCKET_COUNT - i,
{
    if i < 0 || i >= LATENCY_BUCKET_COUNT {
        None
    } else if cumulative(buckets, i + 1) >= target {
        Some(i)
    } else {
        percentile_bucket_from(buckets, target, i + 1)
    }
}

/// The rank of a percentile among `calls` observations: `ceil(calls * p / 100)` (the product
/// saturating), at least one.
pub open spec fn percentile_target(calls: u64, percentile: u64) -> u64 {
    let product = if calls * percentile > u64::MAX {
        u64::MAX as int
    } else {
        calls * percentile
    };
    let ceil = (product + 99) / 100;
    if ceil < 1 {
        1
    } else {
        ceil as u64
    }
}

/// Upper-bound estimate (microseconds) of a latency percentile from the histogram: the bound of
/// the first bucket whose cumulative count reaches the percentile's rank; zero without calls.
pub open spec fn spec_percentile_us(calls: u64, buckets: Seq<u64>, percentile: u64) -> u64 {
    if calls == 0 {
        0
    } else {
        match percentile_bucket_from(buckets, percentile_target(calls, percentile), 0) {
            Some(i) => reported_bound(i),
            None => 0,
        }
    }
}

/// Upper-bound estimate (microseconds) of a latency percentile (see `spec_percentile_us`).
pub fn percentile_us(calls: u64, buckets: &[u64; 15], percentile: u64) -> (r: u64)
    ensures
        r == spec_percentile_us(calls, buckets@, percentile),
{
    if calls == 0 {
        return 0;
    }
    let product = match calls.checked_mul(percentile) {
        Some(p) => p,
        None => u64::MAX,
    };
    let q = product / 100;
    let ceil = if product % 100 == 0 {
        q
    } else {
        q + 1
    };
    let target = if ceil < 1 {
        1
    } else {
        ceil
    };
    assert(target == percentile_target(calls, percentile)) by {
        assert(product as int == if calls * percentile > u64::MAX {
            u64::MAX as int
        } else {
            calls * percentile
        });
    }
    let mut cumulative_count: u64 = 0;
    let mut i: usize = 0;
    while i < LATENCY_BUCKET_COUNT
        invariant
            i <= LATENCY_BUCKET_COUNT,
            calls != 0,
            target == percentile_target(calls, percentile),
            cumulative_count == cumulative(buckets@, i as int),
            percentile_bucket_from(buckets@, target, 0) == percentile_bucket_from(
                buckets@,
                target,
                i as int,
            ),
        decreases LATENCY_BUCKET_COUNT - i,
    {
        cumulative_count = cumulative_count.saturating_add(buckets[i]);
        assert(cumulative_count == cumulative(buckets@, i + 1));
        if cumulative_count >= target {
            assert(percentile_bucket_from(buckets@, target, i as int) == Some(i as int));
            let upper = bucket_upper_us(i);
            return if upper == u64::MAX {
                bucket_upper_us(LATENCY_BUCKET_COUNT - 2)
            } else {
                upper
            };
        }
        i += 1;
    }
    0
}

impl LatencyStats {
    /// No observations.
    pub fn new() -> (s: LatencyStats)
        ensures
            s.calls == 0 && s.successes == 0 && s.errors == 0 && s.timeouts == 0 && s.total_us == 0
                && s.max_us == 0,
            forall|i: int| 0 <= i < LATENCY_BUCKET_COUNT ==> s.buckets@[i] == 0,
    {
        LatencyStats {
            calls: 0,
            successes: 0,
            errors: 0,
            timeouts: 0,
            total_us: 0,
            max_us: 0,
            buckets: [0u64; 15],
        }
    }

    /// Records one observation of `elapsed_us` microseconds that ended with `outcome`.
    pub fn observe(&mut self, elapsed_us: u64, outcome: TimerOutcome)
        ensures
            final(self).calls == wrapping_add(old(self).calls, 1),
            final(self).successes == if outcome == TimerOutcome::Success {
                wrapping_add(old(self).successes, 1)
            } else {
                old(self).successes
            },
            final(self).errors == if outcome == TimerOutcome::Error {
                wrapping_add(old(self).errors, 1)
            } else {
                old(self).errors
            },
            final(self).timeouts == if outcome == TimerOutcome::Timeout {
                wrapping_add(old(self).timeouts, 1)
            } else {
                old(self).timeouts
            },
            final(self).total_us == wrapping_add(old(self).total_us, elapsed_us),
            final(self).max_us == if elapsed_us > old(self).max_us {
                elapsed_us
            } else {
                old(self).max_us
            },
            0 <= bucket_index(elapsed_us) < LATENCY_BUCKET_COUNT,
            final(self).buckets@ == old(self).buckets@.update(
                bucket_index(elapsed_us),
                wrapping_add(old(self).buckets@[bucket_index(elapsed_us)], 1),
            ),
    {
        self.calls = self.calls.wrapping_add(1);
        match outcome {
            TimerOutcome::Success => self.successes = self.successes.wrapping_add(1),
            TimerOutcome::Error => self.errors = self.errors.wrapping_add(1),
            TimerOutcome::Timeout => self.timeouts = self.timeouts.wrapping_add(1),
        }
        self.total_us = self.total_us.wrapping_add(elapsed_us);
        if elapsed_us > self.max_us {
            self.max_us = elapsed_us;
        }
        let mut index: usize = 0;
        while index < LATENCY_BUCKET_COUNT - 1 && elapsed_us > bucket_upper_us(index)
            invariant
                index <= LATENCY_BUCKET_COUNT - 1,
                bucket_index(elapsed_us) == bucket_index_from(elapsed_us, index as int),
            decreases LATENCY_BUCKET_COUNT - index,
        {
            index += 1;
        }
        let count = self.buckets[index];
        self.buckets[index] = count.wrapping_add(1);
    }

    /// Counts and percentile estimates of the observations so far.
    pub fn snapshot(&self) -> (s: LatencySnapshot)
        ensures
            s.calls == self.calls,
            s.successes == self.successes,
            s.errors == self.errors,
            s.timeouts == self.timeouts,
            s.total_us == self.total_us,
            s.max_us == self.max_us,
            s.p50_us == spec_percentile_us(self.calls, self.buckets@, 50),
            s.p95_us == spec_percentile_us(self.calls, self.buckets@, 95),
            s.p99_us == spec_percentile_us(self.calls, self.buckets@, 99),
    {
        LatencySnapshot {
            calls: self.calls,
            successes: self.successes,
            errors: self.errors,
            timeouts: self.timeouts,
            total_us: self.total_us,
            max_us: self.max_us,
            p50_us: percentile_us(self.calls, &self.buckets, 50),
            p95_us: percentile_us(self.calls, &self.buckets, 95),
            p99_us: percentile_us(self.calls, &self.buckets, 99),
        }
    }
}

/// Which statistics a timer reports to.
#[derive(Debug, Clone, Copy, PartialEq, Eq)]
pub enum TimerTarget {
    Rpc(RpcKind),
    RecoveryLoop,
}

/// A running measurement. It is finished by `success`, `timeout` or `finish`, which record the
/// elapsed time with the corresponding outcome.
#[derive(Debug, Clone, Copy, PartialEq, Eq)]
pub struct MetricTimer {
    pub target: TimerTarget,
    pub outcome: TimerOutcome,
}

/// Which gauge a guard holds.
#[derive(Debug, Clone, Copy, PartialEq, Eq)]
pub enum Gauge {
    ActiveStreams,
    ActiveRecoveries,
}

/// One unit of a gauge, held until `release`.
#[derive(Debug, PartialEq, Eq)]
pub struct GaugeGuard {
    pub gauge: Gauge,
}

/// Runtime counters of the whole process.
#[derive(Debug, Clone, Copy)]
pub struct RuntimeMetrics {
    pub rpc_calls: u64,
    pub rpc_transform_other: LatencyStats,
    pub rpc_transform_carrier: LatencyStats,
    pub rpc_transform_plane: LatencyStats,
    pub rpc_hook: LatencyStats,
    pub recovery_loop: LatencyStats,
    pub tick_lag: LatencyStats,
    pub active_streams: u64,
    pub active_recoveries: u64,
    pub queue_high_watermark: u64,
    pub hook_samples_dropped: u64,
    pub io_bytes: u64,
    pub render_count: u64,
    pub render_time_us: u64,
}

/// The statistics of an RPC kind.
pub open spec fn rpc_stats(m: RuntimeMetrics, kind: RpcKind) -> LatencyStats {
    match kind {
        RpcKind::TransformOther => m.rpc_transform_other,
        RpcKind::TransformCarrier => m.rpc_transform_carrier,
        RpcKind::TransformPlane => m.rpc_transform_plane,
        RpcKind::Hook => m.rpc_hook,
    }
}

/// The statistics a timer reports to.
pub open spec fn target_stats(m: RuntimeMetrics, target: TimerTarget) -> LatencyStats {
    match target {
        TimerTarget::Rpc(kind) => rpc_stats(m, kind),
        TimerTarget::RecoveryLoop => m.recovery_loop,
    }
}

/// The value of a gauge.
pub open spec fn gauge_value(m: RuntimeMetrics, gauge: Gauge) -> u64 {
    match gauge {
        Gauge::ActiveStreams => m.active_streams,
        Gauge::ActiveRecoveries => m.active_recoveries,
    }
}

/// `after` is `before` with only the statistics of `target` changed, to `stats`.
pub open spec fn with_target_stats(before: RuntimeMetrics, after: RuntimeMetrics, target: TimerTarget, stats: LatencyStats) -> bool {
    &&& target_stats(after, target) == stats
    &&& after.rpc_calls == before.rpc_calls
    &&& after.tick_lag == before.tick_lag
    &&& after.active_streams == before.active_streams
    &&& after.active_recoveries == before.active_recoveries
    &&& after.queue_high_watermark == before.queue_high_watermark
    &&& after.hook_samples_dropped == before.hook_samples_dropped
    &&& after.io_bytes == before.io_bytes
    &&& after.render_count == before.render_count
    &&& after.render_time_us == before.render_time_us
    &&& forall|k: RpcKind| target != TimerTarget::Rpc(k) ==> #[trigger] rpc_stats(after, k) == rpc_stats(before, k)
    &&& target != TimerTarget::RecoveryLoop ==> after.recovery_loop == before.recovery_loop
}

/// The result of recording one observation in a copy of `stats`.
pub open spec fn observed(stats: LatencyStats, after: LatencyStats, elapsed_us: u64, outcome: TimerOutcome) -> bool {
    &&& after.calls == wrapping_add(stats.calls, 1)
    &&& after.successes == if outcome == TimerOutcome::Success {
        wrapping_add(stats.successes, 1)
    } else {
        stats.successes
    }
    &&& after.errors == if outcome == TimerOutcome::Error {
        wrapping_add(stats.errors, 1)
    } else {
        stats.errors
    }
    &&& after.timeouts == if outcome == TimerOutcome::Timeout {
        wrapping_add(stats.timeouts, 1)
    } else {
        stats.timeouts
    }
    &&& after.total_us == wrapping_add(stats.total_us, elapsed_us)
    &&& after.max_us == if elapsed_us > stats.max_us {
        elapsed_us
    } else {
        stats.max_us
    }
    &&& after.buckets@ == stats.buckets@.update(
        bucket_index(elapsed_us),
        wrapping_add(stats.buckets@[bucket_index(elapsed_us)], 1),
    )
}

impl RuntimeMetrics {
    /// All counters at zero.
    pub fn new() -> (m: RuntimeMetrics)
        ensures
            m.rpc_calls == 0 && m.active_streams == 0 && m.active_recoveries == 0
                && m.queue_high_watermark == 0 && m.hook_samples_dropped == 0 && m.io_bytes == 0
                && m.render_count == 0 && m.render_time_us == 0,
            forall|k: RpcKind| #[trigger] rpc_stats(m, k).calls == 0,
            m.recovery_loop.calls == 0 && m.tick_lag.calls == 0,
    {
        RuntimeMetrics {
            rpc_calls: 0,
            rpc_transform_other: LatencyStats::new(),
            rpc_transform_carrier: LatencyStats::new(),
            rpc_transform_plane: LatencyStats::new(),
            rpc_hook: LatencyStats::new(),
            recovery_loop: LatencyStats::new(),
            tick_lag: LatencyStats::new(),
            active_streams: 0,
            active_recoveries: 0,
            queue_high_watermark: 0,
            hook_samples_dropped: 0,
            io_bytes: 0,
            render_count: 0,
            render_time_us: 0,
        }
    }

    /// Counts one RPC.
    pub fn count_rpc(&mut self)
        ensures
            *final(self) == (RuntimeMetrics { rpc_calls: wrapping_add(old(self).rpc_calls, 1), ..*old(self) }),
    {
        self.rpc_calls = self.rpc_calls.wrapping_add(1);
    }

    /// Starts timing an RPC of `kind`; it counts as an error unless finished otherwise.
    pub fn rpc(&self, kind: RpcKind) -> (t: MetricTimer)
        ensures
            t == (MetricTimer { target: TimerTarget::Rpc(kind), outcome: TimerOutcome::Error }),
    {
        MetricTimer { target: TimerTarget::Rpc(kind), outcome: TimerOutcome::Error }
    }

    /// Starts timing one iteration of a recovery loop; it counts as a success.
    pub fn recovery_loop(&self) -> (t: MetricTimer)
        ensures
            t == (MetricTimer { target: TimerTarget::RecoveryLoop, outcome: TimerOutcome::Success }),
    {
        MetricTimer { target: TimerTarget::RecoveryLoop, outcome: TimerOutcome::Success }
    }

    /// Records how late a scheduled tick ran.
    pub fn observe_tick_lag(&mut self, elapsed_us: u64)
        ensures
            observed(old(self).tick_lag, final(self).tick_lag, elapsed_us, TimerOutcome::Success),
            *final(self) == (RuntimeMetrics { tick_lag: final(self).tick_lag, ..*old(self) }),
    {
        self.tick_lag.observe(elapsed_us, TimerOutcome::Success);
    }

    /// Takes one unit of the active-streams gauge.
    pub fn stream(&mut self) -> (g: GaugeGuard)
        ensures
            g.gauge == Gauge::ActiveStreams,
            *final(self) == (RuntimeMetrics { active_streams: wrapping_add(old(self).active_streams, 1), ..*old(self) }),
    {
        self.active_streams = self.active_streams.wrapping_add(1);
        GaugeGuard { gauge: Gauge::ActiveStreams }
    }

    /// Takes one unit of the active-recoveries gauge.
    pub fn recovery(&mut self) -> (g: GaugeGuard)
        ensures
            g.gauge == Gauge::ActiveRecoveries,
            *final(self) == (RuntimeMetrics { active_recoveries: wrapping_add(old(self).active_recoveries, 1), ..*old(self) }),
    {
        self.active_recoveries = self.active_recoveries.wrapping_add(1);
        GaugeGuard { gauge: Gauge::ActiveRecoveries }
    }

    /// Raises the queue high-water mark to `depth` if it is higher.
    pub fn observe_queue_depth(&mut self, depth: usize)
        ensures
            *final(self) == (RuntimeMetrics {
                queue_high_watermark: if depth as u64 > old(self).queue_high_watermark {
                    depth as u64
                } else {
                    old(self).queue_high_watermark
                },
                ..*old(self)
            }),
    {
        let depth = depth as u64;
        if depth > self.queue_high_watermark {
            self.queue_high_watermark = depth;
        }
    }

    /// Counts a hook sample that could not be queued.
    pub fn hook_sample_dropped(&mut self)
        ensures
            *final(self) == (RuntimeMetrics { hook_samples_dropped: wrapping_add(old(self).hook_samples_dropped, 1), ..*old(self) }),
    {
        self.hook_samples_dropped = self.hook_samples_dropped.wrapping_add(1);
    }

    /// Adds written bytes.
    pub fn add_io_bytes(&mut self, bytes: usize)
        ensures
            *final(self) == (RuntimeMetrics { io_bytes: wrapping_add(old(self).io_bytes, bytes as u64), ..*old(self) }),
    {
        self.io_bytes = self.io_bytes.wrapping_add(bytes as u64);
    }

    /// Records one chart rendering that took `elapsed_us`.
    pub fn observe_render(&mut self, elapsed_us: u64)
        ensures
            *final(self) == (RuntimeMetrics {
                render_count: wrapping_add(old(self).render_count, 1),
                render_time_us: wrapping_add(old(self).render_time_us, elapsed_us),
                ..*old(self)
            }),
    {
        self.render_count = self.render_count.wrapping_add(1);
        self.render_time_us = self.render_time_us.wrapping_add(elapsed_us);
    }

    /// Records an observation in the statistics of `target`.
    fn observe_target(&mut self, target: TimerTarget, elapsed_us: u64, outcome: TimerOutcome)
        ensures
            observed(target_stats(*old(self), target), target_stats(*final(self), target), elapsed_us, outcome),
            with_target_stats(*old(self), *final(self), target, target_stats(*final(self), target)),
    {
        match target {
            TimerTarget::Rpc(RpcKind::TransformOther) => self.rpc_transform_other.observe(elapsed_us, outcome),
            TimerTarget::Rpc(RpcKind::TransformCarrier) => self.rpc_transform_carrier.observe(elapsed_us, outcome),
            TimerTarget::Rpc(RpcKind::TransformPlane) => self.rpc_transform_plane.observe(elapsed_us, outcome),
            TimerTarget::Rpc(RpcKind::Hook) => self.rpc_hook.observe(elapsed_us, outcome),
            TimerTarget::RecoveryLoop => self.recovery_loop.observe(elapsed_us, outcome),
        }
    }
}

impl MetricTimer {
    /// Finishes the measurement as a success.
    pub fn success(self, metrics: &mut RuntimeMetrics, elapsed_us: u64)
        ensures
            observed(target_stats(*old(metrics), self.target), target_stats(*final(metrics), self.target), elapsed_us, TimerOutcome::Success),
            with_target_stats(*old(metrics), *final(metrics), self.target, target_stats(*final(metrics), self.target)),
    {
        metrics.observe_target(self.target, elapsed_us, TimerOutcome::Success);
    }

    /// Finishes the measurement as a timeout.
    pub fn timeout(self, metrics: &mut RuntimeMetrics, elapsed_us: u64)
        ensures
            observed(target_stats(*old(metrics), self.target), target_stats(*final(metrics), self.target), elapsed_us, TimerOutcome::Timeout),
            with_target_stats(*old(metrics), *final(metrics), self.target, target_stats(*final(metrics), self.target)),
    {
        metrics.observe_target(self.target, elapsed_us, TimerOutcome::Timeout);
    }

    /// Finishes the measurement with the timer's own outcome.
    pub fn finish(self, metrics: &mut RuntimeMetrics, elapsed_us: u64)
        ensures
            observed(target_stats(*old(metrics), self.target), target_stats(*final(metrics), self.target), elapsed_us, self.outcome),
            with_target_stats(*old(metrics), *final(metrics), self.target, target_stats(*final(metrics), self.target)),
    {
        metrics.observe_target(self.target, elapsed_us, self.outcome);
    }
}

impl GaugeGuard {
    /// Gives the unit back to its gauge.
    pub fn release(self, metrics: &mut RuntimeMetrics)
        ensures
            gauge_value(*final(metrics), self.gauge) == wrapping_sub(gauge_value(*old(metrics), self.gauge), 1),
            self.gauge == Gauge::ActiveStreams ==> *final(metrics) == (RuntimeMetrics { active_streams: final(metrics).active_streams, ..*old(metrics) }),
            self.gauge == Gauge::ActiveRecoveries ==> *final(metrics) == (RuntimeMetrics { active_recoveries: final(metrics).active_recoveries, ..*old(metrics) }),
    {
        match self.gauge {
            Gauge::ActiveStreams => metrics.active_streams = metrics.active_streams.wrapping_sub(1),
            Gauge::ActiveRecoveries => metrics.active_recoveries = metrics.active_recoveries.wrapping_sub(1),
        }
    }
}

/// Taking a gauge unit and releasing it leaves every counter as it was.
pub proof fn lemma_gauge_round_trip(before: RuntimeMetrics, held: RuntimeMetrics, after: RuntimeMetrics, gauge: Gauge)
    requires
        gauge == Gauge::ActiveStreams ==> held == (RuntimeMetrics { active_streams: wrapping_add(before.active_streams, 1), ..before }),
        gauge == Gauge::ActiveRecoveries ==> held == (RuntimeMetrics { active_recoveries: wrapping_add(before.active_recoveries, 1), ..before }),
        gauge_value(after, gauge) == wrapping_sub(gauge_value(held, gauge), 1),
        gauge == Gauge::ActiveStreams ==> after == (RuntimeMetrics { active_streams: after.active_streams, ..held }),
        gauge == Gauge::ActiveRecoveries ==> after == (RuntimeMetrics { active_recoveries: after.active_recoveries, ..held }),
    ensures
        after == before,
{
}

} // verus!
