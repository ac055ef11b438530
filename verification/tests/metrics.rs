use lso::metrics::{LatencyStats, RpcKind, RuntimeMetrics, TimerOutcome};

#[test]
fn latency_percentiles_report_bucket_bounds() {
    let mut stats = LatencyStats::new();
    stats.observe(500, TimerOutcome::Success);
    stats.observe(1_500, TimerOutcome::Error);
    stats.observe(30_000, TimerOutcome::Timeout);
    let snapshot = stats.snapshot();
    assert_eq!(snapshot.calls, 3);
    assert_eq!(snapshot.successes, 1);
    assert_eq!(snapshot.errors, 1);
    assert_eq!(snapshot.timeouts, 1);
    assert_eq!(snapshot.total_us, 32_000);
    assert_eq!(snapshot.max_us, 30_000);
    assert_eq!(snapshot.p50_us, 2_000);
    assert_eq!(snapshot.p95_us, 50_000);
    assert_eq!(snapshot.p99_us, 50_000);
}

#[test]
fn unbounded_bucket_reports_the_last_finite_bound() {
    let mut stats = LatencyStats::new();
    stats.observe(60_000_000, TimerOutcome::Success);
    assert_eq!(stats.buckets[14], 1);
    assert_eq!(stats.snapshot().p50_us, 10_000_000);
}

#[test]
fn bucket_bounds_are_inclusive() {
    let mut stats = LatencyStats::new();
    stats.observe(1_000, TimerOutcome::Success);
    stats.observe(1_001, TimerOutcome::Success);
    assert_eq!(stats.buckets[0], 1);
    assert_eq!(stats.buckets[1], 1);
}

#[test]
fn no_calls_means_zero_percentiles() {
    let snapshot = LatencyStats::new().snapshot();
    assert_eq!(snapshot.p50_us, 0);
    assert_eq!(snapshot.p99_us, 0);
}

#[test]
fn rpc_timers_count_as_errors_unless_finished_otherwise() {
    let mut metrics = RuntimeMetrics::new();
    let timer = metrics.rpc(RpcKind::TransformCarrier);
    timer.finish(&mut metrics, 4_000);
    let timer = metrics.rpc(RpcKind::TransformCarrier);
    timer.success(&mut metrics, 700);
    let timer = metrics.rpc(RpcKind::Hook);
    timer.timeout(&mut metrics, 250_000);
    assert_eq!(metrics.rpc_transform_carrier.calls, 2);
    assert_eq!(metrics.rpc_transform_carrier.errors, 1);
    assert_eq!(metrics.rpc_transform_carrier.successes, 1);
    assert_eq!(metrics.rpc_hook.timeouts, 1);
    assert_eq!(metrics.rpc_transform_plane.calls, 0);
    let timer = metrics.recovery_loop();
    timer.finish(&mut metrics, 90_000);
    assert_eq!(metrics.recovery_loop.successes, 1);
}

#[test]
fn gauges_go_back_when_released() {
    let mut metrics = RuntimeMetrics::new();
    let stream = metrics.stream();
    let recovery = metrics.recovery();
    assert_eq!(metrics.active_streams, 1);
    assert_eq!(metrics.active_recoveries, 1);
    stream.release(&mut metrics);
    recovery.release(&mut metrics);
    assert_eq!(metrics.active_streams, 0);
    assert_eq!(metrics.active_recoveries, 0);
}

#[test]
fn counters_accumulate() {
    let mut metrics = RuntimeMetrics::new();
    metrics.count_rpc();
    metrics.count_rpc();
    metrics.observe_queue_depth(7);
    metrics.observe_queue_depth(3);
    metrics.hook_sample_dropped();
    metrics.add_io_bytes(1_024);
    metrics.add_io_bytes(16);
    metrics.observe_render(5_000);
    metrics.observe_tick_lag(12_000);
    assert_eq!(metrics.rpc_calls, 2);
    assert_eq!(metrics.queue_high_watermark, 7);
    assert_eq!(metrics.hook_samples_dropped, 1);
    assert_eq!(metrics.io_bytes, 1_040);
    assert_eq!(metrics.render_count, 1);
    assert_eq!(metrics.render_time_us, 5_000);
    assert_eq!(metrics.tick_lag.calls, 1);
    assert_eq!(RpcKind::TransformOther.label(), "transform_other");
    assert_eq!(RpcKind::Hook.index(), 3);
}
