use wist_agentd::runtime::self_observability::{
    emit, emit_full, health_signature, metrics_signature, DiscoveryHealthSnapshot,
    DiscoveryProbeHealth, DiscoveryReadiness, HealthState, MetricsHealthSnapshot,
    RuntimeHealthSnapshot,
};
use wist_agentd::runtime::steady_log::{
    parse_heartbeat, Span, SteadyLogGate, SteadyLogGates, DEFAULT_HEARTBEAT_SECS,
};

fn snapshot(updated_at: &str) -> RuntimeHealthSnapshot {
    RuntimeHealthSnapshot {
        state: HealthState::Idle,
        queue_depth: 0,
        running_count: 0,
        reporting_count: 0,
        discovery: DiscoveryHealthSnapshot {
            readiness: DiscoveryReadiness::Ready,
            cached_snapshot_loaded: true,
            used_cached_snapshot: false,
            resource_count: 3,
            target_count: 2,
            failure_count: 0,
            last_success_at: Some("2026-01-01T00:00:00Z".to_string()),
            updated_at: updated_at.to_string(),
            probes: vec![DiscoveryProbeHealth {
                source: "host".to_string(),
                probe: "host".to_string(),
                phase: "refresh".to_string(),
                status: "ok".to_string(),
                resource_count: 3,
                target_count: 2,
                error: None,
            }],
        },
        metrics: MetricsHealthSnapshot {
            target_view_loaded: true,
            used_cached_snapshot: false,
            total_targets: 2,
            host_targets: 1,
            process_targets: 1,
            container_targets: 0,
            attempted_targets: 2,
            succeeded_targets: 2,
            failed_targets: 0,
            failure_count: 0,
            last_error: None,
            updated_at: Some(updated_at.to_string()),
        },
        paused_inputs: Vec::new(),
        updated_at: updated_at.to_string(),
    }
}

#[test]
fn health_signature_ignores_per_tick_timestamps() {
    let first = snapshot("2026-01-01T00:00:00Z");
    let second = snapshot("2026-01-01T00:00:01Z");

    assert_eq!(health_signature(&first), health_signature(&second));
}

#[test]
fn health_signature_tracks_meaningful_changes() {
    let base = snapshot("2026-01-01T00:00:00Z");

    let mut queued = snapshot("2026-01-01T00:00:00Z");
    queued.queue_depth = 1;
    assert_ne!(health_signature(&base), health_signature(&queued));

    let mut probe_failed = snapshot("2026-01-01T00:00:00Z");
    probe_failed.discovery.probes[0].status = "failed".to_string();
    assert_ne!(health_signature(&base), health_signature(&probe_failed));

    let mut metrics_failed = snapshot("2026-01-01T00:00:00Z");
    metrics_failed.metrics.failed_targets = 1;
    assert_ne!(health_signature(&base), health_signature(&metrics_failed));
}

#[test]
fn health_signature_tracks_probe_counts() {
    let base = snapshot("2026-01-01T00:00:00Z");
    let mut more_resources = snapshot("2026-01-01T00:00:00Z");
    more_resources.discovery.probes[0].resource_count += 1;
    assert_ne!(health_signature(&base), health_signature(&more_resources));
    let mut more_targets = snapshot("2026-01-01T00:00:00Z");
    more_targets.discovery.probes[0].target_count += 1;
    assert_ne!(health_signature(&base), health_signature(&more_targets));
}

#[test]
fn health_signature_tracks_probe_names() {
    let base = snapshot("2026-01-01T00:00:00Z");
    let mut source = snapshot("2026-01-01T00:00:00Z");
    source.discovery.probes[0].source = "docker".to_string();
    assert_ne!(health_signature(&base), health_signature(&source));
    let mut probe = snapshot("2026-01-01T00:00:00Z");
    probe.discovery.probes[0].probe = "process".to_string();
    assert_ne!(health_signature(&base), health_signature(&probe));
    let mut phase = snapshot("2026-01-01T00:00:00Z");
    phase.discovery.probes[0].phase = "startup".to_string();
    assert_ne!(health_signature(&base), health_signature(&phase));
}

#[test]
fn metrics_signature_ignores_updated_at() {
    let first = snapshot("2026-01-01T00:00:00Z").metrics;
    let second = snapshot("2027-02-03T04:05:06Z").metrics;
    assert_eq!(metrics_signature(&first), metrics_signature(&second));

    let mut failing = second;
    failing.failure_count = 1;
    assert_ne!(metrics_signature(&first), metrics_signature(&failing));
}

#[test]
fn signatures_are_written_exactly() {
    let mut given = snapshot("t");
    given.state = HealthState::Active;
    given.paused_inputs = vec!["a".to_string(), "b".to_string()];
    given.discovery.readiness = DiscoveryReadiness::ReadyWithStaleSnapshot;
    given.discovery.last_success_at = None;
    assert_eq!(
        health_signature(&given),
        "state=Active queue=0 running=0 reporting=0 paused=a,b discovery=ReadyWithStaleSnapshot cached_loaded=true used_cached=false resources=3 targets=2 failures=0 last_success=-\nprobe=host host refresh ok 3 2 metrics=target_view_loaded=true used_cached=false total=2 host=1 process=1 container=0 attempted=2 succeeded=2 failed=0 failures=0 last_error=-"
    );
    let mut failed = given.metrics;
    failed.last_error = Some("boom".to_string());
    failed.total_targets = usize::MAX;
    assert_eq!(
        metrics_signature(&failed),
        format!("target_view_loaded=true used_cached=false total={} host=1 process=1 container=0 attempted=2 succeeded=2 failed=0 failures=0 last_error=boom", usize::MAX)
    );
}

#[test]
fn snapshots_are_printed_line_by_line() {
    let mut given = snapshot("t1");
    given.discovery.readiness = DiscoveryReadiness::NotReady;
    given.discovery.probes[0].error = Some("denied".to_string());
    given.metrics.updated_at = None;
    given.queue_depth = 10;
    assert_eq!(
        emit_full(&given),
        vec![
            "health state=Idle queue=10 running=0 reporting=0 paused_inputs= discovery_readiness=NotReady discovery_cached_loaded=true discovery_used_cached=false discovery_resources=3 discovery_targets=2 discovery_failures=0 discovery_last_success_at=2026-01-01T00:00:00Z updated_at=t1",
            "metrics_runtime target_view_loaded=true used_cached_snapshot=false total_targets=2 host_targets=1 process_targets=1 container_targets=0 attempted_targets=2 succeeded_targets=2 failed_targets=0 failures=0 last_error=- updated_at=-",
            "discovery_probe source=host probe=host phase=refresh status=ok resources=3 targets=2 error=denied",
        ]
    );
}

#[test]
fn unchanged_snapshots_are_printed_once_per_heartbeat() {
    let mut gates = SteadyLogGates::from_env(Some("60"));
    assert!(emit(&mut gates, &snapshot("1"), Span::from_secs(1000)).is_some());
    assert!(emit(&mut gates, &snapshot("2"), Span::from_secs(1003)).is_none());
    let mut changed = snapshot("3");
    changed.running_count = 1;
    let lines = emit(&mut gates, &changed, Span::from_secs(1006)).expect("changed");
    assert_eq!(lines, emit_full(&changed));
    assert!(emit(&mut gates, &changed, Span::from_secs(1065)).is_none());
    assert!(emit(&mut gates, &changed, Span::from_secs(1066)).is_some());
    assert!(gates.should_emit_metrics("m", Span::from_secs(1066)));
    assert!(!gates.should_emit_metrics("m", Span::from_secs(1067)));
    assert!(!gates.should_emit_health(&health_signature(&changed), Span::from_secs(1067)));
}

#[test]
fn first_signature_is_always_emitted() {
    let mut gate = SteadyLogGate::new(Span::from_secs(60));
    assert!(gate.should_emit("a", Span::zero()));
}

fn after(start: u64, millis: u64) -> Span {
    Span::from_millis(start + millis)
}

#[test]
fn unchanged_signature_is_suppressed_until_heartbeat() {
    let mut gate = SteadyLogGate::new(Span::from_secs(60));
    let start = 5_000_000;
    assert!(gate.should_emit("a", after(start, 0)));
    assert!(!gate.should_emit("a", after(start, 59_000)));
    assert!(gate.should_emit("a", after(start, 60_000)));
    assert!(!gate.should_emit("a", after(start, 61_000)));
}

#[test]
fn changed_signature_is_emitted_immediately() {
    let mut gate = SteadyLogGate::new(Span::from_secs(300));
    let start = 7_000;
    assert!(gate.should_emit("a", after(start, 0)));
    assert!(gate.should_emit("b", after(start, 250)));
    assert!(!gate.should_emit("b", after(start, 1_000)));
}

#[test]
fn zero_heartbeat_disables_suppression() {
    let mut gate = SteadyLogGate::new(Span::zero());
    let start = Span::from_secs(9);
    assert!(gate.should_emit("a", start));
    assert!(gate.should_emit("a", start));
}

#[test]
fn a_clock_that_goes_back_is_no_heartbeat() {
    let mut gate = SteadyLogGate::new(Span::from_secs(1));
    assert!(gate.should_emit("a", Span::from_secs(100)));
    assert!(!gate.should_emit("a", Span::from_secs(10)));
    assert!(gate.should_emit("a", Span::from_secs(101)));
}

#[test]
fn heartbeat_parsing_falls_back_to_default_for_missing_or_invalid_values() {
    let default = Span::from_secs(DEFAULT_HEARTBEAT_SECS);
    assert_eq!(DEFAULT_HEARTBEAT_SECS, 300);
    assert_eq!(parse_heartbeat(None), default);
    assert_eq!(parse_heartbeat(Some("")), default);
    assert_eq!(parse_heartbeat(Some("abc")), default);
    assert_eq!(parse_heartbeat(Some("-1")), default);
    assert_eq!(parse_heartbeat(Some("300")), Span::from_secs(300));
    assert_eq!(parse_heartbeat(Some(" 45 ")), Span::from_secs(45));
    assert_eq!(parse_heartbeat(Some("0")), Span::zero());
    assert_eq!(parse_heartbeat(Some("18446744073709551616")), default);
    assert_eq!(
        parse_heartbeat(Some("18446744073709551615")),
        Span { nanos: 18446744073709551615 * 1_000_000_000 }
    );
}
