//! Health snapshots: their signatures and the lines that they are printed as.
use crate::runtime::steady_log::{gate_after, gate_opens, GateView, Span, SteadyLogGates};
use crate::text::{
    bool_text, bool_word, decimal, decimal_text, join, joined, opt_text, or_dash, texts,
};
use vstd::prelude::*;
use vstd::string::*;

verus! {

/// Whether discovery results can be used.
#[derive(Debug, Clone, Copy, PartialEq, Eq, Structural)]
pub enum DiscoveryReadiness {
    NotReady,
    ReadyWithStaleSnapshot,
    Ready,
}

/// The state of a discovery probe.
#[derive(Debug, Clone, PartialEq, Eq)]
pub struct DiscoveryProbeHealth {
    pub source: String,
    pub probe: String,
    pub phase: String,
    pub status: String,
    pub resource_count: usize,
    pub target_count: usize,
    pub error: Option<String>,
}

/// The state of discovery.
#[derive(Debug, Clone, PartialEq, Eq)]
pub struct DiscoveryHealthSnapshot {
    pub readiness: DiscoveryReadiness,
    pub cached_snapshot_loaded: bool,
    pub used_cached_snapshot: bool,
    pub resource_count: usize,
    pub target_count: usize,
    pub failure_count: usize,
    pub last_success_at: Option<String>,
    pub updated_at: String,
    pub probes: Vec<DiscoveryProbeHealth>,
}

/// The state of metrics collection.
#[derive(Debug, Clone, PartialEq, Eq)]
pub struct MetricsHealthSnapshot {
    pub target_view_loaded: bool,
    pub used_cached_snapshot: bool,
    pub total_targets: usize,
    pub host_targets: usize,
    pub process_targets: usize,
    pub container_targets: usize,
    pub attempted_targets: usize,
    pub succeeded_targets: usize,
    pub failed_targets: usize,
    pub failure_count: usize,
    pub last_error: Option<String>,
    pub updated_at: Option<String>,
}

/// Whether the daemon has work.
#[derive(Debug, Clone, Copy, PartialEq, Eq, Structural)]
pub enum HealthState {
    Idle,
    Active,
}

/// The state of the daemon.
#[derive(Debug, Clone, PartialEq, Eq)]
pub struct RuntimeHealthSnapshot {
    pub state: HealthState,
    pub queue_depth: usize,
    pub running_count: usize,
    pub reporting_count: usize,
    pub discovery: DiscoveryHealthSnapshot,
    pub metrics: MetricsHealthSnapshot,
    /// The inputs whose collection is paused because the spool is full.
    pub paused_inputs: Vec<String>,
    pub updated_at: String,
}

/// What a probe says.
#[verifier::ext_equal]
pub struct ProbeView {
    pub source: Seq<char>,
    pub probe: Seq<char>,
    pub phase: Seq<char>,
    pub status: Seq<char>,
    pub resource_count: nat,
    pub target_count: nat,
    pub error: Option<Seq<char>>,
}

impl View for DiscoveryProbeHealth {
    type V = ProbeView;

    open spec fn view(&self) -> ProbeView {
        ProbeView {
            source: self.source@,
            probe: self.probe@,
            phase: self.phase@,
            status: self.status@,
            resource_count: self.resource_count as nat,
            target_count: self.target_count as nat,
            error: opt_text(self.error),
        }
    }
}

/// The views of a list of probes.
pub open spec fn probe_views(list: Seq<DiscoveryProbeHealth>) -> Seq<ProbeView> {
    list.map_values(|p: DiscoveryProbeHealth| p@)
}

/// What a discovery snapshot says.
#[verifier::ext_equal]
pub struct DiscoveryView {
    pub readiness: DiscoveryReadiness,
    pub cached_snapshot_loaded: bool,
    pub used_cached_snapshot: bool,
    pub resource_count: nat,
    pub target_count: nat,
    pub failure_count: nat,
    pub last_success_at: Option<Seq<char>>,
    pub updated_at: Seq<char>,
    pub probes: Seq<ProbeView>,
}

impl View for DiscoveryHealthSnapshot {
    type V = DiscoveryView;

    open spec fn view(&self) -> DiscoveryView {
        DiscoveryView {
            readiness: self.readiness,
            cached_snapshot_loaded: self.cached_snapshot_loaded,
            used_cached_snapshot: self.used_cached_snapshot,
            resource_count: self.resource_count as nat,
            target_count: self.target_count as nat,
            failure_count: self.failure_count as nat,
            last_success_at: opt_text(self.last_success_at),
            updated_at: self.updated_at@,
            probes: probe_views(self.probes@),
        }
    }
}

/// What a metrics snapshot says.
#[verifier::ext_equal]
pub struct MetricsView {
    pub target_view_loaded: bool,
    pub used_cached_snapshot: bool,
    pub total_targets: nat,
    pub host_targets: nat,
    pub process_targets: nat,
    pub container_targets: nat,
    pub attempted_targets: nat,
    pub succeeded_targets: nat,
    pub failed_targets: nat,
    pub failure_count: nat,
    pub last_error: Option<Seq<char>>,
    pub updated_at: Option<Seq<char>>,
}

impl View for MetricsHealthSnapshot {
    type V = MetricsView;

    open spec fn view(&self) -> MetricsView {
        MetricsView {
            target_view_loaded: self.target_view_loaded,
            used_cached_snapshot: self.used_cached_snapshot,
            total_targets: self.total_targets as nat,
            host_targets: self.host_targets as nat,
            process_targets: self.process_targets as nat,
            container_targets: self.container_targets as nat,
            attempted_targets: self.attempted_targets as nat,
            succeeded_targets: self.succeeded_targets as nat,
            failed_targets: self.failed_targets as nat,
            failure_count: self.failure_count as nat,
            last_error: opt_text(self.last_error),
            updated_at: opt_text(self.updated_at),
        }
    }
}

/// What a health snapshot says.
#[verifier::ext_equal]
pub struct HealthView {
    pub state: HealthState,
    pub queue_depth: nat,
    pub running_count: nat,
    pub reporting_count: nat,
    pub discovery: DiscoveryView,
    pub metrics: MetricsView,
    pub paused_inputs: Seq<Seq<char>>,
    pub updated_at: Seq<char>,
}

impl View for RuntimeHealthSnapshot {
    type V = HealthView;

    open spec fn view(&self) -> HealthView {
        HealthView {
            state: self.state,
            queue_depth: self.queue_depth as nat,
            running_count: self.running_count as nat,
            reporting_count: self.reporting_count as nat,
            discovery: self.discovery@,
            metrics: self.metrics@,
            paused_inputs: texts(self.paused_inputs@),
            updated_at: self.updated_at@,
        }
    }
}

impl DiscoveryReadiness {
    /// The readiness as a word.
    pub open spec fn word(self) -> Seq<char> {
        match self {
            DiscoveryReadiness::NotReady => "NotReady"@,
            DiscoveryReadiness::ReadyWithStaleSnapshot => "ReadyWithStaleSnapshot"@,
            DiscoveryReadiness::Ready => "Ready"@,
        }
    }

    /// The readiness as a word.
    pub fn as_str(self) -> (out: &'static str)
        ensures
            out@ == self.word(),
    {
        match self {
            DiscoveryReadiness::NotReady => "NotReady",
            DiscoveryReadiness::ReadyWithStaleSnapshot => "ReadyWithStaleSnapshot",
            DiscoveryReadiness::Ready => "Ready",
        }
    }
}

impl HealthState {
    /// The state as a word.
    pub open spec fn word(self) -> Seq<char> {
        match self {
            HealthState::Idle => "Idle"@,
            HealthState::Active => "Active"@,
        }
    }

    /// The state as a word.
    pub fn as_str(self) -> (out: &'static str)
        ensures
            out@ == self.word(),
    {
        match self {
            HealthState::Idle => "Idle",
            HealthState::Active => "Active",
        }
    }
}

/// A key with its value.
pub open spec fn field(key: Seq<char>, value: Seq<char>) -> Seq<char> {
    key + "="@ + value
}

fn field_text(key: &str, value: &str) -> (out: String)
    ensures
        out@ == field(key@, value@),
{
    let mut out = key.to_string();
    out.append("=");
    out.append(value);
    out
}

fn field_count(key: &str, value: usize) -> (out: String)
    ensures
        out@ == field(key@, decimal(value as nat)),
{
    field_text(key, decimal_text(value as u64).as_str())
}

fn field_flag(key: &str, value: bool) -> (out: String)
    ensures
        out@ == field(key@, bool_word(value)),
{
    field_text(key, bool_text(value))
}

fn field_opt(key: &str, value: &Option<String>) -> (out: String)
    ensures
        out@ == field(key@, or_dash(opt_text(*value))),
{
    match value {
        Some(text) => field_text(key, text.as_str()),
        None => field_text(key, "-"),
    }
}

/// The fields of the signature of a metrics snapshot.
pub open spec fn metrics_fields(m: MetricsView) -> Seq<Seq<char>> {
    seq![
        field("target_view_loaded"@, bool_word(m.target_view_loaded)),
        field("used_cached"@, bool_word(m.used_cached_snapshot)),
        field("total"@, decimal(m.total_targets)),
        field("host"@, decimal(m.host_targets)),
        field("process"@, decimal(m.process_targets)),
        field("container"@, decimal(m.container_targets)),
        field("attempted"@, decimal(m.attempted_targets)),
        field("succeeded"@, decimal(m.succeeded_targets)),
        field("failed"@, decimal(m.failed_targets)),
        field("failures"@, decimal(m.failure_count)),
        field("last_error"@, or_dash(m.last_error)),
    ]
}

/// The signature of a metrics snapshot.
pub open spec fn metrics_signature_text(m: MetricsView) -> Seq<char> {
    joined(metrics_fields(m), " "@)
}

/// The signature of a metrics snapshot: what matters to an operator, without the time.
pub fn metrics_signature(metrics: &MetricsHealthSnapshot) -> (out: String)
    ensures
        out@ == metrics_signature_text(metrics@),
{
    let fields: Vec<String> = vec![
        field_flag("target_view_loaded", metrics.target_view_loaded),
        field_flag("used_cached", metrics.used_cached_snapshot),
        field_count("total", metrics.total_targets),
        field_count("host", metrics.host_targets),
        field_count("process", metrics.process_targets),
        field_count("container", metrics.container_targets),
        field_count("attempted", metrics.attempted_targets),
        field_count("succeeded", metrics.succeeded_targets),
        field_count("failed", metrics.failed_targets),
        field_count("failures", metrics.failure_count),
        field_opt("last_error", &metrics.last_error),
    ];
    proof {
        assert(texts(fields@) =~= metrics_fields(metrics@));
    }
    join(&fields, " ")
}

/// The fields of the signature of a health snapshot that come before its probes.
pub open spec fn health_fields(h: HealthView) -> Seq<Seq<char>> {
    seq![
        field("state"@, h.state.word()),
        field("queue"@, decimal(h.queue_depth)),
        field("running"@, decimal(h.running_count)),
        field("reporting"@, decimal(h.reporting_count)),
        field("paused"@, joined(h.paused_inputs, ","@)),
        field("discovery"@, h.discovery.readiness.word()),
        field("cached_loaded"@, bool_word(h.discovery.cached_snapshot_loaded)),
        field("used_cached"@, bool_word(h.discovery.used_cached_snapshot)),
        field("resources"@, decimal(h.discovery.resource_count)),
        field("targets"@, decimal(h.discovery.target_count)),
        field("failures"@, decimal(h.discovery.failure_count)),
        field("last_success"@, or_dash(h.discovery.last_success_at)),
    ]
}

/// A probe in the signature of a health snapshot.
pub open spec fn probe_signature(p: ProbeView) -> Seq<char> {
    "\nprobe="@ + p.source + " "@ + p.probe + " "@ + p.phase + " "@ + p.status + " "@ + decimal(
        p.resource_count,
    ) + " "@ + decimal(p.target_count)
}

/// The probes in the signature of a health snapshot.
pub open spec fn probes_signature(probes: Seq<ProbeView>) -> Seq<char>
    decreases probes.len(),
{
    if probes.len() == 0 {
        Seq::empty()
    } else {
        probes_signature(probes.drop_last()) + probe_signature(probes.last())
    }
}

/// The signature of a health snapshot.
pub open spec fn health_signature_text(h: HealthView) -> Seq<char> {
    joined(health_fields(h), " "@) + probes_signature(h.discovery.probes) + " metrics="@
        + metrics_signature_text(h.metrics)
}

fn append_probe(out: &mut String, probe: &DiscoveryProbeHealth)
    ensures
        final(out)@ == old(out)@ + probe_signature(probe@),
{
    let mut text = "\nprobe=".to_string();
    text.append(probe.source.as_str());
    text.append(" ");
    text.append(probe.probe.as_str());
    text.append(" ");
    text.append(probe.phase.as_str());
    text.append(" ");
    text.append(probe.status.as_str());
    text.append(" ");
    text.append(decimal_text(probe.resource_count as u64).as_str());
    text.append(" ");
    text.append(decimal_text(probe.target_count as u64).as_str());
    out.append(text.as_str());
}

/// The signature of a health snapshot: what matters to an operator, without the three
/// times that change with every snapshot.
pub fn health_signature(snapshot: &RuntimeHealthSnapshot) -> (out: String)
    ensures
        out@ == health_signature_text(snapshot@),
{
    let fields: Vec<String> = vec![
        field_text("state", snapshot.state.as_str()),
        field_count("queue", snapshot.queue_depth),
        field_count("running", snapshot.running_count),
        field_count("reporting", snapshot.reporting_count),
        field_text("paused", join(&snapshot.paused_inputs, ",").as_str()),
        field_text("discovery", snapshot.discovery.readiness.as_str()),
        field_flag("cached_loaded", snapshot.discovery.cached_snapshot_loaded),
        field_flag("used_cached", snapshot.discovery.used_cached_snapshot),
        field_count("resources", snapshot.discovery.resource_count),
        field_count("targets", snapshot.discovery.target_count),
        field_count("failures", snapshot.discovery.failure_count),
        field_opt("last_success", &snapshot.discovery.last_success_at),
    ];
    proof {
        assert(texts(fields@) =~= health_fields(snapshot@));
    }
    let mut signature = join(&fields, " ");
    let ghost head = signature@;
    let probes = &snapshot.discovery.probes;
    let ghost all = probe_views(probes@);
    assert(head + probes_signature(all.take(0)) =~= head);
    for i in 0..probes.len()
        invariant
            all == probe_views(probes@),
            signature@ == head + probes_signature(all.take(i as int)),
    {
        proof {
            assert(all.take(i + 1).drop_last() =~= all.take(i as int));
            assert(all[i as int] == probes@[i as int]@);
        }
        append_probe(&mut signature, &probes[i]);
        proof {
            assert(signature@ =~= head + probes_signature(all.take(i + 1)));
        }
    }
    proof {
        assert(all.take(all.len() as int) =~= all);
    }
    signature.append(" metrics=");
    signature.append(metrics_signature(&snapshot.metrics).as_str());
    signature
}

/// The fields of the line that a health snapshot is printed as.
pub open spec fn health_line_fields(h: HealthView) -> Seq<Seq<char>> {
    seq![
        field("state"@, h.state.word()),
        field("queue"@, decimal(h.queue_depth)),
        field("running"@, decimal(h.running_count)),
        field("reporting"@, decimal(h.reporting_count)),
        field("paused_inputs"@, joined(h.paused_inputs, ","@)),
        field("discovery_readiness"@, h.discovery.readiness.word()),
        field("discovery_cached_loaded"@, bool_word(h.discovery.cached_snapshot_loaded)),
        field("discovery_used_cached"@, bool_word(h.discovery.used_cached_snapshot)),
        field("discovery_resources"@, decimal(h.discovery.resource_count)),
        field("discovery_targets"@, decimal(h.discovery.target_count)),
        field("discovery_failures"@, decimal(h.discovery.failure_count)),
        field("discovery_last_success_at"@, or_dash(h.discovery.last_success_at)),
        field("updated_at"@, h.updated_at),
    ]
}

/// The line that a health snapshot is printed as.
pub open spec fn health_line(h: HealthView) -> Seq<char> {
    "health "@ + joined(health_line_fields(h), " "@)
}

/// The fields of the line that a metrics snapshot is printed as.
pub open spec fn metrics_line_fields(m: MetricsView) -> Seq<Seq<char>> {
    seq![
        field("target_view_loaded"@, bool_word(m.target_view_loaded)),
        field("used_cached_snapshot"@, bool_word(m.used_cached_snapshot)),
        field("total_targets"@, decimal(m.total_targets)),
        field("host_targets"@, decimal(m.host_targets)),
        field("process_targets"@, decimal(m.process_targets)),
        field("container_targets"@, decimal(m.container_targets)),
        field("attempted_targets"@, decimal(m.attempted_targets)),
        field("succeeded_targets"@, decimal(m.succeeded_targets)),
        field("failed_targets"@, decimal(m.failed_targets)),
        field("failures"@, decimal(m.failure_count)),
        field("last_error"@, or_dash(m.last_error)),
        field("updated_at"@, or_dash(m.updated_at)),
    ]
}

/// The line that a metrics snapshot is printed as.
pub open spec fn metrics_line(m: MetricsView) -> Seq<char> {
    "metrics_runtime "@ + joined(metrics_line_fields(m), " "@)
}

/// The fields of the line that a probe is printed as.
pub open spec fn probe_line_fields(p: ProbeView) -> Seq<Seq<char>> {
    seq![
        field("source"@, p.source),
        field("probe"@, p.probe),
        field("phase"@, p.phase),
        field("status"@, p.status),
        field("resources"@, decimal(p.resource_count)),
        field("targets"@, decimal(p.target_count)),
        field("error"@, or_dash(p.error)),
    ]
}

/// The line that a probe is printed as.
pub open spec fn probe_line(p: ProbeView) -> Seq<char> {
    "discovery_probe "@ + joined(probe_line_fields(p), " "@)
}

/// The lines that a snapshot is printed as: health, metrics, and one for each probe.
pub open spec fn snapshot_lines(h: HealthView) -> Seq<Seq<char>> {
    seq![health_line(h), metrics_line(h.metrics)] + h.discovery.probes.map_values(
        |p: ProbeView| probe_line(p),
    )
}

fn labelled(label: &str, fields: &Vec<String>) -> (out: String)
    ensures
        out@ == label@ + joined(texts(fields@), " "@),
{
    let mut out = label.to_string();
    out.append(join(fields, " ").as_str());
    out
}

fn health_text(snapshot: &RuntimeHealthSnapshot) -> (out: String)
    ensures
        out@ == health_line(snapshot@),
{
    let fields: Vec<String> = vec![
        field_text("state", snapshot.state.as_str()),
        field_count("queue", snapshot.queue_depth),
        field_count("running", snapshot.running_count),
        field_count("reporting", snapshot.reporting_count),
        field_text("paused_inputs", join(&snapshot.paused_inputs, ",").as_str()),
        field_text("discovery_readiness", snapshot.discovery.readiness.as_str()),
        field_flag("discovery_cached_loaded", snapshot.discovery.cached_snapshot_loaded),
        field_flag("discovery_used_cached", snapshot.discovery.used_cached_snapshot),
        field_count("discovery_resources", snapshot.discovery.resource_count),
        field_count("discovery_targets", snapshot.discovery.target_count),
        field_count("discovery_failures", snapshot.discovery.failure_count),
        field_opt("discovery_last_success_at", &snapshot.discovery.last_success_at),
        field_text("updated_at", snapshot.updated_at.as_str()),
    ];
    proof {
        assert(texts(fields@) =~= health_line_fields(snapshot@));
    }
    labelled("health ", &fields)
}

fn metrics_text(metrics: &MetricsHealthSnapshot) -> (out: String)
    ensures
        out@ == metrics_line(metrics@),
{
    let fields: Vec<String> = vec![
        field_flag("target_view_loaded", metrics.target_view_loaded),
        field_flag("used_cached_snapshot", metrics.used_cached_snapshot),
        field_count("total_targets", metrics.total_targets),
        field_count("host_targets", metrics.host_targets),
        field_count("process_targets", metrics.process_targets),
        field_count("container_targets", metrics.container_targets),
        field_count("attempted_targets", metrics.attempted_targets),
        field_count("succeeded_targets", metrics.succeeded_targets),
        field_count("failed_targets", metrics.failed_targets),
        field_count("failures", metrics.failure_count),
        field_opt("last_error", &metrics.last_error),
        field_opt("updated_at", &metrics.updated_at),
    ];
    proof {
        assert(texts(fields@) =~= metrics_line_fields(metrics@));
    }
    labelled("metrics_runtime ", &fields)
}

fn probe_text(probe: &DiscoveryProbeHealth) -> (out: String)
    ensures
        out@ == probe_line(probe@),
{
    let fields: Vec<String> = vec![
        field_text("source", probe.source.as_str()),
        field_text("probe", probe.probe.as_str()),
        field_text("phase", probe.phase.as_str()),
        field_text("status", probe.status.as_str()),
        field_count("resources", probe.resource_count),
        field_count("targets", probe.target_count),
        field_opt("error", &probe.error),
    ];
    proof {
        assert(texts(fields@) =~= probe_line_fields(probe@));
    }
    labelled("discovery_probe ", &fields)
}

/// The lines that a snapshot is printed as.
pub fn emit_full(snapshot: &RuntimeHealthSnapshot) -> (lines: Vec<String>)
    ensures
        texts(lines@) == snapshot_lines(snapshot@),
{
    let mut lines: Vec<String> = vec![health_text(snapshot), metrics_text(&snapshot.metrics)];
    let probes = &snapshot.discovery.probes;
    let ghost head = seq![health_line(snapshot@), metrics_line(snapshot@.metrics)];
    let ghost shown = snapshot@.discovery.probes.map_values(|p: ProbeView| probe_line(p));
    assert(texts(lines@) =~= head + shown.take(0));
    for i in 0..probes.len()
        invariant
            shown == probe_views(probes@).map_values(|p: ProbeView| probe_line(p)),
            texts(lines@) == head + shown.take(i as int),
    {
        let ghost before = texts(lines@);
        lines.push(probe_text(&probes[i]));
        proof {
            assert(probe_views(probes@)[i as int] == probes@[i as int]@);
            assert(texts(lines@) =~= before.push(shown[i as int]));
            assert(texts(lines@) =~= head + shown.take(i + 1));
        }
    }
    proof {
        assert(shown.take(shown.len() as int) =~= shown);
    }
    lines
}

/// The lines to print for a snapshot now, where it is to be printed.
pub open spec fn emitted(gate: GateView, h: HealthView, now: int) -> Option<Seq<Seq<char>>> {
    if gate_opens(gate, health_signature_text(h), now) {
        Some(snapshot_lines(h))
    } else {
        None
    }
}

/// The lines to print for a snapshot now, where it is to be printed.
pub fn emit(gates: &mut SteadyLogGates, snapshot: &RuntimeHealthSnapshot, now: Span) -> (out: Option<
    Vec<String>,
>)
    ensures
        emitted(old(gates).health@, snapshot@, now.nanos as int) == (match out {
            Some(lines) => Some(texts(lines@)),
            None => None,
        }),
        final(gates).health@ == gate_after(
            old(gates).health@,
            health_signature_text(snapshot@),
            now.nanos as int,
        ),
        final(gates).metrics == old(gates).metrics,
{
    if !gates.should_emit_health(health_signature(snapshot).as_str(), now) {
        return None;
    }
    Some(emit_full(snapshot))
}

} // verus!
