//! What holds of the lines that a snapshot is printed as.
use crate::runtime::self_observability::{
    emitted, health_fields, health_line, health_line_fields, health_signature_text, metrics_line,
    metrics_line_fields, metrics_signature_text, probe_line, probe_line_fields, probe_signature,
    probes_signature, snapshot_lines, DiscoveryReadiness, DiscoveryView, HealthState, HealthView,
    MetricsView, ProbeView,
};
use crate::runtime::signature_laws::{
    at_other_times, law_signature_ignores_times, lemma_cancel_back, lemma_cancel_front,
    lemma_signature_split, signature_tail, with_probe,
};
use crate::runtime::steady_log::{gate_after, GateView};
use crate::text::{decimal, joined};
use crate::text_laws::{law_joining_goes_part_by_part, starts_text};
use vstd::prelude::*;
use vstd::string::*;

verus! {

/// Whether a line holds a word or words as a whole: nothing but a space stands before and
/// behind them.
pub open spec fn holds_word(line: Seq<char>, words: Seq<char>) -> bool {
    exists|front: Seq<char>, back: Seq<char>|
        line == #[trigger] (front + words + back) && (front.len() > 0 ==> front.last() == ' ') && (
        back.len() > 0 ==> back[0] == ' ')
}

/// The word for a state.
pub open spec fn state_word(state: HealthState) -> Seq<char> {
    match state {
        HealthState::Idle => "Idle"@,
        HealthState::Active => "Active"@,
    }
}

/// The word for a readiness.
pub open spec fn readiness_word(readiness: DiscoveryReadiness) -> Seq<char> {
    match readiness {
        DiscoveryReadiness::NotReady => "NotReady"@,
        DiscoveryReadiness::ReadyWithStaleSnapshot => "ReadyWithStaleSnapshot"@,
        DiscoveryReadiness::Ready => "Ready"@,
    }
}

/// The word for a truth value.
pub open spec fn truth(b: bool) -> Seq<char> {
    if b {
        "true"@
    } else {
        "false"@
    }
}

/// A text that is known, or a dash.
pub open spec fn text_or_dash(value: Option<Seq<char>>) -> Seq<char> {
    match value {
        Some(text) => text,
        None => "-"@,
    }
}

proof fn lemma_field_is_a_word(label: Seq<char>, fields: Seq<Seq<char>>, at: int)
    requires
        0 <= at < fields.len(),
        label.len() > 0,
        label.last() == ' ',
    ensures
        holds_word(label + joined(fields, " "@), fields[at]),
{
    let sep = " "@;
    reveal_strlit(" ");
    let a = fields.take(at);
    let one = seq![fields[at]];
    let b = fields.skip(at + 1);
    let line = label + joined(fields, sep);
    let word = fields[at];
    let none = Seq::<char>::empty();
    law_joining_goes_part_by_part(one, b, sep);
    law_joining_goes_part_by_part(a, one + b, sep);
    assert(fields =~= a + (one + b));
    let front = if a.len() > 0 {
        label + joined(a, sep) + sep
    } else {
        label
    };
    let back = if b.len() > 0 {
        sep + joined(b, sep)
    } else {
        none
    };
    if a.len() == 0 {
        assert(a + (one + b) =~= one + b);
    }
    if b.len() == 0 {
        assert(one + b =~= one);
    }
    assert(line =~= front + word + back);
    assert(front.last() == ' ');
    if back.len() > 0 {
        assert(back[0] == ' ');
    }
}

/// The line of a health snapshot starts with its label and tells each of its values behind
/// its own key.
#[verifier::rlimit(30)]
pub proof fn law_health_lines_tell_every_value(h: HealthView)
    ensures
        ({
            let line = health_line(h);
            &&& starts_text(line, "health "@)
            &&& holds_word(line, "state="@ + state_word(h.state))
            &&& holds_word(line, "queue="@ + decimal(h.queue_depth))
            &&& holds_word(line, "running="@ + decimal(h.running_count))
            &&& holds_word(line, "reporting="@ + decimal(h.reporting_count))
            &&& holds_word(line, "paused_inputs="@ + joined(h.paused_inputs, ","@))
            &&& holds_word(line, "discovery_readiness="@ + readiness_word(h.discovery.readiness))
            &&& holds_word(line, "discovery_cached_loaded="@ + truth(h.discovery.cached_snapshot_loaded))
            &&& holds_word(line, "discovery_used_cached="@ + truth(h.discovery.used_cached_snapshot))
            &&& holds_word(line, "discovery_resources="@ + decimal(h.discovery.resource_count))
            &&& holds_word(line, "discovery_targets="@ + decimal(h.discovery.target_count))
            &&& holds_word(line, "discovery_failures="@ + decimal(h.discovery.failure_count))
            &&& holds_word(line, "discovery_last_success_at="@ + text_or_dash(h.discovery.last_success_at))
            &&& holds_word(line, "updated_at="@ + h.updated_at)
        }),
{
    let line = health_line(h);
    let fields = health_line_fields(h);
    let label = "health "@;
    reveal_strlit("=");
    reveal_strlit(" ");
    reveal_strlit("health ");
    assert(line.take(label.len() as int) =~= label);
    reveal_strlit("state");
    reveal_strlit("state=");
    assert("state"@ + "="@ =~= "state="@);
    reveal_strlit("queue");
    reveal_strlit("queue=");
    assert("queue"@ + "="@ =~= "queue="@);
    reveal_strlit("running");
    reveal_strlit("running=");
    assert("running"@ + "="@ =~= "running="@);
    reveal_strlit("reporting");
    reveal_strlit("reporting=");
    assert("reporting"@ + "="@ =~= "reporting="@);
    reveal_strlit("paused_inputs");
    reveal_strlit("paused_inputs=");
    assert("paused_inputs"@ + "="@ =~= "paused_inputs="@);
    reveal_strlit("discovery_readiness");
    reveal_strlit("discovery_readiness=");
    assert("discovery_readiness"@ + "="@ =~= "discovery_readiness="@);
    reveal_strlit("discovery_cached_loaded");
    reveal_strlit("discovery_cached_loaded=");
    assert("discovery_cached_loaded"@ + "="@ =~= "discovery_cached_loaded="@);
    reveal_strlit("discovery_used_cached");
    reveal_strlit("discovery_used_cached=");
    assert("discovery_used_cached"@ + "="@ =~= "discovery_used_cached="@);
    reveal_strlit("discovery_resources");
    reveal_strlit("discovery_resources=");
    assert("discovery_resources"@ + "="@ =~= "discovery_resources="@);
    reveal_strlit("discovery_targets");
    reveal_strlit("discovery_targets=");
    assert("discovery_targets"@ + "="@ =~= "discovery_targets="@);
    reveal_strlit("discovery_failures");
    reveal_strlit("discovery_failures=");
    assert("discovery_failures"@ + "="@ =~= "discovery_failures="@);
    reveal_strlit("discovery_last_success_at");
    reveal_strlit("discovery_last_success_at=");
    assert("discovery_last_success_at"@ + "="@ =~= "discovery_last_success_at="@);
    reveal_strlit("updated_at");
    reveal_strlit("updated_at=");
    assert("updated_at"@ + "="@ =~= "updated_at="@);
    lemma_field_is_a_word(label, fields, 0);
    assert(fields[0] == "state="@ + state_word(h.state));
    lemma_field_is_a_word(label, fields, 1);
    assert(fields[1] == "queue="@ + decimal(h.queue_depth));
    lemma_field_is_a_word(label, fields, 2);
    assert(fields[2] == "running="@ + decimal(h.running_count));
    lemma_field_is_a_word(label, fields, 3);
    assert(fields[3] == "reporting="@ + decimal(h.reporting_count));
    lemma_field_is_a_word(label, fields, 4);
    assert(fields[4] == "paused_inputs="@ + joined(h.paused_inputs, ","@));
    lemma_field_is_a_word(label, fields, 5);
    assert(fields[5] == "discovery_readiness="@ + readiness_word(h.discovery.readiness));
    lemma_field_is_a_word(label, fields, 6);
    assert(fields[6] == "discovery_cached_loaded="@ + truth(h.discovery.cached_snapshot_loaded));
    lemma_field_is_a_word(label, fields, 7);
    assert(fields[7] == "discovery_used_cached="@ + truth(h.discovery.used_cached_snapshot));
    lemma_field_is_a_word(label, fields, 8);
    assert(fields[8] == "discovery_resources="@ + decimal(h.discovery.resource_count));
    lemma_field_is_a_word(label, fields, 9);
    assert(fields[9] == "discovery_targets="@ + decimal(h.discovery.target_count));
    lemma_field_is_a_word(label, fields, 10);
    assert(fields[10] == "discovery_failures="@ + decimal(h.discovery.failure_count));
    lemma_field_is_a_word(label, fields, 11);
    assert(fields[11] == "discovery_last_success_at="@ + text_or_dash(h.discovery.last_success_at));
    lemma_field_is_a_word(label, fields, 12);
    assert(fields[12] == "updated_at="@ + h.updated_at);
}

/// The line of a metrics snapshot starts with its label and tells each of its values behind
/// its own key.
#[verifier::rlimit(30)]
pub proof fn law_metrics_lines_tell_every_value(m: MetricsView)
    ensures
        ({
            let line = metrics_line(m);
            &&& starts_text(line, "metrics_runtime "@)
            &&& holds_word(line, "target_view_loaded="@ + truth(m.target_view_loaded))
            &&& holds_word(line, "used_cached_snapshot="@ + truth(m.used_cached_snapshot))
            &&& holds_word(line, "total_targets="@ + decimal(m.total_targets))
            &&& holds_word(line, "host_targets="@ + decimal(m.host_targets))
            &&& holds_word(line, "process_targets="@ + decimal(m.process_targets))
            &&& holds_word(line, "container_targets="@ + decimal(m.container_targets))
            &&& holds_word(line, "attempted_targets="@ + decimal(m.attempted_targets))
            &&& holds_word(line, "succeeded_targets="@ + decimal(m.succeeded_targets))
            &&& holds_word(line, "failed_targets="@ + decimal(m.failed_targets))
            &&& holds_word(line, "failures="@ + decimal(m.failure_count))
            &&& holds_word(line, "last_error="@ + text_or_dash(m.last_error))
            &&& holds_word(line, "updated_at="@ + text_or_dash(m.updated_at))
        }),
{
    let line = metrics_line(m);
    let fields = metrics_line_fields(m);
    let label = "metrics_runtime "@;
    reveal_strlit("=");
    reveal_strlit(" ");
    reveal_strlit("metrics_runtime ");
    assert(line.take(label.len() as int) =~= label);
    reveal_strlit("target_view_loaded");
    reveal_strlit("target_view_loaded=");
    assert("target_view_loaded"@ + "="@ =~= "target_view_loaded="@);
    reveal_strlit("used_cached_snapshot");
    reveal_strlit("used_cached_snapshot=");
    assert("used_cached_snapshot"@ + "="@ =~= "used_cached_snapshot="@);
    reveal_strlit("total_targets");
    reveal_strlit("total_targets=");
    assert("total_targets"@ + "="@ =~= "total_targets="@);
    reveal_strlit("host_targets");
    reveal_strlit("host_targets=");
    assert("host_targets"@ + "="@ =~= "host_targets="@);
    reveal_strlit("process_targets");
    reveal_strlit("process_targets=");
    assert("process_targets"@ + "="@ =~= "process_targets="@);
    reveal_strlit("container_targets");
    reveal_strlit("container_targets=");
    assert("container_targets"@ + "="@ =~= "container_targets="@);
    reveal_strlit("attempted_targets");
    reveal_strlit("attempted_targets=");
    assert("attempted_targets"@ + "="@ =~= "attempted_targets="@);
    reveal_strlit("succeeded_targets");
    reveal_strlit("succeeded_targets=");
    assert("succeeded_targets"@ + "="@ =~= "succeeded_targets="@);
    reveal_strlit("failed_targets");
    reveal_strlit("failed_targets=");
    assert("failed_targets"@ + "="@ =~= "failed_targets="@);
    reveal_strlit("failures");
    reveal_strlit("failures=");
    assert("failures"@ + "="@ =~= "failures="@);
    reveal_strlit("last_error");
    reveal_strlit("last_error=");
    assert("last_error"@ + "="@ =~= "last_error="@);
    reveal_strlit("updated_at");
    reveal_strlit("updated_at=");
    assert("updated_at"@ + "="@ =~= "updated_at="@);
    lemma_field_is_a_word(label, fields, 0);
    assert(fields[0] == "target_view_loaded="@ + truth(m.target_view_loaded));
    lemma_field_is_a_word(label, fields, 1);
    assert(fields[1] == "used_cached_snapshot="@ + truth(m.used_cached_snapshot));
    lemma_field_is_a_word(label, fields, 2);
    assert(fields[2] == "total_targets="@ + decimal(m.total_targets));
    lemma_field_is_a_word(label, fields, 3);
    assert(fields[3] == "host_targets="@ + decimal(m.host_targets));
    lemma_field_is_a_word(label, fields, 4);
    assert(fields[4] == "process_targets="@ + decimal(m.process_targets));
    lemma_field_is_a_word(label, fields, 5);
    assert(fields[5] == "container_targets="@ + decimal(m.container_targets));
    lemma_field_is_a_word(label, fields, 6);
    assert(fields[6] == "attempted_targets="@ + decimal(m.attempted_targets));
    lemma_field_is_a_word(label, fields, 7);
    assert(fields[7] == "succeeded_targets="@ + decimal(m.succeeded_targets));
    lemma_field_is_a_word(label, fields, 8);
    assert(fields[8] == "failed_targets="@ + decimal(m.failed_targets));
    lemma_field_is_a_word(label, fields, 9);
    assert(fields[9] == "failures="@ + decimal(m.failure_count));
    lemma_field_is_a_word(label, fields, 10);
    assert(fields[10] == "last_error="@ + text_or_dash(m.last_error));
    lemma_field_is_a_word(label, fields, 11);
    assert(fields[11] == "updated_at="@ + text_or_dash(m.updated_at));
}

/// The line of a probe starts with its label and tells each of its values behind its own key.
pub proof fn law_probe_lines_tell_every_value(p: ProbeView)
    ensures
        ({
            let line = probe_line(p);
            &&& starts_text(line, "discovery_probe "@)
            &&& holds_word(line, "source="@ + p.source)
            &&& holds_word(line, "probe="@ + p.probe)
            &&& holds_word(line, "phase="@ + p.phase)
            &&& holds_word(line, "status="@ + p.status)
            &&& holds_word(line, "resources="@ + decimal(p.resource_count))
            &&& holds_word(line, "targets="@ + decimal(p.target_count))
            &&& holds_word(line, "error="@ + text_or_dash(p.error))
        }),
{
    let line = probe_line(p);
    let fields = probe_line_fields(p);
    let label = "discovery_probe "@;
    reveal_strlit("=");
    reveal_strlit(" ");
    reveal_strlit("discovery_probe ");
    assert(line.take(label.len() as int) =~= label);
    reveal_strlit("source");
    reveal_strlit("source=");
    assert("source"@ + "="@ =~= "source="@);
    reveal_strlit("probe");
    reveal_strlit("probe=");
    assert("probe"@ + "="@ =~= "probe="@);
    reveal_strlit("phase");
    reveal_strlit("phase=");
    assert("phase"@ + "="@ =~= "phase="@);
    reveal_strlit("status");
    reveal_strlit("status=");
    assert("status"@ + "="@ =~= "status="@);
    reveal_strlit("resources");
    reveal_strlit("resources=");
    assert("resources"@ + "="@ =~= "resources="@);
    reveal_strlit("targets");
    reveal_strlit("targets=");
    assert("targets"@ + "="@ =~= "targets="@);
    reveal_strlit("error");
    reveal_strlit("error=");
    assert("error"@ + "="@ =~= "error="@);
    lemma_field_is_a_word(label, fields, 0);
    assert(fields[0] == "source="@ + p.source);
    lemma_field_is_a_word(label, fields, 1);
    assert(fields[1] == "probe="@ + p.probe);
    lemma_field_is_a_word(label, fields, 2);
    assert(fields[2] == "phase="@ + p.phase);
    lemma_field_is_a_word(label, fields, 3);
    assert(fields[3] == "status="@ + p.status);
    lemma_field_is_a_word(label, fields, 4);
    assert(fields[4] == "resources="@ + decimal(p.resource_count));
    lemma_field_is_a_word(label, fields, 5);
    assert(fields[5] == "targets="@ + decimal(p.target_count));
    lemma_field_is_a_word(label, fields, 6);
    assert(fields[6] == "error="@ + text_or_dash(p.error));
}

/// A snapshot is printed as the line of its health, the line of its metrics, and one line for
/// each probe, in their order.
pub proof fn law_snapshots_are_printed_as_a_whole(h: HealthView, i: int)
    ensures
        snapshot_lines(h).len() == 2 + h.discovery.probes.len(),
        snapshot_lines(h)[0] == health_line(h),
        snapshot_lines(h)[1] == metrics_line(h.metrics),
        0 <= i < h.discovery.probes.len() ==> snapshot_lines(h)[2 + i] == probe_line(
            h.discovery.probes[i],
        ),
{
}

/// What is printed is the whole snapshot. Right after a snapshot was printed, the same
/// content at another time is silent for the heartbeat interval, and is printed again after
/// it; other content is printed at once.
pub proof fn law_only_news_is_printed(
    gate: GateView,
    first: HealthView,
    other: HealthView,
    at: int,
    later: int,
    health_time: Seq<char>,
    discovery_time: Seq<char>,
    metrics_time: Option<Seq<char>>,
)
    requires
        gate.heartbeat > 0,
        emitted(gate, first, at) is Some,
    ensures
        ({
            let after = gate_after(gate, health_signature_text(first), at);
            let again = at_other_times(first, health_time, discovery_time, metrics_time);
            &&& emitted(gate, first, at) == Some(snapshot_lines(first))
            &&& later - at < gate.heartbeat ==> emitted(after, again, later) is None
            &&& later - at >= gate.heartbeat ==> emitted(after, again, later) == Some(
                snapshot_lines(again),
            )
            &&& health_signature_text(other) != health_signature_text(first) ==> emitted(
                after,
                other,
                later,
            ) == Some(snapshot_lines(other))
        }),
{
    law_signature_ignores_times(first, health_time, discovery_time, metrics_time);
}

/// A snapshot with one field of its signature replaced.
proof fn lemma_field_counts(a: HealthView, b: HealthView, at: int)
    requires
        0 <= at < health_fields(a).len(),
        health_fields(b) == health_fields(a).update(at, health_fields(b)[at]),
        a.discovery.probes == b.discovery.probes,
        a.metrics == b.metrics,
        health_signature_text(a) == health_signature_text(b),
    ensures
        health_fields(a)[at] == health_fields(b)[at],
{
    let sep = " "@;
    let x = health_fields(a);
    let y = health_fields(b);
    lemma_signature_split(a);
    lemma_signature_split(b);
    lemma_cancel_back(joined(x, sep), joined(y, sep), signature_tail(a));
    lemma_joined_at(x, at, sep);
    lemma_joined_at(y, at, sep);
    assert(x.take(at) =~= y.take(at));
    assert(x.skip(at + 1) =~= y.skip(at + 1));
    let front = joined_front(x, at, sep);
    let back = joined_back(x, at, sep);
    lemma_cancel_front(front, x[at] + back, y[at] + back);
    lemma_cancel_back(x[at], y[at], back);
}

spec fn joined_front(fields: Seq<Seq<char>>, at: int, sep: Seq<char>) -> Seq<char> {
    if at > 0 {
        joined(fields.take(at), sep) + sep
    } else {
        Seq::empty()
    }
}

spec fn joined_back(fields: Seq<Seq<char>>, at: int, sep: Seq<char>) -> Seq<char> {
    if at + 1 < fields.len() {
        sep + joined(fields.skip(at + 1), sep)
    } else {
        Seq::empty()
    }
}

proof fn lemma_joined_at(fields: Seq<Seq<char>>, at: int, sep: Seq<char>)
    requires
        0 <= at < fields.len(),
    ensures
        joined(fields, sep) == joined_front(fields, at, sep) + (fields[at] + joined_back(
            fields,
            at,
            sep,
        )),
{
    let a = fields.take(at);
    let one = seq![fields[at]];
    let b = fields.skip(at + 1);
    law_joining_goes_part_by_part(one, b, sep);
    law_joining_goes_part_by_part(a, one + b, sep);
    assert(fields =~= a + (one + b));
    if a.len() == 0 {
        assert(a + (one + b) =~= one + b);
    }
    if b.len() == 0 {
        assert(one + b =~= one);
    }
    assert(joined(fields, sep) =~= joined_front(fields, at, sep) + (fields[at] + joined_back(
        fields,
        at,
        sep,
    )));
}

/// Other paused inputs change the signature, as far as they are shown otherwise.
pub proof fn law_signature_tells_paused_inputs_apart(h: HealthView, paused: Seq<Seq<char>>)
    requires
        joined(paused, ","@) != joined(h.paused_inputs, ","@),
    ensures
        health_signature_text(HealthView { paused_inputs: paused, ..h }) != health_signature_text(
            h,
        ),
{
    let other = HealthView { paused_inputs: paused, ..h };
    let x = health_fields(h);
    let y = health_fields(other);
    assert(y =~= x.update(4, y[4]));
    if health_signature_text(other) == health_signature_text(h) {
        lemma_field_counts(h, other, 4);
        lemma_cancel_front(
            "paused"@ + "="@,
            joined(h.paused_inputs, ","@),
            joined(paused, ","@),
        );
    }
}

/// Another last success of discovery changes the signature, as far as it is shown otherwise.
pub proof fn law_signature_tells_the_last_success_apart(h: HealthView, last: Option<Seq<char>>)
    requires
        text_or_dash(last) != text_or_dash(h.discovery.last_success_at),
    ensures
        health_signature_text(
            HealthView { discovery: DiscoveryView { last_success_at: last, ..h.discovery }, ..h },
        ) != health_signature_text(h),
{
    let other = HealthView {
        discovery: DiscoveryView { last_success_at: last, ..h.discovery },
        ..h
    };
    let x = health_fields(h);
    let y = health_fields(other);
    assert(y =~= x.update(11, y[11]));
    if health_signature_text(other) == health_signature_text(h) {
        lemma_field_counts(h, other, 11);
        lemma_cancel_front(
            "last_success"@ + "="@,
            text_or_dash(h.discovery.last_success_at),
            text_or_dash(last),
        );
    }
}

/// Metrics that are told apart by their own signature change the signature of the snapshot.
pub proof fn law_signature_tells_metrics_apart(h: HealthView, metrics: MetricsView)
    requires
        metrics_signature_text(metrics) != metrics_signature_text(h.metrics),
    ensures
        health_signature_text(HealthView { metrics, ..h }) != health_signature_text(h),
{
    let other = HealthView { metrics, ..h };
    assert(health_fields(other) =~= health_fields(h));
    if health_signature_text(other) == health_signature_text(h) {
        lemma_cancel_front(
            joined(health_fields(h), " "@) + probes_signature(h.discovery.probes) + " metrics="@,
            metrics_signature_text(metrics),
            metrics_signature_text(h.metrics),
        );
    }
}

/// One more probe changes the signature.
pub proof fn law_signature_counts_probes(h: HealthView, p: ProbeView)
    ensures
        health_signature_text(
            HealthView {
                discovery: DiscoveryView { probes: h.discovery.probes.push(p), ..h.discovery },
                ..h
            },
        ) != health_signature_text(h),
{
    let probes = h.discovery.probes;
    let other = HealthView {
        discovery: DiscoveryView { probes: probes.push(p), ..h.discovery },
        ..h
    };
    assert(health_fields(other) =~= health_fields(h));
    assert(probes.push(p).drop_last() =~= probes);
    reveal_strlit("\nprobe=");
    assert(probe_signature(p).len() > 0);
    assert(probes_signature(probes.push(p)).len() == probes_signature(probes).len()
        + probe_signature(p).len());
    assert(health_signature_text(other).len() == health_signature_text(h).len() + probe_signature(
        p,
    ).len());
}

/// The error of a probe does not count in the signature: its status does.
pub proof fn law_signature_ignores_probe_errors(h: HealthView, at: int, error: Option<Seq<char>>)
    requires
        0 <= at < h.discovery.probes.len(),
    ensures
        health_signature_text(
            with_probe(h, at, ProbeView { error, ..h.discovery.probes[at] }),
        ) == health_signature_text(h),
{
    let other = with_probe(h, at, ProbeView { error, ..h.discovery.probes[at] });
    assert(health_fields(other) =~= health_fields(h));
    lemma_probe_errors(h.discovery.probes, at, error);
}

proof fn lemma_probe_errors(probes: Seq<ProbeView>, at: int, error: Option<Seq<char>>)
    requires
        0 <= at < probes.len(),
    ensures
        probes_signature(probes.update(at, ProbeView { error, ..probes[at] })) == probes_signature(
            probes,
        ),
    decreases probes.len(),
{
    let other = probes.update(at, ProbeView { error, ..probes[at] });
    let front = probes.drop_last();
    if at == probes.len() - 1 {
        assert(other.drop_last() =~= front);
    } else {
        lemma_probe_errors(front, at, error);
        assert(other.drop_last() =~= front.update(at, ProbeView { error, ..front[at] }));
    }
}

} // verus!
