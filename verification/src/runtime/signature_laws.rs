//! What the signatures of snapshots tell apart.
use crate::runtime::self_observability::{
    field, health_fields, health_signature_text, metrics_fields, metrics_signature_text,
    probe_signature, probes_signature, DiscoveryReadiness, DiscoveryView, HealthState, HealthView,
    MetricsView, ProbeView,
};
use crate::text::{
    bool_word, decimal, is_digit, joined, lemma_decimal_digits, lemma_decimal_injective,
    or_dash,
};
use vstd::prelude::*;
use vstd::string::*;

verus! {

/// A text without spaces.
pub open spec fn has_no_space(s: Seq<char>) -> bool {
    !s.contains(' ')
}

/// What follows the same text is told by the whole.
pub proof fn lemma_cancel_front(a: Seq<char>, x: Seq<char>, y: Seq<char>)
    requires
        a + x == a + y,
    ensures
        x == y,
{
    assert((a + x).skip(a.len() as int) =~= x);
    assert((a + y).skip(a.len() as int) =~= y);
}

/// What precedes the same text is told by the whole.
pub proof fn lemma_cancel_back(x: Seq<char>, y: Seq<char>, b: Seq<char>)
    requires
        x + b == y + b,
    ensures
        x == y,
{
    assert((x + b).len() == x.len() + b.len());
    assert((y + b).len() == y.len() + b.len());
    assert((x + b).take(x.len() as int) =~= x);
    assert((y + b).take(y.len() as int) =~= y);
}

/// What stands before the first space is determined.
proof fn lemma_cut(x: Seq<char>, u: Seq<char>, y: Seq<char>, v: Seq<char>)
    requires
        x + seq![' '] + u == y + seq![' '] + v,
        has_no_space(x),
        has_no_space(y),
    ensures
        x == y,
        u == v,
{
    let left = x + seq![' '] + u;
    let right = y + seq![' '] + v;
    assert(left[x.len() as int] == ' ');
    assert(right[y.len() as int] == ' ');
    if x.len() < y.len() {
        assert(right[x.len() as int] == y[x.len() as int]);
        assert(y.contains(' '));
    }
    if y.len() < x.len() {
        assert(left[y.len() as int] == x[y.len() as int]);
        assert(x.contains(' '));
    }
    assert(left.take(x.len() as int) =~= x);
    assert(right.take(y.len() as int) =~= y);
    assert(left.skip(x.len() as int + 1) =~= u);
    assert(right.skip(y.len() as int + 1) =~= v);
}

/// A joined list starts with its first text.
proof fn lemma_joined_front(parts: Seq<Seq<char>>)
    requires
        parts.len() > 1,
    ensures
        joined(parts, " "@) == parts[0] + seq![' '] + joined(parts.skip(1), " "@),
    decreases parts.len(),
{
    reveal_strlit(" ");
    assert(" "@ =~= seq![' ']);
    if parts.len() == 2 {
        assert(parts.drop_last() =~= seq![parts[0]]);
        assert(parts.skip(1) =~= seq![parts[1]]);
        assert(joined(parts.drop_last(), " "@) == parts[0]);
        assert(joined(parts.skip(1), " "@) == parts[1]);
    } else {
        lemma_joined_front(parts.drop_last());
        assert(parts.drop_last().skip(1) =~= parts.skip(1).drop_last());
        assert(parts.skip(1).last() == parts.last());
        assert(joined(parts, " "@) =~= parts[0] + seq![' '] + joined(parts.skip(1), " "@));
    }
}

/// The leading fields without spaces are determined, and so is what follows them.
proof fn lemma_cut_fields(
    a: Seq<Seq<char>>,
    rest_a: Seq<char>,
    b: Seq<Seq<char>>,
    rest_b: Seq<char>,
    count: int,
)
    requires
        a.len() == b.len(),
        0 <= count < a.len(),
        joined(a, " "@) + rest_a == joined(b, " "@) + rest_b,
        forall|i: int| 0 <= i < count ==> has_no_space(#[trigger] a[i]),
        forall|i: int| 0 <= i < count ==> has_no_space(#[trigger] b[i]),
    ensures
        forall|i: int| #![trigger a[i]] #![trigger b[i]] 0 <= i < count ==> a[i] == b[i],
        joined(a.skip(count), " "@) + rest_a == joined(b.skip(count), " "@) + rest_b,
    decreases count,
{
    if count == 0 {
        assert(a.skip(0) =~= a);
        assert(b.skip(0) =~= b);
    } else {
        lemma_joined_front(a);
        lemma_joined_front(b);
        let ta = joined(a.skip(1), " "@) + rest_a;
        let tb = joined(b.skip(1), " "@) + rest_b;
        assert(joined(a, " "@) + rest_a =~= a[0] + seq![' '] + ta);
        assert(joined(b, " "@) + rest_b =~= b[0] + seq![' '] + tb);
        lemma_cut(a[0], ta, b[0], tb);
        assert forall|i: int| 0 <= i < count - 1 implies has_no_space(
            #[trigger] a.skip(1)[i],
        ) by {
            assert(a.skip(1)[i] == a[i + 1]);
        }
        assert forall|i: int| 0 <= i < count - 1 implies has_no_space(
            #[trigger] b.skip(1)[i],
        ) by {
            assert(b.skip(1)[i] == b[i + 1]);
        }
        lemma_cut_fields(a.skip(1), rest_a, b.skip(1), rest_b, count - 1);
        assert(a.skip(1).skip(count - 1) =~= a.skip(count));
        assert(b.skip(1).skip(count - 1) =~= b.skip(count));
        assert forall|i: int|
            #![trigger a[i]]
            #![trigger b[i]]
            0 <= i < count implies a[i] == b[i] by {
            if i > 0 {
                assert(a.skip(1)[i - 1] == a[i]);
                assert(b.skip(1)[i - 1] == b[i]);
            }
        }
    }
}

proof fn lemma_field_value(key: Seq<char>, x: Seq<char>, y: Seq<char>)
    requires
        field(key, x) == field(key, y),
    ensures
        x == y,
{
    lemma_cancel_front(key + "="@, x, y);
}

proof fn lemma_no_space_concat(a: Seq<char>, b: Seq<char>)
    requires
        has_no_space(a),
        has_no_space(b),
    ensures
        has_no_space(a + b),
{
    if (a + b).contains(' ') {
        let i = choose|i: int| 0 <= i < (a + b).len() && (a + b)[i] == ' ';
        if i < a.len() {
            assert(a[i] == ' ');
        } else {
            assert(b[i - a.len()] == ' ');
        }
    }
}

proof fn lemma_field_no_space(key: Seq<char>, value: Seq<char>)
    requires
        has_no_space(key),
        has_no_space(value),
    ensures
        has_no_space(field(key, value)),
{
    reveal_strlit("=");
    assert(has_no_space("="@));
    lemma_no_space_concat(key, "="@);
    lemma_no_space_concat(key + "="@, value);
}

proof fn lemma_decimal_no_space(n: nat)
    ensures
        has_no_space(decimal(n)),
{
    lemma_decimal_digits(n);
    if decimal(n).contains(' ') {
        let i = choose|i: int| 0 <= i < decimal(n).len() && decimal(n)[i] == ' ';
        assert(is_digit(decimal(n)[i]));
    }
}

proof fn lemma_bool_word(a: bool, b: bool)
    ensures
        has_no_space(bool_word(a)),
        bool_word(a) == bool_word(b) ==> a == b,
{
    reveal_strlit("true");
    reveal_strlit("false");
    assert("true"@.len() != "false"@.len());
}

proof fn lemma_count_field(key: Seq<char>, a: nat, b: nat)
    requires
        has_no_space(key),
    ensures
        has_no_space(field(key, decimal(a))),
        field(key, decimal(a)) == field(key, decimal(b)) ==> a == b,
{
    lemma_decimal_no_space(a);
    lemma_field_no_space(key, decimal(a));
    if field(key, decimal(a)) == field(key, decimal(b)) {
        lemma_field_value(key, decimal(a), decimal(b));
        lemma_decimal_injective(a, b);
    }
}

proof fn lemma_flag_field(key: Seq<char>, a: bool, b: bool)
    requires
        has_no_space(key),
    ensures
        has_no_space(field(key, bool_word(a))),
        field(key, bool_word(a)) == field(key, bool_word(b)) ==> a == b,
{
    lemma_bool_word(a, b);
    lemma_field_no_space(key, bool_word(a));
    if field(key, bool_word(a)) == field(key, bool_word(b)) {
        lemma_field_value(key, bool_word(a), bool_word(b));
    }
}

proof fn lemma_metrics_field(a: MetricsView, b: MetricsView, i: int)
    requires
        0 <= i < 10,
    ensures
        has_no_space(metrics_fields(a)[i]),
        metrics_fields(a)[i] == metrics_fields(b)[i] ==> {
            &&& i == 0 ==> a.target_view_loaded == b.target_view_loaded
            &&& i == 1 ==> a.used_cached_snapshot == b.used_cached_snapshot
            &&& i == 2 ==> a.total_targets == b.total_targets
            &&& i == 3 ==> a.host_targets == b.host_targets
            &&& i == 4 ==> a.process_targets == b.process_targets
            &&& i == 5 ==> a.container_targets == b.container_targets
            &&& i == 6 ==> a.attempted_targets == b.attempted_targets
            &&& i == 7 ==> a.succeeded_targets == b.succeeded_targets
            &&& i == 8 ==> a.failed_targets == b.failed_targets
            &&& i == 9 ==> a.failure_count == b.failure_count
        },
{
    reveal_strlit("target_view_loaded");
    reveal_strlit("used_cached");
    reveal_strlit("total");
    reveal_strlit("host");
    reveal_strlit("process");
    reveal_strlit("container");
    reveal_strlit("attempted");
    reveal_strlit("succeeded");
    reveal_strlit("failed");
    reveal_strlit("failures");
    if i == 0 {
        lemma_flag_field("target_view_loaded"@, a.target_view_loaded, b.target_view_loaded);
    } else if i == 1 {
        lemma_flag_field("used_cached"@, a.used_cached_snapshot, b.used_cached_snapshot);
    } else if i == 2 {
        lemma_count_field("total"@, a.total_targets, b.total_targets);
    } else if i == 3 {
        lemma_count_field("host"@, a.host_targets, b.host_targets);
    } else if i == 4 {
        lemma_count_field("process"@, a.process_targets, b.process_targets);
    } else if i == 5 {
        lemma_count_field("container"@, a.container_targets, b.container_targets);
    } else if i == 6 {
        lemma_count_field("attempted"@, a.attempted_targets, b.attempted_targets);
    } else if i == 7 {
        lemma_count_field("succeeded"@, a.succeeded_targets, b.succeeded_targets);
    } else if i == 8 {
        lemma_count_field("failed"@, a.failed_targets, b.failed_targets);
    } else {
        lemma_count_field("failures"@, a.failure_count, b.failure_count);
    }
}

/// Two metrics snapshots agree in everything but their time; of the last error, in how
/// it is shown.
pub open spec fn same_metrics(a: MetricsView, b: MetricsView) -> bool {
    &&& a.target_view_loaded == b.target_view_loaded
    &&& a.used_cached_snapshot == b.used_cached_snapshot
    &&& a.total_targets == b.total_targets
    &&& a.host_targets == b.host_targets
    &&& a.process_targets == b.process_targets
    &&& a.container_targets == b.container_targets
    &&& a.attempted_targets == b.attempted_targets
    &&& a.succeeded_targets == b.succeeded_targets
    &&& a.failed_targets == b.failed_targets
    &&& a.failure_count == b.failure_count
    &&& or_dash(a.last_error) == or_dash(b.last_error)
}

/// Two metrics snapshots have the same signature exactly if they agree in everything but
/// their time.
pub proof fn law_metrics_signature_tells_apart(a: MetricsView, b: MetricsView)
    ensures
        metrics_signature_text(a) == metrics_signature_text(b) <==> same_metrics(a, b),
{
    if same_metrics(a, b) {
        assert(metrics_fields(a) =~= metrics_fields(b));
    }
    if metrics_signature_text(a) == metrics_signature_text(b) {
        let fa = metrics_fields(a);
        let fb = metrics_fields(b);
        let none = Seq::<char>::empty();
        assert forall|i: int| 0 <= i < 10 implies has_no_space(#[trigger] fa[i]) by {
            lemma_metrics_field(a, b, i);
        }
        assert forall|i: int| 0 <= i < 10 implies has_no_space(#[trigger] fb[i]) by {
            lemma_metrics_field(b, a, i);
        }
        assert(joined(fa, " "@) + none =~= joined(fa, " "@));
        assert(joined(fb, " "@) + none =~= joined(fb, " "@));
        lemma_cut_fields(fa, none, fb, none, 10);
        lemma_metrics_field(a, b, 0);
        lemma_metrics_field(a, b, 1);
        lemma_metrics_field(a, b, 2);
        lemma_metrics_field(a, b, 3);
        lemma_metrics_field(a, b, 4);
        lemma_metrics_field(a, b, 5);
        lemma_metrics_field(a, b, 6);
        lemma_metrics_field(a, b, 7);
        lemma_metrics_field(a, b, 8);
        lemma_metrics_field(a, b, 9);
        assert(fa.skip(10) =~= seq![field("last_error"@, or_dash(a.last_error))]);
        assert(fb.skip(10) =~= seq![field("last_error"@, or_dash(b.last_error))]);
        assert(joined(fa.skip(10), " "@) == fa.skip(10)[0]);
        assert(joined(fb.skip(10), " "@) == fb.skip(10)[0]);
        assert(fa.skip(10)[0] + none =~= fa.skip(10)[0]);
        assert(fb.skip(10)[0] + none =~= fb.skip(10)[0]);
        lemma_field_value("last_error"@, or_dash(a.last_error), or_dash(b.last_error));
    }
}

/// A health snapshot at other times.
pub open spec fn at_other_times(
    h: HealthView,
    health_time: Seq<char>,
    discovery_time: Seq<char>,
    metrics_time: Option<Seq<char>>,
) -> HealthView {
    HealthView {
        updated_at: health_time,
        discovery: DiscoveryView { updated_at: discovery_time, ..h.discovery },
        metrics: MetricsView { updated_at: metrics_time, ..h.metrics },
        ..h
    }
}

/// The times of a snapshot do not count in its signature.
pub proof fn law_signature_ignores_times(
    h: HealthView,
    health_time: Seq<char>,
    discovery_time: Seq<char>,
    metrics_time: Option<Seq<char>>,
)
    ensures
        health_signature_text(at_other_times(h, health_time, discovery_time, metrics_time))
            == health_signature_text(h),
{
    let other = at_other_times(h, health_time, discovery_time, metrics_time);
    assert(health_fields(other) =~= health_fields(h));
    assert(metrics_fields(other.metrics) =~= metrics_fields(h.metrics));
}

proof fn lemma_state_word(a: HealthState, b: HealthState)
    ensures
        has_no_space(a.word()),
        a.word() == b.word() ==> a == b,
{
    reveal_strlit("Idle");
    reveal_strlit("Active");
    assert("Idle"@.len() != "Active"@.len());
}

proof fn lemma_readiness_word(a: DiscoveryReadiness, b: DiscoveryReadiness)
    ensures
        has_no_space(a.word()),
        a.word() == b.word() ==> a == b,
{
    reveal_strlit("NotReady");
    reveal_strlit("ReadyWithStaleSnapshot");
    reveal_strlit("Ready");
    assert("NotReady"@.len() != "Ready"@.len());
    assert("NotReady"@.len() != "ReadyWithStaleSnapshot"@.len());
    assert("Ready"@.len() != "ReadyWithStaleSnapshot"@.len());
}

proof fn lemma_health_field(a: HealthView, b: HealthView, i: int)
    requires
        0 <= i < 11,
        i != 4,
    ensures
        has_no_space(health_fields(a)[i]),
        health_fields(a)[i] == health_fields(b)[i] ==> {
            &&& i == 0 ==> a.state == b.state
            &&& i == 1 ==> a.queue_depth == b.queue_depth
            &&& i == 2 ==> a.running_count == b.running_count
            &&& i == 3 ==> a.reporting_count == b.reporting_count
            &&& i == 5 ==> a.discovery.readiness == b.discovery.readiness
            &&& i == 6 ==> a.discovery.cached_snapshot_loaded == b.discovery.cached_snapshot_loaded
            &&& i == 7 ==> a.discovery.used_cached_snapshot == b.discovery.used_cached_snapshot
            &&& i == 8 ==> a.discovery.resource_count == b.discovery.resource_count
            &&& i == 9 ==> a.discovery.target_count == b.discovery.target_count
            &&& i == 10 ==> a.discovery.failure_count == b.discovery.failure_count
        },
{
    reveal_strlit("state");
    reveal_strlit("queue");
    reveal_strlit("running");
    reveal_strlit("reporting");
    reveal_strlit("discovery");
    reveal_strlit("cached_loaded");
    reveal_strlit("used_cached");
    reveal_strlit("resources");
    reveal_strlit("targets");
    reveal_strlit("failures");
    if i == 0 {
        lemma_state_word(a.state, b.state);
        lemma_field_no_space("state"@, a.state.word());
        if health_fields(a)[0] == health_fields(b)[0] {
            lemma_field_value("state"@, a.state.word(), b.state.word());
        }
    } else if i == 1 {
        lemma_count_field("queue"@, a.queue_depth, b.queue_depth);
    } else if i == 2 {
        lemma_count_field("running"@, a.running_count, b.running_count);
    } else if i == 3 {
        lemma_count_field("reporting"@, a.reporting_count, b.reporting_count);
    } else if i == 5 {
        lemma_readiness_word(a.discovery.readiness, b.discovery.readiness);
        lemma_field_no_space("discovery"@, a.discovery.readiness.word());
        if health_fields(a)[5] == health_fields(b)[5] {
            lemma_field_value(
                "discovery"@,
                a.discovery.readiness.word(),
                b.discovery.readiness.word(),
            );
        }
    } else if i == 6 {
        lemma_flag_field(
            "cached_loaded"@,
            a.discovery.cached_snapshot_loaded,
            b.discovery.cached_snapshot_loaded,
        );
    } else if i == 7 {
        lemma_flag_field(
            "used_cached"@,
            a.discovery.used_cached_snapshot,
            b.discovery.used_cached_snapshot,
        );
    } else if i == 8 {
        lemma_count_field(
            "resources"@,
            a.discovery.resource_count,
            b.discovery.resource_count,
        );
    } else if i == 9 {
        lemma_count_field("targets"@, a.discovery.target_count, b.discovery.target_count);
    } else {
        lemma_count_field("failures"@, a.discovery.failure_count, b.discovery.failure_count);
    }
}

/// What follows the fields in the signature of a health snapshot.
pub open spec fn signature_tail(h: HealthView) -> Seq<char> {
    probes_signature(h.discovery.probes) + (" metrics="@ + metrics_signature_text(h.metrics))
}

/// A signature is its fields and then its probes and metrics.
pub proof fn lemma_signature_split(h: HealthView)
    ensures
        health_signature_text(h) == joined(health_fields(h), " "@) + signature_tail(h),
{
    assert(health_signature_text(h) =~= joined(health_fields(h), " "@) + signature_tail(h));
}

/// Snapshots with the same signature agree in their state, their queue and their counts
/// of running and reporting work.
pub proof fn law_signature_tells_work_apart(a: HealthView, b: HealthView)
    requires
        health_signature_text(a) == health_signature_text(b),
    ensures
        a.state == b.state,
        a.queue_depth == b.queue_depth,
        a.running_count == b.running_count,
        a.reporting_count == b.reporting_count,
{
    lemma_work_fields(a, b);
}

proof fn lemma_work_fields(a: HealthView, b: HealthView)
    requires
        health_signature_text(a) == health_signature_text(b),
    ensures
        a.state == b.state,
        a.queue_depth == b.queue_depth,
        a.running_count == b.running_count,
        a.reporting_count == b.reporting_count,
        joined(health_fields(a).skip(4), " "@) + signature_tail(a) == joined(
            health_fields(b).skip(4),
            " "@,
        ) + signature_tail(b),
{
    let fa = health_fields(a);
    let fb = health_fields(b);
    lemma_signature_split(a);
    lemma_signature_split(b);
    assert forall|i: int| 0 <= i < 4 implies has_no_space(#[trigger] fa[i]) by {
        lemma_health_field(a, b, i);
    }
    assert forall|i: int| 0 <= i < 4 implies has_no_space(#[trigger] fb[i]) by {
        lemma_health_field(b, a, i);
    }
    lemma_cut_fields(fa, signature_tail(a), fb, signature_tail(b), 4);
    lemma_health_field(a, b, 0);
    lemma_health_field(a, b, 1);
    lemma_health_field(a, b, 2);
    lemma_health_field(a, b, 3);
}

/// Snapshots with the same signature and the same paused inputs agree in the state of
/// discovery, too: its readiness, its use of a cached snapshot and its counts. Where the
/// last success and the probes are the same as well, they agree in their metrics.
pub proof fn law_signature_tells_discovery_apart(a: HealthView, b: HealthView)
    requires
        health_signature_text(a) == health_signature_text(b),
        a.paused_inputs == b.paused_inputs,
    ensures
        a.discovery.readiness == b.discovery.readiness,
        a.discovery.cached_snapshot_loaded == b.discovery.cached_snapshot_loaded,
        a.discovery.used_cached_snapshot == b.discovery.used_cached_snapshot,
        a.discovery.resource_count == b.discovery.resource_count,
        a.discovery.target_count == b.discovery.target_count,
        a.discovery.failure_count == b.discovery.failure_count,
        or_dash(a.discovery.last_success_at) == or_dash(b.discovery.last_success_at)
            && a.discovery.probes == b.discovery.probes ==> same_metrics(a.metrics, b.metrics),
{
    let ta = signature_tail(a);
    let tb = signature_tail(b);
    let fa = health_fields(a).skip(4);
    let fb = health_fields(b).skip(4);
    lemma_work_fields(a, b);
    lemma_joined_front(fa);
    lemma_joined_front(fb);
    let ga = fa.skip(1);
    let gb = fb.skip(1);
    assert(fa[0] == fb[0]);
    let lead = fa[0] + seq![' '];
    assert(joined(fa, " "@) + ta =~= lead + (joined(ga, " "@) + ta));
    assert(joined(fb, " "@) + tb =~= lead + (joined(gb, " "@) + tb));
    lemma_cancel_front(lead, joined(ga, " "@) + ta, joined(gb, " "@) + tb);
    assert forall|i: int| 0 <= i < 6 implies has_no_space(#[trigger] ga[i]) by {
        lemma_health_field(a, b, i + 5);
        assert(ga[i] == health_fields(a)[i + 5]);
    }
    assert forall|i: int| 0 <= i < 6 implies has_no_space(#[trigger] gb[i]) by {
        lemma_health_field(b, a, i + 5);
        assert(gb[i] == health_fields(b)[i + 5]);
    }
    lemma_cut_fields(ga, ta, gb, tb, 6);
    assert(ga[0] == health_fields(a)[5] && gb[0] == health_fields(b)[5]);
    assert(ga[1] == health_fields(a)[6] && gb[1] == health_fields(b)[6]);
    assert(ga[2] == health_fields(a)[7] && gb[2] == health_fields(b)[7]);
    assert(ga[3] == health_fields(a)[8] && gb[3] == health_fields(b)[8]);
    assert(ga[4] == health_fields(a)[9] && gb[4] == health_fields(b)[9]);
    assert(ga[5] == health_fields(a)[10] && gb[5] == health_fields(b)[10]);
    lemma_health_field(a, b, 5);
    lemma_health_field(a, b, 6);
    lemma_health_field(a, b, 7);
    lemma_health_field(a, b, 8);
    lemma_health_field(a, b, 9);
    lemma_health_field(a, b, 10);
    if or_dash(a.discovery.last_success_at) == or_dash(b.discovery.last_success_at)
        && a.discovery.probes == b.discovery.probes {
        let la = ga.skip(6);
        let lb = gb.skip(6);
        assert(la =~= seq![field("last_success"@, or_dash(a.discovery.last_success_at))]);
        assert(lb =~= la);
        let head = joined(la, " "@);
        lemma_cancel_front(head, ta, tb);
        let probes = probes_signature(a.discovery.probes);
        lemma_cancel_front(
            probes,
            " metrics="@ + metrics_signature_text(a.metrics),
            " metrics="@ + metrics_signature_text(b.metrics),
        );
        lemma_cancel_front(
            " metrics="@,
            metrics_signature_text(a.metrics),
            metrics_signature_text(b.metrics),
        );
        law_metrics_signature_tells_apart(a.metrics, b.metrics);
    }
}

/// A health snapshot with another state for one probe.
pub open spec fn with_probe(h: HealthView, at: int, probe: ProbeView) -> HealthView {
    HealthView {
        discovery: DiscoveryView {
            probes: h.discovery.probes.update(at, probe),
            ..h.discovery
        },
        ..h
    }
}

/// The probes behind an index, in the signature.
pub open spec fn probes_behind(probes: Seq<ProbeView>, at: int) -> Seq<char>
    decreases probes.len(),
{
    if probes.len() <= at + 1 || at < 0 {
        Seq::empty()
    } else {
        probes_behind(probes.drop_last(), at) + probe_signature(probes.last())
    }
}

proof fn lemma_probes_split(probes: Seq<ProbeView>, at: int)
    requires
        0 <= at < probes.len(),
    ensures
        probes_signature(probes) == probes_signature(probes.take(at)) + (probe_signature(
            probes[at],
        ) + probes_behind(probes, at)),
    decreases probes.len(),
{
    if at == probes.len() - 1 {
        assert(probes.drop_last() =~= probes.take(at));
        assert(probe_signature(probes[at]) + probes_behind(probes, at) =~= probe_signature(
            probes[at],
        ));
    } else {
        let front = probes.drop_last();
        lemma_probes_split(front, at);
        assert(front.take(at) =~= probes.take(at));
        assert(probes_signature(probes) =~= probes_signature(probes.take(at)) + (probe_signature(
            probes[at],
        ) + probes_behind(probes, at)));
    }
}

proof fn lemma_behind_ignores(probes: Seq<ProbeView>, at: int, p: ProbeView)
    requires
        0 <= at < probes.len(),
    ensures
        probes_behind(probes.update(at, p), at) == probes_behind(probes, at),
    decreases probes.len(),
{
    if probes.len() > at + 1 {
        assert(probes.update(at, p).drop_last() =~= probes.drop_last().update(at, p));
        lemma_behind_ignores(probes.drop_last(), at, p);
    }
}

proof fn lemma_probe_counts(p: ProbeView, q: ProbeView)
    requires
        probe_signature(p) == probe_signature(q),
        p.source == q.source,
        p.probe == q.probe,
        p.phase == q.phase,
        p.status == q.status,
    ensures
        p.resource_count == q.resource_count,
        p.target_count == q.target_count,
{
    let head = "\nprobe="@ + p.source + " "@ + p.probe + " "@ + p.phase + " "@ + p.status + " "@;
    let x = decimal(p.resource_count);
    let y = decimal(q.resource_count);
    let u = decimal(p.target_count);
    let v = decimal(q.target_count);
    reveal_strlit(" ");
    assert(" "@ =~= seq![' ']);
    assert(probe_signature(p) =~= head + (x + seq![' '] + u));
    assert(probe_signature(q) =~= head + (y + seq![' '] + v));
    lemma_cancel_front(head, x + seq![' '] + u, y + seq![' '] + v);
    lemma_decimal_no_space(p.resource_count);
    lemma_decimal_no_space(q.resource_count);
    lemma_cut(x, u, y, v);
    lemma_decimal_injective(p.resource_count, q.resource_count);
    lemma_decimal_injective(p.target_count, q.target_count);
}

/// Where the signature stays, the part of a changed probe stays.
proof fn lemma_probe_part_stays(h: HealthView, at: int, other: ProbeView)
    requires
        0 <= at < h.discovery.probes.len(),
        health_signature_text(with_probe(h, at, other)) == health_signature_text(h),
    ensures
        probe_signature(other) == probe_signature(h.discovery.probes[at]),
{
    let changed = with_probe(h, at, other);
    let probes = h.discovery.probes;
    let p = probes[at];
    lemma_signature_split(h);
    lemma_signature_split(changed);
    assert(health_fields(changed) =~= health_fields(h));
    lemma_cancel_front(joined(health_fields(h), " "@), signature_tail(changed), signature_tail(h));
    lemma_cancel_back(
        probes_signature(changed.discovery.probes),
        probes_signature(probes),
        " metrics="@ + metrics_signature_text(h.metrics),
    );
    lemma_probes_split(probes, at);
    lemma_probes_split(changed.discovery.probes, at);
    lemma_behind_ignores(probes, at, other);
    assert(changed.discovery.probes.take(at) =~= probes.take(at));
    assert(changed.discovery.probes[at] == other);
    let behind = probes_behind(probes, at);
    lemma_cancel_front(
        probes_signature(probes.take(at)),
        probe_signature(other) + behind,
        probe_signature(p) + behind,
    );
    lemma_cancel_back(probe_signature(other), probe_signature(p), behind);
}

/// A text between two others is told by the whole.
proof fn lemma_middle(head: Seq<char>, x: Seq<char>, y: Seq<char>, tail: Seq<char>)
    requires
        head + (x + tail) == head + (y + tail),
    ensures
        x == y,
{
    lemma_cancel_front(head, x + tail, y + tail);
    lemma_cancel_back(x, y, tail);
}

/// A probe that changes its status, or with the same status one of its counts, changes
/// the signature.
pub proof fn law_signature_tells_probe_states_apart(h: HealthView, at: int, other: ProbeView)
    requires
        0 <= at < h.discovery.probes.len(),
        other.source == h.discovery.probes[at].source,
        other.probe == h.discovery.probes[at].probe,
        other.phase == h.discovery.probes[at].phase,
        health_signature_text(with_probe(h, at, other)) == health_signature_text(h),
    ensures
        other.resource_count == h.discovery.probes[at].resource_count && other.target_count
            == h.discovery.probes[at].target_count ==> other.status
            == h.discovery.probes[at].status,
        other.status == h.discovery.probes[at].status ==> other.resource_count
            == h.discovery.probes[at].resource_count && other.target_count
            == h.discovery.probes[at].target_count,
{
    let p = h.discovery.probes[at];
    lemma_probe_part_stays(h, at, other);
    if other.resource_count == p.resource_count && other.target_count == p.target_count {
        let head = "\nprobe="@ + p.source + " "@ + p.probe + " "@ + p.phase + " "@;
        let tail = " "@ + decimal(p.resource_count) + " "@ + decimal(p.target_count);
        assert(probe_signature(p) =~= head + (p.status + tail));
        assert(probe_signature(other) =~= head + (other.status + tail));
        lemma_middle(head, other.status, p.status, tail);
    }
    if other.status == p.status {
        lemma_probe_counts(other, p);
    }
}

proof fn lemma_probe_source(p: ProbeView, source: Seq<char>)
    requires
        probe_signature(ProbeView { source, ..p }) == probe_signature(p),
    ensures
        source == p.source,
{
    let head = "\nprobe="@;
    let tail = " "@ + p.probe + " "@ + p.phase + " "@ + p.status + " "@ + decimal(p.resource_count)
        + " "@ + decimal(p.target_count);
    assert(probe_signature(p) =~= head + (p.source + tail));
    assert(probe_signature(ProbeView { source, ..p }) =~= head + (source + tail));
    lemma_middle(head, source, p.source, tail);
}

proof fn lemma_probe_name(p: ProbeView, probe: Seq<char>)
    requires
        probe_signature(ProbeView { probe, ..p }) == probe_signature(p),
    ensures
        probe == p.probe,
{
    let head = "\nprobe="@ + p.source + " "@;
    let tail = " "@ + p.phase + " "@ + p.status + " "@ + decimal(p.resource_count) + " "@ + decimal(
        p.target_count,
    );
    assert(probe_signature(p) =~= head + (p.probe + tail));
    assert(probe_signature(ProbeView { probe, ..p }) =~= head + (probe + tail));
    lemma_middle(head, probe, p.probe, tail);
}

proof fn lemma_probe_phase(p: ProbeView, phase: Seq<char>)
    requires
        probe_signature(ProbeView { phase, ..p }) == probe_signature(p),
    ensures
        phase == p.phase,
{
    let head = "\nprobe="@ + p.source + " "@ + p.probe + " "@;
    let tail = " "@ + p.status + " "@ + decimal(p.resource_count) + " "@ + decimal(p.target_count);
    assert(probe_signature(p) =~= head + (p.phase + tail));
    assert(probe_signature(ProbeView { phase, ..p }) =~= head + (phase + tail));
    lemma_middle(head, phase, p.phase, tail);
}

/// A probe of which only the source, only the name or only the phase is another one
/// changes the signature.
pub proof fn law_signature_tells_probe_names_apart(
    h: HealthView,
    at: int,
    source: Seq<char>,
    probe: Seq<char>,
    phase: Seq<char>,
)
    requires
        0 <= at < h.discovery.probes.len(),
    ensures
        ({
            let p = h.discovery.probes[at];
            let same = health_signature_text(h);
            &&& source != p.source ==> health_signature_text(
                with_probe(h, at, ProbeView { source, ..p }),
            ) != same
            &&& probe != p.probe ==> health_signature_text(
                with_probe(h, at, ProbeView { probe, ..p }),
            ) != same
            &&& phase != p.phase ==> health_signature_text(
                with_probe(h, at, ProbeView { phase, ..p }),
            ) != same
        }),
{
    let p = h.discovery.probes[at];
    let same = health_signature_text(h);
    if health_signature_text(with_probe(h, at, ProbeView { source, ..p })) == same {
        lemma_probe_part_stays(h, at, ProbeView { source, ..p });
        lemma_probe_source(p, source);
    }
    if health_signature_text(with_probe(h, at, ProbeView { probe, ..p })) == same {
        lemma_probe_part_stays(h, at, ProbeView { probe, ..p });
        lemma_probe_name(p, probe);
    }
    if health_signature_text(with_probe(h, at, ProbeView { phase, ..p })) == same {
        lemma_probe_part_stays(h, at, ProbeView { phase, ..p });
        lemma_probe_phase(p, phase);
    }
}

} // verus!
