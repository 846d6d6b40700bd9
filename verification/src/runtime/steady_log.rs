//! Quiet logs in steady state.
//!
//! The daemon takes a snapshot every few seconds. Printing each of them would fill the
//! disk with lines that say nothing new. So a snapshot is printed when its content has
//! changed, and otherwise only after a heartbeat interval, to show that the process is
//! alive. A heartbeat of zero turns this off.
use crate::text::{
    decimal, is_digit, law_decimal_round_trip, lemma_decimal_digits, opt_text, parse_u64, text_eq,
    trim, trimmed, u64_of,
};
use crate::text_laws::{
    has_solid_ends, is_blank, law_empty_texts_are_no_numbers, law_other_texts_are_no_numbers,
    law_trim_removes_white_space_only,
};
use vstd::prelude::*;
use vstd::string::*;

verus! {

/// The heartbeat interval where none is set, in seconds.
pub const DEFAULT_HEARTBEAT_SECS: u64 = 300;

/// The environment variable that sets the heartbeat interval.
pub const HEARTBEAT_ENV: &'static str = "WIST_AGENTD_LOG_HEARTBEAT_SECS";

/// A length of time, or a point of time on a monotonic clock.
#[derive(Debug, Clone, Copy, PartialEq, Eq, Structural)]
pub struct Span {
    pub nanos: u128,
}

impl Span {
    /// No time.
    pub fn zero() -> (span: Span)
        ensures
            span.nanos == 0,
    {
        Span { nanos: 0 }
    }

    /// A number of seconds.
    pub fn from_secs(secs: u64) -> (span: Span)
        ensures
            span.nanos == secs * 1_000_000_000,
    {
        Span { nanos: secs as u128 * 1_000_000_000 }
    }

    /// A number of milliseconds.
    pub fn from_millis(millis: u64) -> (span: Span)
        ensures
            span.nanos == millis * 1_000_000,
    {
        Span { nanos: millis as u128 * 1_000_000 }
    }
}

/// Decides which snapshots are printed.
#[derive(Debug, PartialEq, Eq)]
pub struct SteadyLogGate {
    pub last_signature: Option<String>,
    pub last_emit_at: Option<Span>,
    pub heartbeat: Span,
}

/// What a gate remembers.
#[verifier::ext_equal]
pub struct GateView {
    pub last_signature: Option<Seq<char>>,
    pub last_emit_at: Option<int>,
    pub heartbeat: int,
}

impl View for SteadyLogGate {
    type V = GateView;

    open spec fn view(&self) -> GateView {
        GateView {
            last_signature: opt_text(self.last_signature),
            last_emit_at: match self.last_emit_at {
                Some(at) => Some(at.nanos as int),
                None => None,
            },
            heartbeat: self.heartbeat.nanos as int,
        }
    }
}

/// A gate that has let nothing through.
pub open spec fn fresh_gate(heartbeat: int) -> GateView {
    GateView { last_signature: None, last_emit_at: None, heartbeat }
}

/// Whether a gate lets a snapshot through: always without a heartbeat, else where the
/// content is new or the heartbeat interval is over.
pub open spec fn gate_opens(gate: GateView, signature: Seq<char>, now: int) -> bool {
    ||| gate.heartbeat == 0
    ||| gate.last_signature != Some(signature)
    ||| match gate.last_emit_at {
        Some(at) => now - at >= gate.heartbeat,
        None => true,
    }
}

/// A gate after it was asked. It remembers what it let through last, and when.
pub open spec fn gate_after(gate: GateView, signature: Seq<char>, now: int) -> GateView {
    if gate.heartbeat != 0 && gate_opens(gate, signature, now) {
        GateView { last_signature: Some(signature), last_emit_at: Some(now), ..gate }
    } else {
        gate
    }
}

/// The heartbeat interval that a setting asks for, in seconds: what is missing, blank or
/// no number means the default.
pub open spec fn heartbeat_secs(raw: Option<Seq<char>>) -> u64 {
    match raw {
        Some(text) => match u64_of(trimmed(text)) {
            Some(secs) => secs,
            None => DEFAULT_HEARTBEAT_SECS,
        },
        None => DEFAULT_HEARTBEAT_SECS,
    }
}

/// The heartbeat interval that a setting asks for.
pub fn parse_heartbeat(raw: Option<&str>) -> (span: Span)
    ensures
        span.nanos == heartbeat_secs(
            match raw {
                Some(text) => Some(text@),
                None => None,
            },
        ) * 1_000_000_000,
{
    match raw {
        Some(text) => match parse_u64(trim(text).as_str()) {
            Some(secs) => Span::from_secs(secs),
            None => Span::from_secs(DEFAULT_HEARTBEAT_SECS),
        },
        None => Span::from_secs(DEFAULT_HEARTBEAT_SECS),
    }
}

impl SteadyLogGate {
    /// A gate that has let nothing through.
    pub fn new(heartbeat: Span) -> (gate: SteadyLogGate)
        ensures
            gate@ == fresh_gate(heartbeat.nanos as int),
    {
        SteadyLogGate { last_signature: None, last_emit_at: None, heartbeat }
    }

    /// A gate with the heartbeat that a setting asks for.
    pub fn from_env(raw: Option<&str>) -> (gate: SteadyLogGate)
        ensures
            gate@ == fresh_gate(
                heartbeat_secs(
                    match raw {
                        Some(text) => Some(text@),
                        None => None,
                    },
                ) * 1_000_000_000,
            ),
    {
        SteadyLogGate::new(parse_heartbeat(raw))
    }

    /// Whether the snapshot with this signature is to be printed now.
    pub fn should_emit(&mut self, signature: &str, now: Span) -> (emit: bool)
        ensures
            emit == gate_opens(old(self)@, signature@, now.nanos as int),
            final(self)@ == gate_after(old(self)@, signature@, now.nanos as int),
    {
        if self.heartbeat.nanos == 0 {
            return true;
        }
        let changed = match &self.last_signature {
            Some(last) => !text_eq(last.as_str(), signature),
            None => true,
        };
        let due = match self.last_emit_at {
            Some(at) => now.nanos >= at.nanos && now.nanos - at.nanos >= self.heartbeat.nanos,
            None => true,
        };
        if !changed && !due {
            return false;
        }
        self.last_signature = Some(signature.to_string());
        self.last_emit_at = Some(now);
        true
    }
}

/// The gates of the daemon. Health and metrics change at their own pace, so each has a
/// gate of its own.
#[derive(Debug, PartialEq, Eq)]
pub struct SteadyLogGates {
    pub health: SteadyLogGate,
    pub metrics: SteadyLogGate,
}

impl SteadyLogGates {
    /// Gates with the heartbeat that a setting asks for.
    pub fn from_env(raw: Option<&str>) -> (gates: SteadyLogGates)
        ensures
            gates.health@ == gates.metrics@,
            gates.health@ == fresh_gate(
                heartbeat_secs(
                    match raw {
                        Some(text) => Some(text@),
                        None => None,
                    },
                ) * 1_000_000_000,
            ),
    {
        SteadyLogGates {
            health: SteadyLogGate::from_env(raw),
            metrics: SteadyLogGate::from_env(raw),
        }
    }

    /// Whether the health snapshot with this signature is to be printed now.
    pub fn should_emit_health(&mut self, signature: &str, now: Span) -> (emit: bool)
        ensures
            emit == gate_opens(old(self).health@, signature@, now.nanos as int),
            final(self).health@ == gate_after(old(self).health@, signature@, now.nanos as int),
            final(self).metrics == old(self).metrics,
    {
        self.health.should_emit(signature, now)
    }

    /// Whether the metrics snapshot with this signature is to be printed now.
    pub fn should_emit_metrics(&mut self, signature: &str, now: Span) -> (emit: bool)
        ensures
            emit == gate_opens(old(self).metrics@, signature@, now.nanos as int),
            final(self).metrics@ == gate_after(old(self).metrics@, signature@, now.nanos as int),
            final(self).health == old(self).health,
    {
        self.metrics.should_emit(signature, now)
    }
}

/// The first snapshot is printed.
pub proof fn law_first_snapshot_is_printed(heartbeat: int, signature: Seq<char>, now: int)
    ensures
        gate_opens(fresh_gate(heartbeat), signature, now),
{
}

/// A snapshot with new content is printed at once, whatever the time.
pub proof fn law_change_is_printed_at_once(gate: GateView, signature: Seq<char>, now: int)
    requires
        gate.last_signature != Some(signature),
    ensures
        gate_opens(gate, signature, now),
{
}

/// Without a heartbeat every snapshot is printed.
pub proof fn law_zero_heartbeat_prints_everything(gate: GateView, signature: Seq<char>, now: int)
    requires
        gate.heartbeat == 0,
    ensures
        gate_opens(gate, signature, now),
        gate_after(gate, signature, now) == gate,
{
}

/// A gate after it was asked about the same content at some times.
pub open spec fn gate_after_all(gate: GateView, signature: Seq<char>, times: Seq<int>) -> GateView
    decreases times.len(),
{
    if times.len() == 0 {
        gate
    } else {
        gate_after(gate_after_all(gate, signature, times.drop_last()), signature, times.last())
    }
}

/// How often the same content is printed at some times.
pub open spec fn prints(gate: GateView, signature: Seq<char>, times: Seq<int>) -> nat
    decreases times.len(),
{
    if times.len() == 0 {
        0
    } else {
        let before = gate_after_all(gate, signature, times.drop_last());
        prints(gate, signature, times.drop_last()) + (if gate_opens(
            before,
            signature,
            times.last(),
        ) {
            1nat
        } else {
            0nat
        })
    }
}

/// After content was printed, the same content stays silent for the heartbeat interval,
/// however often it comes, and is printed again when the interval is over. The interval
/// then starts anew.
pub proof fn law_unchanged_content_waits_for_the_heartbeat(
    gate: GateView,
    signature: Seq<char>,
    at: int,
    times: Seq<int>,
    due: int,
)
    requires
        gate.heartbeat > 0,
        gate.last_signature == Some(signature),
        gate.last_emit_at == Some(at),
        forall|i: int| 0 <= i < times.len() ==> #[trigger] times[i] - at < gate.heartbeat,
        due - at >= gate.heartbeat,
    ensures
        prints(gate, signature, times) == 0,
        gate_after_all(gate, signature, times) == gate,
        gate_opens(gate, signature, due),
        gate_after(gate, signature, due) == (GateView { last_emit_at: Some(due), ..gate }),
    decreases times.len(),
{
    if times.len() > 0 {
        let front = times.drop_last();
        assert forall|i: int| 0 <= i < front.len() implies #[trigger] front[i] - at
            < gate.heartbeat by {
            assert(front[i] == times[i]);
        }
        assert(times[times.len() - 1] - at < gate.heartbeat);
        law_unchanged_content_waits_for_the_heartbeat(gate, signature, at, front, due);
    }
}

/// Unchanged content is printed at most once per heartbeat interval: the prints after
/// the first one take up that many intervals.
pub proof fn law_unchanged_content_is_rare(
    gate: GateView,
    signature: Seq<char>,
    at: int,
    times: Seq<int>,
)
    requires
        gate.heartbeat > 0,
        gate.last_signature == Some(signature),
        gate.last_emit_at == Some(at),
    ensures
        ({
            let end = gate_after_all(gate, signature, times);
            &&& end.last_signature == Some(signature)
            &&& end.heartbeat == gate.heartbeat
            &&& end.last_emit_at matches Some(last) && last - at >= prints(gate, signature, times)
                * gate.heartbeat
        }),
    decreases times.len(),
{
    if times.len() > 0 {
        let front = times.drop_last();
        law_unchanged_content_is_rare(gate, signature, at, front);
        let n = prints(gate, signature, front) as int;
        let h = gate.heartbeat;
        assert((n + 1) * h == n * h + h) by (nonlinear_arith);
    } else {
        assert(0 * gate.heartbeat == 0);
    }
}

/// A gate remembers what it let through and when, and nothing else: what it held back leaves
/// it as it was. The heartbeat interval never changes.
pub proof fn law_gates_remember_what_they_let_through(
    gate: GateView,
    signature: Seq<char>,
    now: int,
)
    ensures
        ({
            let after = gate_after(gate, signature, now);
            &&& after.heartbeat == gate.heartbeat
            &&& gate.heartbeat != 0 && gate_opens(gate, signature, now) ==> after.last_signature
                == Some(signature) && after.last_emit_at == Some(now)
            &&& !gate_opens(gate, signature, now) ==> after == gate
        }),
{
}

/// Content that changes and changes back is printed each time.
pub proof fn law_changing_back_is_printed(
    gate: GateView,
    first: Seq<char>,
    second: Seq<char>,
    at: int,
    later: int,
    last: int,
)
    requires
        gate.heartbeat > 0,
        first != second,
        gate_opens(gate, first, at),
    ensures
        ({
            let one = gate_after(gate, first, at);
            let two = gate_after(one, second, later);
            &&& gate_opens(one, second, later)
            &&& gate_opens(two, first, last)
        }),
{
}

/// A setting that is a number of seconds, with or without white space around it, is the
/// heartbeat interval; no setting, a blank one and one that is no number mean five minutes.
pub proof fn law_heartbeats_are_read_from_their_setting(
    front: Seq<char>,
    secs: u64,
    kept: Seq<char>,
    back: Seq<char>,
)
    requires
        is_blank(front),
        is_blank(back),
        has_solid_ends(kept),
    ensures
        heartbeat_secs(Some(front + decimal(secs as nat) + back)) == secs,
        heartbeat_secs(None) == 300,
        kept.len() == 0 ==> heartbeat_secs(Some(front + kept + back)) == 300,
        (exists|at: int| 0 < at < kept.len() && !('0' <= #[trigger] kept[at] <= '9'))
            ==> heartbeat_secs(Some(front + kept + back)) == 300,
        kept.len() > 0 && !('0' <= kept[0] <= '9') && kept[0] != '+' ==> heartbeat_secs(
            Some(front + kept + back),
        ) == 300,
{
    let number = decimal(secs as nat);
    lemma_decimal_digits(secs as nat);
    assert(is_digit(number[0]) && is_digit(number[number.len() - 1]));
    law_trim_removes_white_space_only(front, number, back);
    law_decimal_round_trip(secs);
    law_trim_removes_white_space_only(front, kept, back);
    law_empty_texts_are_no_numbers();
    if kept.len() == 0 {
        assert(kept =~= Seq::<char>::empty());
    } else {
        if exists|at: int| 0 < at < kept.len() && !('0' <= #[trigger] kept[at] <= '9') {
            let at = choose|at: int| 0 < at < kept.len() && !('0' <= #[trigger] kept[at] <= '9');
            law_other_texts_are_no_numbers(kept, at);
        }
        if !('0' <= kept[0] <= '9') && kept[0] != '+' {
            law_other_texts_are_no_numbers(kept, 0);
        }
    }
}

} // verus!
