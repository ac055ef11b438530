//! What a recovery report says about its evidence: the wire sources, the confidence, the
//! causes of missing coverage, how much of the pass could be assessed, and the plain-language
//! explanation of the grade.
use vstd::prelude::*;
use crate::correlator::{EventCorrelationSummary, EventStreamStatus};
use crate::outcome::{completeness_cause, AssessmentScope, Completeness, FallbackSource, Grading};
use crate::text::{push_str, str_equals, string_from_chars};

verus! {

/// Diagnostics of a recording that do not affect its completeness.
#[derive(Debug, Clone, Copy, PartialEq, Eq)]
pub enum DiagnosticCause {
    PatternHistoryTruncated,
    HookHistoryTruncated,
    EventHistoryTruncated,
    EventStreamUnavailable,
}

/// Report name of a diagnostic cause.
pub open spec fn diagnostic_name(c: DiagnosticCause) -> Seq<char> {
    match c {
        DiagnosticCause::PatternHistoryTruncated => "pattern_history_truncated"@,
        DiagnosticCause::HookHistoryTruncated => "hook_history_truncated"@,
        DiagnosticCause::EventHistoryTruncated => "event_history_truncated"@,
        DiagnosticCause::EventStreamUnavailable => "event_stream_unavailable"@,
    }
}

/// Report name of a diagnostic cause.
pub fn diagnostic_cause_name(c: DiagnosticCause) -> (s: &'static str)
    ensures
        s@ == diagnostic_name(c),
{
    match c {
        DiagnosticCause::PatternHistoryTruncated => "pattern_history_truncated",
        DiagnosticCause::HookHistoryTruncated => "hook_history_truncated",
        DiagnosticCause::EventHistoryTruncated => "event_history_truncated",
        DiagnosticCause::EventStreamUnavailable => "event_stream_unavailable",
    }
}

/// Report name of a completeness state.
pub open spec fn cause_name(c: Completeness) -> Seq<char> {
    match c {
        Completeness::InsufficientGates => "insufficient_gates"@,
        Completeness::TelemetryGap => "telemetry_gap"@,
        Completeness::InvalidTelemetry => "invalid_telemetry"@,
        Completeness::UnconfirmedArrest => "unconfirmed_arrest"@,
        Completeness::BufferLimit => "position_buffer_limit"@,
        Completeness::Complete => "complete"@,
    }
}

/// The wires of a pass, by source, and which source the report relies on.
#[derive(Debug, Clone, Copy)]
pub struct WireEvidence {
    /// The wire estimated from the hook geometry (for a touch-and-go, the one it would have
    /// caught).
    pub estimated: Option<u8>,
    /// The wire DCS reported.
    pub dcs: Option<u8>,
    /// Both sources named a wire and they differ.
    pub divergent: bool,
    pub primary: &'static str,
}

/// The estimated and DCS wires of a grading.
pub open spec fn wires_of(grading: Grading) -> (Option<u8>, Option<u8>) {
    match grading {
        Grading::Recovered { cable, cable_estimated } => (cable_estimated, cable),
        Grading::TouchAndGo { cable_estimated } => (cable_estimated, None),
        _ => (None, None),
    }
}

/// Which wire source the report relies on: both in agreement, else DCS, else the estimate
/// (hypothetical for a touch-and-go, which never arrests), else none.
pub open spec fn primary_wire(grading: Grading) -> Seq<char> {
    let (estimated, dcs) = wires_of(grading);
    match (dcs, estimated) {
        (Some(d), Some(e)) => if d == e {
            "agreement"@
        } else {
            "dcs_lqm"@
        },
        (Some(_), None) => "dcs_lqm"@,
        (None, Some(_)) => if grading is TouchAndGo {
            "rust_hypothetical"@
        } else {
            "rust_estimated"@
        },
        (None, None) => "none"@,
    }
}

/// The wire evidence of a pass.
pub fn wire_evidence(grading: &Grading) -> (w: WireEvidence)
    ensures
        (w.estimated, w.dcs) == wires_of(*grading),
        w.divergent == (w.estimated is Some && w.dcs is Some && w.estimated != w.dcs),
        w.primary@ == primary_wire(*grading),
{
    let (estimated, dcs) = match *grading {
        Grading::Recovered { cable, cable_estimated } => (cable_estimated, cable),
        Grading::TouchAndGo { cable_estimated } => (cable_estimated, None),
        _ => (None, None),
    };
    let divergent = match (estimated, dcs) {
        (Some(a), Some(b)) => a != b,
        _ => false,
    };
    let primary = match (dcs, estimated) {
        (Some(d), Some(e)) => if d == e {
            "agreement"
        } else {
            "dcs_lqm"
        },
        (Some(_), None) => "dcs_lqm",
        (None, Some(_)) => match *grading {
            Grading::TouchAndGo { .. } => "rust_hypothetical",
            _ => "rust_estimated",
        },
        (None, None) => "none",
    };
    WireEvidence { estimated, dcs, divergent, primary }
}

/// Whether the outcome could not be confirmed because the event stream was down.
pub fn event_outcome_unavailable(summary: &EventCorrelationSummary) -> (b: bool)
    ensures
        b == (summary.stream_status == EventStreamStatus::Unavailable && !summary.outcome_confirmed),
{
    summary.stream_status == EventStreamStatus::Unavailable && !summary.outcome_confirmed
}

/// The confidence of a report: insufficient when the outcome is unconfirmed for lack of
/// events or the telemetry is incomplete; high when complete and both wire sources agree on a
/// wire; medium otherwise.
pub open spec fn spec_confidence(completeness: Completeness, w: WireEvidence, event_unavailable: bool) -> Seq<char> {
    if event_unavailable {
        "insufficient"@
    } else if completeness == Completeness::Complete && w.estimated == w.dcs && w.dcs is Some {
        "high"@
    } else if completeness == Completeness::Complete {
        "medium"@
    } else {
        "insufficient"@
    }
}

/// The confidence of a report (see `spec_confidence`).
pub fn confidence(completeness: Completeness, wire: &WireEvidence, event_unavailable: bool) -> (s: &'static str)
    ensures
        s@ == spec_confidence(completeness, *wire, event_unavailable),
{
    if event_unavailable {
        return "insufficient";
    }
    match completeness {
        Completeness::Complete => {
            let agree = match (wire.estimated, wire.dcs) {
                (Some(a), Some(b)) => a == b,
                _ => false,
            };
            if agree {
                "high"
            } else {
                "medium"
            }
        },
        _ => "insufficient",
    }
}

/// The primary cause of a report: the completeness problem when there is one; for a complete
/// recording, what the outcome was, and for a recovery what arrest evidence there was.
pub open spec fn spec_primary_cause(completeness: Completeness, grading: Grading, arrest_evidence: Seq<char>) -> Seq<char> {
    if completeness != Completeness::Complete {
        cause_name(completeness)
    } else {
        match grading {
            Grading::WaveoffUnknown => "go_around_initiator_unknown"@,
            Grading::ApproachOnly => "approach_only_outcome_unknown"@,
            Grading::Bolter => "deck_crossing_without_arrest"@,
            Grading::TouchAndGo { .. } => "hook_up_near_deck"@,
            Grading::Recovered { .. } => if arrest_evidence == "hook_transient"@ {
                "hook_transient_arrest_without_dcs_wire"@
            } else if arrest_evidence == "kinematic"@ {
                "kinematic_arrest_without_wire"@
            } else {
                "correlated_touchdown"@
            },
            Grading::Unknown => "unknown"@,
        }
    }
}

/// The primary cause of a report (see `spec_primary_cause`).
pub fn primary_cause(completeness: Completeness, grading: &Grading, arrest_evidence: &str) -> (s: &'static str)
    ensures
        s@ == spec_primary_cause(completeness, *grading, arrest_evidence@),
{
    match completeness {
        Completeness::Complete => match *grading {
            Grading::WaveoffUnknown => "go_around_initiator_unknown",
            Grading::ApproachOnly => "approach_only_outcome_unknown",
            Grading::Bolter => "deck_crossing_without_arrest",
            Grading::TouchAndGo { .. } => "hook_up_near_deck",
            Grading::Recovered { .. } => if str_equals(arrest_evidence, "hook_transient") {
                "hook_transient_arrest_without_dcs_wire"
            } else if str_equals(arrest_evidence, "kinematic") {
                "kinematic_arrest_without_wire"
            } else {
                "correlated_touchdown"
            },
            Grading::Unknown => "unknown",
        },
        _ => completeness_cause(completeness),
    }
}

/// The names of the causes among `causes` other than `primary`, in order.
pub open spec fn other_cause_names(causes: Seq<Completeness>, primary: Completeness) -> Seq<Seq<char>>
    decreases causes.len(),
{
    if causes.len() == 0 {
        Seq::empty()
    } else {
        let rest = other_cause_names(causes.drop_last(), primary);
        if causes.last() != primary {
            rest.push(cause_name(causes.last()))
        } else {
            rest
        }
    }
}

/// The names of a list of causes, in order.
pub open spec fn cause_names(causes: Seq<Completeness>) -> Seq<Seq<char>> {
    causes.map_values(|c: Completeness| cause_name(c))
}

/// Strings seen as character sequences.
pub open spec fn strs_view(v: Seq<&'static str>) -> Seq<Seq<char>> {
    v.map_values(|s: &'static str| s@)
}

/// The secondary causes of a report: every unavailability cause other than the primary one,
/// then every diagnostic.
pub fn secondary_causes(
    completeness: Completeness,
    unavailability_causes: &[Completeness],
    diagnostics: &[DiagnosticCause],
) -> (r: Vec<&'static str>)
    ensures
        strs_view(r@) == other_cause_names(unavailability_causes@, completeness) + diagnostics@.map_values(
            |c: DiagnosticCause| diagnostic_name(c),
        ),
{
    let mut r: Vec<&'static str> = Vec::new();
    let mut i: usize = 0;
    while i < unavailability_causes.len()
        invariant
            i <= unavailability_causes@.len(),
            strs_view(r@) == other_cause_names(unavailability_causes@.subrange(0, i as int), completeness),
        decreases unavailability_causes@.len() - i,
    {
        let c = unavailability_causes[i];
        let ghost before = r@;
        if c != completeness {
            let name = completeness_cause(c);
            r.push(name);
            assert(strs_view(r@) =~= strs_view(before).push(cause_name(c)));
        }
        proof {
            let prefix = unavailability_causes@.subrange(0, i + 1);
            assert(prefix.drop_last() =~= unavailability_causes@.subrange(0, i as int));
            assert(prefix.last() == c);
            assert(strs_view(r@) =~= other_cause_names(prefix, completeness));
        }
        i += 1;
    }
    assert(unavailability_causes@.subrange(0, unavailability_causes@.len() as int)
        =~= unavailability_causes@);
    let ghost head = strs_view(r@);
    let mut j: usize = 0;
    while j < diagnostics.len()
        invariant
            j <= diagnostics@.len(),
            strs_view(r@) == head + diagnostics@.subrange(0, j as int).map_values(
                |c: DiagnosticCause| diagnostic_name(c),
            ),
        decreases diagnostics@.len() - j,
    {
        let ghost before = r@;
        let d = diagnostics[j];
        r.push(diagnostic_cause_name(d));
        assert(strs_view(r@) =~= strs_view(before).push(diagnostic_name(d)));
        assert(diagnostics@.subrange(0, j + 1).map_values(|c: DiagnosticCause| diagnostic_name(c))
            =~= diagnostics@.subrange(0, j as int).map_values(|c: DiagnosticCause| diagnostic_name(c)).push(
            diagnostic_name(d),
        ));
        j += 1;
        assert(strs_view(r@) =~= head + diagnostics@.subrange(0, j as int).map_values(
            |c: DiagnosticCause| diagnostic_name(c),
        ));
    }
    assert(diagnostics@.subrange(0, diagnostics@.len() as int) =~= diagnostics@);
    r
}

/// The report names of the causes of missing coverage, in order.
pub fn missing_coverage(causes: &[Completeness]) -> (r: Vec<&'static str>)
    ensures
        strs_view(r@) == cause_names(causes@),
{
    let mut r: Vec<&'static str> = Vec::new();
    let mut i: usize = 0;
    while i < causes.len()
        invariant
            i <= causes@.len(),
            strs_view(r@) == cause_names(causes@.subrange(0, i as int)),
        decreases causes@.len() - i,
    {
        let ghost before = r@;
        let c = causes[i];
        r.push(completeness_cause(c));
        assert(strs_view(r@) =~= strs_view(before).push(cause_name(c)));
        assert(cause_names(causes@.subrange(0, i + 1)) =~= cause_names(causes@.subrange(0, i as int)).push(
            cause_name(c),
        ));
        i += 1;
    }
    assert(causes@.subrange(0, causes@.len() as int) =~= causes@);
    r
}

/// Whether the pass reached a recognisable outcome.
pub open spec fn spec_has_outcome(grading: Grading) -> bool {
    !(grading is Unknown || grading is ApproachOnly)
}

/// Whether grading was possible: not with incomplete telemetry, only on the approach without
/// an outcome, not when the outcome is unconfirmed for lack of events.
pub open spec fn spec_grading_availability(completeness: Completeness, grading: Grading, event_unavailable: bool) -> Seq<char> {
    if completeness != Completeness::Complete {
        "unavailable_technical"@
    } else if grading is ApproachOnly {
        "available_approach_only"@
    } else if event_unavailable {
        "unavailable_event_outcome"@
    } else {
        "available"@
    }
}

/// Whether grading was possible (see `spec_grading_availability`).
pub fn grading_availability(completeness: Completeness, grading: &Grading, event_unavailable: bool) -> (s: &'static str)
    ensures
        s@ == spec_grading_availability(completeness, *grading, event_unavailable),
{
    if completeness != Completeness::Complete {
        "unavailable_technical"
    } else if matches!(*grading, Grading::ApproachOnly) {
        "available_approach_only"
    } else if event_unavailable {
        "unavailable_event_outcome"
    } else {
        "available"
    }
}

/// How much of the pass can be assessed: all of it with complete telemetry and approach
/// evidence, part of it with approach evidence only, its outcome only without approach
/// evidence, nothing without an outcome either.
pub open spec fn spec_assessment_scope(completeness: Completeness, has_approach_evidence: bool, grading: Grading) -> AssessmentScope {
    if completeness == Completeness::Complete && has_approach_evidence {
        AssessmentScope::Full
    } else if has_approach_evidence {
        AssessmentScope::Partial
    } else if spec_has_outcome(grading) {
        AssessmentScope::OutcomeOnly
    } else {
        AssessmentScope::Nothing
    }
}

/// How much of the pass can be assessed (see `spec_assessment_scope`).
pub fn assessment_scope(completeness: Completeness, has_approach_evidence: bool, grading: &Grading) -> (s: AssessmentScope)
    ensures
        s == spec_assessment_scope(completeness, has_approach_evidence, *grading),
{
    let has_outcome = !matches!(*grading, Grading::Unknown | Grading::ApproachOnly);
    if completeness == Completeness::Complete && has_approach_evidence {
        AssessmentScope::Full
    } else if has_approach_evidence {
        AssessmentScope::Partial
    } else if has_outcome {
        AssessmentScope::OutcomeOnly
    } else {
        AssessmentScope::Nothing
    }
}

/// Where a grade comes from: the project's rules with approach evidence, else the DCS
/// comment, else the geometry of the outcome, else nowhere.
pub open spec fn spec_fallback_source(has_approach_evidence: bool, has_dcs_grading: bool, grading: Grading) -> FallbackSource {
    if has_approach_evidence {
        FallbackSource::Project
    } else if has_dcs_grading {
        FallbackSource::DcsLqm
    } else if spec_has_outcome(grading) {
        FallbackSource::Geometry
    } else {
        FallbackSource::Nothing
    }
}

/// Where a grade comes from (see `spec_fallback_source`).
pub fn fallback_source(has_approach_evidence: bool, has_dcs_grading: bool, grading: &Grading) -> (s: FallbackSource)
    ensures
        s == spec_fallback_source(has_approach_evidence, has_dcs_grading, *grading),
{
    let has_outcome = !matches!(*grading, Grading::Unknown | Grading::ApproachOnly);
    if has_approach_evidence {
        FallbackSource::Project
    } else if has_dcs_grading {
        FallbackSource::DcsLqm
    } else if has_outcome {
        FallbackSource::Geometry
    } else {
        FallbackSource::Nothing
    }
}

/// The scope and the fallback agree: a pass assessed from its approach is graded by the
/// project's rules, and a pass with nothing to assess has no fallback either.
pub proof fn lemma_scope_matches_fallback(
    completeness: Completeness,
    has_approach_evidence: bool,
    has_dcs_grading: bool,
    grading: Grading,
)
    ensures
        (spec_assessment_scope(completeness, has_approach_evidence, grading) is Full
            || spec_assessment_scope(completeness, has_approach_evidence, grading) is Partial)
            <==> spec_fallback_source(has_approach_evidence, has_dcs_grading, grading) is Project,
        spec_assessment_scope(completeness, has_approach_evidence, grading) is Nothing
            ==> (spec_fallback_source(has_approach_evidence, has_dcs_grading, grading) is Nothing
            || spec_fallback_source(has_approach_evidence, has_dcs_grading, grading) is DcsLqm),
{
}

/// An event-stream outage never makes a report look better: an outcome left unconfirmed by it
/// has insufficient confidence and grading marked unavailable (or approach-only), whatever the
/// telemetry and wires say.
pub proof fn lemma_outage_never_favours(completeness: Completeness, w: WireEvidence, grading: Grading)
    ensures
        spec_confidence(completeness, w, true) == "insufficient"@,
        spec_grading_availability(completeness, grading, true) != "available"@,
{
    reveal_strlit("available");
    reveal_strlit("unavailable_technical");
    reveal_strlit("available_approach_only");
    reveal_strlit("unavailable_event_outcome");
    assert("available"@.len() == 9);
    assert("unavailable_technical"@.len() == 21);
    assert("available_approach_only"@.len() == 23);
    assert("unavailable_event_outcome"@.len() == 25);
}

/// The name of a completeness state as the report prints it.
pub open spec fn completeness_name(c: Completeness) -> Seq<char> {
    match c {
        Completeness::Complete => "Complete"@,
        Completeness::InsufficientGates => "InsufficientGates"@,
        Completeness::TelemetryGap => "TelemetryGap"@,
        Completeness::InvalidTelemetry => "InvalidTelemetry"@,
        Completeness::UnconfirmedArrest => "UnconfirmedArrest"@,
        Completeness::BufferLimit => "BufferLimit"@,
    }
}

/// Texts joined with `", "`.
pub open spec fn comma_joined(parts: Seq<Seq<char>>) -> Seq<char>
    decreases parts.len(),
{
    if parts.len() == 0 {
        Seq::empty()
    } else if parts.len() == 1 {
        parts[0]
    } else {
        comma_joined(parts.drop_last()) + ", "@ + parts.last()
    }
}

/// The explanation of a grade: the grade's own reason when the whole pass was assessed;
/// otherwise why it could not be, and what the grade rests on instead.
pub open spec fn spec_why_this_grade(
    scope: AssessmentScope,
    grade_reason: Seq<char>,
    missing: Seq<Seq<char>>,
    dcs_grading: Option<Seq<char>>,
    completeness: Completeness,
) -> Seq<char> {
    match scope {
        AssessmentScope::Full => grade_reason,
        AssessmentScope::Partial => "Partial project assessment (no points): "@ + grade_reason
            + " Missing coverage: "@ + comma_joined(missing) + "."@,
        AssessmentScope::OutcomeOnly => match dcs_grading {
            Some(d) => "Outcome only; raw DCS LQM fallback: "@ + d + ". No project points."@,
            None => "Outcome only; approach coverage is insufficient. No project points."@,
        },
        AssessmentScope::Nothing => "Grading unavailable: "@ + completeness_name(completeness)
            + ". This is a measurement limitation, not a pilot failure."@,
    }
}

fn push_completeness_name(out: &mut Vec<char>, c: Completeness)
    ensures
        final(out)@ == old(out)@ + completeness_name(c),
{
    match c {
        Completeness::Complete => push_str(out, "Complete"),
        Completeness::InsufficientGates => push_str(out, "InsufficientGates"),
        Completeness::TelemetryGap => push_str(out, "TelemetryGap"),
        Completeness::InvalidTelemetry => push_str(out, "InvalidTelemetry"),
        Completeness::UnconfirmedArrest => push_str(out, "UnconfirmedArrest"),
        Completeness::BufferLimit => push_str(out, "BufferLimit"),
    }
}

fn push_joined(out: &mut Vec<char>, parts: &[&str])
    ensures
        final(out)@ == old(out)@ + comma_joined(strs_view(parts@)),
{
    let ghost start = out@;
    let mut i: usize = 0;
    while i < parts.len()
        invariant
            i <= parts@.len(),
            out@ == start + comma_joined(strs_view(parts@.subrange(0, i as int))),
        decreases parts@.len() - i,
    {
        let ghost before = out@;
        if i > 0 {
            push_str(out, ", ");
        }
        push_str(out, parts[i]);
        proof {
            let next = strs_view(parts@.subrange(0, i + 1));
            assert(next.drop_last() =~= strs_view(parts@.subrange(0, i as int)));
            assert(next.last() == parts@[i as int]@);
            if i == 0 {
                assert(next.len() == 1);
                assert(out@ =~= start + comma_joined(next));
            } else {
                assert(out@ =~= start + comma_joined(next));
            }
        }
        i += 1;
    }
    assert(parts@.subrange(0, parts@.len() as int) =~= parts@);
}

/// The plain-language explanation of a grade (see `spec_why_this_grade`).
pub fn why_this_grade(
    scope: AssessmentScope,
    grade_reason: &str,
    missing: &[&str],
    dcs_grading: Option<&str>,
    completeness: Completeness,
) -> (s: String)
    ensures
        s@ == spec_why_this_grade(
            scope,
            grade_reason@,
            strs_view(missing@),
            match dcs_grading {
                Some(d) => Some(d@),
                None => None,
            },
            completeness,
        ),
{
    let mut out: Vec<char> = Vec::new();
    match scope {
        AssessmentScope::Full => push_str(&mut out, grade_reason),
        AssessmentScope::Partial => {
            push_str(&mut out, "Partial project assessment (no points): ");
            push_str(&mut out, grade_reason);
            push_str(&mut out, " Missing coverage: ");
            push_joined(&mut out, missing);
            push_str(&mut out, ".");
        },
        AssessmentScope::OutcomeOnly => match dcs_grading {
            Some(d) => {
                push_str(&mut out, "Outcome only; raw DCS LQM fallback: ");
                push_str(&mut out, d);
                push_str(&mut out, ". No project points.");
            },
            None => push_str(
                &mut out,
                "Outcome only; approach coverage is insufficient. No project points.",
            ),
        },
        AssessmentScope::Nothing => {
            push_str(&mut out, "Grading unavailable: ");
            push_completeness_name(&mut out, completeness);
            push_str(&mut out, ". This is a measurement limitation, not a pilot failure.");
        },
    }
    assert(out@ =~= spec_why_this_grade(
        scope,
        grade_reason@,
        strs_view(missing@),
        match dcs_grading {
            Some(d) => Some(d@),
            None => None,
        },
        completeness,
    ));
    string_from_chars(&out)
}

/// Whether a character is kept in a file name: ASCII letters and digits only.
pub open spec fn file_name_char(c: char) -> bool {
    ('a' <= c && c <= 'z') || ('A' <= c && c <= 'Z') || ('0' <= c && c <= '9')
}

/// A pilot name reduced to the characters allowed in a file name.
pub open spec fn safe_name(s: Seq<char>) -> Seq<char> {
    s.filter(|c: char| file_name_char(c))
}

/// A pilot name reduced to its ASCII letters and digits, for use in a file name.
pub fn safe_file_name(pilot_name: &str) -> (r: String)
    ensures
        r@ == safe_name(pilot_name@),
{
    let chars = crate::text::chars_of(pilot_name);
    let mut out: Vec<char> = Vec::new();
    let mut i: usize = 0;
    while i < chars.len()
        invariant
            i <= chars@.len(),
            chars@ == pilot_name@,
            out@ == safe_name(chars@.subrange(0, i as int)),
        decreases chars@.len() - i,
    {
        let c = chars[i];
        proof {
            let next = chars@.subrange(0, i + 1);
            assert(next.drop_last() =~= chars@.subrange(0, i as int));
            reveal(Seq::filter);
        }
        if ('a' <= c && c <= 'z') || ('A' <= c && c <= 'Z') || ('0' <= c && c <= '9') {
            out.push(c);
        }
        i += 1;
        assert(out@ =~= safe_name(chars@.subrange(0, i as int)));
    }
    assert(chars@.subrange(0, chars@.len() as int) =~= chars@);
    string_from_chars(&out)
}

/// The file name of a report: `LSO-{datetime}-{pilot}-{recovery id}`, `unknown` standing for a
/// pilot name with no usable character.
pub open spec fn spec_report_filename(datetime: Seq<char>, safe_pilot: Seq<char>, recovery_id: Seq<char>) -> Seq<char> {
    "LSO-"@ + datetime + "-"@ + (if safe_pilot.len() == 0 {
        "unknown"@
    } else {
        safe_pilot
    }) + "-"@ + recovery_id
}

/// The file name of a report (see `spec_report_filename`).
pub fn report_filename(datetime: &str, safe_pilot: &str, recovery_id: &str) -> (s: String)
    ensures
        s@ == spec_report_filename(datetime@, safe_pilot@, recovery_id@),
{
    let mut out: Vec<char> = Vec::new();
    push_str(&mut out, "LSO-");
    push_str(&mut out, datetime);
    push_str(&mut out, "-");
    if safe_pilot.unicode_len() == 0 {
        push_str(&mut out, "unknown");
    } else {
        push_str(&mut out, safe_pilot);
    }
    push_str(&mut out, "-");
    push_str(&mut out, recovery_id);
    assert(out@ =~= spec_report_filename(datetime@, safe_pilot@, recovery_id@));
    string_from_chars(&out)
}

} // verus!
