//! Recovery outcomes: the result of a pass, its display text and its report identifiers.
use vstd::prelude::*;
use crate::decimal::{
    decimal, is_digit, lemma_decimal, lemma_digits_then, lemma_signed_decimal_then,
    lemma_decimal_injective, push_decimal, push_signed_decimal, signed_decimal,
};
use crate::text::{push_str, string_from_chars};

verus! {

/// What happened at the end of a recovery attempt.
#[derive(Debug, Clone, Copy, PartialEq, Eq)]
pub enum Grading {
    /// No recognisable approach was recorded.
    Unknown,
    /// An approach was flown but its outcome is unknown.
    ApproachOnly,
    /// The hook touched down without catching a wire.
    Bolter,
    /// A deliberate touch-and-go, with the wire it would have caught when estimated.
    TouchAndGo { cable_estimated: Option<u8> },
    /// The aircraft went around; who initiated it is unknown.
    WaveoffUnknown,
    /// The aircraft was recovered; `cable` is the DCS-reported wire, `cable_estimated` the
    /// geometric estimate.
    Recovered { cable: Option<u8>, cable_estimated: Option<u8> },
}

/// Why telemetry of a pass is complete or not.
#[derive(Debug, Clone, Copy, PartialEq, Eq, Structural)]
pub enum Completeness {
    Complete,
    InsufficientGates,
    TelemetryGap,
    InvalidTelemetry,
    UnconfirmedArrest,
    BufferLimit,
}

/// How much of a pass could be assessed.
#[derive(Debug, Clone, Copy, PartialEq, Eq)]
pub enum AssessmentScope {
    Full,
    Partial,
    OutcomeOnly,
    Nothing,
}

/// Where a fallback grade came from.
#[derive(Debug, Clone, Copy, PartialEq, Eq)]
pub enum FallbackSource {
    Project,
    DcsLqm,
    Geometry,
    Nothing,
}

/// Who flies the aircraft.
#[derive(Debug, Clone, Copy, PartialEq, Eq)]
pub enum PilotKind {
    Human,
    Ai,
}

/// How hook samples are taken.
#[derive(Debug, Clone, Copy, PartialEq, Eq)]
pub enum HookSamplingMode {
    Independent,
    LegacyInline,
}

/// Which recovery telemetry source is asked for.
#[derive(Debug, Clone, Copy, PartialEq, Eq)]
pub enum RecoveryTelemetryMode {
    Auto,
    Legacy,
    Atomic,
}

/// Hook sampling settings.
#[derive(Debug, Clone, Copy)]
pub struct HookSamplingConfig {
    pub mode: HookSamplingMode,
    pub frequency_hz: u64,
    pub timeout: std::time::Duration,
}

/// How positions are acquired.
#[derive(Debug, Clone, Copy, PartialEq, Eq)]
pub enum AcquisitionMode {
    Legacy,
    Atomic,
}

impl AcquisitionMode {
    /// Report label of the mode.
    pub fn as_str(self) -> (s: &'static str)
        ensures
            s@ == match self {
                AcquisitionMode::Legacy => "legacy"@,
                AcquisitionMode::Atomic => "atomic"@,
            },
    {
        match self {
            AcquisitionMode::Legacy => "legacy",
            AcquisitionMode::Atomic => "atomic",
        }
    }
}

impl AssessmentScope {
    /// Report label of the scope.
    pub fn as_str(self) -> (s: &'static str)
        ensures
            s@ == match self {
                AssessmentScope::Full => "full"@,
                AssessmentScope::Partial => "partial"@,
                AssessmentScope::OutcomeOnly => "outcome_only"@,
                AssessmentScope::Nothing => "none"@,
            },
    {
        match self {
            AssessmentScope::Full => "full",
            AssessmentScope::Partial => "partial",
            AssessmentScope::OutcomeOnly => "outcome_only",
            AssessmentScope::Nothing => "none",
        }
    }
}

impl FallbackSource {
    /// Report label of the source.
    pub fn as_str(self) -> (s: &'static str)
        ensures
            s@ == match self {
                FallbackSource::Project => "project"@,
                FallbackSource::DcsLqm => "dcs_lqm"@,
                FallbackSource::Geometry => "geometry"@,
                FallbackSource::Nothing => "none"@,
            },
    {
        match self {
            FallbackSource::Project => "project",
            FallbackSource::DcsLqm => "dcs_lqm",
            FallbackSource::Geometry => "geometry",
            FallbackSource::Nothing => "none",
        }
    }
}

/// Report cause of a completeness state.
pub fn completeness_cause(completeness: Completeness) -> (s: &'static str)
    ensures
        s@ == match completeness {
            Completeness::InsufficientGates => "insufficient_gates"@,
            Completeness::TelemetryGap => "telemetry_gap"@,
            Completeness::InvalidTelemetry => "invalid_telemetry"@,
            Completeness::UnconfirmedArrest => "unconfirmed_arrest"@,
            Completeness::BufferLimit => "position_buffer_limit"@,
            Completeness::Complete => "complete"@,
        },
{
    match completeness {
        Completeness::InsufficientGates => "insufficient_gates",
        Completeness::TelemetryGap => "telemetry_gap",
        Completeness::InvalidTelemetry => "invalid_telemetry",
        Completeness::UnconfirmedArrest => "unconfirmed_arrest",
        Completeness::BufferLimit => "position_buffer_limit",
        Completeness::Complete => "complete",
    }
}

/// The outcome text of a recovery. V/STOL passes never show a wire: a recovery is the spot
/// landing and a touch-and-go is a go-around. Arrested passes show the DCS-reported wire and
/// the geometric estimate, saying which one is missing.
pub open spec fn spec_recovery_outcome(grading: Grading, is_vstol: bool) -> Seq<char> {
    match grading {
        Grading::Unknown => "unknown"@,
        Grading::ApproachOnly => "Approach only — outcome unknown"@,
        Grading::Bolter => "Bolter"@,
        Grading::TouchAndGo { cable_estimated } => if is_vstol {
            "Waveoff/Go-around"@
        } else {
            match cable_estimated {
                Some(e) => "T&G (CQ) — would have caught wire "@ + decimal(e as nat),
                None => "T&G (CQ)"@,
            }
        },
        Grading::WaveoffUnknown => "Waveoff/Go-around — initiator unknown"@,
        Grading::Recovered { cable, cable_estimated } => if is_vstol {
            "Spot 7.5"@
        } else {
            match (cable, cable_estimated) {
                (Some(d), Some(e)) => if d == e {
                    "Arrested — wire "@ + decimal(d as nat) + " (DCS/LQM + Rust)"@
                } else {
                    "Arrested — DCS/LQM wire "@ + decimal(d as nat) + "; Rust estimate "@
                        + decimal(e as nat)
                },
                (Some(d), None) => "Arrested — DCS/LQM wire "@ + decimal(d as nat)
                    + "; Rust estimate unavailable"@,
                (None, Some(e)) => "Wire #"@ + decimal(e as nat) + " (Rust estimate)"@,
                (None, None) => "Arrested — wire evidence unavailable"@,
            }
        },
    }
}

/// The outcome text of a recovery (see `spec_recovery_outcome`).
pub fn recovery_outcome(grading: &Grading, is_vstol: bool) -> (s: String)
    ensures
        s@ == spec_recovery_outcome(*grading, is_vstol),
{
    let mut out: Vec<char> = Vec::new();
    match *grading {
        Grading::Unknown => push_str(&mut out, "unknown"),
        Grading::ApproachOnly => push_str(&mut out, "Approach only — outcome unknown"),
        Grading::Bolter => push_str(&mut out, "Bolter"),
        Grading::TouchAndGo { cable_estimated } => {
            if is_vstol {
                push_str(&mut out, "Waveoff/Go-around");
            } else {
                match cable_estimated {
                    Some(e) => {
                        push_str(&mut out, "T&G (CQ) — would have caught wire ");
                        push_decimal(&mut out, e as u64);
                    },
                    None => push_str(&mut out, "T&G (CQ)"),
                }
            }
        },
        Grading::WaveoffUnknown => push_str(&mut out, "Waveoff/Go-around — initiator unknown"),
        Grading::Recovered { cable, cable_estimated } => {
            if is_vstol {
                push_str(&mut out, "Spot 7.5");
            } else {
                match (cable, cable_estimated) {
                    (Some(d), Some(e)) => {
                        if d == e {
                            push_str(&mut out, "Arrested — wire ");
                            push_decimal(&mut out, d as u64);
                            push_str(&mut out, " (DCS/LQM + Rust)");
                        } else {
                            push_str(&mut out, "Arrested — DCS/LQM wire ");
                            push_decimal(&mut out, d as u64);
                            push_str(&mut out, "; Rust estimate ");
                            push_decimal(&mut out, e as u64);
                        }
                    },
                    (Some(d), None) => {
                        push_str(&mut out, "Arrested — DCS/LQM wire ");
                        push_decimal(&mut out, d as u64);
                        push_str(&mut out, "; Rust estimate unavailable");
                    },
                    (None, Some(e)) => {
                        push_str(&mut out, "Wire #");
                        push_decimal(&mut out, e as u64);
                        push_str(&mut out, " (Rust estimate)");
                    },
                    (None, None) => push_str(&mut out, "Arrested — wire evidence unavailable"),
                }
            }
        },
    }
    assert(out@ =~= spec_recovery_outcome(*grading, is_vstol));
    string_from_chars(&out)
}

/// The identifier of a recovery: session, generation, aircraft, carrier and the DCS time (in
/// milliseconds) at which the attempt started, as `s{session}-g{generation}-p{plane}-c{carrier}-t{time}`.
pub open spec fn spec_recovery_id(
    session_id: int,
    generation: nat,
    plane_id: nat,
    carrier_id: nat,
    dcs_time_ms: int,
) -> Seq<char> {
    seq!['s'] + (signed_decimal(session_id) + (seq!['-', 'g'] + (decimal(generation) + (seq![
        '-',
        'p',
    ] + (decimal(plane_id) + (seq!['-', 'c'] + (decimal(carrier_id) + (seq!['-', 't']
        + signed_decimal(dcs_time_ms)))))))))
}

/// The identifier of a recovery (see `spec_recovery_id`).
#[verifier::spinoff_prover]
#[verifier::rlimit(40)]
pub fn recovery_id(session_id: i64, generation: u64, plane_id: u32, carrier_id: u32, dcs_time_ms: i64) -> (s: String)
    ensures
        s@ == spec_recovery_id(
            session_id as int,
            generation as nat,
            plane_id as nat,
            carrier_id as nat,
            dcs_time_ms as int,
        ),
{
    let mut out: Vec<char> = Vec::new();
    out.push('s');
    push_signed_decimal(&mut out, session_id);
    out.push('-');
    out.push('g');
    push_decimal(&mut out, generation);
    out.push('-');
    out.push('p');
    push_decimal(&mut out, plane_id as u64);
    out.push('-');
    out.push('c');
    push_decimal(&mut out, carrier_id as u64);
    out.push('-');
    out.push('t');
    push_signed_decimal(&mut out, dcs_time_ms);
    assert(out@ =~= spec_recovery_id(
        session_id as int,
        generation as nat,
        plane_id as nat,
        carrier_id as nat,
        dcs_time_ms as int,
    ));
    string_from_chars(&out)
}

/// Two recoveries get the same identifier only if they share session, generation, aircraft,
/// carrier and start time: simultaneous passes and new generations never collide.
pub proof fn lemma_recovery_id_injective(
    s1: int,
    g1: nat,
    p1: nat,
    c1: nat,
    t1: int,
    s2: int,
    g2: nat,
    p2: nat,
    c2: nat,
    t2: int,
)
    requires
        spec_recovery_id(s1, g1, p1, c1, t1) == spec_recovery_id(s2, g2, p2, c2, t2),
    ensures
        s1 == s2,
        g1 == g2,
        p1 == p2,
        c1 == c2,
        t1 == t2,
{
    lemma_decimal(g1);
    lemma_decimal(g2);
    lemma_decimal(p1);
    lemma_decimal(p2);
    lemma_decimal(c1);
    lemma_decimal(c2);
    let r1 = spec_recovery_id(s1, g1, p1, c1, t1);
    let r2 = spec_recovery_id(s2, g2, p2, c2, t2);
    // after `s`
    let tc1 = seq!['-', 't'] + signed_decimal(t1);
    let tc2 = seq!['-', 't'] + signed_decimal(t2);
    let cc1 = seq!['-', 'c'] + (decimal(c1) + tc1);
    let cc2 = seq!['-', 'c'] + (decimal(c2) + tc2);
    let pc1 = seq!['-', 'p'] + (decimal(p1) + cc1);
    let pc2 = seq!['-', 'p'] + (decimal(p2) + cc2);
    let gc1 = seq!['-', 'g'] + (decimal(g1) + pc1);
    let gc2 = seq!['-', 'g'] + (decimal(g2) + pc2);
    assert(r1.drop_first() =~= signed_decimal(s1) + gc1);
    assert(r2.drop_first() =~= signed_decimal(s2) + gc2);
    lemma_signed_decimal_then(s1, gc1, s2, gc2);
    assert(gc1.skip(2) =~= decimal(g1) + pc1);
    assert(gc2.skip(2) =~= decimal(g2) + pc2);
    lemma_digits_then(decimal(g1), pc1, decimal(g2), pc2);
    lemma_decimal_injective(g1, g2);
    assert(pc1.skip(2) =~= decimal(p1) + cc1);
    assert(pc2.skip(2) =~= decimal(p2) + cc2);
    lemma_digits_then(decimal(p1), cc1, decimal(p2), cc2);
    lemma_decimal_injective(p1, p2);
    assert(cc1.skip(2) =~= decimal(c1) + tc1);
    assert(cc2.skip(2) =~= decimal(c2) + tc2);
    lemma_digits_then(decimal(c1), tc1, decimal(c2), tc2);
    lemma_decimal_injective(c1, c2);
    assert(tc1.skip(2) =~= signed_decimal(t1) + Seq::<char>::empty());
    assert(tc2.skip(2) =~= signed_decimal(t2) + Seq::<char>::empty());
    lemma_signed_decimal_then(t1, Seq::empty(), t2, Seq::empty());
}

/// Length of the sampling window kept after an accepted touchdown, in nanoseconds (10 s).
pub const POST_TOUCHDOWN_WINDOW_NS: u64 = 10_000_000_000;

/// Whether an accepted touchdown happened more than the post-touchdown window ago, given how
/// long ago it happened, in nanoseconds (none when no touchdown was accepted). Evaluated on every tick, whether
/// or not the tick carried a sample.
pub fn post_touchdown_window_elapsed(since_touchdown_ns: Option<u64>) -> (b: bool)
    ensures
        b == (since_touchdown_ns matches Some(ns) && ns > POST_TOUCHDOWN_WINDOW_NS),
{
    match since_touchdown_ns {
        Some(ns) => ns > POST_TOUCHDOWN_WINDOW_NS,
        None => false,
    }
}

} // verus!
