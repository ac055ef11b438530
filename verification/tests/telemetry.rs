use lso::telemetry::{
    replay_verdict, AlignmentFacts, AlignmentMethod, TelemetryAligner, TelemetryInvalidReason,
};

/// Observations are DCS times in seconds, instants are milliseconds.
type Aligner = TelemetryAligner<f64, u64>;

fn facts(a: &Aligner, carrier: f64, plane: f64, now_ms: u64) -> AlignmentFacts {
    let gap_ms = a
        .previous_sample_at
        .map(|previous| (now_ms - previous) as f64)
        .unwrap_or(0.0);
    let age = |time: f64, previous: Option<f64>, advanced: Option<u64>| match previous {
        Some(previous) if time <= previous => advanced
            .map(|at| (now_ms - at) as f64)
            .unwrap_or(0.0),
        _ => 0.0,
    };
    let source_age_ms = age(carrier, a.previous_carrier, a.carrier_last_advanced_at).max(age(
        plane,
        a.previous_plane,
        a.plane_last_advanced_at,
    ));
    let skew_ms = (carrier - plane).abs() * 1_000.0;
    AlignmentFacts {
        timestamps_finite: carrier.is_finite() && plane.is_finite(),
        carrier_earlier: a.previous_carrier.is_some_and(|p| carrier < p),
        plane_earlier: a.previous_plane.is_some_and(|p| plane < p),
        carrier_later: a.previous_carrier.is_some_and(|p| carrier > p),
        plane_later: a.previous_plane.is_some_and(|p| plane > p),
        skew_within_direct: skew_ms <= 100.0 + 1.0e-6,
        skew_within_extrapolation: skew_ms <= 300.0,
        carrier_behind: carrier < plane,
        history_fresh: gap_ms <= 300.0 && source_age_ms <= 300.0,
        gap_exceeded: gap_ms > 1_000.0 || source_age_ms > 1_000.0,
        warning: gap_ms > 300.0 || source_age_ms > 300.0,
    }
}

fn align(a: &mut Aligner, carrier: f64, plane: f64, now_ms: u64) -> lso::telemetry::Alignment {
    let f = facts(a, carrier, plane, now_ms);
    a.align(carrier, plane, now_ms, &f)
}

#[test]
fn direct_alignment_accepts_100_ms_boundary() {
    let mut aligner = Aligner::new();
    let sample = align(&mut aligner, 10.0, 10.1, 0);
    assert!(sample.invalid_reason.is_none());
    assert_eq!(sample.method, AlignmentMethod::Direct);
}

#[test]
fn short_extrapolation_requires_history() {
    let mut aligner = Aligner::new();
    let first = align(&mut aligner, 10.0, 10.2, 0);
    assert_eq!(
        first.invalid_reason,
        Some(TelemetryInvalidReason::MissingHistory)
    );

    let history = align(&mut aligner, 10.3, 10.3, 100);
    assert!(history.invalid_reason.is_none());

    let second = align(&mut aligner, 10.4, 10.6, 200);
    assert!(second.invalid_reason.is_none());
    assert_eq!(second.method, AlignmentMethod::ExtrapolatedCarrier);
}

#[test]
fn exact_300_ms_skew_is_allowed_only_with_valid_history() {
    let mut aligner = Aligner::new();
    assert!(align(&mut aligner, 1.0, 1.0, 0).invalid_reason.is_none());
    let sample = align(&mut aligner, 2.0, 2.3, 100);
    assert!(sample.invalid_reason.is_none());
    assert_eq!(sample.method, AlignmentMethod::ExtrapolatedCarrier);
}

#[test]
fn time_reversal_invalidates_the_sample() {
    let mut aligner = Aligner::new();
    assert!(align(&mut aligner, 2.0, 2.0, 0).invalid_reason.is_none());
    let sample = align(&mut aligner, 1.9, 2.1, 100);
    assert_eq!(
        sample.invalid_reason,
        Some(TelemetryInvalidReason::TimeWentBackwards)
    );
}

#[test]
fn reset_forbids_extrapolation_across_a_cut_or_session_change() {
    let mut aligner = Aligner::new();
    assert!(align(&mut aligner, 1.0, 1.0, 0).invalid_reason.is_none());
    aligner.reset();
    let sample = align(&mut aligner, 2.0, 2.2, 100);
    assert_eq!(
        sample.invalid_reason,
        Some(TelemetryInvalidReason::MissingHistory)
    );
}

#[test]
fn skew_above_300_ms_is_invalid() {
    let mut aligner = Aligner::new();
    let sample = align(&mut aligner, 10.0, 10.301, 0);
    assert_eq!(
        sample.invalid_reason,
        Some(TelemetryInvalidReason::ExcessiveSkew)
    );
}

#[test]
fn frozen_source_age_accumulates_across_successful_rpc_responses() {
    let mut aligner = Aligner::new();
    assert!(align(&mut aligner, 10.0, 10.0, 0).invalid_reason.is_none());
    let f = facts(&aligner, 10.0, 10.0, 400);
    assert!(f.warning);
    let after_400_ms = aligner.align(10.0, 10.0, 400, &f);
    assert!(after_400_ms.invalid_reason.is_none());
    assert_eq!(aligner.carrier_last_advanced_at, Some(0));
    assert!(!aligner.previous_sample_valid);

    let after_1100_ms = align(&mut aligner, 10.0, 10.0, 1_100);
    assert_eq!(
        after_1100_ms.invalid_reason,
        Some(TelemetryInvalidReason::TelemetryGap)
    );
    assert_eq!(after_1100_ms.method, AlignmentMethod::Invalid);
    assert_eq!(after_1100_ms.basis, AlignmentMethod::Direct);
}

#[test]
fn invalidated_history_keeps_the_gap_but_forbids_extrapolation() {
    let mut aligner = Aligner::new();
    assert!(align(&mut aligner, 1.0, 1.0, 0).invalid_reason.is_none());
    aligner.invalidate_history();
    assert_eq!(aligner.previous_sample_at, Some(0));
    assert!(aligner.previous_carrier.is_none());
    let sample = align(&mut aligner, 1.1, 1.3, 1_500);
    assert_eq!(
        sample.invalid_reason,
        Some(TelemetryInvalidReason::MissingHistory)
    );
}

#[test]
fn non_finite_time_is_rejected_first() {
    let mut aligner = Aligner::new();
    let sample = align(&mut aligner, f64::NAN, 1.0, 0);
    assert_eq!(
        sample.invalid_reason,
        Some(TelemetryInvalidReason::NonFiniteTimestamp)
    );
    assert_eq!(sample.method, AlignmentMethod::Invalid);
}

#[test]
fn plane_behind_is_extrapolated_on_the_plane() {
    let mut aligner = Aligner::new();
    assert!(align(&mut aligner, 5.0, 5.0, 0).invalid_reason.is_none());
    let sample = align(&mut aligner, 5.3, 5.15, 100);
    assert_eq!(sample.method, AlignmentMethod::ExtrapolatedPlane);
    assert_eq!(AlignmentMethod::default(), AlignmentMethod::Direct);
}

#[test]
fn replay_gap_above_one_second_is_incomplete_evidence() {
    let (carrier, plane, previous) = (2.1_f64, 2.1_f64, 1.0_f64);
    let sample_gap_ms = ((carrier.max(plane) - previous).max(0.0)) * 1_000.0;
    let skew_ms = (carrier - plane).abs() * 1_000.0;
    let (method, reason) = replay_verdict(
        carrier.is_finite() && plane.is_finite(),
        skew_ms <= 300.0,
        sample_gap_ms > 1_000.0,
    );
    assert_eq!(reason, Some(TelemetryInvalidReason::TelemetryGap));
    assert_eq!(method, AlignmentMethod::Invalid);
}

#[test]
fn replayed_samples_are_checked_in_order() {
    assert_eq!(
        replay_verdict(false, false, true).1,
        Some(TelemetryInvalidReason::NonFiniteTimestamp)
    );
    assert_eq!(
        replay_verdict(true, false, true).1,
        Some(TelemetryInvalidReason::ExcessiveSkew)
    );
    assert_eq!(replay_verdict(true, true, false), (AlignmentMethod::Direct, None));
}
