use lso::correlator::EventCorrelator;
use lso::outcome::{
    AssessmentScope, Completeness, FallbackSource, Grading, HookSamplingMode, RecoveryTelemetryMode,
};
use lso::ownship::GrpcCode;
use lso::recording::{
    hook_sampling_plan, late_event_action, poll_failure_action, recording_event_action,
    recording_failure_is_fatal, discards_recording,
    tick_ends_recording, EventAction, PollFailureAction, SessionEventKind,
};
use lso::report::{
    assessment_scope, confidence, event_outcome_unavailable, fallback_source,
    grading_availability, missing_coverage, primary_cause, report_filename, safe_file_name,
    secondary_causes, why_this_grade, wire_evidence, DiagnosticCause,
};

#[test]
fn wire_sources_and_their_agreement() {
    let agree = wire_evidence(&Grading::Recovered {
        cable: Some(3),
        cable_estimated: Some(3),
    });
    assert_eq!((agree.estimated, agree.dcs, agree.divergent), (Some(3), Some(3), false));
    assert_eq!(agree.primary, "agreement");
    let differ = wire_evidence(&Grading::Recovered {
        cable: Some(2),
        cable_estimated: Some(3),
    });
    assert!(differ.divergent);
    assert_eq!(differ.primary, "dcs_lqm");
    let hook_up = wire_evidence(&Grading::TouchAndGo {
        cable_estimated: Some(4),
    });
    assert_eq!((hook_up.estimated, hook_up.dcs), (Some(4), None));
    assert_eq!(hook_up.primary, "rust_hypothetical");
    let estimated = wire_evidence(&Grading::Recovered {
        cable: None,
        cable_estimated: Some(1),
    });
    assert_eq!(estimated.primary, "rust_estimated");
    assert_eq!(wire_evidence(&Grading::Bolter).primary, "none");
}

#[test]
fn confidence_needs_complete_telemetry_and_confirmed_events() {
    let agree = wire_evidence(&Grading::Recovered {
        cable: Some(3),
        cable_estimated: Some(3),
    });
    assert_eq!(confidence(Completeness::Complete, &agree, false), "high");
    assert_eq!(confidence(Completeness::Complete, &agree, true), "insufficient");
    assert_eq!(confidence(Completeness::TelemetryGap, &agree, false), "insufficient");
    let bolter = wire_evidence(&Grading::Bolter);
    assert_eq!(confidence(Completeness::Complete, &bolter, false), "medium");
}

#[test]
fn an_unavailable_stream_leaves_the_outcome_unconfirmed() {
    let mut correlator = EventCorrelator::new(1, 2);
    correlator.stream_unavailable("down".to_string());
    let trap = Grading::Recovered {
        cable: Some(2),
        cable_estimated: None,
    };
    assert!(event_outcome_unavailable(&correlator.summary(&trap)));
    assert!(!event_outcome_unavailable(&correlator.summary(&Grading::Bolter)));
    assert!(!event_outcome_unavailable(
        &EventCorrelator::new(1, 2).summary(&trap)
    ));
}

#[test]
fn primary_cause_explains_the_outcome_or_the_gap() {
    let trap = Grading::Recovered {
        cable: None,
        cable_estimated: Some(2),
    };
    assert_eq!(primary_cause(Completeness::TelemetryGap, &trap, ""), "telemetry_gap");
    assert_eq!(
        primary_cause(Completeness::Complete, &trap, "hook_transient"),
        "hook_transient_arrest_without_dcs_wire"
    );
    assert_eq!(
        primary_cause(Completeness::Complete, &trap, "kinematic"),
        "kinematic_arrest_without_wire"
    );
    assert_eq!(
        primary_cause(Completeness::Complete, &trap, "event"),
        "correlated_touchdown"
    );
    assert_eq!(
        primary_cause(Completeness::Complete, &Grading::Bolter, ""),
        "deck_crossing_without_arrest"
    );
    assert_eq!(
        primary_cause(
            Completeness::Complete,
            &Grading::TouchAndGo {
                cable_estimated: None
            },
            ""
        ),
        "hook_up_near_deck"
    );
    assert_eq!(
        primary_cause(Completeness::Complete, &Grading::WaveoffUnknown, ""),
        "go_around_initiator_unknown"
    );
    assert_eq!(
        primary_cause(Completeness::Complete, &Grading::ApproachOnly, ""),
        "approach_only_outcome_unknown"
    );
}

#[test]
fn secondary_causes_skip_the_primary_and_add_diagnostics() {
    assert_eq!(
        secondary_causes(
            Completeness::TelemetryGap,
            &[
                Completeness::InsufficientGates,
                Completeness::TelemetryGap,
                Completeness::BufferLimit
            ],
            &[
                DiagnosticCause::HookHistoryTruncated,
                DiagnosticCause::EventStreamUnavailable
            ],
        ),
        vec![
            "insufficient_gates",
            "position_buffer_limit",
            "hook_history_truncated",
            "event_stream_unavailable"
        ]
    );
    assert!(secondary_causes(Completeness::Complete, &[], &[]).is_empty());
    assert_eq!(
        missing_coverage(&[Completeness::UnconfirmedArrest, Completeness::InvalidTelemetry]),
        vec!["unconfirmed_arrest", "invalid_telemetry"]
    );
}

#[test]
fn availability_scope_and_fallback_follow_the_evidence() {
    assert_eq!(
        grading_availability(Completeness::BufferLimit, &Grading::Bolter, false),
        "unavailable_technical"
    );
    assert_eq!(
        grading_availability(Completeness::Complete, &Grading::ApproachOnly, true),
        "available_approach_only"
    );
    assert_eq!(
        grading_availability(Completeness::Complete, &Grading::Bolter, true),
        "unavailable_event_outcome"
    );
    assert_eq!(
        grading_availability(Completeness::Complete, &Grading::Bolter, false),
        "available"
    );
    assert_eq!(
        assessment_scope(Completeness::Complete, true, &Grading::Bolter),
        AssessmentScope::Full
    );
    assert_eq!(
        assessment_scope(Completeness::TelemetryGap, true, &Grading::Bolter),
        AssessmentScope::Partial
    );
    assert_eq!(
        assessment_scope(Completeness::Complete, false, &Grading::Bolter),
        AssessmentScope::OutcomeOnly
    );
    assert_eq!(
        assessment_scope(Completeness::Complete, false, &Grading::ApproachOnly),
        AssessmentScope::Nothing
    );
    assert_eq!(fallback_source(true, true, &Grading::Bolter), FallbackSource::Project);
    assert_eq!(fallback_source(false, true, &Grading::Unknown), FallbackSource::DcsLqm);
    assert_eq!(fallback_source(false, false, &Grading::Bolter), FallbackSource::Geometry);
    assert_eq!(fallback_source(false, false, &Grading::Unknown), FallbackSource::Nothing);
}

#[test]
fn why_this_grade_says_what_the_grade_rests_on() {
    assert_eq!(
        why_this_grade(AssessmentScope::Full, "OK: clean.", &[], None, Completeness::Complete),
        "OK: clean."
    );
    assert_eq!(
        why_this_grade(
            AssessmentScope::Partial,
            "(OK): drifted.",
            &["telemetry_gap", "insufficient_gates"],
            None,
            Completeness::TelemetryGap
        ),
        "Partial project assessment (no points): (OK): drifted. Missing coverage: telemetry_gap, insufficient_gates."
    );
    assert_eq!(
        why_this_grade(
            AssessmentScope::OutcomeOnly,
            "",
            &[],
            Some("LSO: GRADE:OK : WIRE# 3"),
            Completeness::InsufficientGates
        ),
        "Outcome only; raw DCS LQM fallback: LSO: GRADE:OK : WIRE# 3. No project points."
    );
    assert_eq!(
        why_this_grade(AssessmentScope::OutcomeOnly, "", &[], None, Completeness::InsufficientGates),
        "Outcome only; approach coverage is insufficient. No project points."
    );
    assert_eq!(
        why_this_grade(AssessmentScope::Nothing, "", &[], None, Completeness::InsufficientGates),
        "Grading unavailable: InsufficientGates. This is a measurement limitation, not a pilot failure."
    );
}

#[test]
fn report_file_names_are_safe() {
    assert_eq!(safe_file_name("Mav-erick 01 (é)"), "Maverick01");
    assert_eq!(safe_file_name("--"), "");
    assert_eq!(
        report_filename("20240102-030405", "Maverick01", "s1-g1-p2-c3-t4"),
        "LSO-20240102-030405-Maverick01-s1-g1-p2-c3-t4"
    );
    assert_eq!(
        report_filename("20240102-030405", "", "id"),
        "LSO-20240102-030405-unknown-id"
    );
}

#[test]
fn recording_reacts_only_to_its_own_pair() {
    let correlator = EventCorrelator::new(10, 20);
    let own = |kind| recording_event_action(&correlator, kind);
    assert_eq!(
        own(SessionEventKind::LandingQualityMark {
            plane_id: 10,
            carrier_id: 20
        }),
        EventAction::RecordLandingQualityMark
    );
    assert_eq!(
        own(SessionEventKind::Land {
            plane_id: 10,
            carrier_id: 20
        }),
        EventAction::CorrelateTouchdown
    );
    assert_eq!(
        own(SessionEventKind::RunwayTouch {
            plane_id: 11,
            carrier_id: 20
        }),
        EventAction::Ignore
    );
    assert_eq!(own(SessionEventKind::UnitGone { unit_id: 20 }), EventAction::StopRecording);
    assert_eq!(own(SessionEventKind::UnitGone { unit_id: 30 }), EventAction::Ignore);
    assert_eq!(own(SessionEventKind::Other), EventAction::Ignore);
    assert_eq!(
        late_event_action(&correlator, SessionEventKind::UnitGone { unit_id: 10 }),
        EventAction::Ignore
    );
    assert_eq!(
        late_event_action(
            &correlator,
            SessionEventKind::LandingQualityMark {
                plane_id: 10,
                carrier_id: 20
            }
        ),
        EventAction::RecordLandingQualityMark
    );
}

#[test]
fn failed_polls_stop_or_retry() {
    assert_eq!(poll_failure_action(GrpcCode::NotFound, false), PollFailureAction::StopUnitGone);
    assert_eq!(
        poll_failure_action(GrpcCode::Unavailable, true),
        PollFailureAction::StopTelemetryGap
    );
    assert_eq!(
        poll_failure_action(GrpcCode::ResourceExhausted, false),
        PollFailureAction::Retry
    );
    assert!(tick_ends_recording(true, 5, false));
    assert!(tick_ends_recording(false, 0, true));
    assert!(!tick_ends_recording(false, 1, true));
    assert!(!tick_ends_recording(false, 0, false));
}

#[test]
fn hook_sampling_needs_an_arrested_carrier_and_a_hook_argument() {
    assert_eq!(
        hook_sampling_plan(false, HookSamplingMode::Independent, Some(25)),
        Some((HookSamplingMode::Independent, 25))
    );
    assert_eq!(hook_sampling_plan(true, HookSamplingMode::Independent, Some(25)), None);
    assert_eq!(hook_sampling_plan(false, HookSamplingMode::LegacyInline, None), None);
}

#[test]
fn only_unimplemented_forced_atomic_telemetry_ends_the_generation() {
    assert!(recording_failure_is_fatal(Some(GrpcCode::Unimplemented), RecoveryTelemetryMode::Atomic));
    assert!(!recording_failure_is_fatal(Some(GrpcCode::Unimplemented), RecoveryTelemetryMode::Auto));
    assert!(!recording_failure_is_fatal(Some(GrpcCode::Unimplemented), RecoveryTelemetryMode::Legacy));
    assert!(!recording_failure_is_fatal(Some(GrpcCode::Unavailable), RecoveryTelemetryMode::Atomic));
    assert!(!recording_failure_is_fatal(None, RecoveryTelemetryMode::Atomic));
}

#[test]
fn only_a_recording_without_outcome_is_discarded() {
    assert!(discards_recording(&Grading::Unknown));
    assert!(!discards_recording(&Grading::ApproachOnly));
    assert!(!discards_recording(&Grading::Bolter));
    assert!(!discards_recording(&Grading::WaveoffUnknown));
    assert!(!discards_recording(&Grading::Recovered { cable: None, cable_estimated: None }));
}
