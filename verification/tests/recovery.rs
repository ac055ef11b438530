use lso::outcome::{
    completeness_cause, post_touchdown_window_elapsed, recovery_id, recovery_outcome,
    AcquisitionMode, AssessmentScope, Completeness, FallbackSource, Grading,
    POST_TOUCHDOWN_WINDOW_NS,
};
use lso::ownship::{grpc_code_name, GrpcCode};

#[test]
fn arrested_recovery_without_wire_evidence_is_explicit() {
    let grading = Grading::Recovered {
        cable: None,
        cable_estimated: None,
    };

    assert_eq!(
        recovery_outcome(&grading, false),
        "Arrested — wire evidence unavailable"
    );
}

#[test]
fn vstol_recovery_uses_spot_outcome() {
    let grading = Grading::Recovered {
        cable: None,
        cable_estimated: None,
    };

    assert_eq!(recovery_outcome(&grading, true), "Spot 7.5");
}

#[test]
fn touch_and_go_is_not_exposed_as_bolter_for_vstol() {
    let grading = Grading::TouchAndGo {
        cable_estimated: Some(3),
    };

    assert_eq!(
        recovery_outcome(&grading, false),
        "T&G (CQ) — would have caught wire 3"
    );
    assert_eq!(recovery_outcome(&grading, true), "Waveoff/Go-around");
    assert_eq!(
        recovery_outcome(
            &Grading::TouchAndGo {
                cable_estimated: None
            },
            false
        ),
        "T&G (CQ)"
    );
}

#[test]
fn simultaneous_passes_and_new_generations_have_distinct_ids() {
    let first = recovery_id(10, 1, 100, 1, 42_000);
    let simultaneous = recovery_id(10, 1, 101, 1, 42_000);
    let regenerated = recovery_id(10, 2, 100, 1, 42_000);
    assert_ne!(first, simultaneous);
    assert_ne!(first, regenerated);
}

#[test]
fn post_touchdown_window_is_evaluated_without_samples() {
    assert!(!post_touchdown_window_elapsed(None));
    assert!(!post_touchdown_window_elapsed(Some(0)));
    assert!(post_touchdown_window_elapsed(Some(
        POST_TOUCHDOWN_WINDOW_NS + 1_000_000_000
    )));
}

#[test]
fn hook_grpc_codes_use_documented_snake_case_names() {
    assert_eq!(grpc_code_name(GrpcCode::DeadlineExceeded), "deadline_exceeded");
    assert_eq!(grpc_code_name(GrpcCode::ResourceExhausted), "resource_exhausted");
    assert_eq!(grpc_code_name(GrpcCode::FailedPrecondition), "failed_precondition");
}

#[test]
fn every_grpc_code_has_its_snake_case_name() {
    let expected = [
        (GrpcCode::Success, "ok"),
        (GrpcCode::Cancelled, "cancelled"),
        (GrpcCode::Unknown, "unknown"),
        (GrpcCode::InvalidArgument, "invalid_argument"),
        (GrpcCode::DeadlineExceeded, "deadline_exceeded"),
        (GrpcCode::NotFound, "not_found"),
        (GrpcCode::AlreadyExists, "already_exists"),
        (GrpcCode::PermissionDenied, "permission_denied"),
        (GrpcCode::ResourceExhausted, "resource_exhausted"),
        (GrpcCode::FailedPrecondition, "failed_precondition"),
        (GrpcCode::Aborted, "aborted"),
        (GrpcCode::OutOfRange, "out_of_range"),
        (GrpcCode::Unimplemented, "unimplemented"),
        (GrpcCode::Internal, "internal"),
        (GrpcCode::Unavailable, "unavailable"),
        (GrpcCode::DataLoss, "data_loss"),
        (GrpcCode::Unauthenticated, "unauthenticated"),
    ];
    for (code, name) in expected {
        assert_eq!(grpc_code_name(code), name);
    }
}

#[test]
fn recovery_id_has_the_documented_layout() {
    assert_eq!(recovery_id(10, 1, 100, 1, 42_000), "s10-g1-p100-c1-t42000");
    assert_eq!(recovery_id(-3, 0, 0, 7, -5), "s-3-g0-p0-c7-t-5");
    assert_eq!(
        recovery_id(i64::MIN, u64::MAX, u32::MAX, 0, i64::MAX),
        "s-9223372036854775808-g18446744073709551615-p4294967295-c0-t9223372036854775807"
    );
}

#[test]
fn recovery_id_separates_fields_that_would_run_together() {
    assert_ne!(recovery_id(1, 12, 3, 4, 5), recovery_id(11, 2, 3, 4, 5));
    assert_ne!(recovery_id(1, 2, 34, 5, 6), recovery_id(1, 2, 3, 45, 6));
}

#[test]
fn arrested_outcome_names_each_wire_source() {
    assert_eq!(
        recovery_outcome(
            &Grading::Recovered {
                cable: Some(3),
                cable_estimated: Some(3)
            },
            false
        ),
        "Arrested — wire 3 (DCS/LQM + Rust)"
    );
    assert_eq!(
        recovery_outcome(
            &Grading::Recovered {
                cable: Some(2),
                cable_estimated: Some(3)
            },
            false
        ),
        "Arrested — DCS/LQM wire 2; Rust estimate 3"
    );
    assert_eq!(
        recovery_outcome(
            &Grading::Recovered {
                cable: Some(4),
                cable_estimated: None
            },
            false
        ),
        "Arrested — DCS/LQM wire 4; Rust estimate unavailable"
    );
    assert_eq!(
        recovery_outcome(
            &Grading::Recovered {
                cable: None,
                cable_estimated: Some(1)
            },
            false
        ),
        "Wire #1 (Rust estimate)"
    );
}

#[test]
fn non_recovery_outcomes_have_fixed_texts() {
    assert_eq!(recovery_outcome(&Grading::Unknown, false), "unknown");
    assert_eq!(
        recovery_outcome(&Grading::ApproachOnly, false),
        "Approach only — outcome unknown"
    );
    assert_eq!(recovery_outcome(&Grading::Bolter, true), "Bolter");
    assert_eq!(
        recovery_outcome(&Grading::WaveoffUnknown, false),
        "Waveoff/Go-around — initiator unknown"
    );
}

#[test]
fn report_labels_are_snake_case() {
    assert_eq!(completeness_cause(Completeness::Complete), "complete");
    assert_eq!(
        completeness_cause(Completeness::InsufficientGates),
        "insufficient_gates"
    );
    assert_eq!(completeness_cause(Completeness::TelemetryGap), "telemetry_gap");
    assert_eq!(
        completeness_cause(Completeness::InvalidTelemetry),
        "invalid_telemetry"
    );
    assert_eq!(
        completeness_cause(Completeness::UnconfirmedArrest),
        "unconfirmed_arrest"
    );
    assert_eq!(
        completeness_cause(Completeness::BufferLimit),
        "position_buffer_limit"
    );
    assert_eq!(AssessmentScope::Full.as_str(), "full");
    assert_eq!(AssessmentScope::Partial.as_str(), "partial");
    assert_eq!(AssessmentScope::OutcomeOnly.as_str(), "outcome_only");
    assert_eq!(AssessmentScope::Nothing.as_str(), "none");
    assert_eq!(FallbackSource::Project.as_str(), "project");
    assert_eq!(FallbackSource::DcsLqm.as_str(), "dcs_lqm");
    assert_eq!(FallbackSource::Geometry.as_str(), "geometry");
    assert_eq!(FallbackSource::Nothing.as_str(), "none");
    assert_eq!(AcquisitionMode::Legacy.as_str(), "legacy");
    assert_eq!(AcquisitionMode::Atomic.as_str(), "atomic");
}

#[test]
fn post_touchdown_window_boundary_is_exclusive() {
    assert!(!post_touchdown_window_elapsed(Some(POST_TOUCHDOWN_WINDOW_NS)));
    assert!(post_touchdown_window_elapsed(Some(POST_TOUCHDOWN_WINDOW_NS + 1)));
}
