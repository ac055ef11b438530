use lso::ownship::{
    classify, failure_status, identity_matches, GrpcCode, HookObservationStatus,
    OwnshipHookObservation, SampleStatus, MAX_EVIDENCE,
};

#[test]
fn observation_rejects_mismatch_and_stale_samples() {
    let mut observation: OwnshipHookObservation<u32> = OwnshipHookObservation::new(42);
    observation.observe(SampleStatus::Observed, true, 1);
    observation.observe(SampleStatus::IdentityMismatch, false, 2);

    assert_eq!(observation.observed_samples, 0);
    assert_eq!(observation.stale_samples, 1);
    assert_eq!(observation.identity_mismatch_samples, 1);
    assert_eq!(observation.timeline[0].0, SampleStatus::Stale);
    assert_eq!(observation.timeline[1].0, SampleStatus::IdentityMismatch);
}

#[test]
fn response_requires_values_and_matching_ownship_identity() {
    assert_eq!(
        classify(HookObservationStatus::Observed, Some(true), true, true),
        SampleStatus::Observed
    );
    assert_eq!(
        classify(HookObservationStatus::Observed, Some(true), false, false),
        SampleStatus::Error
    );
    assert_eq!(
        classify(HookObservationStatus::Observed, None, true, true),
        SampleStatus::IdentityUnavailable
    );
}

#[test]
fn unavailable_and_unspecified_responses_are_not_observations() {
    assert_eq!(
        classify(HookObservationStatus::Unavailable, Some(true), true, true),
        SampleStatus::Unavailable
    );
    assert_eq!(
        classify(HookObservationStatus::Unspecified, Some(true), true, true),
        SampleStatus::Error
    );
    assert_eq!(
        classify(HookObservationStatus::Observed, Some(false), false, true),
        SampleStatus::IdentityMismatch
    );
}

#[test]
fn failed_polls_are_classified_by_grpc_code() {
    assert_eq!(failure_status(GrpcCode::DeadlineExceeded), SampleStatus::Timeout);
    assert_eq!(failure_status(GrpcCode::Unimplemented), SampleStatus::Unimplemented);
    assert_eq!(failure_status(GrpcCode::Unavailable), SampleStatus::Error);
    assert_eq!(identity_matches(Some(42), 42), Some(true));
    assert_eq!(identity_matches(Some(99), 42), Some(false));
    assert_eq!(identity_matches(None, 42), None);
}

#[test]
fn timeline_is_bounded_and_compacts_the_oldest() {
    let mut observation: OwnshipHookObservation<usize> = OwnshipHookObservation::new(1);
    for i in 0..(MAX_EVIDENCE + 3) {
        observation.observe(SampleStatus::Observed, false, i);
    }
    assert_eq!(observation.timeline.len(), MAX_EVIDENCE);
    assert_eq!(observation.compacted_samples, 3);
    assert_eq!(observation.timeline[0].1, 3);
    assert_eq!(observation.observed_samples as usize, MAX_EVIDENCE + 3);
}

#[test]
fn stale_and_timed_out_hook_polls_never_become_certain_state() {
    let mut observation: OwnshipHookObservation<Option<&str>> = OwnshipHookObservation::new(42);
    observation.observe(SampleStatus::Observed, true, None);
    observation.observe(SampleStatus::Timeout, false, Some("deadline_exceeded"));

    assert_eq!(observation.stale_samples, 1);
    assert_eq!(observation.timeout_samples, 1);
    assert_eq!(observation.observed_samples, 0);
    assert_eq!(observation.timeline.last().unwrap().1, Some("deadline_exceeded"));
    assert_eq!(grpc_code_name_of_timeout(), "deadline_exceeded");
}

fn grpc_code_name_of_timeout() -> &'static str {
    lso::ownship::grpc_code_name(GrpcCode::DeadlineExceeded)
}
