use lso::correlator::{EventCorrelator, EventStreamStatus};
use lso::hub::{EventJournal, SubscriberProgress, EVENT_JOURNAL_CAPACITY};
use lso::outcome::{Completeness, Grading};
use lso::recording::{late_event_action, EventAction, SessionEventKind};
use lso::outcome::completeness_cause;
use lso::report::primary_cause;
use lso::notation::to_english;

#[test]
fn stream_reconnection_is_explicit_and_preserves_prior_outcome_evidence() {
    let mut correlator = EventCorrelator::new(10, 20);
    assert_eq!(
        correlator.stream_unavailable("unavailable".to_string()),
        Some("unavailable".to_string())
    );
    assert!(correlator.stream_available());

    let summary = correlator.summary(&Grading::ApproachOnly);
    assert_eq!(summary.stream_status, EventStreamStatus::Available);
    assert_eq!(summary.unavailability_count, 1);
    assert_eq!(summary.reconnection_count, 1);
}

#[test]
fn stream_failure_is_reported_once() {
    let mut correlator = EventCorrelator::new(10, 20);
    assert!(correlator.stream_unavailable("grpc unavailable".to_string()).is_some());
    assert!(correlator.stream_unavailable("again".to_string()).is_none());
    let summary = correlator.summary(&Grading::Bolter);
    assert_eq!(summary.stream_status, EventStreamStatus::Unavailable);
    assert_eq!(summary.detail.as_deref(), Some("grpc unavailable"));
    assert_eq!(summary.unavailability_count, 1);
    assert!(summary.outcome_confirmed);
    assert!(correlator.stream_available());
    assert_eq!(correlator.reconnection_count, 1);
}

#[test]
fn disabled_stream_records_positions_only() {
    let correlator = EventCorrelator::disabled(1, 2);
    let summary = correlator.summary(&Grading::WaveoffUnknown);
    assert_eq!(summary.stream_status, EventStreamStatus::Disabled);
    assert_eq!(summary.detail.as_deref(), Some("positions_only"));
    assert!(!summary.outcome_confirmed);
}

#[test]
fn only_the_tracked_pair_is_accepted() {
    let correlator = EventCorrelator::new(10, 20);
    assert!(correlator.accepts_pair(10, 20));
    assert!(!correlator.accepts_pair(20, 10));
    assert!(correlator.is_tracked_unit(20));
    assert!(!correlator.is_tracked_unit(30));
}

#[test]
fn touchdown_event_without_a_complete_transform_is_not_evidence() {
    let mut correlator = EventCorrelator::new(10, 20);
    let (correlation, note) = correlator.touchdown(Some(1u8), None, true);
    assert!(!correlation.accepted);
    assert_eq!(note, "missing_transform_evidence");
    let trap = Grading::Recovered {
        cable: Some(3),
        cable_estimated: None,
    };
    assert!(!correlator.summary(&trap).outcome_confirmed);

    let (correlation, note) = correlator.touchdown(Some(1u8), Some(2u8), false);
    assert!(!correlation.accepted);
    assert_eq!(note, "duplicate_or_geometry_rejected");

    let (correlation, note) = correlator.touchdown(Some(1u8), Some(2u8), true);
    assert!(correlation.accepted);
    assert_eq!(correlation.plane, Some(2));
    assert_eq!(note, "ids_and_geometry_correlated");
    assert!(correlator.summary(&trap).outcome_confirmed);
}

#[test]
fn journal_numbers_events_and_keeps_the_newest() {
    let mut journal: EventJournal<u32> = EventJournal::new();
    assert_eq!(journal.status(), (false, Some("event_stream_connecting".to_string())));
    assert_eq!(journal.publish(100), 1);
    assert_eq!(journal.publish(101), 2);
    assert!(journal.mark_available());
    assert!(!journal.mark_available());
    assert_eq!(journal.status(), (true, None));
    for event in 0..(EVENT_JOURNAL_CAPACITY as u32) {
        journal.publish(event);
    }
    let entries = journal.entries();
    assert_eq!(entries.len(), EVENT_JOURNAL_CAPACITY);
    assert_eq!(entries[0].sequence, 3);
    assert_eq!(entries[EVENT_JOURNAL_CAPACITY - 1].sequence, 514);
    assert!(journal.mark_unavailable("lost".to_string()));
    assert_eq!(journal.status(), (false, Some("lost".to_string())));
}

#[test]
fn replayed_and_live_copies_are_delivered_once() {
    let mut progress = SubscriberProgress::new();
    assert!(progress.accept(1));
    assert!(progress.accept(3));
    assert!(!progress.accept(3));
    assert!(!progress.accept(2));
    assert_eq!(progress.delivered, 3);
}

#[test]
fn stream_failure_is_scoped_to_event_diagnostics() {
    let mut correlator = EventCorrelator::new(10, 20);
    assert_eq!(
        correlator.stream_unavailable("grpc unavailable".to_string()),
        Some("grpc unavailable".to_string())
    );
    // The stream outage is an event diagnostic: the positional completeness of an empty track
    // stays InsufficientGates, and the report derives its causes from that alone.
    let summary = correlator.summary(&Grading::Unknown);
    assert_eq!(summary.stream_status, EventStreamStatus::Unavailable);
    assert_eq!(summary.detail.as_deref(), Some("grpc unavailable"));
    assert_eq!(
        primary_cause(Completeness::InsufficientGates, &Grading::Unknown, "none"),
        "insufficient_gates"
    );
    assert_eq!(completeness_cause(Completeness::InsufficientGates), "insufficient_gates");
    assert_eq!(summary.unavailability_count, 1);
}

#[test]
fn separate_waveoff_tracks_do_not_consume_a_later_wire_lqm() {
    for comment in [
        "LSO: GRADE:WO _LOIC_ _LOAR_ _LULIM_ (EGTL) (DLIM) WO(AFU)IC [BC]",
        "LSO: GRADE:WO _LULIM_ _LULIC_ WO(AFU)IC [BC]",
    ] {
        let mut correlator = EventCorrelator::new(10, 20);
        assert_eq!(
            late_event_action(&correlator, SessionEventKind::LandingQualityMark { plane_id: 10, carrier_id: 20 }),
            EventAction::RecordLandingQualityMark
        );
        assert!(!to_english(comment).is_empty());
        assert_eq!(correlator.landing_quality_mark(true, true), "first_matching_event");
        assert!(correlator.summary(&Grading::WaveoffUnknown).outcome_confirmed);
    }

    let mut trap_correlator = EventCorrelator::new(10, 20);
    assert_eq!(trap_correlator.landing_quality_mark(true, false), "first_matching_event");
    let trap = Grading::Recovered {
        cable: Some(2),
        cable_estimated: None,
    };
    assert!(trap_correlator.summary(&trap).outcome_confirmed);
    assert!(!trap_correlator.summary(&Grading::WaveoffUnknown).outcome_confirmed);
}

#[test]
fn late_journal_lqm_is_correlated_to_the_current_pair() {
    let mut correlator = EventCorrelator::new(10, 20);
    assert_eq!(
        late_event_action(&correlator, SessionEventKind::LandingQualityMark { plane_id: 10, carrier_id: 20 }),
        EventAction::RecordLandingQualityMark
    );
    assert_eq!(
        late_event_action(&correlator, SessionEventKind::LandingQualityMark { plane_id: 10, carrier_id: 21 }),
        EventAction::Ignore
    );
    assert_eq!(correlator.landing_quality_mark(true, false), "first_matching_event");
    let trap = Grading::Recovered {
        cable: Some(3),
        cable_estimated: None,
    };
    assert!(correlator.summary(&trap).outcome_confirmed);
    assert_eq!(to_english("LSO: GRADE:OK : WIRE# 3 [BC]"), "");
}
