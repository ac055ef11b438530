use lso::collector::{
    advance_sequence, batch_base_sequence, check_next_after_sequence, check_read_identity,
    reported_loss_count, unit_observation_status_name, BatchReport, BufferedCollectionDiagnostics,
    LossReason, SourceRingCounters, UnitObservationStatus,
};

#[test]
fn sequence_validation_rejects_gaps_and_duplicates() {
    assert_eq!(advance_sequence(7, 8).unwrap(), 8);
    assert_eq!(
        advance_sequence(7, 7).unwrap_err(),
        "non-contiguous recovery telemetry sequence: expected 8, received 7"
    );
    assert_eq!(
        advance_sequence(7, 9).unwrap_err(),
        "non-contiguous recovery telemetry sequence: expected 8, received 9"
    );
}

#[test]
fn explicit_retention_or_capacity_loss_counts_missing_positions() {
    assert_eq!(reported_loss_count(LossReason::NoLoss, 10, 2), 0);
    assert_eq!(reported_loss_count(LossReason::RetentionExpired, 10, 2), 7);
    assert_eq!(reported_loss_count(LossReason::CapacityOverflow, 10, 8), 1);
}

#[test]
fn only_real_losses_are_counted() {
    assert_eq!(reported_loss_count(LossReason::Unspecified, 10, 2), 0);
    assert_eq!(reported_loss_count(LossReason::Mixed, 5, 1), 3);
    assert_eq!(reported_loss_count(LossReason::Mixed, 0, u64::MAX), 1);
}

#[test]
fn sequence_saturates_at_the_largest_value() {
    assert_eq!(advance_sequence(u64::MAX, u64::MAX), Ok(u64::MAX));
}

#[test]
fn a_batch_continues_before_the_oldest_available_after_a_loss() {
    assert_eq!(batch_base_sequence(0, 41, 50), 41);
    assert_eq!(batch_base_sequence(8, 41, 50), 49);
    assert_eq!(batch_base_sequence(1, 41, 0), 0);
}

#[test]
fn resume_point_must_match_what_was_read() {
    assert_eq!(check_next_after_sequence(5, 9, 9), Ok(9));
    let message = "invalid next_after_sequence in recovery telemetry response";
    assert_eq!(check_next_after_sequence(5, 9, 8).unwrap_err(), message);
    assert_eq!(check_next_after_sequence(10, 4, 4).unwrap_err(), message);
}

#[test]
fn responses_of_another_epoch_or_handle_are_refused() {
    assert!(check_read_identity("e1", "h1", "e1", "h1").is_ok());
    assert_eq!(
        check_read_identity("e2", "h1", "e1", "h1").unwrap_err(),
        "ReadRecoveryTelemetry returned a different epoch or handle"
    );
    assert!(check_read_identity("e1", "h2", "e1", "h1").is_err());
}

#[test]
fn observation_status_names_are_snake_case() {
    assert_eq!(
        unit_observation_status_name(Some(UnitObservationStatus::IdMismatch), 3),
        "id_mismatch"
    );
    assert_eq!(
        unit_observation_status_name(Some(UnitObservationStatus::InvalidData), 5),
        "invalid_data"
    );
    assert_eq!(unit_observation_status_name(None, 42), "unknown_status_42");
    assert_eq!(unit_observation_status_name(None, -7), "unknown_status_-7");
}

#[test]
fn batches_accumulate_into_the_diagnostics() {
    let mut diagnostics = BufferedCollectionDiagnostics::started("epoch-1".to_string(), 600);
    assert!(diagnostics.reader_sequence_contiguous);
    diagnostics.record_batch(&BatchReport {
        next_after_sequence: 12,
        last_capture_tick: Some(99),
        samples: 10,
        invalid_snapshots: 2,
        lost_snapshots: 0,
        overflow_count: 1,
        capacity: 600,
        source: None,
    });
    assert_eq!(diagnostics.last_sequence, 12);
    assert_eq!(diagnostics.last_capture_tick, 99);
    assert_eq!(diagnostics.read_batches, 1);
    assert_eq!(diagnostics.snapshots_received, 12);
    assert_eq!(diagnostics.invalid_snapshots, 2);
    assert!(diagnostics.reader_sequence_contiguous);

    diagnostics.record_batch(&BatchReport {
        next_after_sequence: 30,
        last_capture_tick: None,
        samples: 5,
        invalid_snapshots: 0,
        lost_snapshots: 4,
        overflow_count: 3,
        capacity: 600,
        source: Some(SourceRingCounters {
            missed_capture_intervals: 2,
            retention_expiration_count: 4,
            capacity_overflow_count: 0,
            high_water_mark: 120,
        }),
    });
    assert_eq!(diagnostics.last_capture_tick, 99);
    assert_eq!(diagnostics.lost_snapshots, 4);
    assert_eq!(diagnostics.observed_reader_sequence_losses, 4);
    assert!(!diagnostics.reader_sequence_contiguous);
    assert_eq!(diagnostics.source_ring_retention_evictions, 4);
    assert_eq!(diagnostics.high_water_mark, 120);
    diagnostics.record_read_wait();
    assert_eq!(diagnostics.read_budget_waits, 1);
    assert_eq!(diagnostics.source_epoch, "epoch-1");
}

use lso::collector::{identity_mismatch, InvalidSourceObservation, SourceObservationEntity};

fn invalid(
    entity: SourceObservationEntity,
    status: UnitObservationStatus,
    time: Option<f64>,
) -> InvalidSourceObservation<Option<f64>> {
    InvalidSourceObservation {
        entity,
        status: Some(status),
        capture_time_dcs: time,
    }
}

#[test]
fn identity_mismatch_names_the_first_mismatching_entity() {
    assert_eq!(identity_mismatch::<Option<f64>>(&[]), None);
    assert_eq!(
        identity_mismatch(&[invalid(
            SourceObservationEntity::Carrier,
            UnitObservationStatus::ReadError,
            Some(10.0)
        )]),
        None,
        "a read error is transient, not an identity change"
    );
    assert_eq!(
        identity_mismatch(&[
            invalid(
                SourceObservationEntity::Carrier,
                UnitObservationStatus::NotFound,
                Some(10.0)
            ),
            invalid(
                SourceObservationEntity::Aircraft,
                UnitObservationStatus::IdMismatch,
                Some(10.5)
            ),
        ]),
        Some((SourceObservationEntity::Aircraft, Some(10.5)))
    );
}

use lso::collector::{tally_batch, BatchTally, SnapshotOutcome};

#[test]
fn a_read_is_tallied_in_sequence_order() {
    let tally = tally_batch(
        4,
        &[
            (5, SnapshotOutcome::Sample),
            (6, SnapshotOutcome::InvalidSource),
            (7, SnapshotOutcome::Rejected),
            (8, SnapshotOutcome::Sample),
        ],
    );
    assert_eq!(
        tally,
        Ok(BatchTally {
            last_sequence: 8,
            samples: 2,
            invalid_snapshots: 2
        })
    );
    assert_eq!(
        tally_batch(4, &[]),
        Ok(BatchTally {
            last_sequence: 4,
            samples: 0,
            invalid_snapshots: 0
        })
    );
}

#[test]
fn the_first_failure_ends_the_read() {
    assert_eq!(
        tally_batch(
            4,
            &[
                (5, SnapshotOutcome::Sample),
                (7, SnapshotOutcome::Sample),
                (8, SnapshotOutcome::Failed("late".to_string())),
            ],
        ),
        Err("non-contiguous recovery telemetry sequence: expected 6, received 7".to_string())
    );
    assert_eq!(
        tally_batch(
            4,
            &[
                (5, SnapshotOutcome::Failed("missing Aircraft observation in telemetry snapshot".to_string())),
                (9, SnapshotOutcome::Sample),
            ],
        ),
        Err("missing Aircraft observation in telemetry snapshot".to_string())
    );
}
