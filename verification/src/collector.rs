//! Sequence and loss accounting for buffered position telemetry.
use vstd::prelude::*;
use crate::decimal::{decimal, push_decimal, push_signed_decimal, signed_decimal};
use crate::text::{push_str, str_equals, string_from_chars};

verus! {

/// Why the source ring reported missing positions.
#[derive(Debug, Clone, Copy, PartialEq, Eq)]
pub enum LossReason {
    Unspecified,
    NoLoss,
    RetentionExpired,
    CapacityOverflow,
    Mixed,
}

/// Whether a loss reason counts as positions that were really dropped.
pub open spec fn is_counted_loss(reason: LossReason) -> bool {
    reason == LossReason::RetentionExpired || reason == LossReason::CapacityOverflow
        || reason == LossReason::Mixed
}

/// Number of positions the source reports as lost between the last sequence this reader
/// consumed and the oldest one still available (at least one when a real loss is reported).
pub fn reported_loss_count(reason: LossReason, oldest_available_sequence: u64, after_sequence: u64) -> (n: u64)
    ensures
        !is_counted_loss(reason) ==> n == 0,
        is_counted_loss(reason) ==> n == if oldest_available_sequence > after_sequence + 1 {
            (oldest_available_sequence - (after_sequence + 1)) as u64
        } else {
            1u64
        },
{
    match reason {
        LossReason::RetentionExpired | LossReason::CapacityOverflow | LossReason::Mixed => {
            let next = after_sequence.saturating_add(1);
            let missing = oldest_available_sequence.saturating_sub(next);
            if missing > 1 { missing } else { 1 }
        }
        _ => 0,
    }
}

/// The message of a sequence that does not follow the previous one.
pub open spec fn non_contiguous_message(expected: u64, received: u64) -> Seq<char> {
    "non-contiguous recovery telemetry sequence: expected "@ + decimal(expected as nat)
        + ", received "@ + decimal(received as nat)
}

/// The next sequence of a contiguous read: `received` must be exactly one past `previous`
/// (saturating at the largest sequence).
pub fn advance_sequence(previous: u64, received: u64) -> (r: Result<u64, String>)
    ensures
        ({
            let expected = if previous == u64::MAX { previous } else { (previous + 1) as u64 };
            match r {
                Ok(s) => received == expected && s == received,
                Err(m) => received != expected && m@ == non_contiguous_message(expected, received),
            }
        }),
{
    let expected = previous.saturating_add(1);
    if received != expected {
        let mut out: Vec<char> = Vec::new();
        push_str(&mut out, "non-contiguous recovery telemetry sequence: expected ");
        push_decimal(&mut out, expected);
        push_str(&mut out, ", received ");
        push_decimal(&mut out, received);
        assert(out@ =~= non_contiguous_message(expected, received));
        return Err(string_from_chars(&out));
    }
    Ok(received)
}

/// The sequence a batch continues from: the last one read when nothing was lost, else the one
/// just before the oldest still available.
pub fn batch_base_sequence(lost_snapshots: u64, after_sequence: u64, oldest_available_sequence: u64) -> (r: u64)
    ensures
        r == if lost_snapshots == 0 {
            after_sequence
        } else if oldest_available_sequence == 0 {
            0
        } else {
            (oldest_available_sequence - 1) as u64
        },
{
    if lost_snapshots == 0 {
        after_sequence
    } else {
        oldest_available_sequence.saturating_sub(1)
    }
}

/// The message of a response whose resume point does not match what was read.
pub open spec fn invalid_next_after_message() -> Seq<char> {
    "invalid next_after_sequence in recovery telemetry response"@
}

/// Checks the resume point a response announces: it never goes back before `after_sequence`
/// and it is the last sequence read, `last_read`.
pub fn check_next_after_sequence(after_sequence: u64, last_read: u64, next_after_sequence: u64) -> (r: Result<u64, String>)
    ensures
        match r {
            Ok(s) => s == next_after_sequence && after_sequence <= next_after_sequence
                && next_after_sequence == last_read,
            Err(m) => (next_after_sequence < after_sequence || next_after_sequence != last_read)
                && m@ == invalid_next_after_message(),
        },
{
    if next_after_sequence < after_sequence || next_after_sequence != last_read {
        let mut out: Vec<char> = Vec::new();
        push_str(&mut out, "invalid next_after_sequence in recovery telemetry response");
        return Err(string_from_chars(&out));
    }
    Ok(next_after_sequence)
}

/// The message of a response that belongs to another epoch or handle.
pub open spec fn identity_message() -> Seq<char> {
    "ReadRecoveryTelemetry returned a different epoch or handle"@
}

/// Checks that a response belongs to the epoch and handle that were asked for.
pub fn check_read_identity(
    response_epoch: &str,
    response_handle: &str,
    source_epoch: &str,
    handle: &str,
) -> (r: Result<(), String>)
    ensures
        r is Ok <==> (response_epoch@ == source_epoch@ && response_handle@ == handle@),
        r matches Err(m) ==> m@ == identity_message(),
{
    if !str_equals(response_epoch, source_epoch) || !str_equals(response_handle, handle) {
        let mut out: Vec<char> = Vec::new();
        push_str(&mut out, "ReadRecoveryTelemetry returned a different epoch or handle");
        return Err(string_from_chars(&out));
    }
    Ok(())
}

/// Status of one unit observation in a source snapshot.
#[derive(Debug, Clone, Copy, PartialEq, Eq)]
pub enum UnitObservationStatus {
    Unspecified,
    Valid,
    NotFound,
    IdMismatch,
    ReadError,
    InvalidData,
}

/// Name of an observation status; a code the source does not know is named after its number.
pub open spec fn status_name(status: Option<UnitObservationStatus>, status_code: i32) -> Seq<char> {
    match status {
        Some(UnitObservationStatus::Unspecified) => "unspecified"@,
        Some(UnitObservationStatus::Valid) => "valid"@,
        Some(UnitObservationStatus::NotFound) => "not_found"@,
        Some(UnitObservationStatus::IdMismatch) => "id_mismatch"@,
        Some(UnitObservationStatus::ReadError) => "read_error"@,
        Some(UnitObservationStatus::InvalidData) => "invalid_data"@,
        None => "unknown_status_"@ + signed_decimal(status_code as int),
    }
}

/// Name of an observation status, `status` being the decoded form of `status_code` when the
/// code is known.
pub fn unit_observation_status_name(status: Option<UnitObservationStatus>, status_code: i32) -> (s: String)
    ensures
        s@ == status_name(status, status_code),
{
    let mut out: Vec<char> = Vec::new();
    match status {
        Some(UnitObservationStatus::Unspecified) => push_str(&mut out, "unspecified"),
        Some(UnitObservationStatus::Valid) => push_str(&mut out, "valid"),
        Some(UnitObservationStatus::NotFound) => push_str(&mut out, "not_found"),
        Some(UnitObservationStatus::IdMismatch) => push_str(&mut out, "id_mismatch"),
        Some(UnitObservationStatus::ReadError) => push_str(&mut out, "read_error"),
        Some(UnitObservationStatus::InvalidData) => push_str(&mut out, "invalid_data"),
        None => {
            push_str(&mut out, "unknown_status_");
            push_signed_decimal(&mut out, status_code as i64);
        },
    }
    assert(out@ =~= status_name(status, status_code));
    string_from_chars(&out)
}

/// Counters of the source ring that a response may carry.
#[derive(Debug, Clone, Copy)]
pub struct SourceRingCounters {
    pub missed_capture_intervals: u64,
    pub retention_expiration_count: u64,
    pub capacity_overflow_count: u64,
    pub high_water_mark: u32,
}

/// What one read of buffered telemetry brought.
#[derive(Debug, Clone, Copy)]
pub struct BatchReport {
    /// Sequence after which the next read resumes.
    pub next_after_sequence: u64,
    /// Capture tick of the last snapshot of the batch, if it had any.
    pub last_capture_tick: Option<u64>,
    pub samples: u64,
    pub invalid_snapshots: u64,
    pub lost_snapshots: u64,
    pub overflow_count: u64,
    pub capacity: u32,
    pub source: Option<SourceRingCounters>,
}

/// Running diagnostics of a buffered collection (the counters; rates and durations are kept by
/// the caller).
#[derive(Debug, Clone)]
pub struct BufferedCollectionDiagnostics {
    pub source_epoch: String,
    pub last_sequence: u64,
    pub last_capture_tick: u64,
    pub read_batches: u64,
    pub snapshots_received: u64,
    pub invalid_snapshots: u64,
    pub lost_snapshots: u64,
    /// Reader-observed missing sequence count: non-zero means data that was asked for was no
    /// longer available.
    pub observed_reader_sequence_losses: u64,
    pub reader_sequence_contiguous: bool,
    pub overflow_count: u64,
    pub missed_capture_intervals: u64,
    pub retention_expiration_count: u64,
    pub capacity_overflow_count: u64,
    pub source_ring_capacity_evictions: u64,
    pub source_ring_retention_evictions: u64,
    pub high_water_mark: u32,
    pub capacity: u32,
    pub read_budget_waits: u64,
}

impl BufferedCollectionDiagnostics {
    /// Diagnostics of a collection that just started on `source_epoch`, with the ring capacity
    /// the source announced; nothing is read yet and the sequence is contiguous.
    pub fn started(source_epoch: String, capacity: u32) -> (d: BufferedCollectionDiagnostics)
        ensures
            d.source_epoch@ == source_epoch@,
            d.capacity == capacity,
            d.reader_sequence_contiguous,
            d.last_sequence == 0 && d.last_capture_tick == 0 && d.read_batches == 0,
            d.snapshots_received == 0 && d.invalid_snapshots == 0 && d.lost_snapshots == 0,
            d.observed_reader_sequence_losses == 0 && d.overflow_count == 0,
            d.missed_capture_intervals == 0 && d.retention_expiration_count == 0,
            d.capacity_overflow_count == 0 && d.source_ring_capacity_evictions == 0,
            d.source_ring_retention_evictions == 0 && d.high_water_mark == 0,
            d.read_budget_waits == 0,
    {
        BufferedCollectionDiagnostics {
            source_epoch,
            last_sequence: 0,
            last_capture_tick: 0,
            read_batches: 0,
            snapshots_received: 0,
            invalid_snapshots: 0,
            lost_snapshots: 0,
            observed_reader_sequence_losses: 0,
            reader_sequence_contiguous: true,
            overflow_count: 0,
            missed_capture_intervals: 0,
            retention_expiration_count: 0,
            capacity_overflow_count: 0,
            source_ring_capacity_evictions: 0,
            source_ring_retention_evictions: 0,
            high_water_mark: 0,
            capacity,
            read_budget_waits: 0,
        }
    }

    /// Counts one read that had to wait for the shared read budget.
    pub fn record_read_wait(&mut self)
        ensures
            final(self).read_budget_waits == sat_add(old(self).read_budget_waits, 1),
            final(self).read_batches == old(self).read_batches,
            final(self).lost_snapshots == old(self).lost_snapshots,
    {
        self.read_budget_waits = self.read_budget_waits.saturating_add(1);
    }

    /// Accounts for one successful read: the resume point, the counts of the batch (all
    /// saturating), whether the sequence stayed contiguous, and the source's ring counters.
    pub fn record_batch(&mut self, report: &BatchReport)
        requires
            report.samples + report.invalid_snapshots <= u64::MAX,
        ensures
            final(self).source_epoch == old(self).source_epoch,
            final(self).last_sequence == report.next_after_sequence,
            final(self).last_capture_tick == match report.last_capture_tick {
                Some(t) => t,
                None => old(self).last_capture_tick,
            },
            final(self).read_batches == sat_add(old(self).read_batches, 1),
            final(self).snapshots_received == sat_add(
                old(self).snapshots_received,
                (report.samples + report.invalid_snapshots) as u64,
            ),
            final(self).invalid_snapshots == sat_add(old(self).invalid_snapshots, report.invalid_snapshots),
            final(self).lost_snapshots == sat_add(old(self).lost_snapshots, report.lost_snapshots),
            final(self).observed_reader_sequence_losses == final(self).lost_snapshots,
            final(self).reader_sequence_contiguous == (old(self).reader_sequence_contiguous
                && report.lost_snapshots == 0),
            final(self).overflow_count == report.overflow_count,
            final(self).capacity == report.capacity,
            final(self).read_budget_waits == old(self).read_budget_waits,
            match report.source {
                Some(c) => {
                    &&& final(self).missed_capture_intervals == c.missed_capture_intervals
                    &&& final(self).retention_expiration_count == c.retention_expiration_count
                    &&& final(self).capacity_overflow_count == c.capacity_overflow_count
                    &&& final(self).source_ring_retention_evictions == c.retention_expiration_count
                    &&& final(self).source_ring_capacity_evictions == c.capacity_overflow_count
                    &&& final(self).high_water_mark == c.high_water_mark
                },
                None => {
                    &&& final(self).missed_capture_intervals == old(self).missed_capture_intervals
                    &&& final(self).retention_expiration_count == old(self).retention_expiration_count
                    &&& final(self).capacity_overflow_count == old(self).capacity_overflow_count
                    &&& final(self).source_ring_retention_evictions == old(self).source_ring_retention_evictions
                    &&& final(self).source_ring_capacity_evictions == old(self).source_ring_capacity_evictions
                    &&& final(self).high_water_mark == old(self).high_water_mark
                },
            },
    {
        if let Some(tick) = report.last_capture_tick {
            self.last_capture_tick = tick;
        }
        self.last_sequence = report.next_after_sequence;
        self.read_batches = self.read_batches.saturating_add(1);
        self.snapshots_received = self.snapshots_received.saturating_add(
            report.samples + report.invalid_snapshots,
        );
        self.invalid_snapshots = self.invalid_snapshots.saturating_add(report.invalid_snapshots);
        self.lost_snapshots = self.lost_snapshots.saturating_add(report.lost_snapshots);
        self.observed_reader_sequence_losses = self.lost_snapshots;
        self.reader_sequence_contiguous = self.reader_sequence_contiguous && report.lost_snapshots == 0;
        self.overflow_count = report.overflow_count;
        self.capacity = report.capacity;
        if let Some(c) = report.source {
            self.missed_capture_intervals = c.missed_capture_intervals;
            self.retention_expiration_count = c.retention_expiration_count;
            self.capacity_overflow_count = c.capacity_overflow_count;
            self.source_ring_retention_evictions = c.retention_expiration_count;
            self.source_ring_capacity_evictions = c.capacity_overflow_count;
            self.high_water_mark = c.high_water_mark;
        }
    }
}

/// Saturating addition of counters.
pub open spec fn sat_add(a: u64, b: u64) -> u64 {
    if a + b > u64::MAX {
        u64::MAX
    } else {
        (a + b) as u64
    }
}

/// Which unit of the pair an observation is about.
#[derive(Debug, Clone, Copy, PartialEq, Eq)]
pub enum SourceObservationEntity {
    Aircraft,
    Carrier,
}

/// An observation the source reported as not valid; `T` is its DCS capture time.
#[derive(Debug, Clone, Copy)]
pub struct InvalidSourceObservation<T> {
    pub entity: SourceObservationEntity,
    /// The decoded status, when the source's status code is known.
    pub status: Option<UnitObservationStatus>,
    pub capture_time_dcs: T,
}

/// Whether an observation says the unit now resolves to another incarnation.
pub open spec fn is_id_mismatch<T>(o: InvalidSourceObservation<T>) -> bool {
    o.status == Some(UnitObservationStatus::IdMismatch)
}

/// The first observation, from index `i` on, that reports an identity mismatch.
pub open spec fn first_mismatch_from<T>(s: Seq<InvalidSourceObservation<T>>, i: int) -> Option<int>
    decreases s.len() - i,
{
    if i < 0 || i >= s.len() {
        None
    } else if is_id_mismatch(s[i]) {
        Some(i)
    } else {
        first_mismatch_from(s, i + 1)
    }
}

/// The entity and capture time of the first observation reporting that the aircraft or the
/// carrier now resolves to a different unit incarnation. Such a mismatch is not a transient
/// read error: the attempt must end with it.
pub fn identity_mismatch<T: Copy>(observations: &[InvalidSourceObservation<T>]) -> (r: Option<(SourceObservationEntity, T)>)
    ensures
        match first_mismatch_from(observations@, 0) {
            Some(k) => r == Some((observations@[k].entity, observations@[k].capture_time_dcs)),
            None => r is None,
        },
{
    let mut i: usize = 0;
    while i < observations.len()
        invariant
            i <= observations@.len(),
            first_mismatch_from(observations@, 0) == first_mismatch_from(observations@, i as int),
        decreases observations@.len() - i,
    {
        let o = observations[i];
        if matches!(o.status, Some(UnitObservationStatus::IdMismatch)) {
            return Some((o.entity, o.capture_time_dcs));
        }
        i += 1;
    }
    None
}

/// What became of one snapshot of a read.
#[derive(Debug, Clone)]
pub enum SnapshotOutcome {
    /// Both observations were valid and made a sample.
    Sample,
    /// The source reported an invalid observation in it.
    InvalidSource,
    /// Its observations could not make a sample (an invalid status on conversion).
    Rejected,
    /// It could not be read at all; the read fails with this message.
    Failed(String),
}

/// The counts of a read: the last sequence read, the samples and the invalid snapshots.
#[derive(Debug, Clone, Copy, PartialEq, Eq)]
pub struct BatchTally {
    pub last_sequence: u64,
    pub samples: u64,
    pub invalid_snapshots: u64,
}

/// The tally of the snapshots `s`, read after sequence `base`, in order: each must follow the
/// previous one, and the first failure ends the read.
pub open spec fn spec_tally(base: u64, s: Seq<(u64, SnapshotOutcome)>) -> Result<BatchTally, Seq<char>>
    decreases s.len(),
{
    if s.len() == 0 {
        Ok(BatchTally { last_sequence: base, samples: 0, invalid_snapshots: 0 })
    } else {
        match spec_tally(base, s.drop_last()) {
            Err(m) => Err(m),
            Ok(t) => {
                let (sequence, outcome) = s.last();
                let expected = if t.last_sequence == u64::MAX {
                    t.last_sequence
                } else {
                    (t.last_sequence + 1) as u64
                };
                if sequence != expected {
                    Err(non_contiguous_message(expected, sequence))
                } else {
                    match outcome {
                        SnapshotOutcome::Sample => Ok(
                            BatchTally {
                                last_sequence: sequence,
                                samples: (t.samples + 1) as u64,
                                invalid_snapshots: t.invalid_snapshots,
                            },
                        ),
                        SnapshotOutcome::InvalidSource | SnapshotOutcome::Rejected => Ok(
                            BatchTally {
                                last_sequence: sequence,
                                samples: t.samples,
                                invalid_snapshots: sat_add(t.invalid_snapshots, 1),
                            },
                        ),
                        SnapshotOutcome::Failed(m) => Err(m@),
                    }
                }
            },
        }
    }
}

/// Tallies the snapshots of one read, in order, after sequence `base` (see `spec_tally`).
pub fn tally_batch(base: u64, snapshots: &[(u64, SnapshotOutcome)]) -> (r: Result<BatchTally, String>)
    ensures
        match r {
            Ok(t) => spec_tally(base, snapshots@) == Ok::<BatchTally, Seq<char>>(t),
            Err(m) => spec_tally(base, snapshots@) == Err::<BatchTally, Seq<char>>(m@),
        },
{
    let mut tally = BatchTally { last_sequence: base, samples: 0, invalid_snapshots: 0 };
    let mut i: usize = 0;
    while i < snapshots.len()
        invariant
            i <= snapshots@.len(),
            spec_tally(base, snapshots@.subrange(0, i as int)) == Ok::<BatchTally, Seq<char>>(tally),
            tally.samples <= i,
        decreases snapshots@.len() - i,
    {
        let ghost prefix = snapshots@.subrange(0, i + 1);
        assert(prefix.drop_last() =~= snapshots@.subrange(0, i as int));
        let (sequence, outcome) = &snapshots[i];
        match advance_sequence(tally.last_sequence, *sequence) {
            Err(m) => {
                assert(spec_tally(base, prefix) == Err::<BatchTally, Seq<char>>(m@));
                proof {
                    lemma_tally_prefix_error(base, snapshots@, i + 1);
                }
                return Err(m);
            },
            Ok(_) => {},
        }
        match outcome {
            SnapshotOutcome::Sample => {
                tally = BatchTally {
                    last_sequence: *sequence,
                    samples: tally.samples + 1,
                    invalid_snapshots: tally.invalid_snapshots,
                };
            },
            SnapshotOutcome::InvalidSource | SnapshotOutcome::Rejected => {
                tally = BatchTally {
                    last_sequence: *sequence,
                    samples: tally.samples,
                    invalid_snapshots: tally.invalid_snapshots.saturating_add(1),
                };
            },
            SnapshotOutcome::Failed(m) => {
                assert(spec_tally(base, prefix) == Err::<BatchTally, Seq<char>>(m@));
                proof {
                    lemma_tally_prefix_error(base, snapshots@, i + 1);
                }
                return Err(m.clone());
            },
        }
        i += 1;
    }
    assert(snapshots@.subrange(0, snapshots@.len() as int) =~= snapshots@);
    Ok(tally)
}

/// Once a prefix of the snapshots fails, the whole read fails with the same message.
proof fn lemma_tally_prefix_error(base: u64, s: Seq<(u64, SnapshotOutcome)>, n: int)
    requires
        0 <= n <= s.len(),
        spec_tally(base, s.subrange(0, n)) is Err,
    ensures
        spec_tally(base, s) == spec_tally(base, s.subrange(0, n)),
    decreases s.len() - n,
{
    if n < s.len() {
        let next = s.subrange(0, n + 1);
        assert(next.drop_last() =~= s.subrange(0, n));
        lemma_tally_prefix_error(base, s, n + 1);
    } else {
        assert(s.subrange(0, n) =~= s);
    }
}

} // verus!
