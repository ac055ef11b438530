//! Ownship hook diagnostics: classification of each poll and the bounded evidence timeline.
use vstd::prelude::*;
use vstd::wrapping::u32_specs::wrapping_add;

verus! {

/// How many poll records the timeline keeps.
pub const MAX_EVIDENCE: usize = 512;

/// Outcome of one ownship hook poll.
#[derive(Debug, Clone, Copy, PartialEq, Eq, Structural)]
pub enum SampleStatus {
    Observed,
    Unavailable,
    IdentityUnavailable,
    IdentityMismatch,
    Timeout,
    Unimplemented,
    Error,
    Stale,
}

/// What the server said about the ownship hook.
#[derive(Debug, Clone, Copy, PartialEq, Eq)]
pub enum HookObservationStatus {
    Unspecified,
    Observed,
    Unavailable,
}

/// Classification of a server response: an observation without any finite value is an error;
/// otherwise it is trusted only when the ownship is known to be the tracked unit.
pub open spec fn spec_classify(
    status: HookObservationStatus,
    identity_matches: Option<bool>,
    has_status_value: bool,
    has_value: bool,
) -> SampleStatus {
    match status {
        HookObservationStatus::Observed => if !has_status_value && !has_value {
            SampleStatus::Error
        } else if identity_matches == Some(true) {
            SampleStatus::Observed
        } else if identity_matches == Some(false) {
            SampleStatus::IdentityMismatch
        } else {
            SampleStatus::IdentityUnavailable
        },
        HookObservationStatus::Unavailable => SampleStatus::Unavailable,
        HookObservationStatus::Unspecified => SampleStatus::Error,
    }
}

/// Classifies a server response (see `spec_classify`).
pub fn classify(
    status: HookObservationStatus,
    identity_matches: Option<bool>,
    has_status_value: bool,
    has_value: bool,
) -> (s: SampleStatus)
    ensures
        s == spec_classify(status, identity_matches, has_status_value, has_value),
{
    match status {
        HookObservationStatus::Observed => {
            if !has_status_value && !has_value {
                SampleStatus::Error
            } else {
                match identity_matches {
                    Some(true) => SampleStatus::Observed,
                    Some(false) => SampleStatus::IdentityMismatch,
                    None => SampleStatus::IdentityUnavailable,
                }
            }
        },
        HookObservationStatus::Unavailable => SampleStatus::Unavailable,
        HookObservationStatus::Unspecified => SampleStatus::Error,
    }
}

/// Counters and bounded timeline of ownship hook polls; `E` is one poll's evidence record.
#[derive(Debug)]
pub struct OwnshipHookObservation<E> {
    /// What the observation may be used for: a diagnostic until validated live.
    pub evidence_role: &'static str,
    pub target_unit_id: u32,
    pub observed_samples: u32,
    pub unavailable_samples: u32,
    pub identity_unavailable_samples: u32,
    pub identity_mismatch_samples: u32,
    pub timeout_samples: u32,
    pub unimplemented_samples: u32,
    pub error_samples: u32,
    pub stale_samples: u32,
    pub compacted_samples: u32,
    pub timeline: Vec<(SampleStatus, E)>,
}

/// The status recorded for a poll: an observation that arrived too late is stale.
pub open spec fn effective_status(status: SampleStatus, too_old: bool) -> SampleStatus {
    if status == SampleStatus::Observed && too_old {
        SampleStatus::Stale
    } else {
        status
    }
}

/// The counter of a status.
pub open spec fn status_count<E>(o: OwnshipHookObservation<E>, s: SampleStatus) -> u32 {
    match s {
        SampleStatus::Observed => o.observed_samples,
        SampleStatus::Unavailable => o.unavailable_samples,
        SampleStatus::IdentityUnavailable => o.identity_unavailable_samples,
        SampleStatus::IdentityMismatch => o.identity_mismatch_samples,
        SampleStatus::Timeout => o.timeout_samples,
        SampleStatus::Unimplemented => o.unimplemented_samples,
        SampleStatus::Error => o.error_samples,
        SampleStatus::Stale => o.stale_samples,
    }
}

impl<E> OwnshipHookObservation<E> {
    /// No polls yet.
    pub fn new(target_unit_id: u32) -> (o: OwnshipHookObservation<E>)
        ensures
            o.evidence_role@ == "diagnostic_only_pending_live_validation"@,
            o.target_unit_id == target_unit_id,
            forall|s: SampleStatus| #[trigger] status_count(o, s) == 0,
            o.compacted_samples == 0,
            o.timeline@.len() == 0,
    {
        OwnshipHookObservation {
            evidence_role: "diagnostic_only_pending_live_validation",
            target_unit_id,
            observed_samples: 0,
            unavailable_samples: 0,
            identity_unavailable_samples: 0,
            identity_mismatch_samples: 0,
            timeout_samples: 0,
            unimplemented_samples: 0,
            error_samples: 0,
            stale_samples: 0,
            compacted_samples: 0,
            timeline: Vec::new(),
        }
    }

    fn count(&mut self, status: SampleStatus)
        ensures
            status_count(*final(self), status) == wrapping_add(status_count(*old(self), status), 1),
            forall|s: SampleStatus| s != status ==> #[trigger] status_count(*final(self), s) == status_count(*old(self), s),
            final(self).target_unit_id == old(self).target_unit_id,
            final(self).evidence_role == old(self).evidence_role,
            final(self).compacted_samples == old(self).compacted_samples,
            final(self).timeline == old(self).timeline,
    {
        match status {
            SampleStatus::Observed => self.observed_samples = self.observed_samples.wrapping_add(1),
            SampleStatus::Unavailable => self.unavailable_samples = self.unavailable_samples.wrapping_add(1),
            SampleStatus::IdentityUnavailable => self.identity_unavailable_samples = self.identity_unavailable_samples.wrapping_add(1),
            SampleStatus::IdentityMismatch => self.identity_mismatch_samples = self.identity_mismatch_samples.wrapping_add(1),
            SampleStatus::Timeout => self.timeout_samples = self.timeout_samples.wrapping_add(1),
            SampleStatus::Unimplemented => self.unimplemented_samples = self.unimplemented_samples.wrapping_add(1),
            SampleStatus::Error => self.error_samples = self.error_samples.wrapping_add(1),
            SampleStatus::Stale => self.stale_samples = self.stale_samples.wrapping_add(1),
        }
    }

    /// Records one poll: counts its effective status and appends its evidence, dropping the
    /// oldest record (and counting it as compacted) when the timeline is full.
    pub fn observe(&mut self, status: SampleStatus, too_old: bool, evidence: E)
        requires
            old(self).timeline@.len() <= MAX_EVIDENCE,
        ensures
            final(self).timeline@.len() <= MAX_EVIDENCE,
            status_count(*final(self), effective_status(status, too_old)) == wrapping_add(
                status_count(*old(self), effective_status(status, too_old)),
                1,
            ),
            forall|s: SampleStatus| s != effective_status(status, too_old) ==> #[trigger] status_count(*final(self), s) == status_count(*old(self), s),
            final(self).timeline@ == if old(self).timeline@.len() == MAX_EVIDENCE {
                old(self).timeline@.drop_first().push((effective_status(status, too_old), evidence))
            } else {
                old(self).timeline@.push((effective_status(status, too_old), evidence))
            },
            final(self).compacted_samples == if old(self).timeline@.len() == MAX_EVIDENCE {
                wrapping_add(old(self).compacted_samples, 1)
            } else {
                old(self).compacted_samples
            },
            final(self).target_unit_id == old(self).target_unit_id,
            final(self).evidence_role == old(self).evidence_role,
    {
        let status = if status == SampleStatus::Observed && too_old {
            SampleStatus::Stale
        } else {
            status
        };
        self.count(status);
        let ghost counted = *self;
        if self.timeline.len() == MAX_EVIDENCE {
            self.timeline.remove(0);
            self.compacted_samples = self.compacted_samples.wrapping_add(1);
        }
        self.timeline.push((status, evidence));
        proof {
            assert forall|s: SampleStatus| #[trigger] status_count(*self, s) == status_count(counted, s) by {}
            let olds = old(self).timeline@;
            if olds.len() == MAX_EVIDENCE {
                assert(self.timeline@ =~= olds.drop_first().push((status, evidence)));
            } else {
                assert(self.timeline@ =~= olds.push((status, evidence)));
            }
        }
    }
}

/// Status codes of a gRPC call.
#[derive(Debug, Clone, Copy, PartialEq, Eq, Structural)]
pub enum GrpcCode {
    /// The call succeeded (code 0, `OK`).
    Success,
    Cancelled,
    Unknown,
    InvalidArgument,
    DeadlineExceeded,
    NotFound,
    AlreadyExists,
    PermissionDenied,
    ResourceExhausted,
    FailedPrecondition,
    Aborted,
    OutOfRange,
    Unimplemented,
    Internal,
    Unavailable,
    DataLoss,
    Unauthenticated,
}

/// The documented snake_case name of a gRPC status code.
pub open spec fn code_name(code: GrpcCode) -> Seq<char> {
    match code {
        GrpcCode::Success => "ok"@,
        GrpcCode::Cancelled => "cancelled"@,
        GrpcCode::Unknown => "unknown"@,
        GrpcCode::InvalidArgument => "invalid_argument"@,
        GrpcCode::DeadlineExceeded => "deadline_exceeded"@,
        GrpcCode::NotFound => "not_found"@,
        GrpcCode::AlreadyExists => "already_exists"@,
        GrpcCode::PermissionDenied => "permission_denied"@,
        GrpcCode::ResourceExhausted => "resource_exhausted"@,
        GrpcCode::FailedPrecondition => "failed_precondition"@,
        GrpcCode::Aborted => "aborted"@,
        GrpcCode::OutOfRange => "out_of_range"@,
        GrpcCode::Unimplemented => "unimplemented"@,
        GrpcCode::Internal => "internal"@,
        GrpcCode::Unavailable => "unavailable"@,
        GrpcCode::DataLoss => "data_loss"@,
        GrpcCode::Unauthenticated => "unauthenticated"@,
    }
}

/// The documented snake_case name of a gRPC status code, as recorded with a failed hook poll.
pub fn grpc_code_name(code: GrpcCode) -> (s: &'static str)
    ensures
        s@ == code_name(code),
{
    match code {
        GrpcCode::Success => "ok",
        GrpcCode::Cancelled => "cancelled",
        GrpcCode::Unknown => "unknown",
        GrpcCode::InvalidArgument => "invalid_argument",
        GrpcCode::DeadlineExceeded => "deadline_exceeded",
        GrpcCode::NotFound => "not_found",
        GrpcCode::AlreadyExists => "already_exists",
        GrpcCode::PermissionDenied => "permission_denied",
        GrpcCode::ResourceExhausted => "resource_exhausted",
        GrpcCode::FailedPrecondition => "failed_precondition",
        GrpcCode::Aborted => "aborted",
        GrpcCode::OutOfRange => "out_of_range",
        GrpcCode::Unimplemented => "unimplemented",
        GrpcCode::Internal => "internal",
        GrpcCode::Unavailable => "unavailable",
        GrpcCode::DataLoss => "data_loss",
        GrpcCode::Unauthenticated => "unauthenticated",
    }
}

/// Status of a poll whose call failed with `code`: a deadline is a timeout, a server without
/// the hook service makes it unimplemented, anything else is an error.
pub fn failure_status(code: GrpcCode) -> (s: SampleStatus)
    ensures
        s == match code {
            GrpcCode::DeadlineExceeded => SampleStatus::Timeout,
            GrpcCode::Unimplemented => SampleStatus::Unimplemented,
            _ => SampleStatus::Error,
        },
{
    match code {
        GrpcCode::DeadlineExceeded => SampleStatus::Timeout,
        GrpcCode::Unimplemented => SampleStatus::Unimplemented,
        _ => SampleStatus::Error,
    }
}

/// Whether the reported ownship is the tracked unit, when the server names one.
pub fn identity_matches(ownship_unit_id: Option<u32>, target_unit_id: u32) -> (r: Option<bool>)
    ensures
        r == match ownship_unit_id {
            Some(id) => Some(id == target_unit_id),
            None => None,
        },
{
    match ownship_unit_id {
        Some(id) => Some(id == target_unit_id),
        None => None,
    }
}

/// A poll that arrived too late is never counted as an observation: stale data is never
/// reused as certainty; a timely poll keeps its status.
pub proof fn lemma_stale_never_observed(status: SampleStatus, too_old: bool)
    ensures
        too_old ==> effective_status(status, too_old) != SampleStatus::Observed,
        !too_old ==> effective_status(status, too_old) == status,
{
}

} // verus!
