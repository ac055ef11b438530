//! Time alignment of the carrier and aircraft observations that make up one telemetry sample.
//!
//! The aligner keeps the previous observations and the instants at which each source last
//! advanced. Each new pair is judged from comparisons made on the measured times (finite or
//! not, skew within the direct or the extrapolation limit, gaps and source ages within their
//! limits): this module decides how the pair is aligned, why it is rejected if it is, and how
//! the history moves on.
use vstd::prelude::*;

verus! {

/// How the two observations of a sample were brought to a common time.
#[derive(Debug, Clone, Copy, PartialEq, Eq, Structural)]
pub enum AlignmentMethod {
    Direct,
    ExtrapolatedCarrier,
    ExtrapolatedPlane,
    Invalid,
}

impl Default for AlignmentMethod {
    fn default() -> (m: AlignmentMethod)
        ensures
            m == AlignmentMethod::Direct,
    {
        AlignmentMethod::Direct
    }
}

/// Why a sample cannot be used.
#[derive(Debug, Clone, Copy, PartialEq, Eq, Structural)]
pub enum TelemetryInvalidReason {
    NonFiniteTimestamp,
    TimeWentBackwards,
    MissingHistory,
    ExcessiveSkew,
    TelemetryGap,
}

/// The comparisons made on the measured times of one pair of observations.
#[derive(Debug, Clone, Copy)]
pub struct AlignmentFacts {
    /// Both DCS timestamps are finite.
    pub timestamps_finite: bool,
    /// The carrier's time is earlier than that of the previous carrier observation.
    pub carrier_earlier: bool,
    /// The aircraft's time is earlier than that of the previous aircraft observation.
    pub plane_earlier: bool,
    /// The carrier's time is later than that of the previous carrier observation.
    pub carrier_later: bool,
    /// The aircraft's time is later than that of the previous aircraft observation.
    pub plane_later: bool,
    /// The skew between the two is within the direct limit (100 ms).
    pub skew_within_direct: bool,
    /// The skew between the two is within the extrapolation limit (300 ms).
    pub skew_within_extrapolation: bool,
    /// The carrier observation is the older of the two.
    pub carrier_behind: bool,
    /// Gap since the previous sample and source age are both within the warning limit (300 ms).
    pub history_fresh: bool,
    /// Gap since the previous sample or source age exceeds the incomplete limit (1 s).
    pub gap_exceeded: bool,
    /// Gap since the previous sample or source age exceeds the warning limit.
    pub warning: bool,
}

/// The decision on one pair of observations.
#[derive(Debug, Clone, Copy)]
pub struct Alignment {
    /// The method chosen from the times alone, before the gap check: it says which side, if
    /// any, is extrapolated.
    pub basis: AlignmentMethod,
    /// The method of the sample: `Invalid` whenever there is a reason.
    pub method: AlignmentMethod,
    pub invalid_reason: Option<TelemetryInvalidReason>,
}

/// Aligns carrier and aircraft observations; `T` is an observation, `I` an instant.
#[derive(Debug)]
pub struct TelemetryAligner<T, I> {
    pub previous_carrier: Option<T>,
    pub previous_plane: Option<T>,
    pub previous_sample_at: Option<I>,
    pub carrier_last_advanced_at: Option<I>,
    pub plane_last_advanced_at: Option<I>,
    pub previous_sample_valid: bool,
}

/// The method and reason from the times alone: non-finite times, a source going back in time
/// and a skew beyond the extrapolation limit reject the pair; a skew within the direct limit
/// aligns it as is; in between, the older side is extrapolated when the history is valid.
pub open spec fn spec_basis(
    has_previous_carrier: bool,
    has_previous_plane: bool,
    previous_valid: bool,
    f: AlignmentFacts,
) -> (AlignmentMethod, Option<TelemetryInvalidReason>) {
    let history_valid = previous_valid && f.history_fresh;
    if !f.timestamps_finite {
        (AlignmentMethod::Invalid, Some(TelemetryInvalidReason::NonFiniteTimestamp))
    } else if (has_previous_carrier && f.carrier_earlier) || (has_previous_plane && f.plane_earlier) {
        (AlignmentMethod::Invalid, Some(TelemetryInvalidReason::TimeWentBackwards))
    } else if f.skew_within_direct {
        (AlignmentMethod::Direct, None)
    } else if f.skew_within_extrapolation {
        if f.carrier_behind {
            if has_previous_carrier && history_valid {
                (AlignmentMethod::ExtrapolatedCarrier, None)
            } else {
                (AlignmentMethod::Invalid, Some(TelemetryInvalidReason::MissingHistory))
            }
        } else if has_previous_plane && history_valid {
            (AlignmentMethod::ExtrapolatedPlane, None)
        } else {
            (AlignmentMethod::Invalid, Some(TelemetryInvalidReason::MissingHistory))
        }
    } else {
        (AlignmentMethod::Invalid, Some(TelemetryInvalidReason::ExcessiveSkew))
    }
}

/// The full decision: a pair that passed on its times is still rejected for a telemetry gap,
/// and a rejected pair has the method `Invalid`.
pub open spec fn spec_alignment(
    has_previous_carrier: bool,
    has_previous_plane: bool,
    previous_valid: bool,
    f: AlignmentFacts,
) -> Alignment {
    let (basis, reason) = spec_basis(has_previous_carrier, has_previous_plane, previous_valid, f);
    let invalid_reason = if reason is None && f.gap_exceeded {
        Some(TelemetryInvalidReason::TelemetryGap)
    } else {
        reason
    };
    Alignment {
        basis,
        method: if invalid_reason is Some {
            AlignmentMethod::Invalid
        } else {
            basis
        },
        invalid_reason,
    }
}

impl<T, I> TelemetryAligner<T, I> {
    /// An aligner with no history.
    pub fn new() -> (a: TelemetryAligner<T, I>)
        ensures
            a.previous_carrier is None,
            a.previous_plane is None,
            a.previous_sample_at is None,
            a.carrier_last_advanced_at is None,
            a.plane_last_advanced_at is None,
            !a.previous_sample_valid,
    {
        TelemetryAligner {
            previous_carrier: None,
            previous_plane: None,
            previous_sample_at: None,
            carrier_last_advanced_at: None,
            plane_last_advanced_at: None,
            previous_sample_valid: false,
        }
    }

    /// Full reset, used across a session cut.
    pub fn reset(&mut self)
        ensures
            final(self).previous_carrier is None,
            final(self).previous_plane is None,
            final(self).previous_sample_at is None,
            final(self).carrier_last_advanced_at is None,
            final(self).plane_last_advanced_at is None,
            !final(self).previous_sample_valid,
    {
        *self = TelemetryAligner::new();
    }

    /// Forbids extrapolation across an RPC failure while keeping the time of the last delivered
    /// sample, so the outage shows up in the next sample's gap instead of being reset to zero.
    pub fn invalidate_history(&mut self)
        ensures
            final(self).previous_carrier is None,
            final(self).previous_plane is None,
            final(self).carrier_last_advanced_at is None,
            final(self).plane_last_advanced_at is None,
            !final(self).previous_sample_valid,
            final(self).previous_sample_at == old(self).previous_sample_at,
    {
        self.previous_carrier = None;
        self.previous_plane = None;
        self.carrier_last_advanced_at = None;
        self.plane_last_advanced_at = None;
        self.previous_sample_valid = false;
    }

    /// Decides how the pair described by `f` is aligned, from the current history.
    pub fn decide(&self, f: &AlignmentFacts) -> (a: Alignment)
        ensures
            a == spec_alignment(
                self.previous_carrier is Some,
                self.previous_plane is Some,
                self.previous_sample_valid,
                *f,
            ),
    {
        let has_carrier = self.previous_carrier.is_some();
        let has_plane = self.previous_plane.is_some();
        let history_valid = self.previous_sample_valid && f.history_fresh;
        let (basis, reason) = if !f.timestamps_finite {
            (AlignmentMethod::Invalid, Some(TelemetryInvalidReason::NonFiniteTimestamp))
        } else if (has_carrier && f.carrier_earlier) || (has_plane && f.plane_earlier) {
            (AlignmentMethod::Invalid, Some(TelemetryInvalidReason::TimeWentBackwards))
        } else if f.skew_within_direct {
            (AlignmentMethod::Direct, None)
        } else if f.skew_within_extrapolation {
            if f.carrier_behind {
                if has_carrier && history_valid {
                    (AlignmentMethod::ExtrapolatedCarrier, None)
                } else {
                    (AlignmentMethod::Invalid, Some(TelemetryInvalidReason::MissingHistory))
                }
            } else if has_plane && history_valid {
                (AlignmentMethod::ExtrapolatedPlane, None)
            } else {
                (AlignmentMethod::Invalid, Some(TelemetryInvalidReason::MissingHistory))
            }
        } else {
            (AlignmentMethod::Invalid, Some(TelemetryInvalidReason::ExcessiveSkew))
        };
        let invalid_reason = if reason.is_none() && f.gap_exceeded {
            Some(TelemetryInvalidReason::TelemetryGap)
        } else {
            reason
        };
        let method = if invalid_reason.is_some() {
            AlignmentMethod::Invalid
        } else {
            basis
        };
        Alignment { basis, method, invalid_reason }
    }

    /// Aligns one pair: decides from the current history, then remembers the pair, the instant
    /// `latest_received` of its newer observation, which sources advanced, and whether the
    /// sample can serve as history (valid and without warning).
    pub fn align(&mut self, carrier: T, plane: T, latest_received: I, f: &AlignmentFacts) -> (a: Alignment)
        where I: Copy
        ensures
            a == spec_alignment(
                old(self).previous_carrier is Some,
                old(self).previous_plane is Some,
                old(self).previous_sample_valid,
                *f,
            ),
            final(self).previous_carrier == Some(carrier),
            final(self).previous_plane == Some(plane),
            final(self).previous_sample_at == Some(latest_received),
            final(self).carrier_last_advanced_at == if old(self).previous_carrier is None
                || f.carrier_later {
                Some(latest_received)
            } else {
                old(self).carrier_last_advanced_at
            },
            final(self).plane_last_advanced_at == if old(self).previous_plane is None
                || f.plane_later {
                Some(latest_received)
            } else {
                old(self).plane_last_advanced_at
            },
            final(self).previous_sample_valid == (a.invalid_reason is None && !f.warning),
    {
        let a = self.decide(f);
        let carrier_advanced = self.previous_carrier.is_none() || f.carrier_later;
        let plane_advanced = self.previous_plane.is_none() || f.plane_later;
        if carrier_advanced {
            self.carrier_last_advanced_at = Some(latest_received);
        }
        if plane_advanced {
            self.plane_last_advanced_at = Some(latest_received);
        }
        self.previous_carrier = Some(carrier);
        self.previous_plane = Some(plane);
        self.previous_sample_at = Some(latest_received);
        self.previous_sample_valid = a.invalid_reason.is_none() && !f.warning;
        a
    }
}

/// A sample is invalid exactly when it carries a reason, and an extrapolated sample always had
/// valid history on the extrapolated side.
pub proof fn lemma_alignment_consistent(
    has_previous_carrier: bool,
    has_previous_plane: bool,
    previous_valid: bool,
    f: AlignmentFacts,
)
    ensures
        ({
            let a = spec_alignment(has_previous_carrier, has_previous_plane, previous_valid, f);
            &&& (a.method == AlignmentMethod::Invalid) == (a.invalid_reason is Some)
            &&& a.basis == AlignmentMethod::ExtrapolatedCarrier ==> has_previous_carrier
                && previous_valid && f.history_fresh
            &&& a.basis == AlignmentMethod::ExtrapolatedPlane ==> has_previous_plane
                && previous_valid && f.history_fresh
        }),
{
}

/// Without history (after `new`, `reset` or `invalidate_history`) no pair is extrapolated: a
/// pair whose skew exceeds the direct limit is rejected for missing history or excessive skew.
pub proof fn lemma_no_extrapolation_without_history(f: AlignmentFacts, previous_valid: bool)
    ensures
        ({
            let a = spec_alignment(false, false, previous_valid, f);
            &&& a.basis != AlignmentMethod::ExtrapolatedCarrier
            &&& a.basis != AlignmentMethod::ExtrapolatedPlane
            &&& f.timestamps_finite && !f.skew_within_direct && f.skew_within_extrapolation
                ==> a.invalid_reason == Some(TelemetryInvalidReason::MissingHistory)
        }),
{
}

/// The same comparisons with the roles of the carrier and the aircraft exchanged.
pub open spec fn swapped(f: AlignmentFacts) -> AlignmentFacts {
    AlignmentFacts {
        carrier_earlier: f.plane_earlier,
        plane_earlier: f.carrier_earlier,
        carrier_later: f.plane_later,
        plane_later: f.carrier_later,
        carrier_behind: !f.carrier_behind,
        ..f
    }
}

/// A source going back in time rejects the pair, whichever source it is: with finite times,
/// when the carrier or the aircraft has a previous observation and its new time is earlier, the
/// sample is invalid because time went backwards.
pub proof fn lemma_time_never_goes_backwards(
    has_previous_carrier: bool,
    has_previous_plane: bool,
    previous_valid: bool,
    f: AlignmentFacts,
)
    requires
        f.timestamps_finite,
        (has_previous_carrier && f.carrier_earlier) || (has_previous_plane && f.plane_earlier),
    ensures
        spec_alignment(has_previous_carrier, has_previous_plane, previous_valid, f).method
            == AlignmentMethod::Invalid,
        spec_alignment(has_previous_carrier, has_previous_plane, previous_valid, f).invalid_reason
            == Some(TelemetryInvalidReason::TimeWentBackwards),
{
}

/// The decision treats the carrier and the aircraft alike: exchanging their roles gives the
/// same verdict, with the extrapolated side exchanged too.
pub proof fn lemma_alignment_symmetric(
    has_previous_carrier: bool,
    has_previous_plane: bool,
    previous_valid: bool,
    f: AlignmentFacts,
)
    ensures
        ({
            let a = spec_alignment(has_previous_carrier, has_previous_plane, previous_valid, f);
            let b = spec_alignment(has_previous_plane, has_previous_carrier, previous_valid, swapped(f));
            &&& a.invalid_reason == b.invalid_reason
            &&& (a.method == AlignmentMethod::Invalid) == (b.method == AlignmentMethod::Invalid)
            &&& (a.method == AlignmentMethod::Direct) == (b.method == AlignmentMethod::Direct)
            &&& (a.method == AlignmentMethod::ExtrapolatedCarrier) == (b.method
                == AlignmentMethod::ExtrapolatedPlane)
            &&& (a.method == AlignmentMethod::ExtrapolatedPlane) == (b.method
                == AlignmentMethod::ExtrapolatedCarrier)
        }),
{
}

/// Why a sample replayed from a recording cannot be used: non-finite times first, then a skew
/// beyond the extrapolation limit, then a gap beyond the incomplete limit.
pub open spec fn spec_replay_reason(
    timestamps_finite: bool,
    skew_within_extrapolation: bool,
    gap_exceeded: bool,
) -> Option<TelemetryInvalidReason> {
    if !timestamps_finite {
        Some(TelemetryInvalidReason::NonFiniteTimestamp)
    } else if !skew_within_extrapolation {
        Some(TelemetryInvalidReason::ExcessiveSkew)
    } else if gap_exceeded {
        Some(TelemetryInvalidReason::TelemetryGap)
    } else {
        None
    }
}

/// The verdict on a replayed sample: its reason, if any, and its method (replayed pairs are
/// never extrapolated).
pub fn replay_verdict(timestamps_finite: bool, skew_within_extrapolation: bool, gap_exceeded: bool) -> (r: (AlignmentMethod, Option<TelemetryInvalidReason>))
    ensures
        r.1 == spec_replay_reason(timestamps_finite, skew_within_extrapolation, gap_exceeded),
        r.0 == if r.1 is Some {
            AlignmentMethod::Invalid
        } else {
            AlignmentMethod::Direct
        },
{
    let reason = if !timestamps_finite {
        Some(TelemetryInvalidReason::NonFiniteTimestamp)
    } else if !skew_within_extrapolation {
        Some(TelemetryInvalidReason::ExcessiveSkew)
    } else if gap_exceeded {
        Some(TelemetryInvalidReason::TelemetryGap)
    } else {
        None
    };
    let method = if reason.is_some() {
        AlignmentMethod::Invalid
    } else {
        AlignmentMethod::Direct
    };
    (method, reason)
}

} // verus!
