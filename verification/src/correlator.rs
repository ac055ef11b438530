//! Event correlation for one recovery: which mission events belong to the tracked pair, and
//! the health of the event stream. Stream health is an event diagnostic only; it never
//! changes positional completeness.
use vstd::prelude::*;
use crate::outcome::Grading;

verus! {

/// Health of the mission event stream for a recovery.
#[derive(Debug, Clone, Copy, PartialEq, Eq, Structural)]
pub enum EventStreamStatus {
    Available,
    Disabled,
    Unavailable,
}

/// What the event correlation contributed to a recovery report.
#[derive(Debug, Clone, PartialEq, Eq)]
pub struct EventCorrelationSummary {
    pub stream_status: EventStreamStatus,
    pub detail: Option<String>,
    pub outcome_evidence_seen_before_unavailability: bool,
    pub outcome_confirmed: bool,
    pub unavailability_count: u32,
    pub reconnection_count: u32,
}

/// The transforms a touchdown event carried, and whether the touchdown was accepted as
/// evidence of the outcome.
#[derive(Debug, Clone)]
pub struct TouchdownCorrelation<T> {
    pub carrier: Option<T>,
    pub plane: Option<T>,
    pub accepted: bool,
}

/// Event identity and correlation state of one aircraft/carrier pair.
#[derive(Debug)]
pub struct EventCorrelator {
    pub plane_id: u32,
    pub carrier_id: u32,
    pub stream_status: EventStreamStatus,
    pub stream_detail: Option<String>,
    pub outcome_evidence_seen: bool,
    pub dcs_waveoff_evidence_seen: bool,
    pub unavailability_count: u32,
    pub reconnection_count: u32,
}

/// The detail recorded for a recovery flown without the event stream.
pub open spec fn positions_only_detail() -> Seq<char> {
    "positions_only"@
}

/// Whether the summary confirms the outcome: a wire trap needs accepted outcome evidence, a
/// bolter or touch-and-go is always confirmed, a waveoff needs a DCS waveoff comment, and an
/// unknown outcome, an approach only or a trap without a DCS wire never is.
pub open spec fn spec_outcome_confirmed(c: EventCorrelator, grading: Grading) -> bool {
    match grading {
        Grading::Recovered { cable: Some(_), .. } => c.outcome_evidence_seen,
        Grading::Bolter | Grading::TouchAndGo { .. } => true,
        Grading::WaveoffUnknown => c.dcs_waveoff_evidence_seen,
        _ => false,
    }
}

/// Options of strings by their views.
pub open spec fn opt_view(o: Option<String>) -> Option<Seq<char>> {
    match o {
        Some(s) => Some(s@),
        None => None,
    }
}

fn clone_detail(d: &Option<String>) -> (r: Option<String>)
    ensures
        opt_view(r) == opt_view(*d),
{
    match d {
        Some(s) => Some(s.clone()),
        None => None,
    }
}

impl EventCorrelator {
    /// A correlator for a pair whose event stream is available.
    pub fn new(plane_id: u32, carrier_id: u32) -> (c: EventCorrelator)
        ensures
            c.plane_id == plane_id,
            c.carrier_id == carrier_id,
            c.stream_status == EventStreamStatus::Available,
            c.stream_detail is None,
            !c.outcome_evidence_seen,
            !c.dcs_waveoff_evidence_seen,
            c.unavailability_count == 0,
            c.reconnection_count == 0,
    {
        EventCorrelator {
            plane_id,
            carrier_id,
            stream_status: EventStreamStatus::Available,
            stream_detail: None,
            outcome_evidence_seen: false,
            dcs_waveoff_evidence_seen: false,
            unavailability_count: 0,
            reconnection_count: 0,
        }
    }

    /// A correlator for a recovery recorded from positions only, without events.
    pub fn disabled(plane_id: u32, carrier_id: u32) -> (c: EventCorrelator)
        ensures
            c.plane_id == plane_id,
            c.carrier_id == carrier_id,
            c.stream_status == EventStreamStatus::Disabled,
            opt_view(c.stream_detail) == Some(positions_only_detail()),
            !c.outcome_evidence_seen,
            !c.dcs_waveoff_evidence_seen,
            c.unavailability_count == 0,
            c.reconnection_count == 0,
    {
        EventCorrelator {
            plane_id,
            carrier_id,
            stream_status: EventStreamStatus::Disabled,
            stream_detail: Some(String::from_str("positions_only")),
            outcome_evidence_seen: false,
            dcs_waveoff_evidence_seen: false,
            unavailability_count: 0,
            reconnection_count: 0,
        }
    }

    /// Whether an event's initiator and place are exactly the tracked aircraft and carrier.
    pub fn accepts_pair(&self, plane_id: u32, carrier_id: u32) -> (b: bool)
        ensures
            b == (plane_id == self.plane_id && carrier_id == self.carrier_id),
    {
        plane_id == self.plane_id && carrier_id == self.carrier_id
    }

    /// Whether a unit is the tracked aircraft or carrier.
    pub fn is_tracked_unit(&self, unit_id: u32) -> (b: bool)
        ensures
            b == (unit_id == self.plane_id || unit_id == self.carrier_id),
    {
        unit_id == self.plane_id || unit_id == self.carrier_id
    }

    /// Records a landing quality mark: `accepted` says whether the recording kept its comment
    /// (only the first matching one is), `waveoff_evidence` whether the kept comment is a DCS
    /// waveoff. Returns the note for the event record.
    pub fn landing_quality_mark(&mut self, accepted: bool, waveoff_evidence: bool) -> (note: &'static str)
        ensures
            final(self).outcome_evidence_seen == (old(self).outcome_evidence_seen || accepted),
            final(self).dcs_waveoff_evidence_seen == (old(self).dcs_waveoff_evidence_seen || (
            accepted && waveoff_evidence)),
            final(self).plane_id == old(self).plane_id,
            final(self).carrier_id == old(self).carrier_id,
            final(self).stream_status == old(self).stream_status,
            final(self).stream_detail == old(self).stream_detail,
            final(self).unavailability_count == old(self).unavailability_count,
            final(self).reconnection_count == old(self).reconnection_count,
            note@ == if accepted {
                "first_matching_event"@
            } else {
                "duplicate_ignored"@
            },
    {
        self.outcome_evidence_seen = self.outcome_evidence_seen || accepted;
        self.dcs_waveoff_evidence_seen = self.dcs_waveoff_evidence_seen || (accepted
            && waveoff_evidence);
        if accepted {
            "first_matching_event"
        } else {
            "duplicate_ignored"
        }
    }

    /// Records a touchdown event from the transforms the event carried for the carrier and
    /// the aircraft. `accepted` says whether the recording accepted the touchdown geometry; it
    /// only counts when both transforms are there. Returns the correlation and the note for
    /// the event record.
    pub fn touchdown<T>(&mut self, carrier: Option<T>, plane: Option<T>, accepted: bool) -> (r: (TouchdownCorrelation<T>, &'static str))
        ensures
            r.0.carrier == carrier,
            r.0.plane == plane,
            r.0.accepted == (carrier is Some && plane is Some && accepted),
            r.1@ == if !(carrier is Some && plane is Some) {
                "missing_transform_evidence"@
            } else if accepted {
                "ids_and_geometry_correlated"@
            } else {
                "duplicate_or_geometry_rejected"@
            },
            final(self).outcome_evidence_seen == (old(self).outcome_evidence_seen || r.0.accepted),
            final(self).dcs_waveoff_evidence_seen == old(self).dcs_waveoff_evidence_seen,
            final(self).plane_id == old(self).plane_id,
            final(self).carrier_id == old(self).carrier_id,
            final(self).stream_status == old(self).stream_status,
            final(self).stream_detail == old(self).stream_detail,
            final(self).unavailability_count == old(self).unavailability_count,
            final(self).reconnection_count == old(self).reconnection_count,
    {
        if carrier.is_none() || plane.is_none() {
            return (TouchdownCorrelation { carrier, plane, accepted: false }, "missing_transform_evidence");
        }
        self.outcome_evidence_seen = self.outcome_evidence_seen || accepted;
        let note = if accepted {
            "ids_and_geometry_correlated"
        } else {
            "duplicate_or_geometry_rejected"
        };
        (TouchdownCorrelation { carrier, plane, accepted }, note)
    }

    /// Marks the event stream unavailable. Only an available stream changes; the returned
    /// detail is what the recording must be told, `None` when nothing changed.
    pub fn stream_unavailable(&mut self, detail: String) -> (r: Option<String>)
        ensures
            old(self).stream_status != EventStreamStatus::Available ==> r is None
                && final(self).stream_status == old(self).stream_status
                && final(self).stream_detail == old(self).stream_detail
                && final(self).unavailability_count == old(self).unavailability_count,
            old(self).stream_status == EventStreamStatus::Available ==> opt_view(r) == Some(detail@)
                && final(self).stream_status == EventStreamStatus::Unavailable
                && opt_view(final(self).stream_detail) == Some(detail@)
                && final(self).unavailability_count == if old(self).unavailability_count == u32::MAX {
                u32::MAX
            } else {
                (old(self).unavailability_count + 1) as u32
            },
            final(self).plane_id == old(self).plane_id,
            final(self).carrier_id == old(self).carrier_id,
            final(self).outcome_evidence_seen == old(self).outcome_evidence_seen,
            final(self).dcs_waveoff_evidence_seen == old(self).dcs_waveoff_evidence_seen,
            final(self).reconnection_count == old(self).reconnection_count,
    {
        if self.stream_status != EventStreamStatus::Available {
            return None;
        }
        self.stream_status = EventStreamStatus::Unavailable;
        self.stream_detail = Some(detail.clone());
        self.unavailability_count = self.unavailability_count.saturating_add(1);
        Some(detail)
    }

    /// Marks the event stream available again after an outage. Only an unavailable stream
    /// changes; returns whether a reconnection must be recorded.
    pub fn stream_available(&mut self) -> (reconnected: bool)
        ensures
            reconnected == (old(self).stream_status == EventStreamStatus::Unavailable),
            !reconnected ==> final(self).stream_status == old(self).stream_status
                && final(self).stream_detail == old(self).stream_detail
                && final(self).reconnection_count == old(self).reconnection_count,
            reconnected ==> final(self).stream_status == EventStreamStatus::Available
                && final(self).stream_detail is None
                && final(self).reconnection_count == if old(self).reconnection_count == u32::MAX {
                u32::MAX
            } else {
                (old(self).reconnection_count + 1) as u32
            },
            final(self).plane_id == old(self).plane_id,
            final(self).carrier_id == old(self).carrier_id,
            final(self).outcome_evidence_seen == old(self).outcome_evidence_seen,
            final(self).dcs_waveoff_evidence_seen == old(self).dcs_waveoff_evidence_seen,
            final(self).unavailability_count == old(self).unavailability_count,
    {
        if self.stream_status != EventStreamStatus::Unavailable {
            return false;
        }
        self.stream_status = EventStreamStatus::Available;
        self.stream_detail = None;
        self.reconnection_count = self.reconnection_count.saturating_add(1);
        true
    }

    /// The event diagnostics of the recovery, given its final grading.
    pub fn summary(&self, grading: &Grading) -> (s: EventCorrelationSummary)
        ensures
            s.stream_status == self.stream_status,
            opt_view(s.detail) == opt_view(self.stream_detail),
            s.outcome_evidence_seen_before_unavailability == self.outcome_evidence_seen,
            s.outcome_confirmed == spec_outcome_confirmed(*self, *grading),
            s.unavailability_count == self.unavailability_count,
            s.reconnection_count == self.reconnection_count,
    {
        let outcome_confirmed = match grading {
            Grading::Recovered { cable: Some(_), .. } => self.outcome_evidence_seen,
            Grading::Bolter | Grading::TouchAndGo { .. } => true,
            Grading::WaveoffUnknown => self.dcs_waveoff_evidence_seen,
            _ => false,
        };
        EventCorrelationSummary {
            stream_status: self.stream_status,
            detail: clone_detail(&self.stream_detail),
            outcome_evidence_seen_before_unavailability: self.outcome_evidence_seen,
            outcome_confirmed,
            unavailability_count: self.unavailability_count,
            reconnection_count: self.reconnection_count,
        }
    }
}

/// An outage followed by a reconnection returns an available stream to available, counts one
/// unavailability and one reconnection (below saturation), and keeps all outcome evidence.
pub proof fn lemma_outage_then_reconnection(before: EventCorrelator, down: EventCorrelator, up: EventCorrelator)
    requires
        before.stream_status == EventStreamStatus::Available,
        before.unavailability_count < u32::MAX,
        before.reconnection_count < u32::MAX,
        // `down` is `before` after `stream_unavailable`
        down.stream_status == EventStreamStatus::Unavailable,
        down.unavailability_count == before.unavailability_count + 1,
        down.reconnection_count == before.reconnection_count,
        down.outcome_evidence_seen == before.outcome_evidence_seen,
        down.dcs_waveoff_evidence_seen == before.dcs_waveoff_evidence_seen,
        // `up` is `down` after `stream_available`
        up.stream_status == EventStreamStatus::Available,
        up.stream_detail is None,
        up.reconnection_count == down.reconnection_count + 1,
        up.unavailability_count == down.unavailability_count,
        up.outcome_evidence_seen == down.outcome_evidence_seen,
        up.dcs_waveoff_evidence_seen == down.dcs_waveoff_evidence_seen,
    ensures
        up.stream_status == before.stream_status,
        up.unavailability_count == before.unavailability_count + 1,
        up.reconnection_count == before.reconnection_count + 1,
        forall|g: Grading| spec_outcome_confirmed(up, g) == spec_outcome_confirmed(before, g),
{
}

} // verus!
