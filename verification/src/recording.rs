//! Decisions of the recording loop of one recovery attempt: what to do with a session event,
//! with a failed position poll, and when to stop.
use vstd::prelude::*;
use crate::correlator::EventCorrelator;
use crate::outcome::{Grading, HookSamplingMode, RecoveryTelemetryMode};
use crate::ownship::GrpcCode;

verus! {

/// The session events a recording reacts to, reduced to the unit identities they name.
#[derive(Debug, Clone, Copy, PartialEq, Eq)]
pub enum SessionEventKind {
    /// A DCS landing quality mark for an aircraft at a carrier.
    LandingQualityMark { plane_id: u32, carrier_id: u32 },
    /// A landing of an aircraft on a carrier.
    Land { plane_id: u32, carrier_id: u32 },
    /// A runway (deck) touch of an aircraft on a carrier.
    RunwayTouch { plane_id: u32, carrier_id: u32 },
    /// A unit crashed, died, was lost or its player left it.
    UnitGone { unit_id: u32 },
    /// Anything else.
    Other,
}

/// What the recording does with an event.
#[derive(Debug, Clone, Copy, PartialEq, Eq, Structural)]
pub enum EventAction {
    RecordLandingQualityMark,
    CorrelateTouchdown,
    StopRecording,
    Ignore,
}

/// The action for an event during the recording: marks and touchdowns of the tracked pair are
/// recorded, the loss of a tracked unit ends the recording, everything else is ignored.
pub open spec fn spec_event_action(c: EventCorrelator, event: SessionEventKind, live: bool) -> EventAction {
    match event {
        SessionEventKind::LandingQualityMark { plane_id, carrier_id } => if plane_id == c.plane_id
            && carrier_id == c.carrier_id {
            EventAction::RecordLandingQualityMark
        } else {
            EventAction::Ignore
        },
        SessionEventKind::Land { plane_id, carrier_id }
        | SessionEventKind::RunwayTouch { plane_id, carrier_id } => if plane_id == c.plane_id
            && carrier_id == c.carrier_id {
            EventAction::CorrelateTouchdown
        } else {
            EventAction::Ignore
        },
        SessionEventKind::UnitGone { unit_id } => if live && (unit_id == c.plane_id || unit_id
            == c.carrier_id) {
            EventAction::StopRecording
        } else {
            EventAction::Ignore
        },
        SessionEventKind::Other => EventAction::Ignore,
    }
}

/// The action for an event received while the attempt is being recorded.
pub fn recording_event_action(correlator: &EventCorrelator, event: SessionEventKind) -> (a: EventAction)
    ensures
        a == spec_event_action(*correlator, event, true),
{
    match event {
        SessionEventKind::LandingQualityMark { plane_id, carrier_id } => if correlator.accepts_pair(
            plane_id,
            carrier_id,
        ) {
            EventAction::RecordLandingQualityMark
        } else {
            EventAction::Ignore
        },
        SessionEventKind::Land { plane_id, carrier_id }
        | SessionEventKind::RunwayTouch { plane_id, carrier_id } => if correlator.accepts_pair(
            plane_id,
            carrier_id,
        ) {
            EventAction::CorrelateTouchdown
        } else {
            EventAction::Ignore
        },
        SessionEventKind::UnitGone { unit_id } => if correlator.is_tracked_unit(unit_id) {
            EventAction::StopRecording
        } else {
            EventAction::Ignore
        },
        SessionEventKind::Other => EventAction::Ignore,
    }
}

/// The action for an event journaled before the attempt was recorded, replayed late: marks and
/// touchdowns of the tracked pair still count; nothing stops a recording that already ended.
pub fn late_event_action(correlator: &EventCorrelator, event: SessionEventKind) -> (a: EventAction)
    ensures
        a == spec_event_action(*correlator, event, false),
{
    match event {
        SessionEventKind::UnitGone { .. } => EventAction::Ignore,
        _ => recording_event_action(correlator, event),
    }
}

/// What the recording does after a failed position poll.
#[derive(Debug, Clone, Copy, PartialEq, Eq, Structural)]
pub enum PollFailureAction {
    /// A unit no longer exists: stop tracking.
    StopUnitGone,
    /// No telemetry for longer than the watchdog: mark the gap and stop.
    StopTelemetryGap,
    /// Reset the collector and try again on the next tick.
    Retry,
}

/// The action after a poll failed with `code`, given whether telemetry has been silent for at
/// least the watchdog period.
pub fn poll_failure_action(code: GrpcCode, watchdog_expired: bool) -> (a: PollFailureAction)
    ensures
        a == if code == GrpcCode::NotFound {
            PollFailureAction::StopUnitGone
        } else if watchdog_expired {
            PollFailureAction::StopTelemetryGap
        } else {
            PollFailureAction::Retry
        },
{
    if code == GrpcCode::NotFound {
        PollFailureAction::StopUnitGone
    } else if watchdog_expired {
        PollFailureAction::StopTelemetryGap
    } else {
        PollFailureAction::Retry
    }
}

/// Whether a tick ends the recording after its samples: the post-touchdown window elapsed, or
/// the tick brought no sample while telemetry has been silent for the watchdog period.
pub fn tick_ends_recording(touchdown_window_elapsed: bool, sample_count: usize, watchdog_expired: bool) -> (b: bool)
    ensures
        b == (touchdown_window_elapsed || (sample_count == 0 && watchdog_expired)),
{
    touchdown_window_elapsed || (sample_count == 0 && watchdog_expired)
}

/// Which hook sampler a recording runs, if any: none for a V/STOL carrier or an aircraft
/// without a validated hook draw argument; otherwise the configured mode on that argument.
pub fn hook_sampling_plan(is_vstol: bool, mode: HookSamplingMode, hook_argument_id: Option<u32>) -> (r: Option<(HookSamplingMode, u32)>)
    ensures
        r == if is_vstol {
            None
        } else {
            match hook_argument_id {
                Some(a) => Some((mode, a)),
                None => None,
            }
        },
{
    if is_vstol {
        return None;
    }
    match hook_argument_id {
        Some(a) => Some((mode, a)),
        None => None,
    }
}

/// Whether a finished recording is discarded without any report: when no recognisable outcome
/// was established (the aircraft flew through the zone without ever entering the groove).
pub fn discards_recording(grading: &Grading) -> (b: bool)
    ensures
        b == (*grading is Unknown),
{
    match grading {
        Grading::Unknown => true,
        _ => false,
    }
}

/// Whether a failed recording ends the whole generation, given the gRPC code of its error
/// (`None` for an error of another kind): only when forced atomic recovery telemetry is not
/// implemented by the server, since every later recovery would fail the same way. Any other
/// failure stays local to its recovery.
pub fn recording_failure_is_fatal(code: Option<GrpcCode>, mode: RecoveryTelemetryMode) -> (b: bool)
    ensures
        b == (code == Some(GrpcCode::Unimplemented) && mode == RecoveryTelemetryMode::Atomic),
{
    match (code, mode) {
        (Some(GrpcCode::Unimplemented), RecoveryTelemetryMode::Atomic) => true,
        _ => false,
    }
}

/// A recording ignores every event of another pair, and only the loss of one of its own units
/// stops it.
pub proof fn lemma_foreign_events_never_act(c: EventCorrelator, event: SessionEventKind, live: bool)
    ensures
        match event {
            SessionEventKind::LandingQualityMark { plane_id, carrier_id }
            | SessionEventKind::Land { plane_id, carrier_id }
            | SessionEventKind::RunwayTouch { plane_id, carrier_id } => (plane_id != c.plane_id
                || carrier_id != c.carrier_id) ==> spec_event_action(c, event, live)
                == EventAction::Ignore,
            SessionEventKind::UnitGone { unit_id } => unit_id != c.plane_id && unit_id
                != c.carrier_id ==> spec_event_action(c, event, live) == EventAction::Ignore,
            SessionEventKind::Other => spec_event_action(c, event, live) == EventAction::Ignore,
        },
        spec_event_action(c, event, live) == EventAction::StopRecording ==> live,
{
}

} // verus!
