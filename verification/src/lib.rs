//! Verified core of an LSO (Landing Signal Officer) assistant for DCS carrier recoveries: the
//! notation decoder, the grading rules, telemetry alignment and buffered-read accounting, the
//! recovery outcome, report and recording decisions, event correlation and the event journal,
//! publication claims, pilot identity, runtime metrics and the build-time helpers.
use vstd::prelude::*;

pub mod build_support;
pub mod candidates;
pub mod collector;
pub mod correlator;
pub mod data;
pub mod decimal;
pub mod grading;
pub mod hub;
pub mod metrics;
pub mod notation;
pub mod offline;
pub mod outcome;
pub mod ownship;
pub mod pipeline;
pub mod recording;
pub mod report;
pub mod telemetry;
pub mod text;

verus! {

} // verus!
