//! The decisions of the relay manager: which modes to run, how large a fetch
//! step is, and how continuous fetching steps back through time. The relay
//! connections live in the program.

use vstd::prelude::*;

use crate::cli::{CliError, Duration, FetchMode};

verus! {

/// What to run for the stream flag and the fetch mode.
#[derive(Clone, Copy, Debug, PartialEq, Eq, Structural)]
pub enum RunPlan {
    /// Stream live events only.
    StreamOnly,
    /// Run the fetch mode only (which may be no fetch at all).
    FetchOnly,
    /// Stream, and run the fetch mode alongside.
    StreamAndFetch,
}

/// Streaming alone when no fetch mode is chosen, the fetch mode alone without
/// streaming, and both otherwise.
pub fn plan_run(has_stream: bool, mode: &FetchMode) -> (r: RunPlan)
    ensures
        has_stream && mode is NoFetch ==> r == RunPlan::StreamOnly,
        !has_stream ==> r == RunPlan::FetchOnly,
        has_stream && !(mode is NoFetch) ==> r == RunPlan::StreamAndFetch,
{
    if !has_stream {
        RunPlan::FetchOnly
    } else {
        match mode {
            FetchMode::NoFetch => RunPlan::StreamOnly,
            _ => RunPlan::StreamAndFetch,
        }
    }
}

/// Continuous fetching needs a step.
pub fn check_continuous_step(step: &Option<String>) -> (r: Result<(), CliError>)
    ensures
        step is Some <==> r is Ok,
        r is Err ==> r matches Err(CliError::ContinuousRequiresStep),
{
    if step.is_some() {
        Ok(())
    } else {
        Err(CliError::ContinuousRequiresStep)
    }
}

/// The step of chunked fetching in seconds: the duration, but never less than
/// a minute.
pub fn effective_step_seconds(step: &Duration) -> (r: u64)
    ensures
        r == (if step.seconds > 60 { step.seconds as int } else { 60 }),
{
    if step.seconds > 60 {
        step.seconds as u64
    } else {
        60
    }
}

/// Continuous fetching stops once it reaches back before 2021-01-01.
pub const EARLIEST_CONTINUOUS: u64 = 1609459200;

/// One step back of continuous fetching from `current_end`: the start of the
/// window (never before the epoch) and whether fetching stops after it.
pub fn continuous_window(current_end: u64, step: u64) -> (r: (u64, bool))
    ensures
        r.0 == (if current_end >= step { current_end - step } else { 0 }),
        r.1 == (r.0 < EARLIEST_CONTINUOUS),
{
    let start = if current_end >= step { current_end - step } else { 0 };
    (start, start < EARLIEST_CONTINUOUS)
}

} // verus!
