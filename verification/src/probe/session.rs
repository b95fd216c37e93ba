//! The probe's read loops, as decisions: given what the channel returned,
//! what is known and whether to keep reading. Deadlines and the channel
//! itself belong to the program driving the loop.

use super::channel::{needs_change, spec_judge_change, ChangeVerdict, ChannelError, RecvOutcome};
use super::frames::{find_reported_mode, reports_mode, spec_mode_index, NoiseMode};
use vstd::prelude::*;

verus! {

/// One step of waiting for the device's mode report: the first report
/// seen is kept; reading stops once the channel is quiet after a report,
/// or when it closes or fails.
pub fn query_step(found: Option<u8>, outcome: &Result<RecvOutcome, ChannelError>) -> (r: (
    Option<u8>,
    bool,
))
    ensures
        match outcome {
            Ok(RecvOutcome::Data(bytes)) => !r.1 && match found {
                Some(m) => r.0 == Some(m),
                None => reports_mode(bytes@, r.0),
            },
            Ok(RecvOutcome::Idle) => r.0 == found && r.1 == found.is_some(),
            Ok(RecvOutcome::Closed) => r.0 == found && r.1,
            Err(_) => r.0 == found && r.1,
        },
{
    match outcome {
        Ok(RecvOutcome::Data(bytes)) => {
            if found.is_none() {
                (find_reported_mode(bytes.as_slice()), false)
            } else {
                (found, false)
            }
        },
        Ok(RecvOutcome::Idle) => (found, found.is_some()),
        Ok(RecvOutcome::Closed) => (found, true),
        Err(_) => (found, true),
    }
}

/// One step of draining whatever arrives: keep reading until the channel
/// closes or fails.
pub fn drain_step(outcome: &Result<RecvOutcome, ChannelError>) -> (stop: bool)
    ensures
        stop == match outcome {
            Ok(RecvOutcome::Data(_)) | Ok(RecvOutcome::Idle) => false,
            _ => true,
        },
{
    match outcome {
        Ok(RecvOutcome::Data(_)) => false,
        Ok(RecvOutcome::Idle) => false,
        Ok(RecvOutcome::Closed) => true,
        Err(_) => true,
    }
}

/// What the probe does once it has asked the device for its mode.
#[derive(Debug, Clone, Copy, PartialEq, Eq, Structural)]
pub enum ProbeStep {
    /// The device reported no mode and `--force` was not given: stop
    /// without sending, since no result could be verified.
    StopWithoutBaseline,
    /// No mode was asked for: a read-only run, nothing is sent.
    ReadOnly,
    /// The device already reports the requested mode: nothing is sent.
    AlreadyInMode,
    /// Send the change to this mode, then read back.
    Send(NoiseMode),
}

/// The decision after the first read-back: no baseline stops the run unless
/// forced, a run without a requested mode only reads, and a change already
/// in effect is not sent again.
pub open spec fn spec_probe_step(before: Option<u8>, force: bool, requested: Option<NoiseMode>) -> ProbeStep {
    if before is None && !force {
        ProbeStep::StopWithoutBaseline
    } else {
        match requested {
            None => ProbeStep::ReadOnly,
            Some(m) => if before == Some(spec_mode_index(m)) {
                ProbeStep::AlreadyInMode
            } else {
                ProbeStep::Send(m)
            },
        }
    }
}

pub fn probe_step(before: Option<u8>, force: bool, requested: Option<NoiseMode>) -> (r: ProbeStep)
    ensures
        r == spec_probe_step(before, force, requested),
{
    if before.is_none() && !force {
        return ProbeStep::StopWithoutBaseline;
    }
    match requested {
        None => ProbeStep::ReadOnly,
        Some(m) => if needs_change(before, m) {
            ProbeStep::Send(m)
        } else {
            ProbeStep::AlreadyInMode
        },
    }
}

/// Exit status of the probe after a mode change, by verdict.
pub open spec fn spec_verdict_status(v: ChangeVerdict) -> i32 {
    match v {
        ChangeVerdict::Unverifiable => 5,
        ChangeVerdict::Mismatch => 7,
        ChangeVerdict::Unchanged => 6,
        ChangeVerdict::Verified => 0,
        ChangeVerdict::NoBaseline => 8,
    }
}

pub fn verdict_status(v: ChangeVerdict) -> (r: i32)
    ensures
        r == spec_verdict_status(v),
{
    match v {
        ChangeVerdict::Unverifiable => 5,
        ChangeVerdict::Mismatch => 7,
        ChangeVerdict::Unchanged => 6,
        ChangeVerdict::Verified => 0,
        ChangeVerdict::NoBaseline => 8,
    }
}

/// Nothing is sent without a baseline unless forced, and a forced change
/// without a baseline is never reported verified.
pub proof fn law_no_blind_success(
    before: Option<u8>,
    after: Option<u8>,
    force: bool,
    requested: Option<NoiseMode>,
    target: NoiseMode,
)
    ensures
        spec_probe_step(before, force, requested) is Send ==> (before is Some || force),
        before is None ==> spec_judge_change(before, after, target) != ChangeVerdict::Verified,
{
}

} // verus!
