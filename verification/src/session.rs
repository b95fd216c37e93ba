//! The command entry point the UI talks to.
//!
//! Every device operation arrives as one [`DeviceCommand`]; it is validated
//! here, once, for both backends, and turned into a [`CommandPlan`]: either
//! a backend call for the host to make, or an answer that needs no device.
//! Errors reach the UI as a [`UiError`], a message plus a kind tag.

use crate::device::command::{spec_validation_failure, CommandOutcome, DeviceCommand};
use crate::device::state::{EqSettings, NoiseControlMode};
use crate::device::{spec_error_kind, spec_error_message, DeviceError, DeviceResult};
use crate::text::owned;
use vstd::prelude::*;

verus! {

/// An error as handed to the frontend.
#[derive(Debug, Clone, PartialEq, Eq)]
pub struct UiError {
    pub message: String,
    pub kind: String,
}

impl UiError {
    /// The UI form of a device error: its message and its kind tag.
    pub fn from_error(e: &DeviceError) -> (r: Self)
        ensures
            r.message@ == spec_error_message(*e),
            r.kind@ == spec_error_kind(*e),
    {
        let kind = owned(e.kind());
        UiError { message: e.message(), kind }
    }
}

/// What to do for a validated command.
#[derive(Debug, Clone, PartialEq, Eq)]
pub enum CommandPlan {
    /// Call the backend's `connect`.
    Connect,
    /// Call the backend's `disconnect`.
    Disconnect,
    /// Call `disconnect`, ignore its result, then call `connect`.
    Reconnect,
    /// Call the backend's `set_noise_control`.
    SetNoiseControl(NoiseControlMode),
    /// Call the backend's `set_equalizer`.
    SetEqualizer(EqSettings),
    /// Answer with this outcome; no device call is needed.
    Respond(CommandOutcome),
}

/// Reason given for the continuous noise-control level.
pub open spec fn level_unsupported() -> Seq<char> {
    "Continuous noise-control level requires a verified vendor protocol."@
}

/// Reason given for Windows audio and media transport commands.
pub open spec fn audio_not_wired() -> Seq<char> {
    "Windows audio integration is not wired up yet."@
}

/// The plan for a command that passed validation.
pub open spec fn spec_plan(c: DeviceCommand, p: CommandPlan) -> bool {
    match c {
        DeviceCommand::Connect => p == CommandPlan::Connect,
        DeviceCommand::Disconnect => p == CommandPlan::Disconnect,
        DeviceCommand::Reconnect => p == CommandPlan::Reconnect,
        DeviceCommand::SetNoiseControl { mode } => p == CommandPlan::SetNoiseControl(mode),
        DeviceCommand::SetEqualizer { settings } => p == CommandPlan::SetEqualizer(settings),
        DeviceCommand::RefreshSnapshot
        | DeviceCommand::ReadBattery
        | DeviceCommand::ReadNoiseControl
        | DeviceCommand::ReadEqualizer
        | DeviceCommand::ReadDeviceInfo => p matches CommandPlan::Respond(o) && o is Applied,
        DeviceCommand::SetNoiseControlLevel { .. } => p matches CommandPlan::Respond(
            CommandOutcome::Unsupported { reason },
        ) && reason@ == level_unsupported(),
        DeviceCommand::SetSystemVolume { .. }
        | DeviceCommand::SetSystemMute { .. }
        | DeviceCommand::MediaPlayPause
        | DeviceCommand::MediaNext
        | DeviceCommand::MediaPrevious => p matches CommandPlan::Respond(
            CommandOutcome::Unsupported { reason },
        ) && reason@ == audio_not_wired(),
    }
}

/// Validates a command and decides what it takes. A command with a
/// parameter out of range is refused with `InvalidInput` before any backend
/// sees it.
pub fn plan_command(command: &DeviceCommand) -> (r: DeviceResult<CommandPlan>)
    ensures
        match spec_validation_failure(*command) {
            Some(m) => r matches Err(DeviceError::InvalidInput(s)) && s@ == m,
            None => r matches Ok(p) && spec_plan(*command, p),
        },
{
    command.validate()?;
    let plan = match command {
        DeviceCommand::Connect => CommandPlan::Connect,
        DeviceCommand::Disconnect => CommandPlan::Disconnect,
        DeviceCommand::Reconnect => CommandPlan::Reconnect,
        DeviceCommand::SetNoiseControl { mode } => CommandPlan::SetNoiseControl(*mode),
        DeviceCommand::SetEqualizer { settings } => CommandPlan::SetEqualizer(*settings),
        DeviceCommand::RefreshSnapshot
        | DeviceCommand::ReadBattery
        | DeviceCommand::ReadNoiseControl
        | DeviceCommand::ReadEqualizer
        | DeviceCommand::ReadDeviceInfo => CommandPlan::Respond(CommandOutcome::applied()),
        DeviceCommand::SetNoiseControlLevel { .. } => CommandPlan::Respond(
            CommandOutcome::unsupported(
                "Continuous noise-control level requires a verified vendor protocol.",
            ),
        ),
        DeviceCommand::SetSystemVolume { .. }
        | DeviceCommand::SetSystemMute { .. }
        | DeviceCommand::MediaPlayPause
        | DeviceCommand::MediaNext
        | DeviceCommand::MediaPrevious => CommandPlan::Respond(
            CommandOutcome::unsupported("Windows audio integration is not wired up yet."),
        ),
    };
    Ok(plan)
}

/// What reaches a backend has passed validation: an EQ change is always in
/// range, and reads never reach a backend at all (they are answered as
/// applied).
pub proof fn law_backends_see_only_valid_commands(c: DeviceCommand, p: CommandPlan)
    requires
        spec_validation_failure(c) is None,
        spec_plan(c, p),
    ensures
        p matches CommandPlan::SetEqualizer(s) ==> crate::device::state::eq_in_range(s),
        !crate::device::command::spec_is_mutating(c) ==> (p matches CommandPlan::Respond(o) && o is Applied),
{
}

} // verus!
