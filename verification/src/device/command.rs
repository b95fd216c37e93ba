//! The typed command layer.
//!
//! This is the only way the frontend can cause anything to happen to the
//! hardware. No variant carries a UUID, a byte array, or a raw payload, and
//! every command is validated here before any backend sees it.

use super::state::{eq_in_range, EqSettings, NoiseControlMode};
use super::{DeviceError, DeviceResult};
use crate::text::{decimal, push_decimal, push_signed_decimal, push_str, signed_decimal};
use vstd::prelude::*;

verus! {

/// The complete allowlist of operations the UI may request.
#[derive(Debug, Clone, Copy, PartialEq, Eq, Structural)]
pub enum DeviceCommand {
    // Reads
    RefreshSnapshot,
    ReadBattery,
    ReadNoiseControl,
    ReadEqualizer,
    ReadDeviceInfo,
    // Connection
    Connect,
    Disconnect,
    Reconnect,
    // Windows audio (system-side, not device-internal)
    SetSystemVolume { percent: u8 },
    SetSystemMute { muted: bool },
    // Media transport
    MediaPlayPause,
    MediaNext,
    MediaPrevious,
    // Device-internal features
    SetNoiseControl { mode: NoiseControlMode },
    SetNoiseControlLevel { level: u8 },
    SetEqualizer { settings: EqSettings },
}

/// The message of the `InvalidInput` error a command is refused with, or
/// `None` when its parameters are in range.
pub open spec fn spec_validation_failure(c: DeviceCommand) -> Option<Seq<char>> {
    match c {
        DeviceCommand::SetSystemVolume { percent } => if percent > 100 {
            Some("volume must be 0-100, got "@ + decimal(percent as nat))
        } else {
            None
        },
        DeviceCommand::SetNoiseControlLevel { level } => if level > 10 {
            Some("noise control level must be 0-10, got "@ + decimal(level as nat))
        } else {
            None
        },
        DeviceCommand::SetEqualizer { settings } => if !eq_in_range(settings) {
            Some(
                "EQ gains must be within "@ + signed_decimal(-10) + "..="@ + signed_decimal(10)
                    + " dB, got bass="@ + signed_decimal(settings.bass as int) + " mid="@
                    + signed_decimal(settings.mid as int) + " treble="@ + signed_decimal(
                    settings.treble as int,
                ),
            )
        } else {
            None
        },
        _ => None,
    }
}

/// Whether a command changes device or system state.
pub open spec fn spec_is_mutating(c: DeviceCommand) -> bool {
    !(c is RefreshSnapshot || c is ReadBattery || c is ReadNoiseControl || c is ReadEqualizer
        || c is ReadDeviceInfo)
}

pub open spec fn spec_command_name(c: DeviceCommand) -> Seq<char> {
    match c {
        DeviceCommand::RefreshSnapshot => "refresh_snapshot"@,
        DeviceCommand::ReadBattery => "read_battery"@,
        DeviceCommand::ReadNoiseControl => "read_noise_control"@,
        DeviceCommand::ReadEqualizer => "read_equalizer"@,
        DeviceCommand::ReadDeviceInfo => "read_device_info"@,
        DeviceCommand::Connect => "connect"@,
        DeviceCommand::Disconnect => "disconnect"@,
        DeviceCommand::Reconnect => "reconnect"@,
        DeviceCommand::SetSystemVolume { .. } => "set_system_volume"@,
        DeviceCommand::SetSystemMute { .. } => "set_system_mute"@,
        DeviceCommand::MediaPlayPause => "media_play_pause"@,
        DeviceCommand::MediaNext => "media_next"@,
        DeviceCommand::MediaPrevious => "media_previous"@,
        DeviceCommand::SetNoiseControl { .. } => "set_noise_control"@,
        DeviceCommand::SetNoiseControlLevel { .. } => "set_noise_control_level"@,
        DeviceCommand::SetEqualizer { .. } => "set_equalizer"@,
    }
}

impl DeviceCommand {
    /// Validates the command's parameters.
    pub fn validate(&self) -> (r: DeviceResult<()>)
        ensures
            match spec_validation_failure(*self) {
                None => r is Ok,
                Some(m) => r matches Err(DeviceError::InvalidInput(s)) && s@ == m,
            },
    {
        match self {
            DeviceCommand::SetSystemVolume { percent } => {
                if *percent > 100 {
                    let mut m = String::new();
                    push_str(&mut m, "volume must be 0-100, got ");
                    push_decimal(&mut m, *percent as u128);
                    return Err(DeviceError::InvalidInput(m));
                }
            },
            DeviceCommand::SetNoiseControlLevel { level } => {
                if *level > 10 {
                    let mut m = String::new();
                    push_str(&mut m, "noise control level must be 0-10, got ");
                    push_decimal(&mut m, *level as u128);
                    return Err(DeviceError::InvalidInput(m));
                }
            },
            DeviceCommand::SetEqualizer { settings } => {
                if !settings.is_within_range() {
                    let mut m = String::new();
                    push_str(&mut m, "EQ gains must be within ");
                    push_signed_decimal(&mut m, EqSettings::MIN_DB as i64);
                    push_str(&mut m, "..=");
                    push_signed_decimal(&mut m, EqSettings::MAX_DB as i64);
                    push_str(&mut m, " dB, got bass=");
                    push_signed_decimal(&mut m, settings.bass as i64);
                    push_str(&mut m, " mid=");
                    push_signed_decimal(&mut m, settings.mid as i64);
                    push_str(&mut m, " treble=");
                    push_signed_decimal(&mut m, settings.treble as i64);
                    assert(m@ =~= spec_validation_failure(*self)->0);
                    return Err(DeviceError::InvalidInput(m));
                }
            },
            _ => {},
        }
        Ok(())
    }

    /// Whether this command changes device or system state.
    pub fn is_mutating(&self) -> (r: bool)
        ensures
            r == spec_is_mutating(*self),
    {
        matches!(
            self,
            DeviceCommand::SetSystemVolume { .. } | DeviceCommand::SetSystemMute { .. }
                | DeviceCommand::SetNoiseControl { .. } | DeviceCommand::SetNoiseControlLevel { .. }
                | DeviceCommand::SetEqualizer { .. } | DeviceCommand::MediaPlayPause
                | DeviceCommand::MediaNext | DeviceCommand::MediaPrevious | DeviceCommand::Connect
                | DeviceCommand::Disconnect | DeviceCommand::Reconnect
        )
    }

    /// Short stable name for logging; never includes payload details.
    pub fn name(&self) -> (r: &'static str)
        ensures
            r@ == spec_command_name(*self),
    {
        match self {
            DeviceCommand::RefreshSnapshot => "refresh_snapshot",
            DeviceCommand::ReadBattery => "read_battery",
            DeviceCommand::ReadNoiseControl => "read_noise_control",
            DeviceCommand::ReadEqualizer => "read_equalizer",
            DeviceCommand::ReadDeviceInfo => "read_device_info",
            DeviceCommand::Connect => "connect",
            DeviceCommand::Disconnect => "disconnect",
            DeviceCommand::Reconnect => "reconnect",
            DeviceCommand::SetSystemVolume { .. } => "set_system_volume",
            DeviceCommand::SetSystemMute { .. } => "set_system_mute",
            DeviceCommand::MediaPlayPause => "media_play_pause",
            DeviceCommand::MediaNext => "media_next",
            DeviceCommand::MediaPrevious => "media_previous",
            DeviceCommand::SetNoiseControl { .. } => "set_noise_control",
            DeviceCommand::SetNoiseControlLevel { .. } => "set_noise_control_level",
            DeviceCommand::SetEqualizer { .. } => "set_equalizer",
        }
    }
}

/// The result of a command. `Applied` is reported only when the device's own
/// re-read state confirmed the change.
#[derive(Debug, Clone, PartialEq, Eq)]
pub enum CommandOutcome {
    /// The device's reported state was re-read and matches the request.
    Applied { verified_at: String },
    /// The command was transmitted, but the device gave no evidence of the
    /// outcome.
    SentUnverified { reason: String },
    Rejected { reason: String },
    Unsupported { reason: String },
}

impl CommandOutcome {
    pub fn applied() -> (r: Self)
        ensures
            r matches CommandOutcome::Applied { verified_at } && super::is_utc_rfc3339(verified_at@),
    {
        CommandOutcome::Applied { verified_at: super::now_rfc3339() }
    }

    pub fn sent_unverified(reason: &str) -> (r: Self)
        ensures
            r matches CommandOutcome::SentUnverified { reason: s } && s@ == reason@,
    {
        CommandOutcome::SentUnverified { reason: crate::text::owned(reason) }
    }

    pub fn unsupported(reason: &str) -> (r: Self)
        ensures
            r matches CommandOutcome::Unsupported { reason: s } && s@ == reason@,
    {
        CommandOutcome::Unsupported { reason: crate::text::owned(reason) }
    }

    /// True only for a confirmed state change.
    pub fn is_confirmed(&self) -> (r: bool)
        ensures
            r == (*self is Applied),
    {
        matches!(self, CommandOutcome::Applied { .. })
    }
}

/// A command's logged name carries none of its parameters: commands that
/// differ only in their parameters are logged under the same name.
pub proof fn law_command_names_carry_no_parameters(
    p1: u8,
    p2: u8,
    m1: bool,
    m2: bool,
    n1: NoiseControlMode,
    n2: NoiseControlMode,
    e1: EqSettings,
    e2: EqSettings,
)
    ensures
        spec_command_name(DeviceCommand::SetSystemVolume { percent: p1 }) == spec_command_name(
            DeviceCommand::SetSystemVolume { percent: p2 },
        ),
        spec_command_name(DeviceCommand::SetSystemMute { muted: m1 }) == spec_command_name(
            DeviceCommand::SetSystemMute { muted: m2 },
        ),
        spec_command_name(DeviceCommand::SetNoiseControl { mode: n1 }) == spec_command_name(
            DeviceCommand::SetNoiseControl { mode: n2 },
        ),
        spec_command_name(DeviceCommand::SetNoiseControlLevel { level: p1 }) == spec_command_name(
            DeviceCommand::SetNoiseControlLevel { level: p2 },
        ),
        spec_command_name(DeviceCommand::SetEqualizer { settings: e1 }) == spec_command_name(
            DeviceCommand::SetEqualizer { settings: e2 },
        ),
{
}

/// Which of the sixteen commands a command is, its parameters aside.
pub open spec fn command_variant(c: DeviceCommand) -> int {
    match c {
        DeviceCommand::RefreshSnapshot => 0,
        DeviceCommand::ReadBattery => 1,
        DeviceCommand::ReadNoiseControl => 2,
        DeviceCommand::ReadEqualizer => 3,
        DeviceCommand::ReadDeviceInfo => 4,
        DeviceCommand::Connect => 5,
        DeviceCommand::Disconnect => 6,
        DeviceCommand::Reconnect => 7,
        DeviceCommand::SetSystemVolume { .. } => 8,
        DeviceCommand::SetSystemMute { .. } => 9,
        DeviceCommand::MediaPlayPause => 10,
        DeviceCommand::MediaNext => 11,
        DeviceCommand::MediaPrevious => 12,
        DeviceCommand::SetNoiseControl { .. } => 13,
        DeviceCommand::SetNoiseControlLevel { .. } => 14,
        DeviceCommand::SetEqualizer { .. } => 15,
    }
}

/// The variant a logged name stands for (-1 for no command's name).
pub open spec fn variant_named(name: Seq<char>) -> int {
    if name == "refresh_snapshot"@ {
        0
    } else if name == "read_battery"@ {
        1
    } else if name == "read_noise_control"@ {
        2
    } else if name == "read_equalizer"@ {
        3
    } else if name == "read_device_info"@ {
        4
    } else if name == "connect"@ {
        5
    } else if name == "disconnect"@ {
        6
    } else if name == "reconnect"@ {
        7
    } else if name == "set_system_volume"@ {
        8
    } else if name == "set_system_mute"@ {
        9
    } else if name == "media_play_pause"@ {
        10
    } else if name == "media_next"@ {
        11
    } else if name == "media_previous"@ {
        12
    } else if name == "set_noise_control"@ {
        13
    } else if name == "set_noise_control_level"@ {
        14
    } else if name == "set_equalizer"@ {
        15
    } else {
        -1
    }
}

proof fn lemma_variant_named(c: DeviceCommand)
    ensures
        variant_named(spec_command_name(c)) == command_variant(c),
{
    reveal_strlit("refresh_snapshot");
    reveal_strlit("read_battery");
    reveal_strlit("read_noise_control");
    reveal_strlit("read_equalizer");
    reveal_strlit("read_device_info");
    reveal_strlit("connect");
    reveal_strlit("disconnect");
    reveal_strlit("reconnect");
    reveal_strlit("set_system_volume");
    reveal_strlit("set_system_mute");
    reveal_strlit("media_play_pause");
    reveal_strlit("media_next");
    reveal_strlit("media_previous");
    reveal_strlit("set_noise_control");
    reveal_strlit("set_noise_control_level");
    reveal_strlit("set_equalizer");
    match c {
        DeviceCommand::RefreshSnapshot => {

        },
        DeviceCommand::ReadBattery => {
            assert("read_battery"@.len() != "refresh_snapshot"@.len());
        },
        DeviceCommand::ReadNoiseControl => {
            assert("read_noise_control"@.len() != "refresh_snapshot"@.len());
            assert("read_noise_control"@.len() != "read_battery"@.len());
        },
        DeviceCommand::ReadEqualizer => {
            assert("read_equalizer"@.len() != "refresh_snapshot"@.len());
            assert("read_equalizer"@.len() != "read_battery"@.len());
            assert("read_equalizer"@.len() != "read_noise_control"@.len());
        },
        DeviceCommand::ReadDeviceInfo => {
            assert("read_device_info"@[2] != "refresh_snapshot"@[2]);
            assert("read_device_info"@.len() != "read_battery"@.len());
            assert("read_device_info"@.len() != "read_noise_control"@.len());
            assert("read_device_info"@.len() != "read_equalizer"@.len());
        },
        DeviceCommand::Connect => {
            assert("connect"@.len() != "refresh_snapshot"@.len());
            assert("connect"@.len() != "read_battery"@.len());
            assert("connect"@.len() != "read_noise_control"@.len());
            assert("connect"@.len() != "read_equalizer"@.len());
            assert("connect"@.len() != "read_device_info"@.len());
        },
        DeviceCommand::Disconnect => {
            assert("disconnect"@.len() != "refresh_snapshot"@.len());
            assert("disconnect"@.len() != "read_battery"@.len());
            assert("disconnect"@.len() != "read_noise_control"@.len());
            assert("disconnect"@.len() != "read_equalizer"@.len());
            assert("disconnect"@.len() != "read_device_info"@.len());
            assert("disconnect"@.len() != "connect"@.len());
        },
        DeviceCommand::Reconnect => {
            assert("reconnect"@.len() != "refresh_snapshot"@.len());
            assert("reconnect"@.len() != "read_battery"@.len());
            assert("reconnect"@.len() != "read_noise_control"@.len());
            assert("reconnect"@.len() != "read_equalizer"@.len());
            assert("reconnect"@.len() != "read_device_info"@.len());
            assert("reconnect"@.len() != "connect"@.len());
            assert("reconnect"@.len() != "disconnect"@.len());
        },
        DeviceCommand::SetSystemVolume { .. } => {
            assert("set_system_volume"@.len() != "refresh_snapshot"@.len());
            assert("set_system_volume"@.len() != "read_battery"@.len());
            assert("set_system_volume"@.len() != "read_noise_control"@.len());
            assert("set_system_volume"@.len() != "read_equalizer"@.len());
            assert("set_system_volume"@.len() != "read_device_info"@.len());
            assert("set_system_volume"@.len() != "connect"@.len());
            assert("set_system_volume"@.len() != "disconnect"@.len());
            assert("set_system_volume"@.len() != "reconnect"@.len());
        },
        DeviceCommand::SetSystemMute { .. } => {
            assert("set_system_mute"@.len() != "refresh_snapshot"@.len());
            assert("set_system_mute"@.len() != "read_battery"@.len());
            assert("set_system_mute"@.len() != "read_noise_control"@.len());
            assert("set_system_mute"@.len() != "read_equalizer"@.len());
            assert("set_system_mute"@.len() != "read_device_info"@.len());
            assert("set_system_mute"@.len() != "connect"@.len());
            assert("set_system_mute"@.len() != "disconnect"@.len());
            assert("set_system_mute"@.len() != "reconnect"@.len());
            assert("set_system_mute"@.len() != "set_system_volume"@.len());
        },
        DeviceCommand::MediaPlayPause => {
            assert("media_play_pause"@[0] != "refresh_snapshot"@[0]);
            assert("media_play_pause"@.len() != "read_battery"@.len());
            assert("media_play_pause"@.len() != "read_noise_control"@.len());
            assert("media_play_pause"@.len() != "read_equalizer"@.len());
            assert("media_play_pause"@[0] != "read_device_info"@[0]);
            assert("media_play_pause"@.len() != "connect"@.len());
            assert("media_play_pause"@.len() != "disconnect"@.len());
            assert("media_play_pause"@.len() != "reconnect"@.len());
            assert("media_play_pause"@.len() != "set_system_volume"@.len());
            assert("media_play_pause"@.len() != "set_system_mute"@.len());
        },
        DeviceCommand::MediaNext => {
            assert("media_next"@.len() != "refresh_snapshot"@.len());
            assert("media_next"@.len() != "read_battery"@.len());
            assert("media_next"@.len() != "read_noise_control"@.len());
            assert("media_next"@.len() != "read_equalizer"@.len());
            assert("media_next"@.len() != "read_device_info"@.len());
            assert("media_next"@.len() != "connect"@.len());
            assert("media_next"@[0] != "disconnect"@[0]);
            assert("media_next"@.len() != "reconnect"@.len());
            assert("media_next"@.len() != "set_system_volume"@.len());
            assert("media_next"@.len() != "set_system_mute"@.len());
            assert("media_next"@.len() != "media_play_pause"@.len());
        },
        DeviceCommand::MediaPrevious => {
            assert("media_previous"@.len() != "refresh_snapshot"@.len());
            assert("media_previous"@.len() != "read_battery"@.len());
            assert("media_previous"@.len() != "read_noise_control"@.len());
            assert("media_previous"@[0] != "read_equalizer"@[0]);
            assert("media_previous"@.len() != "read_device_info"@.len());
            assert("media_previous"@.len() != "connect"@.len());
            assert("media_previous"@.len() != "disconnect"@.len());
            assert("media_previous"@.len() != "reconnect"@.len());
            assert("media_previous"@.len() != "set_system_volume"@.len());
            assert("media_previous"@.len() != "set_system_mute"@.len());
            assert("media_previous"@.len() != "media_play_pause"@.len());
            assert("media_previous"@.len() != "media_next"@.len());
        },
        DeviceCommand::SetNoiseControl { .. } => {
            assert("set_noise_control"@.len() != "refresh_snapshot"@.len());
            assert("set_noise_control"@.len() != "read_battery"@.len());
            assert("set_noise_control"@.len() != "read_noise_control"@.len());
            assert("set_noise_control"@.len() != "read_equalizer"@.len());
            assert("set_noise_control"@.len() != "read_device_info"@.len());
            assert("set_noise_control"@.len() != "connect"@.len());
            assert("set_noise_control"@.len() != "disconnect"@.len());
            assert("set_noise_control"@.len() != "reconnect"@.len());
            assert("set_noise_control"@[4] != "set_system_volume"@[4]);
            assert("set_noise_control"@.len() != "set_system_mute"@.len());
            assert("set_noise_control"@.len() != "media_play_pause"@.len());
            assert("set_noise_control"@.len() != "media_next"@.len());
            assert("set_noise_control"@.len() != "media_previous"@.len());
        },
        DeviceCommand::SetNoiseControlLevel { .. } => {
            assert("set_noise_control_level"@.len() != "refresh_snapshot"@.len());
            assert("set_noise_control_level"@.len() != "read_battery"@.len());
            assert("set_noise_control_level"@.len() != "read_noise_control"@.len());
            assert("set_noise_control_level"@.len() != "read_equalizer"@.len());
            assert("set_noise_control_level"@.len() != "read_device_info"@.len());
            assert("set_noise_control_level"@.len() != "connect"@.len());
            assert("set_noise_control_level"@.len() != "disconnect"@.len());
            assert("set_noise_control_level"@.len() != "reconnect"@.len());
            assert("set_noise_control_level"@.len() != "set_system_volume"@.len());
            assert("set_noise_control_level"@.len() != "set_system_mute"@.len());
            assert("set_noise_control_level"@.len() != "media_play_pause"@.len());
            assert("set_noise_control_level"@.len() != "media_next"@.len());
            assert("set_noise_control_level"@.len() != "media_previous"@.len());
            assert("set_noise_control_level"@.len() != "set_noise_control"@.len());
        },
        DeviceCommand::SetEqualizer { .. } => {
            assert("set_equalizer"@.len() != "refresh_snapshot"@.len());
            assert("set_equalizer"@.len() != "read_battery"@.len());
            assert("set_equalizer"@.len() != "read_noise_control"@.len());
            assert("set_equalizer"@.len() != "read_equalizer"@.len());
            assert("set_equalizer"@.len() != "read_device_info"@.len());
            assert("set_equalizer"@.len() != "connect"@.len());
            assert("set_equalizer"@.len() != "disconnect"@.len());
            assert("set_equalizer"@.len() != "reconnect"@.len());
            assert("set_equalizer"@.len() != "set_system_volume"@.len());
            assert("set_equalizer"@.len() != "set_system_mute"@.len());
            assert("set_equalizer"@.len() != "media_play_pause"@.len());
            assert("set_equalizer"@.len() != "media_next"@.len());
            assert("set_equalizer"@.len() != "media_previous"@.len());
            assert("set_equalizer"@.len() != "set_noise_control"@.len());
            assert("set_equalizer"@.len() != "set_noise_control_level"@.len());
        },
    }
}

/// Each command's logged name names its variant and nothing else: two
/// commands share a name exactly when they are the same command, whatever
/// their parameters.
pub proof fn law_command_names_are_distinct_per_variant(a: DeviceCommand, b: DeviceCommand)
    ensures
        variant_named(spec_command_name(a)) == command_variant(a),
        spec_command_name(a) == spec_command_name(b) <==> command_variant(a) == command_variant(b),
{
    lemma_variant_named(a);
    lemma_variant_named(b);
}

/// An equalizer command is refused, with `InvalidInput`, exactly when one
/// of its bands (bass, mid or treble) lies outside -10..=10 dB; the
/// message then quotes all three gains.
pub proof fn law_equalizer_refused_iff_a_band_is_out_of_range(bass: i8, mid: i8, treble: i8)
    ensures
        ({
            let c = DeviceCommand::SetEqualizer { settings: EqSettings { bass, mid, treble } };
            &&& spec_validation_failure(c) is None <==> (-10 <= bass <= 10 && -10 <= mid <= 10
                && -10 <= treble <= 10)
            &&& spec_validation_failure(c) matches Some(m) ==> ends_with_gains(
                m,
                bass,
                mid,
                treble,
            )
        }),
{
    let c = DeviceCommand::SetEqualizer { settings: EqSettings { bass, mid, treble } };
    if let Some(m) = spec_validation_failure(c) {
        let tail = " dB, got bass="@ + signed_decimal(bass as int) + " mid="@ + signed_decimal(
            mid as int,
        ) + " treble="@ + signed_decimal(treble as int);
        let head = "EQ gains must be within "@ + signed_decimal(-10) + "..="@ + signed_decimal(10);
        assert(m =~= head + tail);
        assert(m.subrange(head.len() as int, m.len() as int) =~= tail);
    }
}

/// A refusal message ends by quoting the bass, mid and treble gains.
pub open spec fn ends_with_gains(m: Seq<char>, bass: i8, mid: i8, treble: i8) -> bool {
    exists|k: int|
        0 <= k <= m.len() && m.subrange(k, m.len() as int) == " dB, got bass="@ + signed_decimal(
            bass as int,
        ) + " mid="@ + signed_decimal(mid as int) + " treble="@ + signed_decimal(treble as int)
}

} // verus!
