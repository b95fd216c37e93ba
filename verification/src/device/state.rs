//! Device state types.
//!
//! Every reading carries its provenance, and optional fields stay `None`
//! unless a real reading was obtained.

use super::capability::{key_at, CapabilitySet, CapabilityStatus, Mechanism};
use vstd::prelude::*;

verus! {

/// Which implementation is backing the session.
#[derive(Debug, Clone, Copy, PartialEq, Eq, Structural)]
pub enum DeviceSource {
    /// Every value is fabricated. The UI must label this SIMULATED.
    Mock,
    /// Values come from real hardware.
    Real,
}

#[derive(Debug, Clone, Copy, PartialEq, Eq, Structural)]
pub enum ConnectionState {
    Disconnected,
    Discovering,
    Connecting,
    Connected,
    Reconnecting,
    Error,
}

#[derive(Debug, Clone, Copy, PartialEq, Eq, Structural)]
pub enum Transport {
    /// No transport: nothing is connected.
    Unavailable,
    BluetoothClassic,
    BluetoothLe,
    WindowsAudioEndpoint,
    Simulated,
}

#[derive(Debug, Clone, PartialEq, Eq)]
pub struct DeviceIdentity {
    pub name: String,
    /// Opaque identifier derived by hashing the raw identifier with a salt.
    pub id: String,
    pub instance_id: Option<String>,
    pub manufacturer: Option<String>,
    pub model_number: Option<String>,
    pub firmware_version: Option<String>,
    pub serial_number: Option<String>,
}

#[derive(Debug, Clone, Copy, PartialEq, Eq, Structural)]
pub enum BatterySource {
    /// Windows PnP device property.
    WindowsPnp,
    /// Standard BLE Battery Service (0x180F) characteristic 0x2A19.
    BleBatteryService,
    /// Parsed from a vendor protocol frame.
    VendorProtocol,
    Simulated,
}

#[derive(Debug, Clone, PartialEq, Eq)]
pub struct BatteryReading {
    /// 0-100.
    pub percent: u8,
    pub source: BatterySource,
    pub charging: Option<bool>,
    pub read_at: String,
}

#[derive(Debug, Clone, Copy, PartialEq, Eq, Structural)]
pub enum NoiseControlMode {
    Quiet,
    Aware,
    Custom,
    Off,
}

pub open spec fn spec_mode_str(m: NoiseControlMode) -> Seq<char> {
    match m {
        NoiseControlMode::Quiet => "quiet"@,
        NoiseControlMode::Aware => "aware"@,
        NoiseControlMode::Custom => "custom"@,
        NoiseControlMode::Off => "off"@,
    }
}

impl NoiseControlMode {
    pub fn as_str(self) -> (r: &'static str)
        ensures
            r@ == spec_mode_str(self),
    {
        match self {
            NoiseControlMode::Quiet => "quiet",
            NoiseControlMode::Aware => "aware",
            NoiseControlMode::Custom => "custom",
            NoiseControlMode::Off => "off",
        }
    }
}

#[derive(Debug, Clone, Copy, PartialEq, Eq, Structural)]
pub enum StateSource {
    VendorProtocol,
    SoftwareDsp,
    Simulated,
}

#[derive(Debug, Clone, PartialEq, Eq)]
pub struct NoiseControlState {
    pub mode: NoiseControlMode,
    pub level: Option<u8>,
    pub source: StateSource,
    pub read_at: String,
}

/// EQ band gains, in whole dB.
#[derive(Debug, Clone, Copy, PartialEq, Eq, Structural)]
pub struct EqSettings {
    pub bass: i8,
    pub mid: i8,
    pub treble: i8,
}

/// Every band within `MIN_DB..=MAX_DB`.
pub open spec fn eq_in_range(s: EqSettings) -> bool {
    &&& -10 <= s.bass <= 10
    &&& -10 <= s.mid <= 10
    &&& -10 <= s.treble <= 10
}

impl EqSettings {
    pub const MIN_DB: i8 = -10;
    pub const MAX_DB: i8 = 10;

    pub fn flat() -> (r: Self)
        ensures
            r == (EqSettings { bass: 0, mid: 0, treble: 0 }),
    {
        EqSettings { bass: 0, mid: 0, treble: 0 }
    }

    pub fn is_within_range(&self) -> (r: bool)
        ensures
            r == eq_in_range(*self),
    {
        Self::MIN_DB <= self.bass && self.bass <= Self::MAX_DB && Self::MIN_DB <= self.mid
            && self.mid <= Self::MAX_DB && Self::MIN_DB <= self.treble && self.treble
            <= Self::MAX_DB
    }
}

/// The three band gains of a setting: bass, mid, treble.
pub open spec fn eq_bands(s: EqSettings) -> Seq<i8> {
    seq![s.bass, s.mid, s.treble]
}

/// An EQ setting is in range exactly when each of its three bands (bass,
/// mid and treble) lies within -10..=10 dB; moving any one band outside
/// that range puts the whole setting out of range.
pub proof fn law_eq_range_is_checked_per_band(s: EqSettings, v: i8)
    ensures
        eq_in_range(s) <==> forall|i: int| 0 <= i < 3 ==> -10 <= #[trigger] eq_bands(s)[i] <= 10,
        EqSettings::MIN_DB == -10 && EqSettings::MAX_DB == 10,
        !(-10 <= v <= 10) ==> {
            &&& !eq_in_range(EqSettings { bass: v, ..s })
            &&& !eq_in_range(EqSettings { mid: v, ..s })
            &&& !eq_in_range(EqSettings { treble: v, ..s })
        },
{
    let b = eq_bands(s);
    assert(b[0] == s.bass && b[1] == s.mid && b[2] == s.treble);
}

#[derive(Debug, Clone, PartialEq, Eq)]
pub struct EqState {
    pub settings: EqSettings,
    pub source: StateSource,
    pub read_at: String,
}

/// Windows audio endpoint state, separate from any device-internal volume.
#[derive(Debug, Clone, PartialEq, Eq)]
pub struct WindowsAudioState {
    pub endpoint_name: String,
    pub endpoint_id: String,
    /// 0-100, Windows system volume for this endpoint.
    pub volume_percent: u8,
    pub muted: bool,
    pub is_default_render: bool,
    pub is_default_communications: bool,
    pub sample_rate_hz: Option<u32>,
    pub channels: Option<u16>,
}

/// The complete picture handed to the frontend. Optional fields are `None`
/// unless a real reading was obtained.
#[derive(Debug, Clone, PartialEq, Eq)]
pub struct DeviceSnapshot {
    pub source: DeviceSource,
    pub connection: ConnectionState,
    pub transport: Transport,
    pub identity: Option<DeviceIdentity>,
    pub capabilities: CapabilitySet,
    pub battery: Option<BatteryReading>,
    pub noise_control: Option<NoiseControlState>,
    pub equalizer: Option<EqState>,
    pub windows_audio: Option<WindowsAudioState>,
    pub last_error: Option<String>,
    pub updated_at: String,
}

/// A capability set in which every entry is unknown, unverified and carries
/// the given reason.
pub open spec fn all_unknown_with(caps: CapabilitySet, reason: Seq<char>) -> bool {
    &&& caps.wf()
    &&& forall|i: int|
        0 <= i < 14 ==> {
            &&& (#[trigger] caps@[i]).status == CapabilityStatus::Unknown
            &&& caps@[i].mechanism == Mechanism::Unassigned
            &&& !caps@[i].hardware_verified
            &&& caps@[i].evidence@ == reason
            &&& caps@[i].last_evaluated is None
        }
}

/// The reason text of a snapshot that has not seen a device.
pub open spec fn spec_empty_reason() -> Seq<char> {
    "No device has been interrogated yet."@
}

impl DeviceSnapshot {
    /// A snapshot representing "we have nothing yet".
    pub fn empty(source: DeviceSource) -> (r: Self)
        ensures
            r.source == source,
            r.connection == ConnectionState::Disconnected,
            r.transport == Transport::Unavailable,
            r.identity is None,
            r.battery is None,
            r.noise_control is None,
            r.equalizer is None,
            r.windows_audio is None,
            r.last_error is None,
            all_unknown_with(r.capabilities, spec_empty_reason()),
    {
        DeviceSnapshot {
            source,
            connection: ConnectionState::Disconnected,
            transport: Transport::Unavailable,
            identity: None,
            capabilities: CapabilitySet::all_unknown("No device has been interrogated yet."),
            battery: None,
            noise_control: None,
            equalizer: None,
            windows_audio: None,
            last_error: None,
            updated_at: super::now_rfc3339(),
        }
    }
}

} // verus!
