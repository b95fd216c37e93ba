//! The hardware-backed device.
//!
//! It reports what standard, documented Windows interfaces can tell about
//! the headphones: that the device exists and is paired, whether Windows
//! considers it connected, and its battery level if the device populates the
//! property Windows Settings reads. It does not pretend to control noise
//! cancellation or EQ: those need a vendor protocol that has not been
//! verified against hardware, so the mutating methods answer `Unsupported`
//! rather than sending speculative bytes.
//!
//! The PnP enumeration itself is the host's job; each operation that needs a
//! fresh look at the system takes the host's latest [`HostScan`].

use super::spec_is_bose_device;
use crate::bluetooth::pnp::{spec_is_top_level, PnpDevice};
use crate::device::capability::{
    key_at, key_index, passive_text, verified_evidence, Capability, CapabilityKey, CapabilitySet,
    CapabilityStatus, HardwareProof, Mechanism,
};
use crate::device::command::CommandOutcome;
use crate::device::state::{
    BatteryReading, BatterySource, ConnectionState, DeviceIdentity, DeviceSnapshot, DeviceSource,
    EqSettings, EqState, NoiseControlMode, NoiseControlState, Transport,
};
use crate::device::{now_rfc3339, DeviceError, DeviceResult};
use crate::text::{decimal, is_whitespace, owned, push_decimal, push_str, str_eq};
use crate::util::{spec_stable_id, stable_id};
use vstd::prelude::*;

verus! {

/// Reason given wherever a vendor-protocol feature is requested.
pub const NO_VERIFIED_VENDOR_PROTOCOL: &'static str = "No Bose vendor protocol has been verified against this device yet. This build will not send speculative commands to your headphones. See docs/protocol-notes.md.";

/// What the host found when it last enumerated Bluetooth devices.
#[derive(Debug, Clone)]
pub struct HostScan {
    /// Whether a Bluetooth radio is present.
    pub radio_present: bool,
    /// The Bluetooth device nodes, merged by instance id.
    pub devices: Vec<PnpDevice>,
}

/// What was last observed of the target device.
#[derive(Debug, Clone, PartialEq, Eq)]
pub struct Observed {
    pub instance_id: Option<String>,
    pub name: Option<String>,
    pub connected: bool,
    pub battery: Option<u8>,
    /// Set once a battery value has actually been read from the device,
    /// which is genuine hardware evidence for the battery capability.
    pub battery_ever_read: bool,
}

/// Nothing observed.
pub open spec fn nothing_observed() -> Observed {
    Observed {
        instance_id: None,
        name: None,
        connected: false,
        battery: None,
        battery_ever_read: false,
    }
}

impl Default for Observed {
    fn default() -> (r: Self)
        ensures
            r == nothing_observed(),
    {
        Observed {
            instance_id: None,
            name: None,
            connected: false,
            battery: None,
            battery_ever_read: false,
        }
    }
}

fn copy_opt_string(s: &Option<String>) -> (r: Option<String>)
    ensures
        r == *s,
{
    match s {
        Some(t) => Some(t.clone()),
        None => None,
    }
}

impl Observed {
    /// An identical copy.
    pub fn copy(&self) -> (r: Self)
        ensures
            r == *self,
    {
        Observed {
            instance_id: copy_opt_string(&self.instance_id),
            name: copy_opt_string(&self.name),
            connected: self.connected,
            battery: self.battery,
            battery_ever_read: self.battery_ever_read,
        }
    }
}

/// The name used to recognise a node: its friendly name, or nothing.
pub open spec fn name_or_empty(d: PnpDevice) -> Seq<char> {
    match d.friendly_name {
        Some(n) => n@,
        None => Seq::empty(),
    }
}

/// Whether a node is the device this backend is after: a top-level node
/// that is the preferred one when a preference is set, and otherwise a Bose
/// device (by vendor id first, by name only when no vendor id is known).
pub open spec fn is_target(d: PnpDevice, preferred: Option<String>) -> bool {
    &&& spec_is_top_level(d.instance_id@)
    &&& match preferred {
        Some(want) => d.instance_id@ == want@,
        None => spec_is_bose_device(d.vendor_id, name_or_empty(d)),
    }
}

/// Index of the first target node at or after `from`.
pub open spec fn first_target(s: Seq<PnpDevice>, preferred: Option<String>, from: int) -> Option<int>
    decreases s.len() - from,
{
    if from < 0 || from >= s.len() {
        None
    } else if is_target(s[from], preferred) {
        Some(from)
    } else {
        first_target(s, preferred, from + 1)
    }
}

/// The observation made of a found node, given the previous one.
pub open spec fn observation_of(d: PnpDevice, prev: Observed) -> Observed {
    Observed {
        instance_id: Some(d.instance_id),
        name: d.friendly_name,
        connected: match d.is_connected {
            Some(c) => c,
            None => false,
        },
        battery: d.battery_percent,
        battery_ever_read: prev.battery_ever_read || d.battery_percent is Some,
    }
}

/// What a refresh does: without a host scan the backend is unavailable on
/// this platform; without a radio Bluetooth is unavailable (nothing
/// changes in either case); otherwise the first target node is observed
/// (`Ok(true)`), or, when there is none, the observation is cleared
/// (`Ok(false)`: headphones off or unpaired is a normal state).
pub open spec fn refreshed(
    preferred: Option<String>,
    before: Observed,
    after: Observed,
    scan: Option<HostScan>,
    r: DeviceResult<bool>,
) -> bool {
    match scan {
        None => after == before && (r matches Err(DeviceError::Platform(m))
            && m@ == "the real device backend is only implemented for Windows"@),
        Some(s) => if !s.radio_present {
            after == before && r == Err::<bool, DeviceError>(DeviceError::BluetoothUnavailable)
        } else {
            match first_target(s.devices@, preferred, 0) {
                None => after == nothing_observed() && r == Ok::<bool, DeviceError>(false),
                Some(i) => after == observation_of(s.devices@[i], before) && r == Ok::<
                    bool,
                    DeviceError,
                >(true),
            }
        },
    }
}

/// The scan handed to an operation, if any.
pub open spec fn scanned(scan: Option<&HostScan>) -> Option<HostScan> {
    match scan {
        Some(s) => Some(*s),
        None => None,
    }
}

/// Reason on capabilities nobody has looked into.
pub open spec fn investigate_reason() -> Seq<char> {
    "Not yet investigated on this device. Run Diagnostics to interrogate it."@
}

/// Reason on capabilities that need the vendor protocol.
pub open spec fn vendor_reason() -> Seq<char> {
    "Requires a Bose vendor protocol that has not been investigated on this device yet."@
}

/// Evidence for a connected device that has not reported battery.
pub open spec fn battery_unpopulated() -> Seq<char> {
    "The device is connected but has not populated the Windows battery property. It may report battery only while audio is streaming, or not at all."@
}

/// What the passive battery observation says.
pub open spec fn battery_detail(b: Option<u8>) -> Seq<char> {
    "Windows PnP battery property returned a level for this device"@ + match b {
        Some(p) => " (currently "@ + decimal(p as nat) + "%)"@,
        None => Seq::empty(),
    }
}

/// What the passive identity observation says.
pub open spec fn identity_detail() -> Seq<char> {
    "device identity read from Windows PnP"@
}

/// The keys that need the vendor protocol.
pub open spec fn is_vendor_key(k: CapabilityKey) -> bool {
    ||| k == CapabilityKey::NoiseControl
    ||| k == CapabilityKey::AwareMode
    ||| k == CapabilityKey::CustomNoiseControl
    ||| k == CapabilityKey::Equalizer
    ||| k == CapabilityKey::Multipoint
    ||| k == CapabilityKey::FirmwareVersion
    ||| k == CapabilityKey::AutoOff
    ||| k == CapabilityKey::VoicePrompts
    ||| k == CapabilityKey::Sidetone
    ||| k == CapabilityKey::DeviceRename
}

/// An untouched capability with the given reason.
pub open spec fn unknown_with(c: Capability, reason: Seq<char>) -> bool {
    &&& c.status == CapabilityStatus::Unknown
    &&& c.mechanism == Mechanism::Unassigned
    &&& !c.hardware_verified
    &&& c.evidence@ == reason
    &&& c.last_evaluated is None
}

/// A capability verified on the strength of a passive hardware
/// observation, made at a UTC RFC 3339 time and recorded at one.
pub open spec fn verified_by(c: Capability, mechanism: Mechanism, observation: Seq<char>) -> bool {
    &&& c.status == CapabilityStatus::Verified
    &&& c.mechanism == mechanism
    &&& c.hardware_verified
    &&& c.last_evaluated matches Some(t) && crate::device::is_utc_rfc3339(t@)
    &&& exists|at: Seq<char>|
        crate::device::is_utc_rfc3339(at) && c.evidence@ == verified_evidence(at, observation)
}

/// The capability a key gets from an observation.
pub open spec fn hardware_capability(c: Capability, k: CapabilityKey, obs: Observed) -> bool {
    if obs.instance_id is None {
        unknown_with(c, investigate_reason())
    } else if k == CapabilityKey::Battery {
        if obs.battery_ever_read {
            verified_by(c, Mechanism::WindowsPnp, passive_text(battery_detail(obs.battery)))
        } else if obs.connected {
            &&& c.status == CapabilityStatus::Supported
            &&& c.mechanism == Mechanism::WindowsPnp
            &&& !c.hardware_verified
            &&& c.evidence@ == battery_unpopulated()
            &&& c.last_evaluated is Some
        } else {
            unknown_with(c, investigate_reason())
        }
    } else if k == CapabilityKey::DeviceSettings {
        verified_by(c, Mechanism::WindowsPnp, passive_text(identity_detail()))
    } else if is_vendor_key(k) {
        unknown_with(c, vendor_reason())
    } else {
        unknown_with(c, investigate_reason())
    }
}

/// The capability set built from an observation.
pub open spec fn hardware_capabilities(caps: CapabilitySet, obs: Observed) -> bool {
    &&& caps.wf()
    &&& forall|i: int| 0 <= i < 14 ==> hardware_capability(#[trigger] caps@[i], key_at(i), obs)
}

/// The identity reported for an observation: nothing without a device;
/// otherwise its name (or a placeholder), its salted opaque id, and Bose as
/// manufacturer. The raw instance id is never handed out.
pub open spec fn identity_of(obs: Observed, salt: Seq<char>, r: Option<DeviceIdentity>) -> bool {
    match obs.instance_id {
        None => r is None,
        Some(iid) => r matches Some(i) && {
            &&& i.name@ == match obs.name {
                Some(n) => n@,
                None => "Bose device"@,
            }
            &&& i.id@ == spec_stable_id(salt, iid@)
            &&& i.instance_id is None
            &&& i.manufacturer matches Some(m) && m@ == "Bose"@
            &&& i.model_number is None
            &&& i.firmware_version is None
            &&& i.serial_number is None
        },
    }
}

/// A battery reading from an observed level.
pub open spec fn battery_of(level: Option<u8>, r: Option<BatteryReading>) -> bool {
    match level {
        None => r is None,
        Some(p) => r matches Some(b) && b.percent == p && b.source == BatterySource::WindowsPnp
            && b.charging is None,
    }
}

/// The hardware-backed headphones.
pub struct RealBoseDevice {
    /// Optional explicit target; without one, the first Bose device found is
    /// used.
    preferred_instance_id: Option<String>,
    observed: Observed,
}

impl Default for RealBoseDevice {
    fn default() -> (r: Self)
        ensures
            r.preferred() is None,
            r.observed() == nothing_observed(),
    {
        RealBoseDevice::new(None)
    }
}

fn mark_vendor_unknown(caps: &mut CapabilitySet, key: CapabilityKey)
    requires
        old(caps).wf(),
        old(caps).spec_get(key).status == CapabilityStatus::Unknown,
    ensures
        final(caps).wf(),
        final(caps)@ == old(caps)@.update(key_index(key), final(caps)@[key_index(key)]),
        unknown_with(final(caps)@[key_index(key)], vendor_reason()),
{
    let _ = caps.get_mut(key).mark_supported(
        Mechanism::Unassigned,
        "Requires a Bose vendor protocol that has not been verified on this device.",
    );
    // Marking it supported would overstate it; reset to unknown explicitly.
    let fresh = Capability::unknown(
        key,
        "Requires a Bose vendor protocol that has not been investigated on this device yet.",
    );
    *caps.get_mut(key) = fresh;
}

proof fn lemma_passive_not_blank(detail: Seq<char>)
    ensures
        !crate::text::all_whitespace(passive_text(detail)),
{
    reveal_strlit("passively observed from device: ");
    assert(passive_text(detail)[0] == 'p');
    assert(!is_whitespace(passive_text(detail)[0]));
}

fn battery_observation(level: Option<u8>) -> (r: String)
    ensures
        r@ == battery_detail(level),
{
    let mut s = String::new();
    push_str(&mut s, "Windows PnP battery property returned a level for this device");
    match level {
        Some(b) => {
            push_str(&mut s, " (currently ");
            push_decimal(&mut s, b as u128);
            push_str(&mut s, "%)");
        },
        None => {},
    }
    assert(s@ =~= battery_detail(level));
    s
}

fn battery_reading(level: Option<u8>) -> (r: Option<BatteryReading>)
    ensures
        battery_of(level, r),
{
    match level {
        Some(percent) => Some(
            BatteryReading {
                percent,
                source: BatterySource::WindowsPnp,
                charging: None,
                read_at: now_rfc3339(),
            },
        ),
        None => None,
    }
}

impl RealBoseDevice {
    /// The explicit target, if any.
    pub closed spec fn preferred(&self) -> Option<String> {
        self.preferred_instance_id
    }

    /// What was last observed.
    pub closed spec fn observed(&self) -> Observed {
        self.observed
    }

    pub fn new(preferred_instance_id: Option<String>) -> (r: Self)
        ensures
            r.preferred() == preferred_instance_id,
            r.observed() == nothing_observed(),
    {
        RealBoseDevice { preferred_instance_id, observed: Observed::default() }
    }

    /// Which backend this is.
    pub fn source(&self) -> (r: DeviceSource)
        ensures
            r == DeviceSource::Real,
    {
        DeviceSource::Real
    }

    /// The last observation.
    pub fn last_observed(&self) -> (r: &Observed)
        ensures
            *r == self.observed(),
    {
        &self.observed
    }

    fn is_target_node(&self, d: &PnpDevice) -> (r: bool)
        ensures
            r == is_target(*d, self.preferred()),
    {
        if !d.is_top_level() {
            return false;
        }
        match &self.preferred_instance_id {
            Some(want) => str_eq(d.instance_id.as_str(), want.as_str()),
            None => {
                let name: &str = match &d.friendly_name {
                    Some(n) => n.as_str(),
                    None => "",
                };
                proof {
                    reveal_strlit("");
                    assert(name@ =~= name_or_empty(*d));
                }
                super::is_bose_device(d.vendor_id, name)
            },
        }
    }

    /// Locates the target device in the host's scan and refreshes the
    /// observation.
    pub fn refresh(&mut self, scan: Option<&HostScan>) -> (r: DeviceResult<bool>)
        ensures
            final(self).preferred() == old(self).preferred(),
            refreshed(
                old(self).preferred(),
                old(self).observed(),
                final(self).observed(),
                scanned(scan),
                r,
            ),
    {
        let s = match scan {
            None => {
                return Err(
                    DeviceError::Platform(
                        owned("the real device backend is only implemented for Windows"),
                    ),
                );
            },
            Some(s) => s,
        };
        if !s.radio_present {
            return Err(DeviceError::BluetoothUnavailable);
        }
        let mut i: usize = 0;
        while i < s.devices.len()
            invariant
                i <= s.devices@.len(),
                first_target(s.devices@, self.preferred(), 0) == first_target(
                    s.devices@,
                    self.preferred(),
                    i as int,
                ),
                self.preferred() == old(self).preferred(),
                self.observed() == old(self).observed(),
                scanned(scan) == Some(*s),
                s.radio_present,
            decreases s.devices@.len() - i,
        {
            if self.is_target_node(&s.devices[i]) {
                let d = &s.devices[i];
                let ever = self.observed.battery_ever_read || d.battery_percent.is_some();
                self.observed = Observed {
                    instance_id: Some(d.instance_id.clone()),
                    name: copy_opt_string(&d.friendly_name),
                    connected: match d.is_connected {
                        Some(c) => c,
                        None => false,
                    },
                    battery: d.battery_percent,
                    battery_ever_read: ever,
                };
                return Ok(true);
            }
            i = i + 1;
        }
        self.observed = Observed::default();
        Ok(false)
    }

    /// The capability set an observation supports. Battery is verified only
    /// once a level was actually read; identity is verified by having been
    /// read; everything needing the vendor protocol stays unknown, even with
    /// the device present.
    pub fn build_capabilities(&self, obs: &Observed) -> (r: CapabilitySet)
        ensures
            hardware_capabilities(r, *obs),
    {
        let mut caps = CapabilitySet::all_unknown(
            "Not yet investigated on this device. Run Diagnostics to interrogate it.",
        );
        if obs.instance_id.is_none() {
            return caps;
        }
        let ghost start = caps@;
        if obs.battery_ever_read {
            let detail = battery_observation(obs.battery);
            let proof = HardwareProof::observed_passively(CapabilityKey::Battery, detail.as_str());
            proof {
                lemma_passive_not_blank(detail@);
            }
            let _ = caps.get_mut(CapabilityKey::Battery).verify_with_hardware(
                &proof,
                Mechanism::WindowsPnp,
            );
        } else if obs.connected {
            let evidence: &str = "The device is connected but has not populated the Windows battery property. It may report battery only while audio is streaming, or not at all.";
            proof {
                reveal_strlit("The device is connected but has not populated the Windows battery property. It may report battery only while audio is streaming, or not at all.");
                assert(!is_whitespace(evidence@[0]));
            }
            let _ = caps.get_mut(CapabilityKey::Battery).mark_supported(
                Mechanism::WindowsPnp,
                evidence,
            );
        }
        let ghost after_battery = caps@;
        assert(forall|i: int| 0 <= i < 14 && i != 0 ==> after_battery[i] == start[i]);
        let proof = HardwareProof::observed_passively(
            CapabilityKey::DeviceSettings,
            "device identity read from Windows PnP",
        );
        proof {
            lemma_passive_not_blank(identity_detail());
        }
        let _ = caps.get_mut(CapabilityKey::DeviceSettings).verify_with_hardware(
            &proof,
            Mechanism::WindowsPnp,
        );
        mark_vendor_unknown(&mut caps, CapabilityKey::NoiseControl);
        mark_vendor_unknown(&mut caps, CapabilityKey::AwareMode);
        mark_vendor_unknown(&mut caps, CapabilityKey::CustomNoiseControl);
        mark_vendor_unknown(&mut caps, CapabilityKey::Equalizer);
        mark_vendor_unknown(&mut caps, CapabilityKey::Multipoint);
        mark_vendor_unknown(&mut caps, CapabilityKey::FirmwareVersion);
        mark_vendor_unknown(&mut caps, CapabilityKey::AutoOff);
        mark_vendor_unknown(&mut caps, CapabilityKey::VoicePrompts);
        mark_vendor_unknown(&mut caps, CapabilityKey::Sidetone);
        mark_vendor_unknown(&mut caps, CapabilityKey::DeviceRename);
        proof {
            reveal_strlit("Not yet investigated on this device. Run Diagnostics to interrogate it.");
            assert forall|i: int| 0 <= i < 14 implies hardware_capability(
                #[trigger] caps@[i],
                key_at(i),
                *obs,
            ) by {
                if i == 0 {
                    assert(caps@[0] == after_battery[0]);
                } else if i == 8 {
                } else {
                }
            }
        }
        caps
    }

    /// The identity an observation supports.
    pub fn identity_from(obs: &Observed, salt: &str) -> (r: Option<DeviceIdentity>)
        ensures
            identity_of(*obs, salt@, r),
    {
        let instance_id = match &obs.instance_id {
            Some(i) => i,
            None => return None,
        };
        let name = match &obs.name {
            Some(n) => n.clone(),
            None => owned("Bose device"),
        };
        Some(
            DeviceIdentity {
                name,
                id: stable_id(salt, instance_id.as_str()),
                instance_id: None,
                manufacturer: Some(owned("Bose")),
                model_number: None,
                firmware_version: None,
                serial_number: None,
            },
        )
    }

    /// The capability set, after a refresh (whose failure leaves the last
    /// observation in place).
    pub fn capabilities(&mut self, scan: Option<&HostScan>) -> (r: CapabilitySet)
        ensures
            final(self).preferred() == old(self).preferred(),
            exists|res: DeviceResult<bool>|
                #[trigger] refreshed(
                    old(self).preferred(),
                    old(self).observed(),
                    final(self).observed(),
                    scanned(scan),
                    res,
                ),
            hardware_capabilities(r, final(self).observed()),
    {
        let res = self.refresh(scan);
        let obs = self.observed.copy();
        self.build_capabilities(&obs)
    }

    /// A full snapshot after a refresh. Noise control and EQ are never
    /// fabricated: there is no verified way to read them.
    pub fn snapshot(&mut self, scan: Option<&HostScan>, salt: &str) -> (r: DeviceResult<
        DeviceSnapshot,
    >)
        ensures
            final(self).preferred() == old(self).preferred(),
            exists|res: DeviceResult<bool>|
                #[trigger] refreshed(
                    old(self).preferred(),
                    old(self).observed(),
                    final(self).observed(),
                    scanned(scan),
                    res,
                ) && match res {
                    Err(e) => r == Err::<DeviceSnapshot, DeviceError>(e),
                    Ok(found) => r matches Ok(snap) && {
                        let obs = final(self).observed();
                        &&& snap.source == DeviceSource::Real
                        &&& snap.connection == if found && obs.connected {
                            ConnectionState::Connected
                        } else {
                            ConnectionState::Disconnected
                        }
                        &&& snap.transport == if obs.connected {
                            Transport::BluetoothClassic
                        } else {
                            Transport::Unavailable
                        }
                        &&& identity_of(obs, salt@, snap.identity)
                        &&& hardware_capabilities(snap.capabilities, obs)
                        &&& battery_of(obs.battery, snap.battery)
                        &&& snap.noise_control is None
                        &&& snap.equalizer is None
                        &&& snap.windows_audio is None
                        &&& snap.last_error is None
                    },
                },
    {
        let found = self.refresh(scan)?;
        let obs = self.observed.copy();
        let connection = if !found {
            ConnectionState::Disconnected
        } else if obs.connected {
            ConnectionState::Connected
        } else {
            ConnectionState::Disconnected
        };
        let now = now_rfc3339();
        Ok(
            DeviceSnapshot {
                source: DeviceSource::Real,
                connection,
                transport: if obs.connected {
                    Transport::BluetoothClassic
                } else {
                    Transport::Unavailable
                },
                identity: Self::identity_from(&obs, salt),
                capabilities: self.build_capabilities(&obs),
                battery: battery_reading(obs.battery),
                noise_control: None,
                equalizer: None,
                windows_audio: None,
                last_error: None,
                updated_at: now,
            },
        )
    }

    /// Windows owns the audio connection of paired headphones: this reports
    /// whether the device is connected rather than forcing a connection.
    pub fn connect(&mut self, scan: Option<&HostScan>) -> (r: DeviceResult<CommandOutcome>)
        ensures
            final(self).preferred() == old(self).preferred(),
            exists|res: DeviceResult<bool>|
                #[trigger] refreshed(
                    old(self).preferred(),
                    old(self).observed(),
                    final(self).observed(),
                    scanned(scan),
                    res,
                ) && match res {
                    Err(e) => r == Err::<CommandOutcome, DeviceError>(e),
                    Ok(false) => r == Err::<CommandOutcome, DeviceError>(DeviceError::Unreachable),
                    Ok(true) => if final(self).observed().connected {
                        r matches Ok(o) && o is Applied
                    } else {
                        r matches Ok(CommandOutcome::SentUnverified { reason })
                            && reason@ == "Windows manages the audio connection for paired headphones. Power the headphones on and Windows will connect them automatically."@
                    },
                },
    {
        let found = self.refresh(scan)?;
        if !found {
            return Err(DeviceError::Unreachable);
        }
        if self.observed.connected {
            Ok(CommandOutcome::applied())
        } else {
            Ok(
                CommandOutcome::sent_unverified(
                    "Windows manages the audio connection for paired headphones. Power the headphones on and Windows will connect them automatically.",
                ),
            )
        }
    }

    /// Disconnecting a paired audio device is Windows's business.
    pub fn disconnect(&self) -> (r: DeviceResult<CommandOutcome>)
        ensures
            r matches Ok(CommandOutcome::Unsupported { reason })
                && reason@ == "Disconnecting a paired audio device is managed by Windows. Use Windows Settings > Bluetooth & devices."@,
    {
        Ok(
            CommandOutcome::unsupported(
                "Disconnecting a paired audio device is managed by Windows. Use Windows Settings > Bluetooth & devices.",
            ),
        )
    }

    /// The identity, after a refresh.
    pub fn device_info(&mut self, scan: Option<&HostScan>, salt: &str) -> (r: DeviceResult<
        Option<DeviceIdentity>,
    >)
        ensures
            final(self).preferred() == old(self).preferred(),
            exists|res: DeviceResult<bool>|
                #[trigger] refreshed(
                    old(self).preferred(),
                    old(self).observed(),
                    final(self).observed(),
                    scanned(scan),
                    res,
                ) && match res {
                    Err(e) => r == Err::<Option<DeviceIdentity>, DeviceError>(e),
                    Ok(_) => r matches Ok(i) && identity_of(final(self).observed(), salt@, i),
                },
    {
        self.refresh(scan)?;
        let obs = self.observed.copy();
        Ok(Self::identity_from(&obs, salt))
    }

    /// The battery level Windows reports, after a refresh.
    pub fn battery(&mut self, scan: Option<&HostScan>) -> (r: DeviceResult<Option<BatteryReading>>)
        ensures
            final(self).preferred() == old(self).preferred(),
            exists|res: DeviceResult<bool>|
                #[trigger] refreshed(
                    old(self).preferred(),
                    old(self).observed(),
                    final(self).observed(),
                    scanned(scan),
                    res,
                ) && match res {
                    Err(e) => r == Err::<Option<BatteryReading>, DeviceError>(e),
                    Ok(_) => r matches Ok(b) && battery_of(final(self).observed().battery, b),
                },
    {
        self.refresh(scan)?;
        Ok(battery_reading(self.observed.battery))
    }

    /// Unknown, and said so: not an error, and not a plausible default.
    pub fn noise_control(&self) -> (r: DeviceResult<Option<NoiseControlState>>)
        ensures
            r == Ok::<Option<NoiseControlState>, DeviceError>(None),
    {
        Ok(None)
    }

    /// Refused until a vendor protocol is verified.
    pub fn set_noise_control(&self, mode: NoiseControlMode) -> (r: DeviceResult<CommandOutcome>)
        ensures
            r matches Ok(CommandOutcome::Unsupported { reason })
                && reason@ == NO_VERIFIED_VENDOR_PROTOCOL@,
    {
        Ok(CommandOutcome::unsupported(NO_VERIFIED_VENDOR_PROTOCOL))
    }

    /// Unknown, and said so.
    pub fn equalizer(&self) -> (r: DeviceResult<Option<EqState>>)
        ensures
            r == Ok::<Option<EqState>, DeviceError>(None),
    {
        Ok(None)
    }

    /// Refused until a vendor protocol is verified.
    pub fn set_equalizer(&self, settings: EqSettings) -> (r: DeviceResult<CommandOutcome>)
        ensures
            r matches Ok(CommandOutcome::Unsupported { reason })
                && reason@ == NO_VERIFIED_VENDOR_PROTOCOL@,
    {
        Ok(CommandOutcome::unsupported(NO_VERIFIED_VENDOR_PROTOCOL))
    }
}

/// A device that never reported battery is not described as having
/// verified battery support: the battery capability is hardware-verified
/// exactly when a device is observed and a level was actually read from it.
pub proof fn law_battery_verified_only_once_read(caps: CapabilitySet, obs: Observed)
    requires
        hardware_capabilities(caps, obs),
    ensures
        caps.spec_get(CapabilityKey::Battery).hardware_verified <==> (obs.instance_id is Some
            && obs.battery_ever_read),
        caps.spec_get(CapabilityKey::Battery).status == CapabilityStatus::Verified <==> (
        obs.instance_id is Some && obs.battery_ever_read),
{
    assert(hardware_capability(caps@[0], key_at(0), obs));
}

/// Presence of the device is no evidence about the vendor protocol: every
/// capability that needs it stays unknown, whatever was observed.
pub proof fn law_vendor_capabilities_stay_unknown(caps: CapabilitySet, obs: Observed, k: CapabilityKey)
    requires
        hardware_capabilities(caps, obs),
        is_vendor_key(k),
    ensures
        caps.spec_get(k).status == CapabilityStatus::Unknown,
        !caps.spec_get(k).hardware_verified,
{
    crate::device::capability::lemma_key_index_roundtrip(k);
    assert(hardware_capability(caps@[key_index(k)], key_at(key_index(k)), obs));
}

/// Without a device, nothing is known: every capability is unknown and
/// none is hardware-verified.
pub proof fn law_nothing_known_without_device(caps: CapabilitySet, obs: Observed)
    requires
        hardware_capabilities(caps, obs),
        obs.instance_id is None,
    ensures
        forall|i: int| 0 <= i < 14 ==> (#[trigger] caps@[i]).status == CapabilityStatus::Unknown,
        crate::device::capability::count_verified(caps@) == 0,
{
    assert forall|i: int| 0 <= i < caps@.len() implies !(#[trigger] caps@[i]).hardware_verified by {
        assert(hardware_capability(caps@[i], key_at(i), obs));
    }
    crate::device::capability::lemma_count_verified_zero(caps@);
}

/// Only battery and identity are ever hardware-verified by this backend.
pub proof fn law_only_windows_evidence_verifies(caps: CapabilitySet, obs: Observed, k: CapabilityKey)
    requires
        hardware_capabilities(caps, obs),
        k != CapabilityKey::Battery,
        k != CapabilityKey::DeviceSettings,
    ensures
        !caps.spec_get(k).hardware_verified,
{
    crate::device::capability::lemma_key_index_roundtrip(k);
    assert(hardware_capability(caps@[key_index(k)], key_at(key_index(k)), obs));
}

} // verus!
