//! The simulated device.
//!
//! It lets the whole application run without physical headphones, and it is
//! honest about what it is: every reading carries a `Simulated` provenance
//! tag, its capabilities are `Experimental` and never hardware-verified, and
//! it simulates imperfection (unverified writes, failing reads) so that the
//! error paths are exercised too.

use crate::device::capability::{
    count_verified, key_at, key_index, lemma_count_verified_zero, CapabilityKey, CapabilitySet,
    CapabilityStatus, Mechanism,
};
use crate::device::command::CommandOutcome;
use crate::device::state::{
    eq_in_range, BatteryReading, BatterySource, ConnectionState, DeviceIdentity, DeviceSnapshot,
    DeviceSource, EqSettings, EqState, NoiseControlMode, NoiseControlState, StateSource, Transport,
};
use crate::device::{now_rfc3339, DeviceError, DeviceResult};
use crate::text::{is_whitespace, owned};
use vstd::prelude::*;

verus! {

/// Tunables for simulating a less-than-perfect device.
#[derive(Debug, Clone, Copy, PartialEq, Eq, Structural)]
pub struct MockBehaviour {
    /// Every Nth mutating command returns `SentUnverified` instead of
    /// `Applied`. 0 disables.
    pub unverified_every: u64,
    /// Every Nth read fails with `Unreachable`. 0 disables.
    pub read_failure_every: u64,
    /// Battery drains one point every N snapshot reads. 0 disables.
    pub drain_every: u64,
}

impl Default for MockBehaviour {
    fn default() -> (r: Self)
        ensures
            r == (MockBehaviour { unverified_every: 7, read_failure_every: 0, drain_every: 25 }),
    {
        MockBehaviour { unverified_every: 7, read_failure_every: 0, drain_every: 25 }
    }
}

impl MockBehaviour {
    /// Fully deterministic and always succeeding.
    pub fn perfect() -> (r: Self)
        ensures
            r == (MockBehaviour { unverified_every: 0, read_failure_every: 0, drain_every: 0 }),
    {
        MockBehaviour { unverified_every: 0, read_failure_every: 0, drain_every: 0 }
    }
}

/// The simulated device's internal state.
#[derive(Debug, Clone, Copy, PartialEq, Eq, Structural)]
pub struct MockState {
    pub connection: ConnectionState,
    pub battery_percent: u8,
    pub charging: bool,
    pub noise_mode: NoiseControlMode,
    pub noise_level: u8,
    pub eq: EqSettings,
}

/// The state a fresh simulated device starts in.
pub open spec fn initial_mock_state() -> MockState {
    MockState {
        connection: ConnectionState::Disconnected,
        battery_percent: 78,
        charging: false,
        noise_mode: NoiseControlMode::Quiet,
        noise_level: 10,
        eq: EqSettings { bass: 0, mid: 0, treble: 0 },
    }
}

/// A counter advanced by one, wrapping at the top as an atomic `fetch_add`
/// does.
pub open spec fn next_count(c: u64) -> u64 {
    if c == u64::MAX {
        0
    } else {
        (c + 1) as u64
    }
}

/// The keys the simulated device claims (experimentally) to handle.
pub open spec fn is_simulated_key(k: CapabilityKey) -> bool {
    ||| k == CapabilityKey::Battery
    ||| k == CapabilityKey::NoiseControl
    ||| k == CapabilityKey::AwareMode
    ||| k == CapabilityKey::Equalizer
    ||| k == CapabilityKey::CustomNoiseControl
    ||| k == CapabilityKey::FirmwareVersion
}

/// Evidence text on every simulated capability.
pub open spec fn simulated_note() -> Seq<char> {
    "Simulated by the mock backend. This is evidence about the application, not about any physical device."@
}

/// Reason text on the capabilities the simulation does not touch.
pub open spec fn simulated_untouched_reason() -> Seq<char> {
    "Simulated device: no real hardware interrogated."@
}

/// Reason text on every capability while the simulated device is
/// disconnected.
pub open spec fn simulated_disconnected_reason() -> Seq<char> {
    "Simulated device is disconnected."@
}

/// The capability set of the simulated device: while connected, the
/// simulated keys are `Experimental` and the rest `Unknown`; while
/// disconnected, everything is `Unknown`. Nothing is ever hardware-verified.
pub open spec fn mock_capabilities(caps: CapabilitySet, connected: bool) -> bool {
    &&& caps.wf()
    &&& forall|i: int|
        0 <= i < 14 ==> {
            &&& !(#[trigger] caps@[i]).hardware_verified
            &&& caps@[i].mechanism == Mechanism::Unassigned
            &&& if connected && is_simulated_key(key_at(i)) {
                &&& caps@[i].status == CapabilityStatus::Experimental
                &&& caps@[i].evidence@ == simulated_note()
                &&& caps@[i].last_evaluated is Some
            } else {
                &&& caps@[i].status == CapabilityStatus::Unknown
                &&& caps@[i].evidence@ == if connected {
                    simulated_untouched_reason()
                } else {
                    simulated_disconnected_reason()
                }
                &&& caps@[i].last_evaluated is None
            }
        }
}

/// The self-labelling identity of the simulated device.
pub open spec fn mock_identity(i: DeviceIdentity) -> bool {
    &&& i.name@ == "Bose QuietComfort (SIMULATED)"@
    &&& i.id@ == "mock-0000-0000-0000"@
    &&& i.instance_id is None
    &&& i.manufacturer matches Some(m) && m@ == "Simulated"@
    &&& i.model_number matches Some(m) && m@ == "MOCK-QC"@
    &&& i.firmware_version matches Some(f) && f@ == "0.0.0-simulated"@
    &&& i.serial_number is None
}

/// A battery reading of the simulated device in state `s`.
pub open spec fn mock_battery(b: BatteryReading, s: MockState) -> bool {
    &&& b.percent == s.battery_percent
    &&& b.source == BatterySource::Simulated
    &&& b.charging == Some(s.charging)
}

/// A noise-control reading of the simulated device in state `s`.
pub open spec fn mock_noise(n: NoiseControlState, s: MockState) -> bool {
    &&& n.mode == s.noise_mode
    &&& n.level == Some(s.noise_level)
    &&& n.source == StateSource::Simulated
}

/// An EQ reading of the simulated device in state `s`.
pub open spec fn mock_eq(e: EqState, s: MockState) -> bool {
    &&& e.settings == s.eq
    &&& e.source == StateSource::Simulated
}

/// The snapshot of the simulated device in state `s`: every reading is
/// present exactly while connected, and Windows audio is never fabricated.
pub open spec fn mock_snapshot(snap: DeviceSnapshot, s: MockState) -> bool {
    let connected = s.connection == ConnectionState::Connected;
    &&& snap.source == DeviceSource::Mock
    &&& snap.connection == s.connection
    &&& snap.transport == if connected {
        Transport::Simulated
    } else {
        Transport::Unavailable
    }
    &&& mock_capabilities(snap.capabilities, connected)
    &&& if connected {
        &&& snap.identity matches Some(i) && mock_identity(i)
        &&& snap.battery matches Some(b) && mock_battery(b, s)
        &&& snap.noise_control matches Some(n) && mock_noise(n, s)
        &&& snap.equalizer matches Some(e) && mock_eq(e, s)
    } else {
        &&& snap.identity is None
        &&& snap.battery is None
        &&& snap.noise_control is None
        &&& snap.equalizer is None
    }
    &&& snap.windows_audio is None
    &&& snap.last_error is None
}

/// The battery drain applied by a snapshot: one point, when draining is on,
/// the device is connected, the level is above 1, and this snapshot read is
/// the Nth (its number `n` is a multiple of the drain period).
pub open spec fn drained(s: MockState, b: MockBehaviour, n: u64) -> MockState {
    if b.drain_every > 0 && s.connection == ConnectionState::Connected && s.battery_percent > 1
        && n % b.drain_every == 0 {
        MockState { battery_percent: (s.battery_percent - 1) as u8, ..s }
    } else {
        s
    }
}

/// The mutation counter after one mutating command: advanced by one while
/// unverified writes are switched on, untouched otherwise.
pub open spec fn mutation_counted(before: MockBoseDevice, after: MockBoseDevice) -> bool {
    after.mutations() == if before.behaviour().unverified_every == 0 {
        before.mutations()
    } else {
        next_count(before.mutations())
    }
}

/// Whether the next mutating command is the Nth one, N the period of
/// unconfirmed writes (never, when that period is 0).
pub open spec fn next_mutation_unconfirmed(d: MockBoseDevice) -> bool {
    d.behaviour().unverified_every != 0 && next_count(d.mutations())
        % d.behaviour().unverified_every == 0
}

/// The answer to a mutating command: `SentUnverified` with `reason` when it
/// is the Nth one, `Applied` otherwise.
pub open spec fn unconfirmed_on_schedule(
    before: MockBoseDevice,
    r: DeviceResult<CommandOutcome>,
    reason: Seq<char>,
) -> bool {
    if next_mutation_unconfirmed(before) {
        r matches Ok(CommandOutcome::SentUnverified { reason: m }) && m@ == reason
    } else {
        r matches Ok(o) && o is Applied
    }
}

/// The simulated headphones.
pub struct MockBoseDevice {
    state: MockState,
    behaviour: MockBehaviour,
    mutation_count: u64,
    read_count: u64,
    snapshot_count: u64,
}

impl Default for MockBoseDevice {
    fn default() -> (r: Self)
        ensures
            r.state() == initial_mock_state(),
            r.behaviour() == (MockBehaviour {
                unverified_every: 7,
                read_failure_every: 0,
                drain_every: 25,
            }),
            r.reads() == 0,
            r.mutations() == 0,
            r.snapshots() == 0,
    {
        MockBoseDevice::new(MockBehaviour::default())
    }
}

impl MockBoseDevice {
    /// The device's current state.
    pub closed spec fn state(&self) -> MockState {
        self.state
    }

    /// The tunables it was made with.
    pub closed spec fn behaviour(&self) -> MockBehaviour {
        self.behaviour
    }

    /// Reads counted so far (advanced only while read failures are on).
    pub closed spec fn reads(&self) -> u64 {
        self.read_count
    }

    /// Mutations counted so far (advanced only while unverified writes are
    /// on).
    pub closed spec fn mutations(&self) -> u64 {
        self.mutation_count
    }

    /// Snapshot reads counted so far.
    pub closed spec fn snapshots(&self) -> u64 {
        self.snapshot_count
    }

    pub fn new(behaviour: MockBehaviour) -> (r: Self)
        ensures
            r.state() == initial_mock_state(),
            r.behaviour() == behaviour,
            r.reads() == 0,
            r.mutations() == 0,
            r.snapshots() == 0,
    {
        MockBoseDevice {
            state: MockState {
                connection: ConnectionState::Disconnected,
                battery_percent: 78,
                charging: false,
                noise_mode: NoiseControlMode::Quiet,
                noise_level: 10,
                eq: EqSettings::flat(),
            },
            behaviour,
            mutation_count: 0,
            read_count: 0,
            snapshot_count: 0,
        }
    }

    /// Which backend this is.
    pub fn source(&self) -> (r: DeviceSource)
        ensures
            r == DeviceSource::Mock,
    {
        DeviceSource::Mock
    }

    /// The identity it reports; the name carries the SIMULATED label so that
    /// not even a screenshot out of context can pass for real hardware.
    pub fn identity() -> (r: DeviceIdentity)
        ensures
            mock_identity(r),
    {
        DeviceIdentity {
            name: owned("Bose QuietComfort (SIMULATED)"),
            id: owned("mock-0000-0000-0000"),
            instance_id: None,
            manufacturer: Some(owned("Simulated")),
            model_number: Some(owned("MOCK-QC")),
            firmware_version: Some(owned("0.0.0-simulated")),
            serial_number: None,
        }
    }

    /// The capability set while connected: the simulated keys are
    /// `Experimental`, nothing is hardware-verified.
    pub fn simulated_capabilities() -> (r: CapabilitySet)
        ensures
            mock_capabilities(r, true),
    {
        let mut caps = CapabilitySet::all_unknown("Simulated device: no real hardware interrogated.");
        let note: &str = "Simulated by the mock backend. This is evidence about the application, not about any physical device.";
        proof {
            reveal_strlit("Simulated by the mock backend. This is evidence about the application, not about any physical device.");
            assert(!is_whitespace(note@[0]));
        }
        mark_simulated(&mut caps, CapabilityKey::Battery, note);
        mark_simulated(&mut caps, CapabilityKey::NoiseControl, note);
        mark_simulated(&mut caps, CapabilityKey::AwareMode, note);
        mark_simulated(&mut caps, CapabilityKey::Equalizer, note);
        mark_simulated(&mut caps, CapabilityKey::CustomNoiseControl, note);
        mark_simulated(&mut caps, CapabilityKey::FirmwareVersion, note);
        assert forall|i: int| 0 <= i < 14 implies !is_simulated_key(key_at(i)) ==> (
        caps@[i].status == CapabilityStatus::Unknown) by {}
        caps
    }

    /// Whether this read should fail; advances the read counter while
    /// failures are switched on.
    pub fn should_fail_read(&mut self) -> (r: bool)
        ensures
            final(self).state() == old(self).state(),
            final(self).behaviour() == old(self).behaviour(),
            final(self).mutations() == old(self).mutations(),
            final(self).snapshots() == old(self).snapshots(),
            old(self).behaviour().read_failure_every == 0 ==> !r && final(self).reads() == old(
                self,
            ).reads(),
            old(self).behaviour().read_failure_every != 0 ==> {
                &&& final(self).reads() == next_count(old(self).reads())
                &&& r == (final(self).reads() % old(self).behaviour().read_failure_every == 0)
            },
    {
        if self.behaviour.read_failure_every == 0 {
            return false;
        }
        let n: u64 = if self.read_count == u64::MAX {
            0
        } else {
            self.read_count + 1
        };
        self.read_count = n;
        n % self.behaviour.read_failure_every == 0
    }

    /// Whether this mutation should go unconfirmed; advances the mutation
    /// counter while unverified writes are switched on.
    pub fn should_be_unverified(&mut self) -> (r: bool)
        ensures
            final(self).state() == old(self).state(),
            final(self).behaviour() == old(self).behaviour(),
            final(self).reads() == old(self).reads(),
            final(self).snapshots() == old(self).snapshots(),
            old(self).behaviour().unverified_every == 0 ==> !r && final(self).mutations() == old(
                self,
            ).mutations(),
            old(self).behaviour().unverified_every != 0 ==> {
                &&& final(self).mutations() == next_count(old(self).mutations())
                &&& r == (final(self).mutations() % old(self).behaviour().unverified_every == 0)
            },
    {
        if self.behaviour.unverified_every == 0 {
            return false;
        }
        let n: u64 = if self.mutation_count == u64::MAX {
            0
        } else {
            self.mutation_count + 1
        };
        self.mutation_count = n;
        n % self.behaviour.unverified_every == 0
    }

    /// `Ok` exactly when connected.
    pub fn require_connected(&self) -> (r: DeviceResult<()>)
        ensures
            r == if self.state().connection == ConnectionState::Connected {
                Ok::<(), DeviceError>(())
            } else {
                Err(DeviceError::NotConnected)
            },
    {
        match self.state.connection {
            ConnectionState::Connected => Ok(()),
            _ => Err(DeviceError::NotConnected),
        }
    }

    /// Current capability set.
    pub fn capabilities(&self) -> (r: CapabilitySet)
        ensures
            mock_capabilities(r, self.state().connection == ConnectionState::Connected),
    {
        let connected = matches!(self.state.connection, ConnectionState::Connected);
        if connected {
            Self::simulated_capabilities()
        } else {
            CapabilitySet::all_unknown("Simulated device is disconnected.")
        }
    }

    /// A full snapshot. Each snapshot read is counted; on every Nth one
    /// (N the drain period) a connected device above 1% first loses one
    /// point of battery.
    pub fn snapshot(&mut self) -> (r: DeviceResult<DeviceSnapshot>)
        ensures
            final(self).snapshots() == next_count(old(self).snapshots()),
            final(self).state() == drained(
                old(self).state(),
                old(self).behaviour(),
                next_count(old(self).snapshots()),
            ),
            final(self).behaviour() == old(self).behaviour(),
            final(self).reads() == old(self).reads(),
            final(self).mutations() == old(self).mutations(),
            r matches Ok(snap) && mock_snapshot(snap, final(self).state()),
    {
        let n: u64 = if self.snapshot_count == u64::MAX {
            0
        } else {
            self.snapshot_count + 1
        };
        self.snapshot_count = n;
        if self.behaviour.drain_every > 0 && matches!(
            self.state.connection,
            ConnectionState::Connected
        ) && self.state.battery_percent > 1 && n % self.behaviour.drain_every == 0 {
            self.state.battery_percent = self.state.battery_percent - 1;
        }
        let s = self.state;
        let connected = matches!(s.connection, ConnectionState::Connected);
        let now = now_rfc3339();
        let capabilities = self.capabilities();
        Ok(DeviceSnapshot {
            source: DeviceSource::Mock,
            connection: s.connection,
            transport: if connected {
                Transport::Simulated
            } else {
                Transport::Unavailable
            },
            identity: if connected {
                Some(Self::identity())
            } else {
                None
            },
            capabilities,
            battery: if connected {
                Some(
                    BatteryReading {
                        percent: s.battery_percent,
                        source: BatterySource::Simulated,
                        charging: Some(s.charging),
                        read_at: now.clone(),
                    },
                )
            } else {
                None
            },
            noise_control: if connected {
                Some(
                    NoiseControlState {
                        mode: s.noise_mode,
                        level: Some(s.noise_level),
                        source: StateSource::Simulated,
                        read_at: now.clone(),
                    },
                )
            } else {
                None
            },
            equalizer: if connected {
                Some(EqState { settings: s.eq, source: StateSource::Simulated, read_at: now.clone() })
            } else {
                None
            },
            windows_audio: None,
            last_error: None,
            updated_at: now,
        })
    }

    /// Connects. The connection is always made; on the simulation's
    /// schedule (every Nth mutating command) it is reported as unconfirmed.
    pub fn connect(&mut self) -> (r: DeviceResult<CommandOutcome>)
        ensures
            final(self).state() == (MockState {
                connection: ConnectionState::Connected,
                ..old(self).state()
            }),
            final(self).behaviour() == old(self).behaviour(),
            final(self).reads() == old(self).reads(),
            final(self).snapshots() == old(self).snapshots(),
            mutation_counted(*old(self), *final(self)),
            unconfirmed_on_schedule(*old(self), r, "Simulated device did not confirm the connection."@),
    {
        let unverified = self.should_be_unverified();
        self.state.connection = ConnectionState::Connected;
        if unverified {
            return Ok(CommandOutcome::sent_unverified("Simulated device did not confirm the connection."));
        }
        Ok(CommandOutcome::applied())
    }

    /// Disconnects. The link is always dropped; on the simulation's schedule
    /// (every Nth mutating command) it is reported as unconfirmed.
    pub fn disconnect(&mut self) -> (r: DeviceResult<CommandOutcome>)
        ensures
            final(self).state() == (MockState {
                connection: ConnectionState::Disconnected,
                ..old(self).state()
            }),
            final(self).behaviour() == old(self).behaviour(),
            final(self).reads() == old(self).reads(),
            final(self).snapshots() == old(self).snapshots(),
            mutation_counted(*old(self), *final(self)),
            unconfirmed_on_schedule(*old(self), r, "Simulated device did not confirm the disconnection."@),
    {
        let unverified = self.should_be_unverified();
        self.state.connection = ConnectionState::Disconnected;
        if unverified {
            return Ok(CommandOutcome::sent_unverified("Simulated device did not confirm the disconnection."));
        }
        Ok(CommandOutcome::applied())
    }

    /// The identity, when connected.
    pub fn device_info(&self) -> (r: DeviceResult<Option<DeviceIdentity>>)
        ensures
            self.state().connection == ConnectionState::Connected ==> (r matches Ok(Some(i))
                && mock_identity(i)),
            self.state().connection != ConnectionState::Connected ==> r == Err::<
                Option<DeviceIdentity>,
                DeviceError,
            >(DeviceError::NotConnected),
    {
        self.require_connected()?;
        Ok(Some(Self::identity()))
    }

    /// The battery reading, when connected and the read does not (by the
    /// simulation's schedule) fail.
    pub fn battery(&mut self) -> (r: DeviceResult<Option<BatteryReading>>)
        ensures
            final(self).snapshots() == old(self).snapshots(),
            final(self).state() == old(self).state(),
            final(self).behaviour() == old(self).behaviour(),
            final(self).mutations() == old(self).mutations(),
            old(self).state().connection != ConnectionState::Connected ==> {
                &&& r == Err::<Option<BatteryReading>, DeviceError>(DeviceError::NotConnected)
                &&& final(self).reads() == old(self).reads()
            },
            old(self).state().connection == ConnectionState::Connected ==> {
                let every = old(self).behaviour().read_failure_every;
                let fails = every != 0 && next_count(old(self).reads()) % every == 0;
                &&& final(self).reads() == if every == 0 {
                    old(self).reads()
                } else {
                    next_count(old(self).reads())
                }
                &&& fails ==> r == Err::<Option<BatteryReading>, DeviceError>(
                    DeviceError::Unreachable,
                )
                &&& !fails ==> (r matches Ok(Some(b)) && mock_battery(b, old(self).state()))
            },
    {
        self.require_connected()?;
        if self.should_fail_read() {
            return Err(DeviceError::Unreachable);
        }
        Ok(
            Some(
                BatteryReading {
                    percent: self.state.battery_percent,
                    source: BatterySource::Simulated,
                    charging: Some(self.state.charging),
                    read_at: now_rfc3339(),
                },
            ),
        )
    }

    /// The noise-control state, when connected.
    pub fn noise_control(&self) -> (r: DeviceResult<Option<NoiseControlState>>)
        ensures
            self.state().connection == ConnectionState::Connected ==> (r matches Ok(Some(n))
                && mock_noise(n, self.state())),
            self.state().connection != ConnectionState::Connected ==> r == Err::<
                Option<NoiseControlState>,
                DeviceError,
            >(DeviceError::NotConnected),
    {
        self.require_connected()?;
        Ok(
            Some(
                NoiseControlState {
                    mode: self.state.noise_mode,
                    level: Some(self.state.noise_level),
                    source: StateSource::Simulated,
                    read_at: now_rfc3339(),
                },
            ),
        )
    }

    /// Sets the noise-control mode, then reads it back. On the simulation's
    /// schedule the change is made but reported as unconfirmed.
    pub fn set_noise_control(&mut self, mode: NoiseControlMode) -> (r: DeviceResult<CommandOutcome>)
        ensures
            final(self).snapshots() == old(self).snapshots(),
            final(self).behaviour() == old(self).behaviour(),
            final(self).reads() == old(self).reads(),
            old(self).state().connection != ConnectionState::Connected ==> {
                &&& r == Err::<CommandOutcome, DeviceError>(DeviceError::NotConnected)
                &&& final(self).state() == old(self).state()
                &&& final(self).mutations() == old(self).mutations()
            },
            old(self).state().connection == ConnectionState::Connected ==> {
                let every = old(self).behaviour().unverified_every;
                let unconfirmed = every != 0 && next_count(old(self).mutations()) % every == 0;
                &&& final(self).state() == (MockState { noise_mode: mode, ..old(self).state() })
                &&& final(self).mutations() == if every == 0 {
                    old(self).mutations()
                } else {
                    next_count(old(self).mutations())
                }
                &&& unconfirmed ==> (r matches Ok(CommandOutcome::SentUnverified { reason })
                    && reason@ == "Simulated device did not echo the new mode."@)
                &&& !unconfirmed ==> (r matches Ok(o) && o is Applied)
            },
    {
        self.require_connected()?;
        if self.should_be_unverified() {
            self.state.noise_mode = mode;
            return Ok(CommandOutcome::sent_unverified("Simulated device did not echo the new mode."));
        }
        self.state.noise_mode = mode;
        let readback = self.state.noise_mode;
        if readback == mode {
            Ok(CommandOutcome::applied())
        } else {
            Ok(CommandOutcome::sent_unverified("Readback did not match the requested mode."))
        }
    }

    /// The EQ state, when connected.
    pub fn equalizer(&self) -> (r: DeviceResult<Option<EqState>>)
        ensures
            self.state().connection == ConnectionState::Connected ==> (r matches Ok(Some(e))
                && mock_eq(e, self.state())),
            self.state().connection != ConnectionState::Connected ==> r == Err::<
                Option<EqState>,
                DeviceError,
            >(DeviceError::NotConnected),
    {
        self.require_connected()?;
        Ok(Some(EqState { settings: self.state.eq, source: StateSource::Simulated, read_at: now_rfc3339() }))
    }

    /// Sets the EQ, refusing gains out of range, then reads it back. On the
    /// simulation's schedule (every Nth mutating command) the change is made
    /// but reported as unconfirmed.
    pub fn set_equalizer(&mut self, settings: EqSettings) -> (r: DeviceResult<CommandOutcome>)
        ensures
            final(self).behaviour() == old(self).behaviour(),
            final(self).reads() == old(self).reads(),
            final(self).snapshots() == old(self).snapshots(),
            old(self).state().connection != ConnectionState::Connected ==> {
                &&& r == Err::<CommandOutcome, DeviceError>(DeviceError::NotConnected)
                &&& final(self).state() == old(self).state()
                &&& final(self).mutations() == old(self).mutations()
            },
            old(self).state().connection == ConnectionState::Connected && !eq_in_range(settings)
                ==> {
                &&& r matches Err(DeviceError::InvalidInput(m)) && m@ == "EQ gains out of range"@
                &&& final(self).state() == old(self).state()
                &&& final(self).mutations() == old(self).mutations()
            },
            old(self).state().connection == ConnectionState::Connected && eq_in_range(settings)
                ==> {
                &&& final(self).state() == (MockState { eq: settings, ..old(self).state() })
                &&& mutation_counted(*old(self), *final(self))
                &&& unconfirmed_on_schedule(*old(self), r, "Simulated device did not echo the new EQ."@)
            },
    {
        self.require_connected()?;
        if !settings.is_within_range() {
            return Err(DeviceError::InvalidInput(owned("EQ gains out of range")));
        }
        if self.should_be_unverified() {
            self.state.eq = settings;
            return Ok(CommandOutcome::sent_unverified("Simulated device did not echo the new EQ."));
        }
        self.state.eq = settings;
        let readback = self.state.eq;
        if readback == settings {
            Ok(CommandOutcome::applied())
        } else {
            Ok(CommandOutcome::sent_unverified("Readback mismatch."))
        }
    }
}

/// Marks one key of a fresh simulated set `Experimental`.
fn mark_simulated(caps: &mut CapabilitySet, key: CapabilityKey, note: &str)
    requires
        old(caps).wf(),
        old(caps).spec_get(key).status == CapabilityStatus::Unknown,
        !crate::text::all_whitespace(note@),
    ensures
        final(caps).wf(),
        final(caps)@ == old(caps)@.update(
            key_index(key),
            final(caps)@[key_index(key)],
        ),
        final(caps)@[key_index(key)].status == CapabilityStatus::Experimental,
        final(caps)@[key_index(key)].mechanism == Mechanism::Unassigned,
        final(caps)@[key_index(key)].hardware_verified == old(caps)@[key_index(key)].hardware_verified,
        final(caps)@[key_index(key)].evidence@ == note@,
        final(caps)@[key_index(key)].last_evaluated is Some,
{
    let r = caps.get_mut(key).mark_experimental(Mechanism::Unassigned, note);
    assert(r is Ok);
}

/// The simulated device can never make the application believe a real
/// capability was verified: whatever its state, no capability it reports is
/// hardware-verified or `Verified`.
pub proof fn law_mock_never_hardware_verified(caps: CapabilitySet, connected: bool)
    requires
        mock_capabilities(caps, connected),
    ensures
        count_verified(caps@) == 0,
        forall|i: int| 0 <= i < caps@.len() ==> (#[trigger] caps@[i]).status != CapabilityStatus::Verified,
{
    lemma_count_verified_zero(caps@);
}

/// The simulated device reveals readings exactly while connected: before
/// connecting, and after disconnecting, its snapshot holds no identity, no
/// battery, no noise control and no EQ; while connected it holds all four,
/// each labelled simulated.
pub proof fn law_mock_reveals_readings_only_while_connected(snap: DeviceSnapshot, s: MockState)
    requires
        mock_snapshot(snap, s),
    ensures
        snap.identity is Some <==> s.connection == ConnectionState::Connected,
        snap.battery is Some <==> s.connection == ConnectionState::Connected,
        snap.noise_control is Some <==> s.connection == ConnectionState::Connected,
        snap.equalizer is Some <==> s.connection == ConnectionState::Connected,
        snap.battery matches Some(b) ==> b.source == BatterySource::Simulated,
        snap.source == DeviceSource::Mock,
        snap.windows_audio is None,
{
}

/// Setting the noise-control mode on a connected simulated device and
/// reading it back gives the mode that was set.
pub proof fn law_mock_noise_control_round_trips(s: MockState, mode: NoiseControlMode, n: NoiseControlState)
    requires
        s.connection == ConnectionState::Connected,
        mock_noise(n, MockState { noise_mode: mode, ..s }),
    ensures
        n.mode == mode,
{
}

} // verus!
