//! The capability engine.
//!
//! A feature is described as working only when the physical device
//! demonstrated it. `Verified` is reachable through exactly one transition,
//! [`Capability::verify_with_hardware`], which consumes a [`HardwareProof`];
//! and a proof can only be built from an observed *change* in device-reported
//! state, or from a value the device volunteered.

use crate::text::{all_whitespace, debug_quoted, debug_str, is_blank, owned, push_str};
use vstd::prelude::*;

verus! {

/// How much we actually know about a feature.
///
/// The ordering of variants is not a ranking of quality, so no ordering is
/// derived.
#[derive(Debug, Clone, Copy, PartialEq, Eq, Structural)]
pub enum CapabilityStatus {
    /// We have not established whether the feature is accessible.
    Unknown,
    /// A technically valid interface appears to expose the feature, but it
    /// has not been confirmed on the user's physical device.
    Supported,
    /// The physical device was tested and the feature was confirmed.
    Verified,
    /// Evidence suggests the feature may work; verification is incomplete.
    Experimental,
    /// The feature cannot currently be accessed safely.
    Unsupported,
}

pub open spec fn spec_status_label(s: CapabilityStatus) -> Seq<char> {
    match s {
        CapabilityStatus::Unknown => "UNKNOWN"@,
        CapabilityStatus::Supported => "SUPPORTED"@,
        CapabilityStatus::Verified => "VERIFIED"@,
        CapabilityStatus::Experimental => "EXPERIMENTAL"@,
        CapabilityStatus::Unsupported => "UNSUPPORTED"@,
    }
}

impl CapabilityStatus {
    pub fn label(self) -> (r: &'static str)
        ensures
            r@ == spec_status_label(self),
    {
        match self {
            CapabilityStatus::Unknown => "UNKNOWN",
            CapabilityStatus::Supported => "SUPPORTED",
            CapabilityStatus::Verified => "VERIFIED",
            CapabilityStatus::Experimental => "EXPERIMENTAL",
            CapabilityStatus::Unsupported => "UNSUPPORTED",
        }
    }

    /// Whether the UI may treat this as a working control with no caveat.
    pub fn is_actionable(self) -> (r: bool)
        ensures
            r == (self == CapabilityStatus::Verified),
    {
        matches!(self, CapabilityStatus::Verified)
    }

    /// Whether interaction is permitted but must carry an "unverified" caveat.
    pub fn requires_caveat(self) -> (r: bool)
        ensures
            r == (self == CapabilityStatus::Supported || self == CapabilityStatus::Experimental),
    {
        matches!(self, CapabilityStatus::Supported | CapabilityStatus::Experimental)
    }
}

/// The features tracked.
#[derive(Debug, Clone, Copy, PartialEq, Eq, PartialOrd, Ord, Hash, Structural)]
pub enum CapabilityKey {
    Battery,
    Volume,
    Playback,
    NoiseControl,
    AwareMode,
    CustomNoiseControl,
    Equalizer,
    Multipoint,
    DeviceSettings,
    FirmwareVersion,
    AutoOff,
    VoicePrompts,
    Sidetone,
    DeviceRename,
}

/// Number of tracked features.
pub const KEY_COUNT: usize = 14;

/// Position of a key in declaration order.
pub open spec fn key_index(k: CapabilityKey) -> int {
    match k {
        CapabilityKey::Battery => 0,
        CapabilityKey::Volume => 1,
        CapabilityKey::Playback => 2,
        CapabilityKey::NoiseControl => 3,
        CapabilityKey::AwareMode => 4,
        CapabilityKey::CustomNoiseControl => 5,
        CapabilityKey::Equalizer => 6,
        CapabilityKey::Multipoint => 7,
        CapabilityKey::DeviceSettings => 8,
        CapabilityKey::FirmwareVersion => 9,
        CapabilityKey::AutoOff => 10,
        CapabilityKey::VoicePrompts => 11,
        CapabilityKey::Sidetone => 12,
        CapabilityKey::DeviceRename => 13,
    }
}

/// The key at a position in declaration order.
pub open spec fn key_at(i: int) -> CapabilityKey {
    if i == 0 { CapabilityKey::Battery }
    else if i == 1 { CapabilityKey::Volume }
    else if i == 2 { CapabilityKey::Playback }
    else if i == 3 { CapabilityKey::NoiseControl }
    else if i == 4 { CapabilityKey::AwareMode }
    else if i == 5 { CapabilityKey::CustomNoiseControl }
    else if i == 6 { CapabilityKey::Equalizer }
    else if i == 7 { CapabilityKey::Multipoint }
    else if i == 8 { CapabilityKey::DeviceSettings }
    else if i == 9 { CapabilityKey::FirmwareVersion }
    else if i == 10 { CapabilityKey::AutoOff }
    else if i == 11 { CapabilityKey::VoicePrompts }
    else if i == 12 { CapabilityKey::Sidetone }
    else { CapabilityKey::DeviceRename }
}

impl CapabilityKey {
    pub const ALL: [CapabilityKey; 14] = [
        CapabilityKey::Battery,
        CapabilityKey::Volume,
        CapabilityKey::Playback,
        CapabilityKey::NoiseControl,
        CapabilityKey::AwareMode,
        CapabilityKey::CustomNoiseControl,
        CapabilityKey::Equalizer,
        CapabilityKey::Multipoint,
        CapabilityKey::DeviceSettings,
        CapabilityKey::FirmwareVersion,
        CapabilityKey::AutoOff,
        CapabilityKey::VoicePrompts,
        CapabilityKey::Sidetone,
        CapabilityKey::DeviceRename,
    ];

    /// Position of this key in declaration order.
    pub fn index(self) -> (r: usize)
        ensures
            r as int == key_index(self),
            r < KEY_COUNT,
    {
        match self {
            CapabilityKey::Battery => 0,
            CapabilityKey::Volume => 1,
            CapabilityKey::Playback => 2,
            CapabilityKey::NoiseControl => 3,
            CapabilityKey::AwareMode => 4,
            CapabilityKey::CustomNoiseControl => 5,
            CapabilityKey::Equalizer => 6,
            CapabilityKey::Multipoint => 7,
            CapabilityKey::DeviceSettings => 8,
            CapabilityKey::FirmwareVersion => 9,
            CapabilityKey::AutoOff => 10,
            CapabilityKey::VoicePrompts => 11,
            CapabilityKey::Sidetone => 12,
            CapabilityKey::DeviceRename => 13,
        }
    }

    /// The key at a position in declaration order.
    pub fn at(i: usize) -> (r: CapabilityKey)
        requires
            i < KEY_COUNT,
        ensures
            r == key_at(i as int),
            key_index(r) == i,
    {
        if i == 0 { CapabilityKey::Battery }
        else if i == 1 { CapabilityKey::Volume }
        else if i == 2 { CapabilityKey::Playback }
        else if i == 3 { CapabilityKey::NoiseControl }
        else if i == 4 { CapabilityKey::AwareMode }
        else if i == 5 { CapabilityKey::CustomNoiseControl }
        else if i == 6 { CapabilityKey::Equalizer }
        else if i == 7 { CapabilityKey::Multipoint }
        else if i == 8 { CapabilityKey::DeviceSettings }
        else if i == 9 { CapabilityKey::FirmwareVersion }
        else if i == 10 { CapabilityKey::AutoOff }
        else if i == 11 { CapabilityKey::VoicePrompts }
        else if i == 12 { CapabilityKey::Sidetone }
        else { CapabilityKey::DeviceRename }
    }
}

/// `key_at` and `key_index` are inverse.
pub proof fn lemma_key_index_roundtrip(k: CapabilityKey)
    ensures
        0 <= key_index(k) < 14,
        key_at(key_index(k)) == k,
{
}

/// The interface through which a capability is (or would be) reached.
#[derive(Debug, Clone, Copy, PartialEq, Eq, Structural)]
pub enum Mechanism {
    WindowsAudio,
    WindowsBluetooth,
    WindowsPnp,
    WindowsMediaSession,
    BleGattStandard,
    BleGattVendor,
    RfcommVendor,
    SoftwareDsp,
    Unassigned,
}

/// Why a capability transition was refused.
#[derive(Debug, Clone, Copy, PartialEq, Eq, Structural)]
pub enum CapabilityError {
    /// Evidence is required for every capability transition.
    MissingEvidence,
    /// A proof for another capability cannot verify this one.
    VerificationRequiresHardware { key: CapabilityKey },
    /// Unsupported is terminal for the session.
    UnsupportedIsTerminal { key: CapabilityKey },
}

/// The key as `{:?}` writes it: its variant name.
pub open spec fn spec_key_debug(k: CapabilityKey) -> Seq<char> {
    match k {
        CapabilityKey::Battery => "Battery"@,
        CapabilityKey::Volume => "Volume"@,
        CapabilityKey::Playback => "Playback"@,
        CapabilityKey::NoiseControl => "NoiseControl"@,
        CapabilityKey::AwareMode => "AwareMode"@,
        CapabilityKey::CustomNoiseControl => "CustomNoiseControl"@,
        CapabilityKey::Equalizer => "Equalizer"@,
        CapabilityKey::Multipoint => "Multipoint"@,
        CapabilityKey::DeviceSettings => "DeviceSettings"@,
        CapabilityKey::FirmwareVersion => "FirmwareVersion"@,
        CapabilityKey::AutoOff => "AutoOff"@,
        CapabilityKey::VoicePrompts => "VoicePrompts"@,
        CapabilityKey::Sidetone => "Sidetone"@,
        CapabilityKey::DeviceRename => "DeviceRename"@,
    }
}

impl CapabilityKey {
    /// The key as `{:?}` writes it.
    pub fn debug_name(self) -> (r: &'static str)
        ensures
            r@ == spec_key_debug(self),
    {
        match self {
            CapabilityKey::Battery => "Battery",
            CapabilityKey::Volume => "Volume",
            CapabilityKey::Playback => "Playback",
            CapabilityKey::NoiseControl => "NoiseControl",
            CapabilityKey::AwareMode => "AwareMode",
            CapabilityKey::CustomNoiseControl => "CustomNoiseControl",
            CapabilityKey::Equalizer => "Equalizer",
            CapabilityKey::Multipoint => "Multipoint",
            CapabilityKey::DeviceSettings => "DeviceSettings",
            CapabilityKey::FirmwareVersion => "FirmwareVersion",
            CapabilityKey::AutoOff => "AutoOff",
            CapabilityKey::VoicePrompts => "VoicePrompts",
            CapabilityKey::Sidetone => "Sidetone",
            CapabilityKey::DeviceRename => "DeviceRename",
        }
    }
}

/// The message of a refused transition.
pub open spec fn spec_capability_error_message(e: CapabilityError) -> Seq<char> {
    match e {
        CapabilityError::MissingEvidence => "evidence is required for every capability transition"@,
        CapabilityError::VerificationRequiresHardware { key } => "cannot mark "@ + spec_key_debug(key)
            + " as VERIFIED without hardware evidence; use verify_with_hardware() from a physical device test"@,
        CapabilityError::UnsupportedIsTerminal { key } => spec_key_debug(key)
            + " is UNSUPPORTED, which is terminal for this session; run a fresh discovery"@,
    }
}

impl CapabilityError {
    /// The message shown for this error.
    pub fn message(&self) -> (r: String)
        ensures
            r@ == spec_capability_error_message(*self),
    {
        let mut out = String::new();
        match self {
            CapabilityError::MissingEvidence => push_str(
                &mut out,
                "evidence is required for every capability transition",
            ),
            CapabilityError::VerificationRequiresHardware { key } => {
                push_str(&mut out, "cannot mark ");
                push_str(&mut out, key.debug_name());
                push_str(
                    &mut out,
                    " as VERIFIED without hardware evidence; use verify_with_hardware() from a physical device test",
                );
            },
            CapabilityError::UnsupportedIsTerminal { key } => {
                push_str(&mut out, key.debug_name());
                push_str(&mut out, " is UNSUPPORTED, which is terminal for this session; run a fresh discovery");
            },
        }
        assert(out@ =~= spec_capability_error_message(*self));
        out
    }
}

/// A single tracked capability plus the reasoning behind its current status.
#[derive(Debug, Clone, PartialEq, Eq)]
pub struct Capability {
    pub key: CapabilityKey,
    pub status: CapabilityStatus,
    pub mechanism: Mechanism,
    /// Tracked separately from `status` so hardware confirmation can never be
    /// implied by the status field alone.
    pub hardware_verified: bool,
    /// Why the capability is in its current state.
    pub evidence: String,
    /// RFC3339 timestamp of the last change, if any.
    pub last_evaluated: Option<String>,
}

/// The state a successful transition leaves behind: the new status,
/// mechanism and evidence, a fresh UTC RFC 3339 timestamp, and the key and the hardware
/// flag as they were (`verified` says what the flag becomes).
pub open spec fn applied(
    before: Capability,
    after: Capability,
    status: CapabilityStatus,
    mechanism: Mechanism,
    evidence: Seq<char>,
    verified: bool,
) -> bool {
    &&& after.key == before.key
    &&& after.status == status
    &&& after.mechanism == mechanism
    &&& after.hardware_verified == verified
    &&& after.evidence@ == evidence
    &&& after.last_evaluated matches Some(t) && super::is_utc_rfc3339(t@)
}

/// What `mark_supported` / `mark_experimental` do: refuse blank evidence,
/// refuse to leave `Unsupported`, and otherwise move to `status`.
pub open spec fn guarded_transition(
    before: Capability,
    after: Capability,
    result: Result<(), CapabilityError>,
    status: CapabilityStatus,
    mechanism: Mechanism,
    evidence: Seq<char>,
) -> bool {
    if all_whitespace(evidence) {
        result == Err::<(), CapabilityError>(CapabilityError::MissingEvidence) && after == before
    } else if before.status == CapabilityStatus::Unsupported {
        result == Err::<(), CapabilityError>(
            CapabilityError::UnsupportedIsTerminal { key: before.key },
        ) && after == before
    } else {
        result == Ok::<(), CapabilityError>(()) && applied(
            before,
            after,
            status,
            mechanism,
            evidence,
            before.hardware_verified,
        )
    }
}

/// What `mark_unsupported` does: refuse blank evidence, otherwise move to
/// `Unsupported` with no mechanism.
pub open spec fn unsupported_transition(
    before: Capability,
    after: Capability,
    result: Result<(), CapabilityError>,
    evidence: Seq<char>,
) -> bool {
    if all_whitespace(evidence) {
        result == Err::<(), CapabilityError>(CapabilityError::MissingEvidence) && after == before
    } else {
        result == Ok::<(), CapabilityError>(()) && applied(
            before,
            after,
            CapabilityStatus::Unsupported,
            Mechanism::Unassigned,
            evidence,
            before.hardware_verified,
        )
    }
}

/// The evidence text recorded when a proof verifies a capability.
pub open spec fn verified_evidence(verified_at: Seq<char>, observation: Seq<char>) -> Seq<char> {
    "Hardware-verified "@ + verified_at + ": "@ + observation
}

/// What `verify_with_hardware` does with a proof for `proof_key` whose
/// observation and timestamp are given.
pub open spec fn verify_transition(
    before: Capability,
    after: Capability,
    result: Result<(), CapabilityError>,
    proof_key: CapabilityKey,
    observation: Seq<char>,
    verified_at: Seq<char>,
    mechanism: Mechanism,
) -> bool {
    if all_whitespace(observation) {
        result == Err::<(), CapabilityError>(CapabilityError::MissingEvidence) && after == before
    } else if proof_key != before.key {
        result == Err::<(), CapabilityError>(
            CapabilityError::VerificationRequiresHardware { key: before.key },
        ) && after == before
    } else if before.status == CapabilityStatus::Unsupported {
        result == Err::<(), CapabilityError>(
            CapabilityError::UnsupportedIsTerminal { key: before.key },
        ) && after == before
    } else {
        result == Ok::<(), CapabilityError>(()) && applied(
            before,
            after,
            CapabilityStatus::Verified,
            mechanism,
            verified_evidence(verified_at, observation),
            true,
        )
    }
}

impl Capability {
    /// A capability we know nothing about yet.
    pub fn unknown(key: CapabilityKey, reason: &str) -> (r: Self)
        ensures
            r.key == key,
            r.status == CapabilityStatus::Unknown,
            r.mechanism == Mechanism::Unassigned,
            !r.hardware_verified,
            r.evidence@ == reason@,
            r.last_evaluated is None,
    {
        Capability {
            key,
            status: CapabilityStatus::Unknown,
            mechanism: Mechanism::Unassigned,
            hardware_verified: false,
            evidence: owned(reason),
            last_evaluated: None,
        }
    }

    fn guard(&self, evidence: &str) -> (r: Result<(), CapabilityError>)
        ensures
            r == if all_whitespace(evidence@) {
                Err(CapabilityError::MissingEvidence)
            } else if self.status == CapabilityStatus::Unsupported {
                Err(CapabilityError::UnsupportedIsTerminal { key: self.key })
            } else {
                Ok(())
            },
    {
        if is_blank(evidence) {
            return Err(CapabilityError::MissingEvidence);
        }
        if self.status == CapabilityStatus::Unsupported {
            return Err(CapabilityError::UnsupportedIsTerminal { key: self.key });
        }
        Ok(())
    }

    fn apply(&mut self, status: CapabilityStatus, mechanism: Mechanism, evidence: String)
        ensures
            applied(*old(self), *final(self), status, mechanism, evidence@, old(self).hardware_verified),
    {
        self.status = status;
        self.mechanism = mechanism;
        self.evidence = evidence;
        self.last_evaluated = Some(super::now_rfc3339());
    }

    /// Record that a valid interface appears to expose this feature. This
    /// does not claim the feature works on the user's device.
    pub fn mark_supported(&mut self, mechanism: Mechanism, evidence: &str) -> (r: Result<
        (),
        CapabilityError,
    >)
        ensures
            guarded_transition(
                *old(self),
                *final(self),
                r,
                CapabilityStatus::Supported,
                mechanism,
                evidence@,
            ),
    {
        let e = owned(evidence);
        match self.guard(evidence) {
            Err(err) => Err(err),
            Ok(()) => {
                self.apply(CapabilityStatus::Supported, mechanism, e);
                Ok(())
            },
        }
    }

    /// Record partial evidence that the feature may work.
    pub fn mark_experimental(&mut self, mechanism: Mechanism, evidence: &str) -> (r: Result<
        (),
        CapabilityError,
    >)
        ensures
            guarded_transition(
                *old(self),
                *final(self),
                r,
                CapabilityStatus::Experimental,
                mechanism,
                evidence@,
            ),
    {
        let e = owned(evidence);
        match self.guard(evidence) {
            Err(err) => Err(err),
            Ok(()) => {
                self.apply(CapabilityStatus::Experimental, mechanism, e);
                Ok(())
            },
        }
    }

    /// Record that the feature is not safely reachable. Terminal for the
    /// session.
    pub fn mark_unsupported(&mut self, evidence: &str) -> (r: Result<(), CapabilityError>)
        ensures
            unsupported_transition(*old(self), *final(self), r, evidence@),
    {
        if is_blank(evidence) {
            return Err(CapabilityError::MissingEvidence);
        }
        self.apply(CapabilityStatus::Unsupported, Mechanism::Unassigned, owned(evidence));
        Ok(())
    }

    /// Promote to VERIFIED, on the strength of a proof for this capability.
    pub fn verify_with_hardware(&mut self, proof: &HardwareProof, mechanism: Mechanism) -> (r:
        Result<(), CapabilityError>)
        ensures
            verify_transition(
                *old(self),
                *final(self),
                r,
                proof.proof_key(),
                proof.observation(),
                proof.verified_at(),
                mechanism,
            ),
    {
        if is_blank(proof.observation.as_str()) {
            return Err(CapabilityError::MissingEvidence);
        }
        if proof.key != self.key {
            return Err(CapabilityError::VerificationRequiresHardware { key: self.key });
        }
        match self.guard(proof.observation.as_str()) {
            Err(err) => Err(err),
            Ok(()) => {
                let mut evidence = String::new();
                push_str(&mut evidence, "Hardware-verified ");
                push_str(&mut evidence, proof.verified_at.as_str());
                push_str(&mut evidence, ": ");
                push_str(&mut evidence, proof.observation.as_str());
                self.hardware_verified = true;
                self.apply(CapabilityStatus::Verified, mechanism, evidence);
                assert(final(self).evidence@ =~= verified_evidence(
                    proof.verified_at(),
                    proof.observation(),
                ));
                Ok(())
            },
        }
    }
}

/// Evidence that a physical device demonstrated a feature.
///
/// The fields are private and the only constructors are
/// [`HardwareProof::observed`] and [`HardwareProof::observed_passively`], so a
/// VERIFIED status cannot be produced by code that merely sent a command.
#[derive(Debug, Clone)]
pub struct HardwareProof {
    key: CapabilityKey,
    observation: String,
    verified_at: String,
}

/// The observation recorded for an active before/after check.
pub open spec fn observed_text(before: Seq<char>, after: Seq<char>, expected: Seq<char>) -> Seq<
    char,
> {
    "device-reported state changed "@ + debug_quoted(before) + " -> "@ + debug_quoted(after)
        + ", matching requested "@ + debug_quoted(expected)
}

/// The observation recorded for a passive observation.
pub open spec fn passive_text(detail: Seq<char>) -> Seq<char> {
    "passively observed from device: "@ + detail
}

impl HardwareProof {
    /// The capability this proof is about.
    pub closed spec fn proof_key(&self) -> CapabilityKey {
        self.key
    }

    /// What was observed.
    pub closed spec fn observation(&self) -> Seq<char> {
        self.observation@
    }

    /// When it was observed.
    pub closed spec fn verified_at(&self) -> Seq<char> {
        self.verified_at@
    }

    /// Record that the device's own reported state changed as expected.
    ///
    /// `before` and `after` must differ and `after` must equal `expected`;
    /// otherwise there is no proof.
    pub fn observed(key: CapabilityKey, before: &str, after: &str, expected: &str) -> (r: Option<
        Self,
    >)
        ensures
            r is None <==> (before@ == after@ || after@ != expected@),
            r matches Some(p) ==> p.proof_key() == key && p.observation() == observed_text(
                before@,
                after@,
                expected@,
            ) && super::is_utc_rfc3339(p.verified_at()),
    {
        if crate::text::str_eq(before, after) {
            return None;
        }
        if !crate::text::str_eq(after, expected) {
            return None;
        }
        let mut observation = String::new();
        push_str(&mut observation, "device-reported state changed ");
        let b = debug_str(before);
        push_str(&mut observation, b.as_str());
        push_str(&mut observation, " -> ");
        let a = debug_str(after);
        push_str(&mut observation, a.as_str());
        push_str(&mut observation, ", matching requested ");
        let e = debug_str(expected);
        push_str(&mut observation, e.as_str());
        assert(observation@ =~= observed_text(before@, after@, expected@));
        Some(HardwareProof { key, observation, verified_at: super::now_rfc3339() })
    }

    /// Record a passive observation: the device reported a value or a change
    /// without being asked.
    pub fn observed_passively(key: CapabilityKey, detail: &str) -> (r: Self)
        ensures
            r.proof_key() == key,
            r.observation() == passive_text(detail@),
            super::is_utc_rfc3339(r.verified_at()),
    {
        let mut observation = String::new();
        push_str(&mut observation, "passively observed from device: ");
        push_str(&mut observation, detail);
        assert(observation@ =~= passive_text(detail@));
        HardwareProof { key, observation, verified_at: super::now_rfc3339() }
    }
}

/// Number of hardware-verified capabilities in a sequence.
pub open spec fn count_verified(s: Seq<Capability>) -> nat
    decreases s.len(),
{
    if s.len() == 0 {
        0
    } else {
        count_verified(s.drop_last()) + if s.last().hardware_verified {
            1nat
        } else {
            0nat
        }
    }
}

/// A sequence with no hardware-verified entry counts zero.
pub proof fn lemma_count_verified_zero(s: Seq<Capability>)
    requires
        forall|i: int| 0 <= i < s.len() ==> !(#[trigger] s[i]).hardware_verified,
    ensures
        count_verified(s) == 0,
    decreases s.len(),
{
    if s.len() > 0 {
        assert(!s[s.len() - 1].hardware_verified);
        lemma_count_verified_zero(s.drop_last());
    }
}

/// The full capability set for a device: one capability per key, in key
/// order.
#[derive(Debug, Clone, PartialEq, Eq)]
pub struct CapabilitySet {
    inner: Vec<Capability>,
}

/// A sequence holding one capability per key, in key order.
pub open spec fn keyed(s: Seq<Capability>) -> bool {
    &&& s.len() == 14
    &&& forall|i: int| 0 <= i < 14 ==> (#[trigger] s[i]).key == key_at(i)
}

impl View for CapabilitySet {
    type V = Seq<Capability>;

    closed spec fn view(&self) -> Seq<Capability> {
        self.inner@
    }
}

impl CapabilitySet {
    /// Every capability holds exactly one entry per key, in key order.
    pub open spec fn wf(&self) -> bool {
        keyed(self@)
    }

    /// The capability for a key.
    pub open spec fn spec_get(&self, key: CapabilityKey) -> Capability {
        self@[key_index(key)]
    }

    /// Every capability honestly unknown, each with the given reason.
    pub fn all_unknown(reason: &str) -> (r: Self)
        ensures
            r.wf(),
            forall|i: int|
                0 <= i < 14 ==> {
                    &&& (#[trigger] r@[i]).status == CapabilityStatus::Unknown
                    &&& r@[i].mechanism == Mechanism::Unassigned
                    &&& !r@[i].hardware_verified
                    &&& r@[i].evidence@ == reason@
                    &&& r@[i].last_evaluated is None
                },
    {
        let mut inner: Vec<Capability> = Vec::new();
        let mut i: usize = 0;
        while i < KEY_COUNT
            invariant
                i <= 14,
                inner@.len() == i,
                forall|j: int|
                    0 <= j < i ==> {
                        &&& (#[trigger] inner@[j]).key == key_at(j)
                        &&& inner@[j].status == CapabilityStatus::Unknown
                        &&& inner@[j].mechanism == Mechanism::Unassigned
                        &&& !inner@[j].hardware_verified
                        &&& inner@[j].evidence@ == reason@
                        &&& inner@[j].last_evaluated is None
                    },
            decreases 14 - i,
        {
            inner.push(Capability::unknown(CapabilityKey::at(i), reason));
            i = i + 1;
        }
        CapabilitySet { inner }
    }

    /// The capability for a key.
    pub fn get(&self, key: CapabilityKey) -> (r: &Capability)
        requires
            self.wf(),
        ensures
            *r == self.spec_get(key),
            r.key == key,
    {
        let i = key.index();
        &self.inner[i]
    }

    /// Mutable access to the capability for a key.
    pub fn get_mut(&mut self, key: CapabilityKey) -> (r: &mut Capability)
        requires
            old(self).wf(),
        ensures
            *r == old(self).spec_get(key),
            r.key == key,
            final(self)@ == old(self)@.update(key_index(key), *final(r)),
    {
        let i = key.index();
        &mut self.inner[i]
    }

    /// The capabilities, in key order.
    pub fn iter(&self) -> (r: std::slice::Iter<'_, Capability>)
        ensures
            vstd::std_specs::slice::into_iter_elts(r) == self@,
    {
        self.inner.iter()
    }

    /// Count of capabilities confirmed against physical hardware.
    pub fn verified_count(&self) -> (r: usize)
        ensures
            r == count_verified(self@),
    {
        let mut n: usize = 0;
        let mut i: usize = 0;
        while i < self.inner.len()
            invariant
                i <= self@.len(),
                n == count_verified(self@.subrange(0, i as int)),
                n <= i,
            decreases self@.len() - i,
        {
            assert(self@.subrange(0, i + 1).drop_last() =~= self@.subrange(0, i as int));
            if self.inner[i].hardware_verified {
                n = n + 1;
            }
            i = i + 1;
        }
        assert(self@.subrange(0, self@.len() as int) =~= self@);
        n
    }
}

// ---------------------------------------------------------------------------
// Laws of the capability lifecycle
// ---------------------------------------------------------------------------

/// Unsupported is terminal for the session: marking an unsupported
/// capability supported or experimental is refused and changes nothing.
pub proof fn law_unsupported_is_terminal_for_marks(
    before: Capability,
    after: Capability,
    r: Result<(), CapabilityError>,
    status: CapabilityStatus,
    mechanism: Mechanism,
    evidence: Seq<char>,
)
    requires
        before.status == CapabilityStatus::Unsupported,
        guarded_transition(before, after, r, status, mechanism, evidence),
    ensures
        r is Err,
        after == before,
{
}

/// Unsupported is terminal for hardware proofs too: no proof verifies an
/// unsupported capability.
pub proof fn law_unsupported_is_terminal_for_proofs(
    before: Capability,
    after: Capability,
    r: Result<(), CapabilityError>,
    proof_key: CapabilityKey,
    observation: Seq<char>,
    verified_at: Seq<char>,
    mechanism: Mechanism,
)
    requires
        before.status == CapabilityStatus::Unsupported,
        verify_transition(before, after, r, proof_key, observation, verified_at, mechanism),
    ensures
        r is Err,
        after == before,
{
}

/// Every transition needs evidence: blank evidence is refused with
/// `MissingEvidence` and changes nothing, whichever transition is asked for.
pub proof fn law_transitions_require_evidence(
    before: Capability,
    after: Capability,
    r: Result<(), CapabilityError>,
    status: CapabilityStatus,
    mechanism: Mechanism,
    evidence: Seq<char>,
)
    requires
        all_whitespace(evidence),
        guarded_transition(before, after, r, status, mechanism, evidence)
            || unsupported_transition(before, after, r, evidence),
    ensures
        r == Err::<(), CapabilityError>(CapabilityError::MissingEvidence),
        after == before,
{
}

/// Marking a capability supported, experimental or unsupported never
/// claims hardware verification: the hardware flag is left as it was.
pub proof fn law_marks_never_claim_hardware(
    before: Capability,
    after: Capability,
    r: Result<(), CapabilityError>,
    status: CapabilityStatus,
    mechanism: Mechanism,
    evidence: Seq<char>,
)
    requires
        guarded_transition(before, after, r, status, mechanism, evidence)
            || unsupported_transition(before, after, r, evidence),
    ensures
        after.hardware_verified == before.hardware_verified,
        before.status != CapabilityStatus::Verified ==> (after.status == CapabilityStatus::Verified
            ==> status == CapabilityStatus::Verified),
{
}

/// A capability becomes hardware-verified only on a proof for that very
/// capability, and then it is `Verified`; a proof for another capability is
/// rejected and changes nothing.
pub proof fn law_verification_requires_matching_proof(
    before: Capability,
    after: Capability,
    r: Result<(), CapabilityError>,
    proof_key: CapabilityKey,
    observation: Seq<char>,
    verified_at: Seq<char>,
    mechanism: Mechanism,
)
    requires
        verify_transition(before, after, r, proof_key, observation, verified_at, mechanism),
    ensures
        r is Ok ==> proof_key == before.key && after.status == CapabilityStatus::Verified
            && after.hardware_verified,
        proof_key != before.key ==> after == before && r is Err,
{
}

/// A capability never claims `Verified` without the hardware flag.
pub open spec fn verified_implies_hardware(c: Capability) -> bool {
    c.status == CapabilityStatus::Verified ==> c.hardware_verified
}

/// `Verified` always comes with hardware verification, in every state a
/// capability can reach: a fresh capability has neither, marking it
/// supported, experimental or unsupported keeps the property, and a proof
/// sets both together. So from `unknown` (or `all_unknown`), through any
/// sequence of transitions, a `Verified` capability is hardware-verified;
/// and a capability that was neither becomes `Verified` or
/// hardware-verified only in a proof that succeeded.
pub proof fn law_verified_is_always_hardware_verified(
    before: Capability,
    after: Capability,
    r: Result<(), CapabilityError>,
    status: CapabilityStatus,
    mechanism: Mechanism,
    evidence: Seq<char>,
    proof_key: CapabilityKey,
    observation: Seq<char>,
    verified_at: Seq<char>,
)
    requires
        verified_implies_hardware(before),
        (guarded_transition(before, after, r, status, mechanism, evidence) && (status
            == CapabilityStatus::Supported || status == CapabilityStatus::Experimental))
            || unsupported_transition(before, after, r, evidence) || verify_transition(
            before,
            after,
            r,
            proof_key,
            observation,
            verified_at,
            mechanism,
        ),
    ensures
        verified_implies_hardware(after),
        before.status != CapabilityStatus::Verified && !before.hardware_verified && (after.status
            == CapabilityStatus::Verified || after.hardware_verified) ==> verify_transition(
            before,
            after,
            r,
            proof_key,
            observation,
            verified_at,
            mechanism,
        ) && r is Ok,
{
}

} // verus!
