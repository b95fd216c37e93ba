use qc_control::device::{
    Capability, CapabilityError, CapabilityKey, CapabilitySet, CapabilityStatus, CommandOutcome,
    ConnectionState, DeviceCommand, DeviceError, DeviceSnapshot, DeviceSource, EqSettings,
    HardwareProof, Mechanism, NoiseControlMode,
};

#[test]
fn new_capabilities_are_all_unknown_and_unverified() {
    let set = CapabilitySet::all_unknown("no device interrogated");
    assert_eq!(set.iter().count(), CapabilityKey::ALL.len());
    for cap in set.iter() {
        assert_eq!(cap.status, CapabilityStatus::Unknown);
        assert!(!cap.hardware_verified);
    }
    assert_eq!(set.verified_count(), 0);
}

#[test]
fn transitions_require_evidence() {
    let mut cap = Capability::unknown(CapabilityKey::Battery, "init");
    assert_eq!(
        cap.mark_supported(Mechanism::WindowsPnp, "   "),
        Err(CapabilityError::MissingEvidence)
    );
    assert_eq!(cap.status, CapabilityStatus::Unknown);
}

#[test]
fn supported_does_not_imply_hardware_verification() {
    let mut cap = Capability::unknown(CapabilityKey::Battery, "init");
    cap.mark_supported(Mechanism::WindowsPnp, "PnP battery property exists")
        .unwrap();
    assert_eq!(cap.status, CapabilityStatus::Supported);
    assert!(!cap.hardware_verified);
}

#[test]
fn identical_before_and_after_yields_no_proof() {
    let proof = HardwareProof::observed(CapabilityKey::NoiseControl, "quiet", "quiet", "quiet");
    assert!(proof.is_none());
}

#[test]
fn state_change_not_matching_request_yields_no_proof() {
    let proof = HardwareProof::observed(CapabilityKey::NoiseControl, "quiet", "off", "aware");
    assert!(proof.is_none());
}

#[test]
fn genuine_observed_change_verifies() {
    let mut cap = Capability::unknown(CapabilityKey::NoiseControl, "init");
    let proof =
        HardwareProof::observed(CapabilityKey::NoiseControl, "quiet", "aware", "aware").unwrap();
    cap.verify_with_hardware(&proof, Mechanism::RfcommVendor)
        .unwrap();
    assert_eq!(cap.status, CapabilityStatus::Verified);
    assert!(cap.hardware_verified);
    assert!(cap.evidence.contains("Hardware-verified"));
}

#[test]
fn proof_for_a_different_capability_is_rejected() {
    let mut cap = Capability::unknown(CapabilityKey::Battery, "init");
    let proof =
        HardwareProof::observed(CapabilityKey::NoiseControl, "quiet", "aware", "aware").unwrap();
    assert!(cap.verify_with_hardware(&proof, Mechanism::RfcommVendor).is_err());
    assert_eq!(cap.status, CapabilityStatus::Unknown);
}

#[test]
fn unsupported_is_terminal() {
    let mut cap = Capability::unknown(CapabilityKey::Equalizer, "init");
    cap.mark_unsupported("no vendor EQ interface reachable from Windows")
        .unwrap();
    assert_eq!(
        cap.mark_supported(Mechanism::BleGattVendor, "found something"),
        Err(CapabilityError::UnsupportedIsTerminal {
            key: CapabilityKey::Equalizer
        })
    );
    assert_eq!(cap.status, CapabilityStatus::Unsupported);
}

#[test]
fn status_actionability_semantics() {
    assert!(CapabilityStatus::Verified.is_actionable());
    assert!(!CapabilityStatus::Supported.is_actionable());
    assert!(CapabilityStatus::Supported.requires_caveat());
    assert!(CapabilityStatus::Experimental.requires_caveat());
    assert!(!CapabilityStatus::Unknown.is_actionable());
    assert!(!CapabilityStatus::Unsupported.is_actionable());
}

#[test]
fn volume_above_100_is_rejected() {
    let cmd = DeviceCommand::SetSystemVolume { percent: 101 };
    assert!(cmd.validate().is_err());
}

#[test]
fn volume_bounds_are_inclusive() {
    assert!(DeviceCommand::SetSystemVolume { percent: 0 }
        .validate()
        .is_ok());
    assert!(DeviceCommand::SetSystemVolume { percent: 100 }
        .validate()
        .is_ok());
}

#[test]
fn out_of_range_eq_is_rejected() {
    let cmd = DeviceCommand::SetEqualizer {
        settings: EqSettings {
            bass: 50,
            mid: 0,
            treble: 0,
        },
    };
    let err = cmd.validate().unwrap_err();
    assert!(matches!(err, DeviceError::InvalidInput(_)));
}

#[test]
fn in_range_eq_is_accepted() {
    let cmd = DeviceCommand::SetEqualizer {
        settings: EqSettings {
            bass: -10,
            mid: 3,
            treble: 10,
        },
    };
    assert!(cmd.validate().is_ok());
}

#[test]
fn noise_level_bounds() {
    assert!(DeviceCommand::SetNoiseControlLevel { level: 10 }
        .validate()
        .is_ok());
    assert!(DeviceCommand::SetNoiseControlLevel { level: 11 }
        .validate()
        .is_err());
}

#[test]
fn reads_are_not_mutating() {
    assert!(!DeviceCommand::ReadBattery.is_mutating());
    assert!(!DeviceCommand::RefreshSnapshot.is_mutating());
    assert!(DeviceCommand::SetNoiseControl {
        mode: NoiseControlMode::Aware
    }
    .is_mutating());
}

#[test]
fn sent_unverified_is_not_treated_as_success() {
    let outcome = CommandOutcome::sent_unverified("device did not echo the new state");
    assert!(!outcome.is_confirmed());
}

#[test]
fn empty_snapshot_asserts_nothing_about_the_device() {
    let snap = DeviceSnapshot::empty(DeviceSource::Real);
    assert!(snap.battery.is_none());
    assert!(snap.noise_control.is_none());
    assert!(snap.equalizer.is_none());
    assert!(snap.identity.is_none());
    assert_eq!(snap.connection, ConnectionState::Disconnected);
    assert_eq!(snap.capabilities.verified_count(), 0);
}

#[test]
fn eq_range_validation() {
    assert!(EqSettings::flat().is_within_range());
    assert!(EqSettings {
        bass: 10,
        mid: -10,
        treble: 0
    }
    .is_within_range());
    assert!(!EqSettings {
        bass: 11,
        mid: 0,
        treble: 0
    }
    .is_within_range());
    assert!(!EqSettings {
        bass: 0,
        mid: 0,
        treble: -11
    }
    .is_within_range());
}

#[test]
fn command_names_carry_no_parameters() {
    assert_eq!(DeviceCommand::SetSystemVolume { percent: 1 }.name(), "set_system_volume");
    assert_eq!(
        DeviceCommand::SetSystemVolume { percent: 99 }.name(),
        DeviceCommand::SetSystemVolume { percent: 1 }.name()
    );
    assert_eq!(DeviceCommand::SetNoiseControlLevel { level: 7 }.name(), "set_noise_control_level");
}

fn looks_like_utc_rfc3339(t: &str) -> bool {
    let b = t.as_bytes();
    let digit = |i: usize| b[i].is_ascii_digit();
    (b.len() == 20 || (22..=30).contains(&b.len()) && b[19] == b'.')
        && [0, 1, 2, 3, 5, 6, 8, 9, 11, 12, 14, 15, 17, 18].iter().all(|&i| digit(i))
        && b[4] == b'-' && b[7] == b'-' && b[10] == b'T' && b[13] == b':' && b[16] == b':'
        && b[b.len() - 1] == b'Z'
}

#[test]
fn timestamps_are_utc_rfc3339() {
    assert!(looks_like_utc_rfc3339(&qc_control::device::now_rfc3339()));
    match CommandOutcome::applied() {
        CommandOutcome::Applied { verified_at } => assert!(looks_like_utc_rfc3339(&verified_at)),
        other => panic!("unexpected {:?}", other),
    }
}

#[test]
fn capability_errors_have_their_messages() {
    assert_eq!(CapabilityError::MissingEvidence.message(), "evidence is required for every capability transition");
    assert_eq!(
        CapabilityError::VerificationRequiresHardware { key: CapabilityKey::NoiseControl }.message(),
        "cannot mark NoiseControl as VERIFIED without hardware evidence; use verify_with_hardware() from a physical device test"
    );
    assert_eq!(
        CapabilityError::UnsupportedIsTerminal { key: CapabilityKey::Battery }.message(),
        "Battery is UNSUPPORTED, which is terminal for this session; run a fresh discovery"
    );
}

#[test]
fn proofs_carry_utc_timestamps() {
    let p = HardwareProof::observed_passively(CapabilityKey::Battery, "level read");
    let mut cap = Capability::unknown(CapabilityKey::Battery, "x");
    cap.verify_with_hardware(&p, Mechanism::WindowsPnp).unwrap();
    assert!(cap.hardware_verified);
    assert!(looks_like_utc_rfc3339(cap.last_evaluated.as_deref().unwrap()));
}

#[test]
fn command_names_are_distinct_per_variant() {
    let all = vec![
        DeviceCommand::RefreshSnapshot,
        DeviceCommand::ReadBattery,
        DeviceCommand::ReadNoiseControl,
        DeviceCommand::ReadEqualizer,
        DeviceCommand::ReadDeviceInfo,
        DeviceCommand::Connect,
        DeviceCommand::Disconnect,
        DeviceCommand::Reconnect,
        DeviceCommand::SetSystemVolume { percent: 50 },
        DeviceCommand::SetSystemMute { muted: true },
        DeviceCommand::MediaPlayPause,
        DeviceCommand::MediaNext,
        DeviceCommand::MediaPrevious,
        DeviceCommand::SetNoiseControl { mode: NoiseControlMode::Quiet },
        DeviceCommand::SetNoiseControlLevel { level: 3 },
        DeviceCommand::SetEqualizer { settings: EqSettings::flat() },
    ];
    for (i, a) in all.iter().enumerate() {
        for (j, b) in all.iter().enumerate() {
            assert_eq!(a.name() == b.name(), i == j);
        }
    }
}
