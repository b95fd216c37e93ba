use qc_control::bose::hardware::{Observed, RealBoseDevice};
use qc_control::bose::mock::{MockBehaviour, MockBoseDevice};
use qc_control::bose::{is_bose_device, looks_like_bose};
use qc_control::device::{
    BatterySource, CapabilityKey, CapabilityStatus, CommandOutcome, ConnectionState, DeviceError,
    DeviceSource, EqSettings, NoiseControlMode, Transport,
};

fn perfect() -> MockBoseDevice {
    MockBoseDevice::new(MockBehaviour::perfect())
}

#[test]
fn starts_disconnected_and_reveals_nothing() {
    let mut dev = perfect();
    let snap = dev.snapshot().unwrap();
    assert_eq!(snap.connection, ConnectionState::Disconnected);
    assert!(snap.battery.is_none());
    assert!(snap.identity.is_none());
    assert!(snap.noise_control.is_none());
}

#[test]
fn reads_fail_when_disconnected() {
    let mut dev = perfect();
    assert!(matches!(dev.battery(), Err(DeviceError::NotConnected)));
}

#[test]
fn connecting_exposes_simulated_readings() {
    let mut dev = perfect();
    dev.connect().unwrap();
    let snap = dev.snapshot().unwrap();
    assert_eq!(snap.connection, ConnectionState::Connected);
    assert_eq!(snap.source, DeviceSource::Mock);
    assert_eq!(snap.transport, Transport::Simulated);

    let battery = snap.battery.expect("connected mock reports battery");
    assert_eq!(battery.source, BatterySource::Simulated);
}

#[test]
fn mock_never_reports_hardware_verified_capabilities() {
    let mut dev = perfect();
    dev.connect().unwrap();
    let caps = dev.capabilities();
    assert_eq!(caps.verified_count(), 0);
    for cap in caps.iter() {
        assert!(!cap.hardware_verified, "{:?} claimed hardware verification", cap.key);
        assert_ne!(
            cap.status,
            CapabilityStatus::Verified,
            "{:?} reached VERIFIED from simulation",
            cap.key
        );
    }
}

#[test]
fn identity_is_labelled_simulated() {
    let mut dev = perfect();
    dev.connect().unwrap();
    let id = dev.device_info().unwrap().unwrap();
    assert!(
        id.name.to_uppercase().contains("SIMULATED"),
        "mock identity must be self-labelling, got {:?}",
        id.name
    );
}

#[test]
fn noise_control_round_trips() {
    let mut dev = perfect();
    dev.connect().unwrap();
    let outcome = dev.set_noise_control(NoiseControlMode::Aware).unwrap();
    assert!(outcome.is_confirmed());
    let state = dev.noise_control().unwrap().unwrap();
    assert_eq!(state.mode, NoiseControlMode::Aware);
}

#[test]
fn unverified_path_is_reachable() {
    let mut dev = MockBoseDevice::new(MockBehaviour {
        unverified_every: 1,
        read_failure_every: 0,
        drain_every: 0,
    });
    dev.connect().unwrap();
    let outcome = dev.set_noise_control(NoiseControlMode::Quiet).unwrap();
    assert!(!outcome.is_confirmed());
    assert!(matches!(outcome, CommandOutcome::SentUnverified { .. }));
}

#[test]
fn out_of_range_eq_is_refused() {
    let mut dev = perfect();
    dev.connect().unwrap();
    let bad = EqSettings {
        bass: 99,
        mid: 0,
        treble: 0,
    };
    assert!(dev.set_equalizer(bad).is_err());
}

#[test]
fn disconnect_clears_exposed_state() {
    let mut dev = perfect();
    dev.connect().unwrap();
    dev.disconnect().unwrap();
    let snap = dev.snapshot().unwrap();
    assert!(snap.battery.is_none());
    assert!(snap.identity.is_none());
}

#[test]
fn recognises_plausible_bose_names() {
    assert!(looks_like_bose("Bose QuietComfort Headphones"));
    assert!(looks_like_bose("LE_Bose QC Ultra Headphones"));
    assert!(looks_like_bose("BOSE QC45"));
    assert!(looks_like_bose("quietcomfort 45"));
}

#[test]
fn does_not_match_unrelated_devices() {
    assert!(!looks_like_bose("Jaisal's S24 Ultra"));
    assert!(!looks_like_bose("Legion M600s Mouse"));
    assert!(!looks_like_bose("ZEB-DUKE"));
    assert!(!looks_like_bose("Speakers (Realtek(R) Audio)"));
}

#[test]
fn ultra_alone_is_not_a_bose_hint() {
    assert!(!looks_like_bose("Galaxy S24 Ultra"));
}

#[test]
fn renamed_bose_device_is_identified_by_vendor_id() {
    assert!(!looks_like_bose("Aurora"));
    assert!(is_bose_device(Some(0x009E), "Aurora"));
}

#[test]
fn non_bose_vendor_is_not_matched() {
    assert!(!is_bose_device(Some(0x0075), "Jaisal's S24 Ultra"));
    assert!(!is_bose_device(Some(0x0075), "Bose QuietComfort"));
}

#[test]
fn name_hint_is_used_only_when_no_vendor_id_exists() {
    assert!(is_bose_device(None, "Bose QuietComfort Headphones"));
    assert!(!is_bose_device(None, "Aurora"));
}

#[test]
fn vendor_features_report_unsupported_not_success() {
    let dev = RealBoseDevice::new(Some("NON_EXISTENT_DEVICE".to_string()));

    let outcome = dev.set_noise_control(NoiseControlMode::Aware).unwrap();
    assert!(!outcome.is_confirmed());
    assert!(matches!(outcome, CommandOutcome::Unsupported { .. }));

    let outcome = dev.set_equalizer(EqSettings::flat()).unwrap();
    assert!(matches!(outcome, CommandOutcome::Unsupported { .. }));
}

#[test]
fn unknown_state_is_none_not_a_plausible_default() {
    let dev = RealBoseDevice::new(Some("NON_EXISTENT_DEVICE".to_string()));
    assert!(dev.noise_control().unwrap().is_none());
    assert!(dev.equalizer().unwrap().is_none());
}

#[test]
fn capabilities_without_a_device_are_all_unknown() {
    let dev = RealBoseDevice::new(None);
    let caps = dev.build_capabilities(&Observed::default());
    assert_eq!(caps.verified_count(), 0);
    for cap in caps.iter() {
        assert_eq!(cap.status, CapabilityStatus::Unknown);
    }
}

#[test]
fn battery_capability_requires_an_actual_reading() {
    let dev = RealBoseDevice::new(None);
    let obs = Observed {
        instance_id: Some("BTHENUM\\DEV_TEST".into()),
        name: Some("Bose QuietComfort".into()),
        connected: true,
        battery: None,
        battery_ever_read: false,
    };
    let caps = dev.build_capabilities(&obs);
    let battery = caps.get(CapabilityKey::Battery);
    assert!(!battery.hardware_verified);
    assert_ne!(battery.status, CapabilityStatus::Verified);
}

#[test]
fn battery_capability_is_verified_once_actually_read() {
    let dev = RealBoseDevice::new(None);
    let obs = Observed {
        instance_id: Some("BTHENUM\\DEV_TEST".into()),
        name: Some("Bose QuietComfort".into()),
        connected: true,
        battery: Some(72),
        battery_ever_read: true,
    };
    let caps = dev.build_capabilities(&obs);
    let battery = caps.get(CapabilityKey::Battery);
    assert!(battery.hardware_verified);
    assert_eq!(battery.status, CapabilityStatus::Verified);
}

#[test]
fn vendor_capabilities_stay_unknown_even_with_device_present() {
    let dev = RealBoseDevice::new(None);
    let obs = Observed {
        instance_id: Some("BTHENUM\\DEV_TEST".into()),
        name: Some("Bose QuietComfort".into()),
        connected: true,
        battery: Some(72),
        battery_ever_read: true,
    };
    let caps = dev.build_capabilities(&obs);
    for key in [
        CapabilityKey::NoiseControl,
        CapabilityKey::AwareMode,
        CapabilityKey::Equalizer,
    ] {
        assert_eq!(
            caps.get(key).status,
            CapabilityStatus::Unknown,
            "{key:?} must remain unknown until investigated"
        );
    }
}

#[test]
fn battery_drains_every_nth_snapshot_read() {
    let mut dev = MockBoseDevice::new(MockBehaviour { unverified_every: 0, read_failure_every: 0, drain_every: 1 });
    dev.connect().unwrap();
    let a = dev.snapshot().unwrap().battery.unwrap().percent;
    let b = dev.snapshot().unwrap().battery.unwrap().percent;
    assert_eq!(a, 77);
    assert!(b < a);

    let mut dev = MockBoseDevice::new(MockBehaviour { unverified_every: 0, read_failure_every: 0, drain_every: 3 });
    dev.connect().unwrap();
    let levels: Vec<u8> = (0..6).map(|_| dev.snapshot().unwrap().battery.unwrap().percent).collect();
    assert_eq!(levels, vec![78, 78, 77, 77, 77, 76]);
}

#[test]
fn every_nth_mutation_is_reported_unverified() {
    let mut dev = MockBoseDevice::new(MockBehaviour { unverified_every: 1, read_failure_every: 0, drain_every: 0 });
    assert!(matches!(dev.connect(), Ok(CommandOutcome::SentUnverified { .. })));
    assert!(matches!(dev.set_equalizer(EqSettings::flat()), Ok(CommandOutcome::SentUnverified { .. })));
    assert_eq!(dev.equalizer().unwrap().unwrap().settings, EqSettings::flat());

    let mut dev = MockBoseDevice::new(MockBehaviour { unverified_every: 2, read_failure_every: 0, drain_every: 0 });
    assert!(matches!(dev.connect(), Ok(CommandOutcome::Applied { .. })));
    assert!(matches!(dev.set_equalizer(EqSettings::flat()), Ok(CommandOutcome::SentUnverified { .. })));
    assert!(matches!(dev.disconnect(), Ok(CommandOutcome::Applied { .. })));
}
