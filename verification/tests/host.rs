use qc_control::audio::{check_volume_percent, endpoint_from};
use qc_control::bluetooth::pnp::{decode_property, wide_to_string, to_wide, instance_ids_from_multi_string, PnpDevice, PropValue, DEVPROP_TYPE_BOOLEAN, DEVPROP_TYPE_BYTE, DEVPROP_TYPE_STRING, DEVPROP_TYPE_UINT32};
use qc_control::bluetooth::radio::availability;
use qc_control::bluetooth::{find_bose_device, list_bluetooth_devices, DiscoveredTransport};
use qc_control::cli::{has_flag, parse_u32, parse_u64, positional, value_after};
use qc_control::device::command::{CommandOutcome, DeviceCommand};
use qc_control::device::state::{EqSettings, NoiseControlMode};
use qc_control::device::DeviceError;
use qc_control::probe::channel::{explain_connect, judge_change, needs_change, ChangeVerdict, ChannelError, RecvOutcome};
use qc_control::probe::frames::NoiseMode;
use qc_control::probe::session::{drain_step, probe_step, query_step, verdict_status, ProbeStep};
use qc_control::session::{plan_command, CommandPlan, UiError};

fn args(xs: &[&str]) -> Vec<String> {
    xs.iter().map(|s| s.to_string()).collect()
}

#[test]
fn cli_flags_and_values() {
    let a = args(&["E458BCF9F02E", "--mode", "quiet", "--verbose"]);
    assert!(has_flag(&a, "--verbose"));
    assert!(!has_flag(&a, "--quiet"));
    assert_eq!(value_after(&a, "--mode"), Some("quiet".to_string()));
    assert_eq!(value_after(&args(&["--mode"]), "--mode"), None);
    assert_eq!(positional(&a, "--mode"), vec!["E458BCF9F02E".to_string()]);
}

#[test]
fn cli_numbers_parse_like_std() {
    assert_eq!(parse_u64("600"), Some(600));
    assert_eq!(parse_u64("+7"), Some(7));
    assert_eq!(parse_u64(""), None);
    assert_eq!(parse_u64("-1"), None);
    assert_eq!(parse_u64("12a"), None);
    assert_eq!(parse_u64("18446744073709551615"), Some(u64::MAX));
    assert_eq!(parse_u64("18446744073709551616"), None);
    assert_eq!(parse_u32("4294967295"), Some(u32::MAX));
    assert_eq!(parse_u32("4294967296"), None);
}

#[test]
fn every_error_variant_has_its_message_and_kind() {
    let cases = vec![
        (DeviceError::NotConnected, "no device is connected", "not-connected"),
        (DeviceError::BluetoothUnavailable, "Bluetooth is unavailable or disabled on this system", "bluetooth-unavailable"),
        (DeviceError::Unreachable, "the device is not reachable (powered off, out of range, or connected elsewhere)", "unreachable"),
        (DeviceError::Timeout(250), "operation timed out after 250ms", "timeout"),
        (
            DeviceError::Unsupported { feature: "eq".to_string(), reason: "no protocol".to_string() },
            "eq is not supported on this device: no protocol",
            "unsupported",
        ),
        (DeviceError::InvalidResponse("x".to_string()), "the device returned a response we could not interpret: x", "invalid-response"),
        (DeviceError::Rejected("y".to_string()), "command rejected: y", "rejected"),
        (DeviceError::Platform("z".to_string()), "Windows API error: z", "platform"),
        (DeviceError::InvalidInput("w".to_string()), "invalid input: w", "invalid-input"),
    ];
    for (e, msg, kind) in cases {
        assert_eq!(e.message(), msg);
        assert_eq!(e.kind(), kind);
        let ui = UiError::from_error(&e);
        assert_eq!(ui.message, msg);
        assert_eq!(ui.kind, kind);
    }
}

#[test]
fn commands_plan_to_backend_calls() {
    assert_eq!(plan_command(&DeviceCommand::Connect), Ok(CommandPlan::Connect));
    assert_eq!(plan_command(&DeviceCommand::Reconnect), Ok(CommandPlan::Reconnect));
    assert_eq!(
        plan_command(&DeviceCommand::SetNoiseControl { mode: NoiseControlMode::Aware }),
        Ok(CommandPlan::SetNoiseControl(NoiseControlMode::Aware))
    );
    match plan_command(&DeviceCommand::SetNoiseControlLevel { level: 5 }) {
        Ok(CommandPlan::Respond(CommandOutcome::Unsupported { reason })) => {
            assert_eq!(reason, "Continuous noise-control level requires a verified vendor protocol.")
        }
        other => panic!("unexpected {:?}", other),
    }
    match plan_command(&DeviceCommand::MediaNext) {
        Ok(CommandPlan::Respond(CommandOutcome::Unsupported { reason })) => {
            assert_eq!(reason, "Windows audio integration is not wired up yet.")
        }
        other => panic!("unexpected {:?}", other),
    }
    assert!(matches!(
        plan_command(&DeviceCommand::ReadBattery),
        Ok(CommandPlan::Respond(CommandOutcome::Applied { .. }))
    ));
}

#[test]
fn invalid_commands_are_refused_before_any_backend() {
    assert!(matches!(
        plan_command(&DeviceCommand::SetSystemVolume { percent: 101 }),
        Err(DeviceError::InvalidInput(_))
    ));
    let bad = EqSettings { bass: 11, mid: 0, treble: 0 };
    assert!(matches!(
        plan_command(&DeviceCommand::SetEqualizer { settings: bad }),
        Err(DeviceError::InvalidInput(_))
    ));
}

#[test]
fn volume_check_names_the_value() {
    assert_eq!(check_volume_percent(100), Ok(()));
    assert_eq!(
        check_volume_percent(150),
        Err(DeviceError::InvalidInput("volume must be 0-100, got 150".to_string()))
    );
}

#[test]
fn endpoints_are_built_from_core_audio_readings() {
    let e = endpoint_from(
        "{0.0.0.1}".to_string(),
        Some("Headphones (Bose QC Ultra Stereo)".to_string()),
        40,
        false,
        Some((48000, 2)),
        Some("{0.0.0.1}"),
        None,
    );
    assert!(e.is_default_render);
    assert!(!e.is_default_communications);
    assert_eq!(e.sample_rate_hz, Some(48000));
    assert_eq!(e.channels, Some(2));
    assert!(e.likely_bluetooth);
    let unnamed = endpoint_from("id".to_string(), None, 0, true, None, None, None);
    assert_eq!(unnamed.name, "Unknown endpoint");
    assert_eq!(unnamed.sample_rate_hz, None);
}

#[test]
fn radio_availability_follows_the_node_count() {
    let none = availability(0, true);
    assert!(!none.radio_present);
    assert_eq!(none.detail, "No Bluetooth radio is present on this system.");
    let two = availability(2, true);
    assert!(two.radio_present && two.radio_enabled);
    assert_eq!(two.detail, "2 Bluetooth radio node(s) present and the Windows Bluetooth stack responded.");
    let off = availability(1, false);
    assert!(off.radio_present && !off.radio_enabled);
    assert_eq!(off.detail, "1 Bluetooth radio node(s) present, but Bluetooth is switched off in Windows.");
    assert!(!availability(0, false).radio_enabled);
}

#[test]
fn property_buffers_decode_by_type() {
    let mut s: Vec<u8> = Vec::new();
    for u in to_wide("Bose") {
        s.extend_from_slice(&u.to_le_bytes());
    }
    assert_eq!(decode_property(DEVPROP_TYPE_STRING, &s), Some(PropValue::Text("Bose".to_string())));
    assert_eq!(decode_property(DEVPROP_TYPE_BYTE, &[77]), Some(PropValue::Byte(77)));
    assert_eq!(decode_property(DEVPROP_TYPE_UINT32, &[1, 0, 0, 0]), Some(PropValue::Number(1)));
    assert_eq!(decode_property(DEVPROP_TYPE_BOOLEAN, &[0]), Some(PropValue::Bool(false)));
    assert_eq!(decode_property(DEVPROP_TYPE_BYTE, &[]), None);
    assert_eq!(decode_property(999, &[1]), None);
    assert_eq!(wide_to_string(&[0x42, 0x6F, 0, 0x73]), "Bo");
    let multi: Vec<u16> = "A\0BC\0\0".encode_utf16().collect();
    assert_eq!(instance_ids_from_multi_string(&multi), vec!["A".to_string(), "BC".to_string()]);
}

fn node(id: &str, name: Option<&str>, vendor: Option<u16>) -> PnpDevice {
    PnpDevice {
        instance_id: id.to_string(),
        friendly_name: name.map(|n| n.to_string()),
        is_connected: Some(true),
        battery_percent: None,
        vendor_id: vendor,
    }
}

#[test]
fn listing_keeps_top_level_nodes_with_hashed_ids() {
    let devices = vec![
        node("BTHENUM\\DEV_E458BCF9F02E\\7&1", Some("Bose QC Ultra"), None),
        node("BTHENUM\\{0000110B-0000-1000-8000-00805F9B34FB}_LOCALMFG&0002\\7&1", Some("Bose QC Ultra"), None),
        node("BTHLE\\DEV_79C657FDB4BC\\7&2", None, None),
    ];
    let listed = list_bluetooth_devices(&devices, "salt");
    assert_eq!(listed.len(), 2);
    assert_eq!(listed[0].transport, DiscoveredTransport::Classic);
    assert!(listed[0].looks_like_bose);
    assert_eq!(listed[1].transport, DiscoveredTransport::LowEnergy);
    assert!(!listed[0].id.contains("E458BCF9F02E"));
}

#[test]
fn the_bose_device_is_found_by_vendor() {
    let devices = vec![
        node("BTHENUM\\DEV_112233445566\\7&1", Some("Phone"), Some(0x004C)),
        node("BTHENUM\\DEV_E458BCF9F02E\\7&1", Some("Headphones"), Some(0x009E)),
    ];
    assert_eq!(
        find_bose_device(&devices),
        Some(("Headphones".to_string(), "E458BCF9F02E".to_string()))
    );
    assert_eq!(find_bose_device(&devices[..1]), None);
}

#[test]
fn probe_verdicts_follow_the_read_back() {
    assert_eq!(judge_change(Some(0), Some(1), NoiseMode::Aware), ChangeVerdict::Verified);
    assert_eq!(judge_change(Some(1), Some(1), NoiseMode::Aware), ChangeVerdict::Unchanged);
    assert_eq!(judge_change(None, Some(1), NoiseMode::Aware), ChangeVerdict::NoBaseline);
    assert_eq!(judge_change(Some(0), Some(2), NoiseMode::Aware), ChangeVerdict::Mismatch);
    assert_eq!(judge_change(Some(0), None, NoiseMode::Aware), ChangeVerdict::Unverifiable);
    assert!(needs_change(Some(0), NoiseMode::Aware));
    assert!(!needs_change(Some(1), NoiseMode::Aware));
    assert!(needs_change(None, NoiseMode::Quiet));
}

#[test]
fn probe_read_loop_steps() {
    let data = Ok(RecvOutcome::Data(vec![0x1F, 0x03, 0x03, 0x01, 0x02]));
    assert_eq!(query_step(None, &data), (Some(2), false));
    assert_eq!(query_step(Some(1), &data), (Some(1), false));
    assert_eq!(query_step(Some(1), &Ok(RecvOutcome::Idle)), (Some(1), true));
    assert_eq!(query_step(None, &Ok(RecvOutcome::Idle)), (None, false));
    assert_eq!(query_step(None, &Err(ChannelError::Recv(5))), (None, true));
    assert!(!drain_step(&Ok(RecvOutcome::Idle)));
    assert!(drain_step(&Ok(RecvOutcome::Closed)));
}

#[test]
fn channel_errors_explain_themselves() {
    assert!(explain_connect(10061).starts_with("RFCOMM connect failed (10061): the device refused"));
    assert_eq!(ChannelError::Send(-1).message(), "send failed (-1)");
    assert_eq!(qc_control::probe::channel::parse_address("E4-58-BC-F9-F0-2E"), Some(0xE458BCF9F02E));
}

#[test]
fn probe_stops_without_a_baseline_unless_forced() {
    assert_eq!(probe_step(None, false, Some(NoiseMode::Aware)), ProbeStep::StopWithoutBaseline);
    assert_eq!(probe_step(None, false, None), ProbeStep::StopWithoutBaseline);
    assert_eq!(probe_step(None, true, Some(NoiseMode::Aware)), ProbeStep::Send(NoiseMode::Aware));
    assert_eq!(probe_step(Some(0), false, None), ProbeStep::ReadOnly);
    assert_eq!(probe_step(Some(1), false, Some(NoiseMode::Aware)), ProbeStep::AlreadyInMode);
    assert_eq!(probe_step(Some(0), false, Some(NoiseMode::Aware)), ProbeStep::Send(NoiseMode::Aware));
    assert_eq!(verdict_status(ChangeVerdict::Unverifiable), 5);
    assert_eq!(verdict_status(ChangeVerdict::Mismatch), 7);
    assert_eq!(verdict_status(ChangeVerdict::Unchanged), 6);
    assert_eq!(verdict_status(ChangeVerdict::Verified), 0);
    assert_eq!(verdict_status(ChangeVerdict::NoBaseline), 8);
}
