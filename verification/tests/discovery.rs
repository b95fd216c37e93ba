use qc_control::bluetooth::pnp::PnpDevice;
use qc_control::discovery::gatt::{known_service_name, owning_address, parse_service, GattService};
use qc_control::discovery::report::{redact_name, stable_id, DeviceRecord, Report};
use qc_control::discovery::{collect, extract_address, looks_like_bose, summary_text, truncate};
use qc_control::util::salt_from;

fn sample() -> Report {
    Report::new(
        1,
        vec![DeviceRecord {
            id: stable_id("salt", "BTHENUM\\DEV_AABBCCDDEEFF"),
            name: "Bose QuietComfort".to_string(),
            transport: "bluetooth-classic".to_string(),
            connected: Some(true),
            battery_percent: Some(72),
            looks_like_bose: true,
            gatt_services: vec![GattService {
                uuid: "0000180F-0000-1000-8000-00805F9B34FB".to_string(),
                known_name: Some("Battery Service".to_string()),
                vendor_specific: false,
            }],
        }],
        "0.1.0",
    )
}

#[test]
fn parses_standard_battery_service() {
    let s = parse_service(
        "BTHLEDEVICE\\{0000180F-0000-1000-8000-00805F9B34FB}_DEV_VID&0017EF_PID&6134_REV&0026_79C657FDB4BC\\8&30736FC1&0&0020",
    )
    .unwrap();
    assert_eq!(s.known_name.as_deref(), Some("Battery Service"));
    assert!(!s.vendor_specific);
}

#[test]
fn parses_device_information_service() {
    let s = parse_service(
        "BTHLEDEVICE\\{0000180A-0000-1000-8000-00805F9B34FB}_DEV_VID&0017EF_PID&6134_REV&0026_79C657FDB4BC\\8&30736FC1&0&000E",
    )
    .unwrap();
    assert_eq!(s.known_name.as_deref(), Some("Device Information"));
    assert!(!s.vendor_specific);
}

#[test]
fn flags_vendor_specific_service() {
    let s = parse_service(
        "BTHLEDEVICE\\{594A34FC-31DB-11EA-978F-2E728CE88125}_34F043C9E0F6\\8&2D7DA683&0&0086",
    )
    .unwrap();
    assert!(s.vendor_specific);
    assert!(s.known_name.is_none());
}

#[test]
fn reports_a_lower_case_uuid_in_upper_case() {
    let s = parse_service(
        "bthledevice\\{594a34fc-31db-11ea-978f-2e728ce88125}_34f043c9e0f6\\8&2d7da683&0&0086",
    )
    .unwrap();
    assert_eq!(s.uuid, "594A34FC-31DB-11EA-978F-2E728CE88125");
    assert_eq!(s.uuid, s.uuid.to_uppercase());
    assert!(s.vendor_specific);
}

#[test]
fn ignores_non_service_nodes() {
    assert!(parse_service("BTHLE\\DEV_79C657FDB4BC\\7&1E36B139&0&79C657FDB4BC").is_none());
    assert!(parse_service(
        "BTHENUM\\DEV_E458BCF9F02E\\7&78167D1&0&BLUETOOTHDEVICE_E458BCF9F02E"
    )
    .is_none());
}

#[test]
fn extracts_owning_address() {
    assert_eq!(
        owning_address(
            "BTHLEDEVICE\\{00001801-0000-1000-8000-00805F9B34FB}_34F043C9E0F6\\8&2D7DA683&0&0001"
        )
        .as_deref(),
        Some("34F043C9E0F6")
    );
}

#[test]
fn bose_hints_match_the_application() {
    assert!(looks_like_bose("Bose QuietComfort Headphones"));
    assert!(!looks_like_bose("Jaisal's S24 Ultra"));
}

#[test]
fn truncate_preserves_short_names() {
    assert_eq!(truncate("Bose QC", 42), "Bose QC");
}

#[test]
fn extracts_address_from_top_level_ids() {
    assert_eq!(
        extract_address("BTHENUM\\DEV_E458BCF9F02E\\7&78167D1&0&BLUETOOTHDEVICE_E458BCF9F02E")
            .as_deref(),
        Some("E458BCF9F02E")
    );
    assert_eq!(
        extract_address("BTHLE\\DEV_79C657FDB4BC\\7&1E36B139&0&79C657FDB4BC").as_deref(),
        Some("79C657FDB4BC")
    );
}

#[test]
fn report_contains_no_bluetooth_address() {
    let report = sample();
    let text = report.to_text();
    assert!(!text.contains("AABBCCDDEEFF"));
    assert!(!report.devices[0].id.contains("AABBCCDDEEFF"));
}

#[test]
fn report_declares_its_read_only_posture() {
    let report = sample();
    assert!(report.scope.read_only);
    assert_eq!(report.scope.bytes_written_to_devices, 0);
    assert!(!report.scope.contains_bluetooth_addresses);
    assert!(report.to_text().contains("READ-ONLY"));
}

#[test]
fn text_report_flags_vendor_services_for_investigation() {
    let mut report = sample();
    report.devices[0].gatt_services.push(GattService {
        uuid: "594A34FC-31DB-11EA-978F-2E728CE88125".to_string(),
        known_name: None,
        vendor_specific: true,
    });
    assert!(report.to_text().contains("VENDOR-SPECIFIC"));
}

#[test]
fn redaction_drops_personal_names_but_keeps_bose_models() {
    assert_eq!(redact_name("Jaisal's S24 Ultra", false), "[redacted device]");
    assert_eq!(
        redact_name("Bose QuietComfort Headphones", true),
        "Bose QuietComfort Headphones"
    );
}

#[test]
fn salts_differ_between_runs() {
    assert_ne!(salt_from(1_000, 42), salt_from(2_000, 42));
    assert_ne!(salt_from(1_000, 42), salt_from(1_000, 43));
}

#[test]
fn same_salt_and_input_gives_same_id() {
    assert_eq!(stable_id("s", "device"), stable_id("s", "device"));
    assert_ne!(stable_id("s1", "device"), stable_id("s2", "device"));
}

// ---- own tests ----

#[test]
fn known_short_uuids_have_names() {
    assert_eq!(known_service_name("180F"), Some("Battery Service"));
    assert_eq!(known_service_name("FFFF"), None);
}

#[test]
fn truncate_shortens_long_names_with_an_ellipsis() {
    assert_eq!(truncate("abcdef", 4), "abc…");
    assert_eq!(truncate("abcd", 4), "abcd");
    assert_eq!(truncate("abc", 0), "…");
}

#[test]
fn extract_address_rejects_child_nodes_and_short_ids() {
    assert_eq!(extract_address("BTHENUM\\{0000110B-0000-1000-8000-00805F9B34FB}_LOCALMFG&0002\\7&1"), None);
    assert_eq!(extract_address("BTHENUM\\DEV_E458"), None);
}

#[test]
fn collect_keeps_only_top_level_nodes_and_attaches_services() {
    let devices = vec![
        PnpDevice {
            instance_id: "BTHENUM\\DEV_E458BCF9F02E\\7&78167D1&0&BLUETOOTHDEVICE_E458BCF9F02E".to_string(),
            friendly_name: Some("Bose QC Ultra".to_string()),
            is_connected: Some(true),
            battery_percent: Some(80),
            vendor_id: None,
        },
        PnpDevice {
            instance_id: "BTHENUM\\{0000110B-0000-1000-8000-00805F9B34FB}_LOCALMFG&0002\\7&1".to_string(),
            friendly_name: Some("Bose QC Ultra".to_string()),
            is_connected: None,
            battery_percent: None,
            vendor_id: None,
        },
        PnpDevice {
            instance_id: "BTHLE\\DEV_34F043C9E0F6\\7&1E36B139&0&34F043C9E0F6".to_string(),
            friendly_name: Some("Jaisal's S24 Ultra".to_string()),
            is_connected: Some(false),
            battery_percent: None,
            vendor_id: None,
        },
    ];
    let services = vec![
        "BTHLEDEVICE\\{594A34FC-31DB-11EA-978F-2E728CE88125}_34F043C9E0F6\\8&2D7DA683&0&0086".to_string(),
    ];
    let report = collect(&devices, &services, 1, "salt", true, "0.1.0");
    assert_eq!(report.tool, "bose-discovery");
    assert_eq!(report.version, "0.1.0");
    assert_eq!(report.radio_nodes, 1);
    assert_eq!(report.devices.len(), 2);
    assert_eq!(report.devices[0].name, "Bose QC Ultra");
    assert!(report.devices[0].looks_like_bose);
    assert_eq!(report.devices[0].transport, "bluetooth-classic");
    assert!(report.devices[0].gatt_services.is_empty());
    assert_eq!(report.devices[1].name, "[redacted device]");
    assert_eq!(report.devices[1].transport, "bluetooth-le");
    assert_eq!(report.devices[1].gatt_services.len(), 1);
    assert!(report.devices[1].gatt_services[0].vendor_specific);
    assert_eq!(
        report.devices[0].id,
        stable_id("salt", "BTHENUM\\DEV_E458BCF9F02E\\7&78167D1&0&BLUETOOTHDEVICE_E458BCF9F02E")
    );
    let text = report.to_text();
    assert!(!text.contains("E458BCF9F02E"));
    assert!(!text.contains("34F043C9E0F6"));
    let summary = summary_text(&report);
    assert!(summary.contains("Bluetooth radio nodes present: 1"));
    assert!(summary.contains("Paired devices found: 2"));
}
