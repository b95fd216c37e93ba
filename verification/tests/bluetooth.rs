use qc_control::audio::looks_like_bluetooth_endpoint;
use qc_control::bluetooth::pnp::{node_address, vendor_id_of, PnpDevice, PropValue};

fn dev(instance_id: &str) -> PnpDevice {
    PnpDevice {
        instance_id: instance_id.to_string(),
        friendly_name: None,
        is_connected: None,
        battery_percent: None,
        vendor_id: None,
    }
}

#[test]
fn top_level_classic_and_le_nodes_are_recognised() {
    assert!(dev("BTHENUM\\DEV_E458BCF9F02E\\7&78167D1&0&BLUETOOTHDEVICE_E458BCF9F02E")
        .is_top_level());
    assert!(dev("BTHLE\\DEV_79C657FDB4BC\\7&1E36B139&0&79C657FDB4BC").is_top_level());
}

#[test]
fn per_profile_child_nodes_are_excluded() {
    assert!(!dev(
        "BTHENUM\\{0000110C-0000-1000-8000-00805F9B34FB}_VID&00010075_PID&0100\\7&78167D1&0&34F043C9E0F6_C00000000"
    )
    .is_top_level());
    assert!(!dev(
        "BTHLEDEVICE\\{0000180F-0000-1000-8000-00805F9B34FB}_DEV_VID&0017EF_PID&6134_REV&0026_79C657FDB4BC\\8&30736FC1&0&0020"
    )
    .is_top_level());
}

#[test]
fn percent_accepts_byte_and_bounded_u32() {
    assert_eq!(PropValue::Byte(60).as_percent(), Some(60));
    assert_eq!(PropValue::Number(60).as_percent(), Some(60));
    assert_eq!(PropValue::Number(4294967295).as_percent(), None);
    assert_eq!(PropValue::Text("60".into()).as_percent(), None);
}

#[test]
fn bluetooth_endpoint_hints() {
    assert!(looks_like_bluetooth_endpoint("Headphones (Bose QC Stereo)"));
    assert!(looks_like_bluetooth_endpoint("Headset (Bose Hands-Free AG Audio)"));
    assert!(!looks_like_bluetooth_endpoint("Speakers (Realtek(R) Audio)"));
}

fn node(id: &str, battery: Option<u8>, connected: Option<bool>) -> PnpDevice {
    qc_control::bluetooth::pnp::pnp_device_from(
        id.to_string(),
        None,
        None,
        connected.map(qc_control::bluetooth::pnp::PropValue::Bool),
        battery.map(qc_control::bluetooth::pnp::PropValue::Byte),
    )
}

#[test]
fn properties_fold_across_the_nodes_of_one_device() {
    let top = "BTHENUM\\DEV_E458BCF9F02E\\7&78167D1&0&BLUETOOTHDEVICE_E458BCF9F02E";
    let hfp = "BTHENUM\\{0000111E-0000-1000-8000-00805F9B34FB}_VID&0001009E_PID&4061\\7&78167D1&0&E458BCF9F02E_C00000000";
    let other = "BTHENUM\\DEV_112233445566\\7&1&0&BLUETOOTHDEVICE_112233445566";
    let merged = qc_control::bluetooth::pnp::enumerate_bluetooth_devices(vec![
        node(top, None, Some(true)),
        node(hfp, Some(30), None),
        node(other, None, None),
    ]);
    let t = merged.iter().find(|d| d.instance_id == top).unwrap();
    assert_eq!(t.battery_percent, Some(30));
    assert_eq!(t.vendor_id, Some(0x009E));
    assert_eq!(t.is_connected, Some(true));
    let o = merged.iter().find(|d| d.instance_id == other).unwrap();
    assert_eq!(o.battery_percent, None);
    assert_eq!(o.vendor_id, None);
    assert_eq!(
        qc_control::bluetooth::find_bose_device(&merged),
        Some(("Bose device".to_string(), "E458BCF9F02E".to_string()))
    );
}

#[test]
fn node_addresses_and_vendor_ids_are_read_from_instance_ids() {
    assert_eq!(
        node_address("BTHENUM\\{0000110C-0000-1000-8000-00805F9B34FB}_VID&00010075_PID&0100\\7&78167D1&0&34F043C9E0F6_C00000000").as_deref(),
        Some("34F043C9E0F6")
    );
    assert_eq!(node_address("BTHLE\\DEV_79C657FDB4BC\\7&1E36B139&0&79C657FDB4BC").as_deref(), Some("79C657FDB4BC"));
    assert_eq!(node_address("BTH\\MS_BTHBRB\\7&1"), None);
    assert_eq!(vendor_id_of("BTHENUM\\{0000110C-0000-1000-8000-00805F9B34FB}_VID&00010075_PID&0100\\7&1"), Some(0x0075));
    assert_eq!(vendor_id_of("BTHENUM\\DEV_E458BCF9F02E\\7&1"), None);
    assert_eq!(vendor_id_of("X_VID&0002009E"), None);
}
