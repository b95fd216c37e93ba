use qc_control::util::{salt_from, salt_or_default, set_salt, stable_id, UNSET_SALT};

fn installation_id(raw: &str) -> String {
    stable_id(salt_or_default(None), raw)
}

#[test]
fn stable_id_is_deterministic_within_an_installation() {
    let a = installation_id("BTHENUM\\DEV_AABBCCDDEEFF");
    let b = installation_id("BTHENUM\\DEV_AABBCCDDEEFF");
    assert_eq!(a, b);
}

#[test]
fn different_devices_get_different_ids() {
    assert_ne!(
        installation_id("BTHENUM\\DEV_AABBCCDDEEFF"),
        installation_id("BTHENUM\\DEV_112233445566")
    );
}

#[test]
fn stable_id_does_not_leak_the_raw_identifier() {
    let raw = "BTHENUM\\DEV_AABBCCDDEEFF";
    let id = installation_id(raw);
    assert!(!id.contains("AABBCCDDEEFF"));
    assert!(!id.to_uppercase().contains("BTHENUM"));
    assert_eq!(id.len(), 20);
}

#[test]
fn salts_differ_between_generations() {
    assert_ne!(salt_from(1_700_000_000_000_000_000, 100), salt_from(1_700_000_000_000_000_001, 100));
}

// ---- own tests ----

#[test]
fn stable_id_known_values() {
    assert_eq!(stable_id(UNSET_SALT, "BTHENUM\\DEV_AABBCCDDEEFF"), "c8c97410d9bc63e06a5d");
    assert_eq!(stable_id("s", "device"), "7e7be2127323faba2c1a");
}

#[test]
fn salt_known_value_and_shape() {
    let s = salt_from(1, 7);
    assert_eq!(s, "6d262e428ec1a8b8e7feac60fcbace7f179d148e96f9bd3acdf0678c49993ff3");
    assert_eq!(s.len(), 64);
}

#[test]
fn stored_salt_takes_precedence() {
    assert_eq!(salt_or_default(Some("abc")), "abc");
    assert_eq!(salt_or_default(None), "uninitialised-salt");
    assert_ne!(stable_id("abc", "x"), stable_id(UNSET_SALT, "x"));
}

#[test]
fn the_first_salt_set_is_kept() {
    let once = set_salt(None, "first".to_string());
    assert_eq!(once, Some("first".to_string()));
    let twice = set_salt(once, "second".to_string());
    assert_eq!(twice, Some("first".to_string()));
}

#[test]
fn truncate_bytes_cuts_after_whole_characters() {
    assert_eq!(qc_control::text::truncate_bytes("0A 1B 2C", 5), "0A 1B…");
    assert_eq!(qc_control::text::truncate_bytes("0A 1B", 5), "0A 1B");
    assert_eq!(qc_control::text::truncate_bytes("héllo", 3), "hé…");
    assert_eq!(qc_control::text::truncate_bytes("héllo", 0), "…");
}
