use qc_control::probe::frames::{find_reported_mode, set_mode, to_hex, NoiseMode, READ_CURRENT_MODE};

#[test]
fn frames_match_the_observed_bytes() {
    assert_eq!(to_hex(&READ_CURRENT_MODE), "1F 03 01 00");
    assert_eq!(to_hex(&set_mode(NoiseMode::Quiet)), "1F 03 05 02 00");
    assert_eq!(to_hex(&set_mode(NoiseMode::Aware)), "1F 03 05 02 01");
    assert_eq!(to_hex(&set_mode(NoiseMode::Home)), "1F 03 05 02 02");
}

#[test]
fn parses_a_status_response() {
    assert_eq!(find_reported_mode(&[0x1F, 0x03, 0x03, 0x01, 0x01]), Some(0x01));
}

#[test]
fn parses_a_notify_response() {
    assert_eq!(find_reported_mode(&[0x1F, 0x03, 0x06, 0x01, 0x00]), Some(0x00));
}

#[test]
fn finds_the_mode_frame_inside_a_concatenated_payload() {
    let payload = [
        0x1F, 0x03, 0x07, 0x00, 0x1F, 0x04, 0x03, 0x01, 0x00, 0x1F, 0x03, 0x06, 0x01, 0x00,
    ];
    assert_eq!(find_reported_mode(&payload), Some(0x00));
}

#[test]
fn ignores_unrelated_payloads() {
    assert_eq!(find_reported_mode(&[0x05, 0x06, 0x03, 0x01, 0x01]), None);
    assert_eq!(find_reported_mode(&[]), None);
    assert_eq!(find_reported_mode(&[0x1F, 0x03]), None);
}

#[test]
fn mode_round_trips() {
    for m in [NoiseMode::Quiet, NoiseMode::Aware, NoiseMode::Home] {
        assert_eq!(NoiseMode::from_index(m.index()), Some(m));
    }
    assert_eq!(NoiseMode::from_index(0x03), None);
}

#[test]
fn parses_mode_names() {
    assert_eq!(NoiseMode::parse("quiet"), Some(NoiseMode::Quiet));
    assert_eq!(NoiseMode::parse("AWARE"), Some(NoiseMode::Aware));
    assert_eq!(NoiseMode::parse("nonsense"), None);
}

#[test]
fn mode_names_parse_ignoring_ascii_case_and_whitespace() {
    for m in [NoiseMode::Quiet, NoiseMode::Aware, NoiseMode::Home] {
        assert_eq!(NoiseMode::parse(m.name()), Some(m));
    }
    assert_eq!(NoiseMode::parse("  AWARE "), Some(NoiseMode::Aware));
    assert_eq!(NoiseMode::parse("hOmE"), Some(NoiseMode::Home));
    assert_eq!(NoiseMode::parse("nonsense"), None);
}
