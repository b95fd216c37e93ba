use qc_control::listen::capture::{analyse, to_ascii, to_hex, Action, Event, CORRELATION_WINDOW_MS};
use qc_control::listen::report::{
    capture_report, event_counts, export_console, frame_event, opening_note, read_key_line, rx_line,
    KeyInput,
};
use qc_control::listen::rfcomm::parse_address;

fn frame(at_ms: u128, hex: &str) -> Event {
    Event::Frame {
        at_ms,
        timestamp: String::new(),
        direction: "device-to-host",
        service_uuid: String::new(),
        length: 2,
        hex: hex.to_string(),
        ascii: String::new(),
    }
}

fn marker(at_ms: u128, action: Action) -> Event {
    Event::Marker {
        at_ms,
        timestamp: String::new(),
        action,
    }
}

#[test]
fn hex_and_ascii_rendering() {
    assert_eq!(to_hex(&[0x00, 0xAB, 0xFF]), "00 AB FF");
    assert_eq!(to_ascii(&[0x41, 0x00, 0x42]), "A.B");
}

#[test]
fn groups_identical_frames() {
    let events = vec![frame(0, "01 02"), frame(100, "01 02"), frame(200, "03 04")];
    let patterns = analyse(&events);
    assert_eq!(patterns.len(), 2);
    assert_eq!(patterns[0].hex, "01 02");
    assert_eq!(patterns[0].occurrences, 2);
}

#[test]
fn correlates_a_frame_with_a_preceding_marker() {
    let events = vec![marker(1000, Action::AncAware), frame(1200, "AA BB")];
    let patterns = analyse(&events);
    assert_eq!(patterns[0].seen_after_count("ANC_AWARE"), Some(1));
    assert_eq!(patterns[0].unprompted, 0);
}

#[test]
fn frames_outside_the_window_are_unprompted() {
    let events = vec![
        marker(0, Action::AncQuiet),
        frame(CORRELATION_WINDOW_MS + 500, "AA BB"),
    ];
    let patterns = analyse(&events);
    assert!(patterns[0].seen_after.is_empty());
    assert_eq!(patterns[0].unprompted, 1);
}

#[test]
fn frames_preceding_all_markers_are_unprompted() {
    let events = vec![frame(100, "AA BB"), marker(1000, Action::AncQuiet)];
    let patterns = analyse(&events);
    assert_eq!(patterns[0].unprompted, 1);
}

#[test]
fn attributes_to_the_nearest_preceding_marker() {
    let events = vec![
        marker(0, Action::AncQuiet),
        marker(900, Action::AncAware),
        frame(1000, "AA BB"),
    ];
    let patterns = analyse(&events);
    assert_eq!(patterns[0].seen_after_count("ANC_AWARE"), Some(1));
    assert_eq!(patterns[0].seen_after_count("ANC_QUIET"), None);
}

#[test]
fn key_codes_map_to_actions() {
    assert_eq!(Action::from_key("1"), Some(Action::AncQuiet));
    assert_eq!(Action::from_key("U"), Some(Action::VolumeUp));
    assert_eq!(Action::from_key("zzz"), None);
}

#[test]
fn parses_a_plain_address() {
    assert_eq!(parse_address("E458BCF9F02E"), Some(0xE458BCF9F02E));
}

#[test]
fn tolerates_separators() {
    assert_eq!(parse_address("E4:58:BC:F9:F0:2E"), Some(0xE458BCF9F02E));
}

#[test]
fn rejects_wrong_length() {
    assert_eq!(parse_address("E458BCF9F0"), None);
    assert_eq!(parse_address(""), None);
}

// ---- own tests ----

#[test]
fn a_frame_exactly_at_the_window_edge_is_still_correlated() {
    let events = vec![marker(0, Action::Play), frame(CORRELATION_WINDOW_MS, "01")];
    let patterns = analyse(&events);
    assert_eq!(patterns[0].seen_after_count("PLAY"), Some(1));
    assert_eq!(patterns[0].unprompted, 0);
}

#[test]
fn patterns_with_equal_counts_are_ordered_by_hex() {
    let events = vec![frame(0, "BB"), frame(1, "AA")];
    let patterns = analyse(&events);
    assert_eq!(patterns.len(), 2);
    assert_eq!(patterns[0].hex, "AA");
    assert_eq!(patterns[1].hex, "BB");
}

#[test]
fn every_frame_is_counted_once_across_markers_and_unprompted() {
    let events = vec![
        frame(0, "AA"),
        marker(10, Action::Pause),
        frame(20, "AA"),
        marker(30, Action::Play),
        frame(40, "AA"),
    ];
    let patterns = analyse(&events);
    assert_eq!(patterns.len(), 1);
    let p = &patterns[0];
    let seen: usize = p.seen_after.iter().map(|(_, n)| *n).sum();
    assert_eq!(seen + p.unprompted, p.occurrences);
    assert_eq!(p.occurrences, 3);
    assert_eq!(p.seen_after_count("PAUSE"), Some(1));
    assert_eq!(p.seen_after_count("PLAY"), Some(1));
}

#[test]
fn key_lines_map_to_inputs() {
    assert_eq!(read_key_line("q"), KeyInput::Quit);
    assert_eq!(read_key_line(" 2 "), KeyInput::Mark(Action::AncAware));
    assert_eq!(read_key_line(""), KeyInput::Nothing);
    assert_eq!(read_key_line(" ZZ "), KeyInput::Unrecognised("zz".to_string()));
    assert_eq!(Action::AncCustom.label(), "ANC_CUSTOM");
}

#[test]
fn frame_events_carry_rendered_bytes() {
    let e = frame_event(5, "t".to_string(), &[0x41, 0x01]);
    match e {
        Event::Frame { at_ms, hex, ascii, length, .. } => {
            assert_eq!(at_ms, 5);
            assert_eq!(hex, "41 01");
            assert_eq!(ascii, "A.");
            assert_eq!(length, 2);
        }
        _ => panic!("expected a frame"),
    }
    assert_eq!(e_at(&frame(7, "")), 7);
}

fn e_at(e: &Event) -> u128 {
    e.at_ms()
}

#[test]
fn reports_count_frames_and_markers() {
    let events = vec![marker(0, Action::Play), frame(10, "AA"), frame(20, "AA")];
    assert_eq!(event_counts(&events), (2, 1));
    let report = capture_report(&events, "Bose QC", "2024-01-01T00:00:00Z");
    assert!(report.contains("Bose QC"));
    assert!(report.contains("AA"));
    assert!(report.contains("None. This report records temporal correlation only."));
    let console = export_console(&events);
    assert!(!console.is_empty());
    assert!(opening_note("Bose QC").contains("Bose QC"));
    assert!(rx_line(10, &[0xAA]).contains("AA"));
}
