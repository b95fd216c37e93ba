//! What a listen-only capture session decides and writes: the events it
//! records, how the operator's key lines are read, and the text report
//! exported at the end. It records temporal correlation only and
//! interprets nothing.

use super::capture::{
    analyse, count_frames, pattern_before, pattern_correct, spec_action_label,
    spec_action_from_key, to_ascii, to_hex, Action, Event, FramePattern, CORRELATION_WINDOW_MS,
};
use crate::text::{
    ascii_render, decimal, hex_spaced, lemma_hex_spaced_ascii, lower_text, owned, push_decimal,
    push_decimal_right, push_str, right_aligned, spec_truncate_ascii, str_eq, to_lowercase, trim,
    trimmed, truncate_bytes, lemma_truncate_bytes_ascii,
};
use vstd::prelude::*;

verus! {

/// The vendor-specific RFCOMM service observed on the test headphones.
pub const VENDOR_RFCOMM_UUID_TEXT: &'static str = "{9B26D8C0-A8ED-440B-95B0-C4714A518BCC}";

/// Hard ceiling on capture length, so a forgotten session cannot hold the
/// vendor channel indefinitely.
pub const DEFAULT_MAX_SECONDS: u64 = 600;

/// The closing section of every capture report.
pub const CAPTURE_INTERPRETATION: &'static str = "\nINTERPRETATION\n--------------\nNone. This report records temporal correlation only.\n\nA frame arriving after an action is not proof that the frame encodes\nthat action, that the field which changed is the mode, or that the\ndevice would accept the same bytes as a command. Establishing any of\nthat requires further observation, and writing to the device is a\nseparate decision that has not been taken.\n\nCapability statuses must NOT be changed on the strength of this file\nalone.\n";

/// The event recorded for bytes the device sent.
pub fn frame_event(at_ms: u128, timestamp: String, bytes: &[u8]) -> (r: Event)
    ensures
        r matches Event::Frame { at_ms: t, timestamp: ts, direction, service_uuid, length, hex, ascii }
            && t == at_ms && ts == timestamp && direction@ == "device-to-host"@ && service_uuid@
            == VENDOR_RFCOMM_UUID_TEXT@ && length == bytes@.len() && hex@ == hex_spaced(bytes@)
            && ascii@ == ascii_render(bytes@),
{
    Event::Frame {
        at_ms,
        timestamp,
        direction: "device-to-host",
        service_uuid: owned(VENDOR_RFCOMM_UUID_TEXT),
        length: bytes.len(),
        ascii: to_ascii(bytes),
        hex: to_hex(bytes),
    }
}

/// What a line typed by the operator means.
#[derive(Debug, Clone, PartialEq, Eq)]
pub enum KeyInput {
    /// `q`: stop and export.
    Quit,
    /// A marker for this action.
    Mark(Action),
    /// An empty line: nothing to do.
    Nothing,
    /// Not a known key; the text is the trimmed, lower-cased key.
    Unrecognised(String),
}

/// How an operator's line is read: trimmed and lower-cased, `q` quits, a
/// known key marks its action, an empty line does nothing.
pub open spec fn spec_key_input(line: Seq<char>, r: KeyInput) -> bool {
    let key = lower_text(trimmed(line));
    if key == "q"@ {
        r == KeyInput::Quit
    } else {
        match spec_action_from_key(key) {
            Some(a) => r == KeyInput::Mark(a),
            None => if key.len() == 0 {
                r == KeyInput::Nothing
            } else {
                r matches KeyInput::Unrecognised(k) && k@ == key
            },
        }
    }
}

pub fn read_key_line(line: &str) -> (r: KeyInput)
    ensures
        spec_key_input(line@, r),
{
    let t = trim(line);
    let key = to_lowercase(t.as_str());
    if str_eq(key.as_str(), "q") {
        return KeyInput::Quit;
    }
    match Action::from_key(key.as_str()) {
        Some(a) => KeyInput::Mark(a),
        None => {
            if key.as_str().unicode_len() == 0 {
                KeyInput::Nothing
            } else {
                KeyInput::Unrecognised(key)
            }
        },
    }
}

/// The timeline line of an event.
pub open spec fn timeline_line(e: Event) -> Seq<char> {
    match e {
        Event::Frame { at_ms, length, hex, ascii, .. } => "  "@ + right_aligned(
            decimal(at_ms as nat),
            7,
        ) + "ms  RX  "@ + right_aligned(decimal(length as nat), 3) + "B  "@ + hex@ + "  |"@
            + ascii@ + "|\n"@,
        Event::Marker { at_ms, action, .. } => "  "@ + right_aligned(decimal(at_ms as nat), 7)
            + "ms  ACTION  "@ + spec_action_label(action) + "\n"@,
        Event::Note { at_ms, text, .. } => "  "@ + right_aligned(decimal(at_ms as nat), 7)
            + "ms  NOTE  "@ + text@ + "\n"@,
    }
}

pub open spec fn timeline(evs: Seq<Event>) -> Seq<char>
    decreases evs.len(),
{
    if evs.len() == 0 {
        Seq::empty()
    } else {
        timeline(evs.drop_last()) + timeline_line(evs.last())
    }
}

pub open spec fn count_frame_events(evs: Seq<Event>) -> nat
    decreases evs.len(),
{
    if evs.len() == 0 {
        0
    } else {
        count_frame_events(evs.drop_last()) + if evs.last() is Frame {
            1nat
        } else {
            0nat
        }
    }
}

pub open spec fn count_markers(evs: Seq<Event>) -> nat
    decreases evs.len(),
{
    if evs.len() == 0 {
        0
    } else {
        count_markers(evs.drop_last()) + if evs.last() is Marker {
            1nat
        } else {
            0nat
        }
    }
}

pub open spec fn seen_lines(s: Seq<(String, usize)>) -> Seq<char>
    decreases s.len(),
{
    if s.len() == 0 {
        Seq::empty()
    } else {
        seen_lines(s.drop_last()) + "      "@ + decimal(s.last().1 as nat) + "x within 2s after "@
            + s.last().0@ + "\n"@
    }
}

/// The block describing one frame pattern.
pub open spec fn pattern_block(p: FramePattern) -> Seq<char> {
    "\n  "@ + p.hex@ + "  ("@ + decimal(p.length as nat) + " bytes, seen "@ + decimal(
        p.occurrences as nat,
    ) + "x)\n"@ + (if p.unprompted > 0 {
        "      "@ + decimal(p.unprompted as nat) + "x with no marked action in the preceding "@
            + decimal(CORRELATION_WINDOW_MS as nat) + "ms\n"@
    } else {
        Seq::empty()
    }) + seen_lines(p.seen_after@)
}

pub open spec fn pattern_blocks(ps: Seq<FramePattern>) -> Seq<char>
    decreases ps.len(),
{
    if ps.len() == 0 {
        Seq::empty()
    } else {
        pattern_blocks(ps.drop_last()) + pattern_block(ps.last())
    }
}

/// What `analyse` answers for a capture: one pattern per distinct frame,
/// each reported exactly, in report order.
pub open spec fn analysed(evs: Seq<Event>, r: Seq<FramePattern>) -> bool {
    &&& forall|i: int, j: int| 0 <= i < j < r.len() ==> r[i].hex@ != r[j].hex@
    &&& forall|i: int| 0 <= i < r.len() ==> pattern_correct(evs, #[trigger] r[i])
    &&& forall|h: Seq<char>|
        count_frames(evs, h) > 0 ==> exists|i: int| 0 <= i < r.len() && (#[trigger] r[i]).hex@ == h
    &&& forall|i: int, j: int| 0 <= i < j < r.len() ==> pattern_before(r[i], r[j])
}

/// The head of a capture report.
pub open spec fn capture_header(device_name: Seq<char>, generated_at: Seq<char>, frames: nat, markers: nat) -> Seq<char> {
    "BOSE RFCOMM LISTEN-ONLY CAPTURE\n"@ + "===============================\n\n"@ + (
    "Device       : "@ + device_name + "\n"@) + ("Service      : "@ + VENDOR_RFCOMM_UUID_TEXT@
        + "\n"@) + ("Generated    : "@ + generated_at + "\n"@)
        + "Posture      : LISTEN-ONLY — 0 bytes transmitted\n"@ + ("Frames       : "@ + decimal(
        frames,
    ) + "\n"@) + ("Markers      : "@ + decimal(markers) + "\n\n"@)
}

/// The frame-pattern section of a capture report.
pub open spec fn patterns_section(ps: Seq<FramePattern>) -> Seq<char> {
    "\nFRAME PATTERNS\n--------------\n"@ + if ps.len() == 0 {
        "  No frames were received. The device volunteered nothing.\n"@
    } else {
        pattern_blocks(ps)
    }
}

/// The text report of a capture, given its patterns.
pub open spec fn capture_text(
    evs: Seq<Event>,
    device_name: Seq<char>,
    generated_at: Seq<char>,
    ps: Seq<FramePattern>,
) -> Seq<char> {
    capture_header(device_name, generated_at, count_frame_events(evs), count_markers(evs)) + (
    "TIMELINE\n--------\n"@ + timeline(evs)) + patterns_section(ps) + CAPTURE_INTERPRETATION@
}

fn push_capture_header(out: &mut String, device_name: &str, generated_at: &str, frames: usize, markers: usize)
    ensures
        final(out)@ == old(out)@ + capture_header(device_name@, generated_at@, frames as nat, markers as nat),
{
    let ghost s0 = out@;
    push_str(out, "BOSE RFCOMM LISTEN-ONLY CAPTURE\n");
    push_str(out, "===============================\n\n");
    push_str(out, "Device       : ");
    push_str(out, device_name);
    push_str(out, "\n");
    push_str(out, "Service      : ");
    push_str(out, VENDOR_RFCOMM_UUID_TEXT);
    push_str(out, "\n");
    push_str(out, "Generated    : ");
    push_str(out, generated_at);
    push_str(out, "\n");
    push_str(out, "Posture      : LISTEN-ONLY — 0 bytes transmitted\n");
    push_str(out, "Frames       : ");
    push_decimal(out, frames as u128);
    push_str(out, "\n");
    push_str(out, "Markers      : ");
    push_decimal(out, markers as u128);
    push_str(out, "\n\n");
    assert(out@ =~= s0 + capture_header(device_name@, generated_at@, frames as nat, markers as nat));
}

fn push_timeline(out: &mut String, events: &[Event])
    ensures
        final(out)@ == old(out)@ + timeline(events@),
{
    let ghost s0 = out@;
    let mut i: usize = 0;
    while i < events.len()
        invariant
            i <= events@.len(),
            out@ == s0 + timeline(events@.subrange(0, i as int)),
        decreases events@.len() - i,
    {
        assert(events@.subrange(0, i + 1).drop_last() =~= events@.subrange(0, i as int));
        push_timeline_line(out, &events[i]);
        i = i + 1;
    }
    assert(events@.subrange(0, events@.len() as int) =~= events@);
}

fn push_patterns(out: &mut String, patterns: &Vec<FramePattern>)
    ensures
        final(out)@ == old(out)@ + patterns_section(patterns@),
{
    let ghost s0 = out@;
    push_str(out, "\nFRAME PATTERNS\n--------------\n");
    let ghost s2 = out@;
    if patterns.len() == 0 {
        push_str(out, "  No frames were received. The device volunteered nothing.\n");
    } else {
        let mut j: usize = 0;
        while j < patterns.len()
            invariant
                j <= patterns@.len(),
                out@ == s2 + pattern_blocks(patterns@.subrange(0, j as int)),
            decreases patterns@.len() - j,
        {
            assert(patterns@.subrange(0, j + 1).drop_last() =~= patterns@.subrange(0, j as int));
            push_pattern_block(out, &patterns[j]);
            j = j + 1;
        }
        assert(patterns@.subrange(0, patterns@.len() as int) =~= patterns@);
    }
    assert(out@ =~= s0 + patterns_section(patterns@));
}

fn push_timeline_line(out: &mut String, e: &Event)
    ensures
        final(out)@ == old(out)@ + timeline_line(*e),
{
    let ghost s0 = out@;
    push_str(out, "  ");
    push_decimal_right(out, e.at_ms(), 7);
    match e {
        Event::Frame { length, hex, ascii, .. } => {
            push_str(out, "ms  RX  ");
            push_decimal_right(out, *length as u128, 3);
            push_str(out, "B  ");
            push_str(out, hex.as_str());
            push_str(out, "  |");
            push_str(out, ascii.as_str());
            push_str(out, "|\n");
        },
        Event::Marker { action, .. } => {
            push_str(out, "ms  ACTION  ");
            push_str(out, action.label());
            push_str(out, "\n");
        },
        Event::Note { text, .. } => {
            push_str(out, "ms  NOTE  ");
            push_str(out, text.as_str());
            push_str(out, "\n");
        },
    }
    assert(out@ =~= s0 + timeline_line(*e));
}

fn push_pattern_block(out: &mut String, p: &FramePattern)
    ensures
        final(out)@ == old(out)@ + pattern_block(*p),
{
    let ghost s0 = out@;
    push_str(out, "\n  ");
    push_str(out, p.hex.as_str());
    push_str(out, "  (");
    push_decimal(out, p.length as u128);
    push_str(out, " bytes, seen ");
    push_decimal(out, p.occurrences as u128);
    push_str(out, "x)\n");
    let ghost s1 = out@;
    if p.unprompted > 0 {
        push_str(out, "      ");
        push_decimal(out, p.unprompted as u128);
        push_str(out, "x with no marked action in the preceding ");
        push_decimal(out, CORRELATION_WINDOW_MS);
        push_str(out, "ms\n");
    }
    let ghost s2 = out@;
    let mut i: usize = 0;
    while i < p.seen_after.len()
        invariant
            i <= p.seen_after@.len(),
            out@ == s2 + seen_lines(p.seen_after@.subrange(0, i as int)),
        decreases p.seen_after@.len() - i,
    {
        assert(p.seen_after@.subrange(0, i + 1).drop_last() =~= p.seen_after@.subrange(
            0,
            i as int,
        ));
        push_str(out, "      ");
        push_decimal(out, p.seen_after[i].1 as u128);
        push_str(out, "x within 2s after ");
        push_str(out, p.seen_after[i].0.as_str());
        push_str(out, "\n");
        i = i + 1;
    }
    assert(p.seen_after@.subrange(0, p.seen_after@.len() as int) =~= p.seen_after@);
    assert(out@ =~= s0 + pattern_block(*p));
}

/// Counts of frame events and of markers.
pub fn event_counts(events: &[Event]) -> (r: (usize, usize))
    ensures
        r.0 == count_frame_events(events@),
        r.1 == count_markers(events@),
{
    let mut frames: usize = 0;
    let mut markers: usize = 0;
    let mut i: usize = 0;
    while i < events.len()
        invariant
            i <= events@.len(),
            frames == count_frame_events(events@.subrange(0, i as int)),
            markers == count_markers(events@.subrange(0, i as int)),
            frames + markers <= i,
        decreases events@.len() - i,
    {
        assert(events@.subrange(0, i + 1).drop_last() =~= events@.subrange(0, i as int));
        match &events[i] {
            Event::Frame { .. } => {
                frames = frames + 1;
            },
            Event::Marker { .. } => {
                markers = markers + 1;
            },
            Event::Note { .. } => {},
        }
        i = i + 1;
    }
    assert(events@.subrange(0, events@.len() as int) =~= events@);
    (frames, markers)
}

/// The text report of a capture of `device_name`, generated at the given
/// time.
pub fn capture_report(events: &[Event], device_name: &str, generated_at: &str) -> (r: String)
    ensures
        exists|ps: Seq<FramePattern>|
            analysed(events@, ps) && r@ == capture_text(events@, device_name@, generated_at@, ps),
{
    let patterns = analyse(events);
    let (frames, markers) = event_counts(events);
    let mut t = String::new();
    push_capture_header(&mut t, device_name, generated_at, frames, markers);
    push_str(&mut t, "TIMELINE\n--------\n");
    push_timeline(&mut t, events);
    push_patterns(&mut t, &patterns);
    push_str(&mut t, CAPTURE_INTERPRETATION);
    assert(analysed(events@, patterns@));
    assert(t@ =~= capture_text(events@, device_name@, generated_at@, patterns@));
    t
}

/// What is printed after the export is written; a capture in which the
/// device sent nothing is a real result and is said to be one.
pub open spec fn spec_export_console(frames: nat, markers: nat) -> Seq<char> {
    "Frames received : "@ + decimal(frames) + "\n"@ + "Actions marked  : "@ + decimal(markers)
        + "\n"@ + "\nWrote rfcomm-capture.jsonl\n"@ + "Wrote rfcomm-capture.txt\n"@ + if frames
        == 0 {
        "\nThe device sent nothing while connected. That is a real result:\n"@
            + "this channel may only speak when spoken to. It does not mean the\n"@
            + "capture failed.\n"@
    } else {
        Seq::empty()
    }
}

pub fn export_console(events: &[Event]) -> (r: String)
    ensures
        r@ == spec_export_console(count_frame_events(events@), count_markers(events@)),
{
    let (frames, markers) = event_counts(events);
    let mut t = String::new();
    push_str(&mut t, "Frames received : ");
    push_decimal(&mut t, frames as u128);
    push_str(&mut t, "\n");
    push_str(&mut t, "Actions marked  : ");
    push_decimal(&mut t, markers as u128);
    push_str(&mut t, "\n");
    push_str(&mut t, "\nWrote rfcomm-capture.jsonl\n");
    push_str(&mut t, "Wrote rfcomm-capture.txt\n");
    if frames == 0 {
        push_str(&mut t, "\nThe device sent nothing while connected. That is a real result:\n");
        push_str(&mut t, "this channel may only speak when spoken to. It does not mean the\n");
        push_str(&mut t, "capture failed.\n");
    }
    assert(t@ =~= spec_export_console(count_frame_events(events@), count_markers(events@)));
    t
}

/// The note recorded when the channel opens.
pub open spec fn spec_opening_note(device_name: Seq<char>) -> Seq<char> {
    "Channel opened to "@ + device_name + " on "@ + VENDOR_RFCOMM_UUID_TEXT@ + ". Zero bytes sent."@
}

pub fn opening_note(device_name: &str) -> (r: String)
    ensures
        r@ == spec_opening_note(device_name@),
{
    let mut t = String::new();
    push_str(&mut t, "Channel opened to ");
    push_str(&mut t, device_name);
    push_str(&mut t, " on ");
    push_str(&mut t, VENDOR_RFCOMM_UUID_TEXT);
    push_str(&mut t, ". Zero bytes sent.");
    assert(t@ =~= spec_opening_note(device_name@));
    t
}

/// The console line for received bytes: time, size and (cut) hex.
pub open spec fn spec_rx_line(at_ms: u128, bytes: Seq<u8>) -> Seq<char> {
    "  ["@ + right_aligned(decimal(at_ms as nat), 7) + "ms] RX "@ + right_aligned(
        decimal(bytes.len()),
        3,
    ) + " bytes  "@ + spec_truncate_ascii(hex_spaced(bytes), 60)
}

pub fn rx_line(at_ms: u128, bytes: &[u8]) -> (r: String)
    ensures
        r@ == spec_rx_line(at_ms, bytes@),
{
    let mut t = String::new();
    push_str(&mut t, "  [");
    push_decimal_right(&mut t, at_ms, 7);
    push_str(&mut t, "ms] RX ");
    push_decimal_right(&mut t, bytes.len() as u128, 3);
    push_str(&mut t, " bytes  ");
    let hex = to_hex(bytes);
    proof {
        lemma_hex_spaced_ascii(bytes@);
        lemma_truncate_bytes_ascii(hex@, 60);
    }
    let cut = truncate_bytes(hex.as_str(), 60);
    push_str(&mut t, cut.as_str());
    assert(t@ =~= spec_rx_line(at_ms, bytes@));
    t
}

} // verus!
