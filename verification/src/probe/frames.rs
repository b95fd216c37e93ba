//! The allowlist of frames the noise-control probe may transmit.
//!
//! Every byte sequence here was observed being sent by the vendor's own app
//! and is replayed verbatim. There is no function that builds a frame from
//! arbitrary input.

use crate::text::{
    ascii_lowercase, eq_ignore_ascii_case, hex_spaced, is_ascii_text, leading_ws, lower_text,
    str_eq, to_lowercase, trailing_ws, trim, trimmed,
};
use vstd::prelude::*;

verus! {

/// Noise-control modes, with the indices the device reported for them.
#[derive(Debug, Clone, Copy, PartialEq, Eq, Structural)]
pub enum NoiseMode {
    Quiet,
    Aware,
    Home,
}

pub open spec fn spec_mode_index(m: NoiseMode) -> u8 {
    match m {
        NoiseMode::Quiet => 0x00,
        NoiseMode::Aware => 0x01,
        NoiseMode::Home => 0x02,
    }
}

pub open spec fn spec_mode_name(m: NoiseMode) -> Seq<char> {
    match m {
        NoiseMode::Quiet => "Quiet"@,
        NoiseMode::Aware => "Aware"@,
        NoiseMode::Home => "Home"@,
    }
}

pub open spec fn spec_mode_from_index(i: u8) -> Option<NoiseMode> {
    if i == 0 {
        Some(NoiseMode::Quiet)
    } else if i == 1 {
        Some(NoiseMode::Aware)
    } else if i == 2 {
        Some(NoiseMode::Home)
    } else {
        None
    }
}

/// The mode a typed name selects: trimmed, lower-cased, then matched.
pub open spec fn spec_mode_parse(s: Seq<char>) -> Option<NoiseMode> {
    let t = lower_text(trimmed(s));
    if t == "quiet"@ {
        Some(NoiseMode::Quiet)
    } else if t == "aware"@ {
        Some(NoiseMode::Aware)
    } else if t == "home"@ {
        Some(NoiseMode::Home)
    } else {
        None
    }
}

impl NoiseMode {
    pub fn index(self) -> (r: u8)
        ensures
            r == spec_mode_index(self),
    {
        match self {
            NoiseMode::Quiet => 0x00,
            NoiseMode::Aware => 0x01,
            NoiseMode::Home => 0x02,
        }
    }

    pub fn name(self) -> (r: &'static str)
        ensures
            r@ == spec_mode_name(self),
    {
        match self {
            NoiseMode::Quiet => "Quiet",
            NoiseMode::Aware => "Aware",
            NoiseMode::Home => "Home",
        }
    }

    pub fn from_index(i: u8) -> (r: Option<Self>)
        ensures
            r == spec_mode_from_index(i),
    {
        if i == 0x00 {
            Some(NoiseMode::Quiet)
        } else if i == 0x01 {
            Some(NoiseMode::Aware)
        } else if i == 0x02 {
            Some(NoiseMode::Home)
        } else {
            None
        }
    }

    /// Reads a typed mode name: surrounding whitespace is ignored, and when
    /// the rest is ASCII so is ASCII case. Every mode's own name reads as that
    /// mode.
    pub fn parse(s: &str) -> (r: Option<Self>)
        ensures
            r == spec_mode_parse(s@),
            is_ascii_text(trimmed(s@)) ==> forall|m: NoiseMode|
                r == Some(m) <==> eq_ignore_ascii_case(trimmed(s@), #[trigger] spec_mode_name(m)),
            forall|m: NoiseMode| s@ == #[trigger] spec_mode_name(m) ==> r == Some(m),
    {
        proof {
            reveal_strlit("Quiet");
            reveal_strlit("Aware");
            reveal_strlit("Home");
            reveal_strlit("quiet");
            reveal_strlit("aware");
            reveal_strlit("home");
            assert(ascii_lowercase("Quiet"@) =~= "quiet"@);
            assert(ascii_lowercase("Aware"@) =~= "aware"@);
            assert(ascii_lowercase("Home"@) =~= "home"@);
            lemma_mode_names_are_plain(s@);
        }
        let t = trim(s);
        let l = to_lowercase(t.as_str());
        let r = if str_eq(l.as_str(), "quiet") {
            Some(NoiseMode::Quiet)
        } else if str_eq(l.as_str(), "aware") {
            Some(NoiseMode::Aware)
        } else if str_eq(l.as_str(), "home") {
            Some(NoiseMode::Home)
        } else {
            None
        };
        proof {
            if is_ascii_text(trimmed(s@)) {
                assert(l@ == ascii_lowercase(trimmed(s@)));
                assert forall|m: NoiseMode|
                    r == Some(m) <==> eq_ignore_ascii_case(
                        trimmed(s@),
                        #[trigger] spec_mode_name(m),
                    ) by {
                    assert("quiet"@ != "aware"@ && "quiet"@ != "home"@ && "aware"@ != "home"@) by {
                        assert("quiet"@[0] != "aware"@[0]);
                        assert("quiet"@[0] != "home"@[0]);
                        assert("aware"@[0] != "home"@[0]);
                    }
                    match m {
                        NoiseMode::Quiet => {
                            assert(ascii_lowercase(spec_mode_name(m)) == "quiet"@);
                        },
                        NoiseMode::Aware => {
                            assert(ascii_lowercase(spec_mode_name(m)) == "aware"@);
                        },
                        NoiseMode::Home => {
                            assert(ascii_lowercase(spec_mode_name(m)) == "home"@);
                        },
                    }
                }
            }
            assert forall|m: NoiseMode| s@ == #[trigger] spec_mode_name(m) implies r == Some(m) by {
                assert(is_ascii_text(s@) && trimmed(s@) == s@);
                assert(l@ == ascii_lowercase(s@));
                match m {
                    NoiseMode::Quiet => {},
                    NoiseMode::Aware => {},
                    NoiseMode::Home => {},
                }
            }
        }
        r
    }
}

/// A mode's name is ASCII and reads back unchanged when trimmed.
proof fn lemma_mode_names_are_plain(s: Seq<char>)
    ensures
        forall|m: NoiseMode|
            s == #[trigger] spec_mode_name(m) ==> is_ascii_text(s) && trimmed(s) == s,
{
    reveal_strlit("Quiet");
    reveal_strlit("Aware");
    reveal_strlit("Home");
    assert forall|m: NoiseMode| s == #[trigger] spec_mode_name(m) implies is_ascii_text(s)
        && trimmed(s) == s by {
        assert(leading_ws(s) == 0);
        assert(trailing_ws(s) == 0);
        assert(s.subrange(0, s.len() as int) =~= s);
    }
}

/// Protocol version request: the first frame the vendor app sends.
pub const PROTOCOL_VERSION_REQUEST: [u8; 3] = [0x00, 0x01, 0x01];

/// Enumerate the noise-control function group.
pub const NOISE_GROUP_ENUMERATE: [u8; 3] = [0x1F, 0x01, 0x05];

/// Read the current noise-control mode. Changes nothing on the device.
pub const READ_CURRENT_MODE: [u8; 4] = [0x1F, 0x03, 0x01, 0x00];

/// The frame that selects a mode: `1F 03 05 02 XX`.
pub open spec fn spec_set_mode(m: NoiseMode) -> Seq<u8> {
    seq![0x1Fu8, 0x03u8, 0x05u8, 0x02u8, spec_mode_index(m)]
}

/// Set the current noise-control mode. Only the three named modes can be
/// selected; there is no path to send an arbitrary index.
pub fn set_mode(mode: NoiseMode) -> (r: [u8; 5])
    ensures
        r@ == spec_set_mode(mode),
{
    let r = [0x1F, 0x03, 0x05, 0x02, mode.index()];
    assert(r@ =~= spec_set_mode(mode));
    r
}

/// A mode report starts at `i`: `1F 03 03 01 XX` (status) or `1F 03 06 01 XX`
/// (notify), with the mode byte `XX` present.
pub open spec fn mode_report_at(p: Seq<u8>, i: int) -> bool {
    &&& 0 <= i
    &&& i + 4 < p.len()
    &&& p[i] == 0x1F
    &&& p[i + 1] == 0x03
    &&& (p[i + 2] == 0x03 || p[i + 2] == 0x06)
    &&& p[i + 3] == 0x01
}

/// `r` is the mode of the first mode report in `p`, or `None` when `p`
/// holds none.
pub open spec fn reports_mode(p: Seq<u8>, r: Option<u8>) -> bool {
    match r {
        Some(v) => exists|i: int|
            mode_report_at(p, i) && (forall|j: int| 0 <= j < i ==> !mode_report_at(p, j)) && v
                == p[i + 4],
        None => forall|i: int| !mode_report_at(p, i),
    }
}

/// Extracts the mode index from a device response, scanning because frames
/// are often concatenated into one RFCOMM payload.
pub fn find_reported_mode(payload: &[u8]) -> (r: Option<u8>)
    ensures
        reports_mode(payload@, r),
{
    let mut i: usize = 0;
    while i < payload.len() && payload.len() - i > 4
        invariant
            i <= payload@.len(),
            forall|j: int| 0 <= j < i ==> !mode_report_at(payload@, j),
        decreases payload.len() - i,
    {
        if payload[i] == 0x1F && payload[i + 1] == 0x03 && (payload[i + 2] == 0x03 || payload[i
            + 2] == 0x06) && payload[i + 3] == 0x01 {
            assert(mode_report_at(payload@, i as int));
            return Some(payload[i + 4]);
        }
        i = i + 1;
    }
    assert forall|k: int| !mode_report_at(payload@, k) by {
        if 0 <= k && k < i {
        }
    }
    None
}

/// Bytes as upper-case hex pairs separated by spaces.
pub fn to_hex(b: &[u8]) -> (r: String)
    ensures
        r@ == hex_spaced(b@),
{
    crate::text::hex_string(b)
}

/// Every mode survives a trip through its index.
pub proof fn law_mode_index_round_trip(m: NoiseMode)
    ensures
        spec_mode_from_index(spec_mode_index(m)) == Some(m),
{
}

/// Only the three named indices name a mode.
pub proof fn law_mode_indices_are_closed(i: u8)
    ensures
        spec_mode_from_index(i) matches Some(m) ==> spec_mode_index(m) == i,
        i > 2 ==> spec_mode_from_index(i) is None,
{
}

/// A status report for a mode is read back as that mode.
pub proof fn law_status_report_round_trip(m: NoiseMode)
    ensures
        ({
            let frame = seq![0x1Fu8, 0x03u8, 0x03u8, 0x01u8, spec_mode_index(m)];
            mode_report_at(frame, 0) && frame[4] == spec_mode_index(m)
        }),
{
}

} // verus!
