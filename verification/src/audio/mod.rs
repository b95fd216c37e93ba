//! Windows audio endpoints, as the rest of the application sees them.
//!
//! Windows system volume for an endpoint is a separate mechanism from any
//! volume the headphones keep internally, and the two are never conflated.

use crate::text::{chars_contain, chars_of, contains, lower_text, to_lowercase};
use vstd::prelude::*;

verus! {

/// An audio output endpoint as Windows sees it.
#[derive(Debug, Clone, PartialEq, Eq)]
pub struct AudioEndpoint {
    pub id: String,
    pub name: String,
    /// 0-100.
    pub volume_percent: u8,
    pub muted: bool,
    pub is_default_render: bool,
    pub is_default_communications: bool,
    pub sample_rate_hz: Option<u32>,
    pub channels: Option<u16>,
    /// True when the endpoint name suggests a Bluetooth device. A hint for
    /// matching an endpoint to the headphones, never proof.
    pub likely_bluetooth: bool,
}

pub open spec fn bluetooth_hint(i: int) -> Seq<char> {
    if i == 0 { "bluetooth"@ }
    else if i == 1 { "hands-free"@ }
    else if i == 2 { "handsfree"@ }
    else if i == 3 { "stereo)"@ }
    else { "a2dp"@ }
}

pub open spec fn spec_looks_like_bluetooth_endpoint(name: Seq<char>) -> bool {
    exists|i: int| 0 <= i < 5 && contains(lower_text(name), #[trigger] bluetooth_hint(i))
}

fn hint(i: usize) -> (r: &'static str)
    requires
        i < 5,
    ensures
        r@ == bluetooth_hint(i as int),
{
    if i == 0 { "bluetooth" }
    else if i == 1 { "hands-free" }
    else if i == 2 { "handsfree" }
    else if i == 3 { "stereo)" }
    else { "a2dp" }
}

/// Whether an endpoint name suggests a Bluetooth device.
pub fn looks_like_bluetooth_endpoint(name: &str) -> (r: bool)
    ensures
        r == spec_looks_like_bluetooth_endpoint(name@),
{
    let lowered = to_lowercase(name);
    let hay = chars_of(lowered.as_str());
    let mut i: usize = 0;
    while i < 5
        invariant
            i <= 5,
            hay@ == lower_text(name@),
            forall|j: int| 0 <= j < i ==> !contains(lower_text(name@), #[trigger] bluetooth_hint(j)),
        decreases 5 - i,
    {
        let needle = chars_of(hint(i));
        if chars_contain(&hay, &needle) {
            return true;
        }
        i = i + 1;
    }
    false
}

/// Whether `id` is the default endpoint's id.
pub open spec fn is_default(default_id: Option<&str>, id: Seq<char>) -> bool {
    match default_id {
        Some(d) => d@ == id,
        None => false,
    }
}

/// An endpoint from what Core Audio reported for it: its id, its friendly
/// name (a placeholder when it could not be read), its volume and mute, its
/// mix format if it has one, and the ids of the default render and
/// communications endpoints.
pub fn endpoint_from(
    id: String,
    name: Option<String>,
    volume_percent: u8,
    muted: bool,
    mix: Option<(u32, u16)>,
    default_render_id: Option<&str>,
    default_comms_id: Option<&str>,
) -> (r: AudioEndpoint)
    ensures
        r.id == id,
        r.name@ == match name {
            Some(n) => n@,
            None => "Unknown endpoint"@,
        },
        r.volume_percent == volume_percent,
        r.muted == muted,
        r.is_default_render == is_default(default_render_id, id@),
        r.is_default_communications == is_default(default_comms_id, id@),
        r.sample_rate_hz == match mix {
            Some(m) => Some(m.0),
            None => None,
        },
        r.channels == match mix {
            Some(m) => Some(m.1),
            None => None,
        },
        r.likely_bluetooth == spec_looks_like_bluetooth_endpoint(r.name@),
{
    let name = match name {
        Some(n) => n,
        None => crate::text::owned("Unknown endpoint"),
    };
    let (sample_rate_hz, channels) = match mix {
        Some((rate, c)) => (Some(rate), Some(c)),
        None => (None, None),
    };
    let is_default_render = match default_render_id {
        Some(d) => crate::text::str_eq(d, id.as_str()),
        None => false,
    };
    let is_default_communications = match default_comms_id {
        Some(d) => crate::text::str_eq(d, id.as_str()),
        None => false,
    };
    let likely_bluetooth = looks_like_bluetooth_endpoint(name.as_str());
    AudioEndpoint {
        id,
        name,
        volume_percent,
        muted,
        is_default_render,
        is_default_communications,
        sample_rate_hz,
        channels,
        likely_bluetooth,
    }
}

/// A volume request must be a percentage.
pub fn check_volume_percent(percent: u8) -> (r: crate::device::DeviceResult<()>)
    ensures
        percent <= 100 ==> r is Ok,
        percent > 100 ==> (r matches Err(crate::device::DeviceError::InvalidInput(m)) && m@
            == "volume must be 0-100, got "@ + crate::text::decimal(percent as nat)),
{
    if percent > 100 {
        let mut m = String::new();
        crate::text::push_str(&mut m, "volume must be 0-100, got ");
        crate::text::push_decimal(&mut m, percent as u128);
        return Err(crate::device::DeviceError::InvalidInput(m));
    }
    Ok(())
}

} // verus!
