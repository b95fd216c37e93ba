//! Bose-specific device identification and the device models.

pub mod mock;
pub mod hardware;

use crate::text::{chars_contain, chars_of, contains, lower_text, to_lowercase};
use vstd::prelude::*;

verus! {

/// Name fragments that identify a Bose device from a Windows friendly name.
///
/// Matching is case-insensitive and substring-based, because friendly names
/// vary by pairing method and firmware.
pub const BOSE_NAME_HINTS: [&'static str; 6] = [
    "bose",
    "quietcomfort",
    "quiet comfort",
    "qc45",
    "qc35",
    "qc ultra",
];

/// Bose Corporation's Bluetooth SIG company identifier.
pub const BOSE_SIG_COMPANY_ID: u16 = 0x009E;

/// The hints, as text.
pub open spec fn bose_hint(i: int) -> Seq<char> {
    if i == 0 { "bose"@ }
    else if i == 1 { "quietcomfort"@ }
    else if i == 2 { "quiet comfort"@ }
    else if i == 3 { "qc45"@ }
    else if i == 4 { "qc35"@ }
    else { "qc ultra"@ }
}

/// Whether a lower-cased name contains one of the hints.
pub open spec fn spec_looks_like_bose(name: Seq<char>) -> bool {
    exists|i: int| 0 <= i < 6 && contains(lower_text(name), #[trigger] bose_hint(i))
}

pub open spec fn spec_is_bose_device(vendor_id: Option<u16>, name: Seq<char>) -> bool {
    vendor_id == Some(BOSE_SIG_COMPANY_ID) || (vendor_id is None && spec_looks_like_bose(name))
}

fn hint(i: usize) -> (r: &'static str)
    requires
        i < 6,
    ensures
        r@ == bose_hint(i as int),
{
    if i == 0 { "bose" }
    else if i == 1 { "quietcomfort" }
    else if i == 2 { "quiet comfort" }
    else if i == 3 { "qc45" }
    else if i == 4 { "qc35" }
    else { "qc ultra" }
}

/// Whether a Windows friendly name plausibly belongs to a Bose device.
///
/// A weak hint, not an identification: it fails for renamed devices. Prefer
/// [`is_bose_vendor`].
pub fn looks_like_bose(friendly_name: &str) -> (r: bool)
    ensures
        r == spec_looks_like_bose(friendly_name@),
{
    let lowered = to_lowercase(friendly_name);
    let hay = chars_of(lowered.as_str());
    let mut i: usize = 0;
    while i < 6
        invariant
            i <= 6,
            hay@ == lower_text(friendly_name@),
            forall|j: int| 0 <= j < i ==> !contains(lower_text(friendly_name@), #[trigger] bose_hint(j)),
        decreases 6 - i,
    {
        let needle = chars_of(hint(i));
        if chars_contain(&hay, &needle) {
            return true;
        }
        i = i + 1;
    }
    false
}

/// Whether a SIG company identifier belongs to Bose.
pub fn is_bose_vendor(vendor_id: Option<u16>) -> (r: bool)
    ensures
        r == (vendor_id == Some(BOSE_SIG_COMPANY_ID)),
{
    match vendor_id {
        Some(v) => v == BOSE_SIG_COMPANY_ID,
        None => false,
    }
}

/// Whether a device is a Bose device, preferring the vendor id: the name is
/// consulted only when no vendor id is known.
pub fn is_bose_device(vendor_id: Option<u16>, friendly_name: &str) -> (r: bool)
    ensures
        r == spec_is_bose_device(vendor_id, friendly_name@),
{
    is_bose_vendor(vendor_id) || (vendor_id.is_none() && looks_like_bose(friendly_name))
}

/// A known vendor id decides on its own: a Bose-sounding name cannot
/// override a non-Bose vendor, and a renamed device with the Bose vendor id
/// is still identified.
pub proof fn law_vendor_id_is_authoritative(vendor: u16, name: Seq<char>)
    ensures
        spec_is_bose_device(Some(vendor), name) == (vendor == BOSE_SIG_COMPANY_ID),
{
}

} // verus!
