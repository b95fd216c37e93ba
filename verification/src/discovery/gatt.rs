//! GATT service identification from Windows PnP nodes.
//!
//! Windows creates a child device node per discovered GATT service, named
//! `BTHLEDEVICE\{service-uuid}_...`, so the service list of a paired BLE
//! device is readable without opening a GATT session. Characteristics are
//! not: they need a real session, and reports say so.

use crate::text::{
    chars_end_with, chars_of, chars_start_with, chars_substring, ends_with, find_char_from,
    first_index_from, is_hex_digit, last_index, rfind_char, starts_with, str_eq, to_uppercase,
    upper_text, is_ascii_text, law_ascii_upper_text_is_idempotent, ascii_uppercase,
    lemma_first_index_from_bounds,
};
use vstd::prelude::*;

verus! {

#[derive(Debug, Clone, PartialEq, Eq)]
pub struct GattService {
    pub uuid: String,
    /// Assigned-number name when the UUID is a standard one.
    pub known_name: Option<String>,
    /// True when the UUID is outside the Bluetooth SIG base range, i.e. a
    /// vendor-defined service.
    pub vendor_specific: bool,
}

/// The Bluetooth SIG base UUID suffix: a UUID ending with it is a 16-bit
/// assigned number rather than a vendor-defined service.
pub const SIG_BASE_SUFFIX: &'static str = "-0000-1000-8000-00805F9B34FB";

/// Standard services worth naming in a report (those plausibly relevant to
/// headphones).
pub open spec fn spec_known_service_name(short: Seq<char>) -> Option<Seq<char>> {
    if short == "1800"@ { Some("Generic Access"@) }
    else if short == "1801"@ { Some("Generic Attribute"@) }
    else if short == "180A"@ { Some("Device Information"@) }
    else if short == "180F"@ { Some("Battery Service"@) }
    else if short == "1812"@ { Some("Human Interface Device"@) }
    else if short == "1843"@ { Some("Audio Input Control"@) }
    else if short == "1844"@ { Some("Volume Control"@) }
    else if short == "1845"@ { Some("Volume Offset Control"@) }
    else if short == "1846"@ { Some("Coordinated Set Identification"@) }
    else if short == "1848"@ { Some("Media Control"@) }
    else if short == "184E"@ { Some("Audio Stream Control"@) }
    else if short == "184F"@ { Some("Broadcast Audio Scan"@) }
    else if short == "1850"@ { Some("Published Audio Capabilities"@) }
    else if short == "1853"@ { Some("Common Audio"@) }
    else if short == "FDE2"@ { Some("Google/Fast Pair (member service)"@) }
    else if short == "FE2C"@ { Some("Google Fast Pair"@) }
    else { None }
}

/// The name of a standard service, from its 16-bit assigned number in hex.
pub fn known_service_name(short: &str) -> (r: Option<&'static str>)
    ensures
        match spec_known_service_name(short@) {
            Some(n) => r matches Some(t) && t@ == n,
            None => r is None,
        },
{
    if str_eq(short, "1800") { Some("Generic Access") }
    else if str_eq(short, "1801") { Some("Generic Attribute") }
    else if str_eq(short, "180A") { Some("Device Information") }
    else if str_eq(short, "180F") { Some("Battery Service") }
    else if str_eq(short, "1812") { Some("Human Interface Device") }
    else if str_eq(short, "1843") { Some("Audio Input Control") }
    else if str_eq(short, "1844") { Some("Volume Control") }
    else if str_eq(short, "1845") { Some("Volume Offset Control") }
    else if str_eq(short, "1846") { Some("Coordinated Set Identification") }
    else if str_eq(short, "1848") { Some("Media Control") }
    else if str_eq(short, "184E") { Some("Audio Stream Control") }
    else if str_eq(short, "184F") { Some("Broadcast Audio Scan") }
    else if str_eq(short, "1850") { Some("Published Audio Capabilities") }
    else if str_eq(short, "1853") { Some("Common Audio") }
    else if str_eq(short, "FDE2") { Some("Google/Fast Pair (member service)") }
    else if str_eq(short, "FE2C") { Some("Google Fast Pair") }
    else { None }
}

/// The text between the first `{` and the first `}` after it.
pub open spec fn braced(s: Seq<char>) -> Option<Seq<char>> {
    match first_index_from(s, '{', 0) {
        None => None,
        Some(i) => match first_index_from(s, '}', i + 1) {
            None => None,
            Some(j) => Some(s.subrange(i + 1, j)),
        },
    }
}

/// Bytes read as characters.
pub open spec fn ascii_chars(b: Seq<u8>) -> Seq<char> {
    Seq::new(b.len(), |i: int| b[i] as char)
}

/// The assigned-number name carried by a UUID's bytes 4 to 8, when those
/// bytes are ASCII and name a known service.
pub open spec fn known_from_bytes(code: Seq<u8>) -> Option<Seq<char>> {
    if forall|i: int| 0 <= i < code.len() ==> code[i] < 128 {
        spec_known_service_name(ascii_chars(code))
    } else {
        None
    }
}

/// The service UUID an instance id names: that of a `BTHLEDEVICE` node
/// whose braced UUID is 36 bytes long.
pub open spec fn service_uuid(instance_id: Seq<char>) -> Option<Seq<char>> {
    let upper = upper_text(instance_id);
    if !starts_with(upper, "BTHLEDEVICE\\"@) {
        None
    } else {
        match braced(upper) {
            None => None,
            Some(uuid) => if vstd::utf8::encode_utf8(uuid).len() != 36 {
                None
            } else {
                Some(uuid)
            },
        }
    }
}

/// Whether a UUID is in the Bluetooth SIG base range.
pub open spec fn is_sig_uuid(uuid: Seq<char>) -> bool {
    ends_with(uuid, SIG_BASE_SUFFIX@)
}

/// The assigned-number name of a UUID: only standard UUIDs have one, read
/// from its bytes 4 to 8.
pub open spec fn uuid_name(uuid: Seq<char>) -> Option<Seq<char>> {
    if is_sig_uuid(uuid) {
        known_from_bytes(vstd::utf8::encode_utf8(uuid).subrange(4, 8))
    } else {
        None
    }
}

/// What a service record says of its UUID: vendor-specific exactly when
/// not standard, and named by its assigned number when known.
pub open spec fn describes(s: GattService, uuid: Seq<char>) -> bool {
    &&& s.uuid@ == uuid
    &&& s.vendor_specific == !is_sig_uuid(uuid)
    &&& match uuid_name(uuid) {
        Some(n) => s.known_name matches Some(k) && k@ == n,
        None => s.known_name is None,
    }
}

/// What `parse_service` makes of an instance id.
pub open spec fn spec_parse_service(instance_id: Seq<char>, r: Option<GattService>) -> bool {
    match service_uuid(instance_id) {
        None => r is None,
        Some(uuid) => r matches Some(s) && describes(s, uuid),
    }
}

/// Parses a GATT service UUID out of a `BTHLEDEVICE` instance id, e.g.
/// `BTHLEDEVICE\{0000180F-0000-1000-8000-00805F9B34FB}_DEV_VID&...\8&30736FC1&0&0020`.
pub fn parse_service(instance_id: &str) -> (r: Option<GattService>)
    ensures
        spec_parse_service(instance_id@, r),
{
    let upper_s = to_uppercase(instance_id);
    let upper = chars_of(upper_s.as_str());
    let prefix = chars_of("BTHLEDEVICE\\");
    if !chars_start_with(&upper, &prefix) {
        return None;
    }
    let open = match find_char_from(&upper, '{', 0) {
        Some(i) => i,
        None => return None,
    };
    let n = upper.len();
    assert(open < n);
    let start = open + 1;
    let end = match find_char_from(&upper, '}', start) {
        Some(j) => j,
        None => return None,
    };
    assert(braced(upper@) == Some(upper@.subrange(start as int, end as int)));
    let uuid = chars_substring(&upper, start, end);
    let bytes = uuid.as_str().as_bytes();
    if bytes.len() != 36 {
        return None;
    }
    let uuid_chars = chars_of(uuid.as_str());
    let suffix = chars_of(SIG_BASE_SUFFIX);
    let is_sig = chars_end_with(&uuid_chars, &suffix);
    let known_name = if is_sig {
        let mut ascii = true;
        let mut code = String::new();
        let mut i: usize = 4;
        while i < 8
            invariant
                4 <= i <= 8,
                bytes@.len() == 36,
                ascii == forall|k: int| 4 <= k < i ==> bytes@[k] < 128,
                ascii ==> code@ == ascii_chars(bytes@.subrange(4, i as int)),
            decreases 8 - i,
        {
            let b = bytes[i];
            if b < 128 {
                if ascii {
                    crate::text::push_char(&mut code, b as char);
                    assert(ascii_chars(bytes@.subrange(4, i + 1)) =~= ascii_chars(
                        bytes@.subrange(4, i as int),
                    ).push(b as char));
                }
            } else {
                ascii = false;
            }
            i = i + 1;
        }
        proof {
            let code_bytes = bytes@.subrange(4, 8);
            assert(ascii == forall|k: int| 0 <= k < code_bytes.len() ==> code_bytes[k] < 128) by {
                if ascii {
                    assert forall|k: int| 0 <= k < code_bytes.len() implies code_bytes[k] < 128 by {
                        assert(code_bytes[k] == bytes@[k + 4]);
                    }
                } else {
                    let k = choose|k: int| 4 <= k < 8 && !(bytes@[k] < 128);
                    assert(code_bytes[k - 4] == bytes@[k]);
                }
            }
        }
        if ascii {
            match known_service_name(code.as_str()) {
                Some(n) => Some(crate::text::owned(n)),
                None => None,
            }
        } else {
            None
        }
    } else {
        None
    };
    Some(GattService { uuid, known_name, vendor_specific: !is_sig })
}

/// The text between the first and the second occurrence of `sep` (or the
/// end), if `sep` occurs at all.
pub open spec fn second_segment(s: Seq<char>, sep: char) -> Option<Seq<char>> {
    match first_index_from(s, sep, 0) {
        None => None,
        Some(i) => Some(
            match first_index_from(s, sep, i + 1) {
                None => s.subrange(i + 1, s.len() as int),
                Some(j) => s.subrange(i + 1, j),
            },
        ),
    }
}

/// The text after the last occurrence of `c` (all of it if `c` is absent).
pub open spec fn after_last(s: Seq<char>, c: char) -> Seq<char> {
    match last_index(s, c) {
        None => s,
        Some(i) => s.subrange(i + 1, s.len() as int),
    }
}

/// Twelve hexadecimal digits.
pub open spec fn is_address(s: Seq<char>) -> bool {
    s.len() == 12 && forall|i: int| 0 <= i < 12 ==> is_hex_digit(#[trigger] s[i])
}

/// The device address in a `BTHLEDEVICE` instance id: the part after the
/// last `_` of its second `\`-separated segment, when that is twelve hex
/// digits.
pub open spec fn spec_owning_address(instance_id: Seq<char>) -> Option<Seq<char>> {
    match second_segment(upper_text(instance_id), '\\') {
        None => None,
        Some(head) => {
            let tail = after_last(head, '_');
            if is_address(tail) {
                Some(tail)
            } else {
                None
            }
        },
    }
}

/// Whether every character is a hex digit.
pub(crate) fn all_hex(s: &[char]) -> (r: bool)
    ensures
        r == forall|i: int| 0 <= i < s@.len() ==> is_hex_digit(#[trigger] s@[i]),
{
    let mut i: usize = 0;
    while i < s.len()
        invariant
            i <= s@.len(),
            forall|k: int| 0 <= k < i ==> is_hex_digit(#[trigger] s@[k]),
        decreases s@.len() - i,
    {
        let c = s[i];
        if !(('0' <= c && c <= '9') || ('a' <= c && c <= 'f') || ('A' <= c && c <= 'F')) {
            return false;
        }
        i = i + 1;
    }
    true
}

/// The device address embedded in a `BTHLEDEVICE` instance id, used to
/// group service nodes under the device they belong to.
pub fn owning_address(instance_id: &str) -> (r: Option<String>)
    ensures
        match spec_owning_address(instance_id@) {
            Some(a) => r matches Some(s) && s@ == a,
            None => r is None,
        },
{
    let upper_s = to_uppercase(instance_id);
    let upper = chars_of(upper_s.as_str());
    let i = match find_char_from(&upper, '\\', 0) {
        Some(i) => i,
        None => return None,
    };
    let stop = match find_char_from(&upper, '\\', i + 1) {
        Some(j) => j,
        None => upper.len(),
    };
    let head_s = chars_substring(&upper, i + 1, stop);
    let head = chars_of(head_s.as_str());
    let from = match rfind_char(&head, '_') {
        Some(k) => k + 1,
        None => 0,
    };
    let tail = vstd::slice::slice_subrange(head.as_slice(), from, head.len());
    assert(second_segment(upper@, '\\') == Some(head@));
    assert(after_last(head@, '_') == tail@);
    if tail.len() == 12 && all_hex(tail) {
        Some(crate::text::string_from_chars(tail))
    } else {
        None
    }
}

/// For an ASCII instance id, the UUID that `parse_service` reports is
/// already upper case: upper-casing it again changes nothing.
pub proof fn law_parsed_uuid_is_upper_case(instance_id: Seq<char>)
    requires
        is_ascii_text(instance_id),
        service_uuid(instance_id) is Some,
    ensures
        upper_text(service_uuid(instance_id)->0) == service_uuid(instance_id)->0,
{
    let upper = upper_text(instance_id);
    law_ascii_upper_text_is_idempotent(instance_id);
    let i = first_index_from(upper, '{', 0)->0;
    let j = first_index_from(upper, '}', i + 1)->0;
    lemma_first_index_from_bounds(upper, '{', 0);
    lemma_first_index_from_bounds(upper, '}', i + 1);
    let uuid = upper.subrange(i + 1, j);
    assert(uuid == service_uuid(instance_id)->0);
    assert(upper_text(upper) == upper);
    assert forall|k: int| 0 <= k < uuid.len() implies (#[trigger] uuid[k] as u32) < 128 by {
        assert(uuid[k] == upper[k + i + 1]);
    }
    assert forall|k: int| 0 <= k < uuid.len() implies #[trigger] ascii_uppercase(uuid)[k] == uuid[k] by {
        assert(uuid[k] == upper[k + i + 1]);
        assert(ascii_uppercase(upper)[k + i + 1] == upper[k + i + 1]);
    }
    assert(ascii_uppercase(uuid) =~= uuid);
}

/// The names given to standard services are the Bluetooth SIG assigned
/// names of their 16-bit numbers (and, for 0xFDE2 and 0xFE2C, of the
/// member services Google registered).
pub proof fn law_standard_service_names()
    ensures
        spec_known_service_name("1800"@) == Some("Generic Access"@),
        spec_known_service_name("1801"@) == Some("Generic Attribute"@),
        spec_known_service_name("180A"@) == Some("Device Information"@),
        spec_known_service_name("180F"@) == Some("Battery Service"@),
        spec_known_service_name("1812"@) == Some("Human Interface Device"@),
        spec_known_service_name("1843"@) == Some("Audio Input Control"@),
        spec_known_service_name("1844"@) == Some("Volume Control"@),
        spec_known_service_name("1845"@) == Some("Volume Offset Control"@),
        spec_known_service_name("1846"@) == Some("Coordinated Set Identification"@),
        spec_known_service_name("1848"@) == Some("Media Control"@),
        spec_known_service_name("184E"@) == Some("Audio Stream Control"@),
        spec_known_service_name("184F"@) == Some("Broadcast Audio Scan"@),
        spec_known_service_name("1850"@) == Some("Published Audio Capabilities"@),
        spec_known_service_name("1853"@) == Some("Common Audio"@),
        spec_known_service_name("FDE2"@) == Some("Google/Fast Pair (member service)"@),
        spec_known_service_name("FE2C"@) == Some("Google Fast Pair"@),
{
    reveal_strlit("1800");
    reveal_strlit("1801");
    reveal_strlit("180A");
    reveal_strlit("180F");
    reveal_strlit("1812");
    reveal_strlit("1843");
    reveal_strlit("1844");
    reveal_strlit("1845");
    reveal_strlit("1846");
    reveal_strlit("1848");
    reveal_strlit("184E");
    reveal_strlit("184F");
    reveal_strlit("1850");
    reveal_strlit("1853");
    reveal_strlit("FDE2");
    reveal_strlit("FE2C");
    assert("1801"@[3] != "1800"@[3]);
    assert("180A"@[3] != "1800"@[3]);
    assert("180A"@[3] != "1801"@[3]);
    assert("180F"@[3] != "1800"@[3]);
    assert("180F"@[3] != "1801"@[3]);
    assert("180F"@[3] != "180A"@[3]);
    assert("1812"@[2] != "1800"@[2]);
    assert("1812"@[2] != "1801"@[2]);
    assert("1812"@[2] != "180A"@[2]);
    assert("1812"@[2] != "180F"@[2]);
    assert("1843"@[2] != "1800"@[2]);
    assert("1843"@[2] != "1801"@[2]);
    assert("1843"@[2] != "180A"@[2]);
    assert("1843"@[2] != "180F"@[2]);
    assert("1843"@[2] != "1812"@[2]);
    assert("1844"@[2] != "1800"@[2]);
    assert("1844"@[2] != "1801"@[2]);
    assert("1844"@[2] != "180A"@[2]);
    assert("1844"@[2] != "180F"@[2]);
    assert("1844"@[2] != "1812"@[2]);
    assert("1844"@[3] != "1843"@[3]);
    assert("1845"@[2] != "1800"@[2]);
    assert("1845"@[2] != "1801"@[2]);
    assert("1845"@[2] != "180A"@[2]);
    assert("1845"@[2] != "180F"@[2]);
    assert("1845"@[2] != "1812"@[2]);
    assert("1845"@[3] != "1843"@[3]);
    assert("1845"@[3] != "1844"@[3]);
    assert("1846"@[2] != "1800"@[2]);
    assert("1846"@[2] != "1801"@[2]);
    assert("1846"@[2] != "180A"@[2]);
    assert("1846"@[2] != "180F"@[2]);
    assert("1846"@[2] != "1812"@[2]);
    assert("1846"@[3] != "1843"@[3]);
    assert("1846"@[3] != "1844"@[3]);
    assert("1846"@[3] != "1845"@[3]);
    assert("1848"@[2] != "1800"@[2]);
    assert("1848"@[2] != "1801"@[2]);
    assert("1848"@[2] != "180A"@[2]);
    assert("1848"@[2] != "180F"@[2]);
    assert("1848"@[2] != "1812"@[2]);
    assert("1848"@[3] != "1843"@[3]);
    assert("1848"@[3] != "1844"@[3]);
    assert("1848"@[3] != "1845"@[3]);
    assert("1848"@[3] != "1846"@[3]);
    assert("184E"@[2] != "1800"@[2]);
    assert("184E"@[2] != "1801"@[2]);
    assert("184E"@[2] != "180A"@[2]);
    assert("184E"@[2] != "180F"@[2]);
    assert("184E"@[2] != "1812"@[2]);
    assert("184E"@[3] != "1843"@[3]);
    assert("184E"@[3] != "1844"@[3]);
    assert("184E"@[3] != "1845"@[3]);
    assert("184E"@[3] != "1846"@[3]);
    assert("184E"@[3] != "1848"@[3]);
    assert("184F"@[2] != "1800"@[2]);
    assert("184F"@[2] != "1801"@[2]);
    assert("184F"@[2] != "180A"@[2]);
    assert("184F"@[2] != "180F"@[2]);
    assert("184F"@[2] != "1812"@[2]);
    assert("184F"@[3] != "1843"@[3]);
    assert("184F"@[3] != "1844"@[3]);
    assert("184F"@[3] != "1845"@[3]);
    assert("184F"@[3] != "1846"@[3]);
    assert("184F"@[3] != "1848"@[3]);
    assert("184F"@[3] != "184E"@[3]);
    assert("1850"@[2] != "1800"@[2]);
    assert("1850"@[2] != "1801"@[2]);
    assert("1850"@[2] != "180A"@[2]);
    assert("1850"@[2] != "180F"@[2]);
    assert("1850"@[2] != "1812"@[2]);
    assert("1850"@[2] != "1843"@[2]);
    assert("1850"@[2] != "1844"@[2]);
    assert("1850"@[2] != "1845"@[2]);
    assert("1850"@[2] != "1846"@[2]);
    assert("1850"@[2] != "1848"@[2]);
    assert("1850"@[2] != "184E"@[2]);
    assert("1850"@[2] != "184F"@[2]);
    assert("1853"@[2] != "1800"@[2]);
    assert("1853"@[2] != "1801"@[2]);
    assert("1853"@[2] != "180A"@[2]);
    assert("1853"@[2] != "180F"@[2]);
    assert("1853"@[2] != "1812"@[2]);
    assert("1853"@[2] != "1843"@[2]);
    assert("1853"@[2] != "1844"@[2]);
    assert("1853"@[2] != "1845"@[2]);
    assert("1853"@[2] != "1846"@[2]);
    assert("1853"@[2] != "1848"@[2]);
    assert("1853"@[2] != "184E"@[2]);
    assert("1853"@[2] != "184F"@[2]);
    assert("1853"@[3] != "1850"@[3]);
    assert("FDE2"@[0] != "1800"@[0]);
    assert("FDE2"@[0] != "1801"@[0]);
    assert("FDE2"@[0] != "180A"@[0]);
    assert("FDE2"@[0] != "180F"@[0]);
    assert("FDE2"@[0] != "1812"@[0]);
    assert("FDE2"@[0] != "1843"@[0]);
    assert("FDE2"@[0] != "1844"@[0]);
    assert("FDE2"@[0] != "1845"@[0]);
    assert("FDE2"@[0] != "1846"@[0]);
    assert("FDE2"@[0] != "1848"@[0]);
    assert("FDE2"@[0] != "184E"@[0]);
    assert("FDE2"@[0] != "184F"@[0]);
    assert("FDE2"@[0] != "1850"@[0]);
    assert("FDE2"@[0] != "1853"@[0]);
    assert("FE2C"@[0] != "1800"@[0]);
    assert("FE2C"@[0] != "1801"@[0]);
    assert("FE2C"@[0] != "180A"@[0]);
    assert("FE2C"@[0] != "180F"@[0]);
    assert("FE2C"@[0] != "1812"@[0]);
    assert("FE2C"@[0] != "1843"@[0]);
    assert("FE2C"@[0] != "1844"@[0]);
    assert("FE2C"@[0] != "1845"@[0]);
    assert("FE2C"@[0] != "1846"@[0]);
    assert("FE2C"@[0] != "1848"@[0]);
    assert("FE2C"@[0] != "184E"@[0]);
    assert("FE2C"@[0] != "184F"@[0]);
    assert("FE2C"@[0] != "1850"@[0]);
    assert("FE2C"@[0] != "1853"@[0]);
    assert("FE2C"@[1] != "FDE2"@[1]);
}

/// A standard (SIG base) ASCII UUID is named by its assigned number,
/// characters 4 to 8: the name is the one that number carries, and an
/// unlisted number gives none.
pub proof fn law_uuid_named_by_its_assigned_number(uuid: Seq<char>)
    requires
        is_ascii_text(uuid),
        uuid.len() >= 8,
        is_sig_uuid(uuid),
    ensures
        uuid_name(uuid) == spec_known_service_name(uuid.subrange(4, 8)),
{
    let bytes = vstd::utf8::encode_utf8(uuid);
    assert(vstd::utf8::is_ascii_chars(uuid)) by {
        assert forall|i: int| 0 <= i < uuid.len() implies '\0' <= #[trigger] uuid[i] <= '\u{7f}' by {
            let c = uuid[i];
            assert((c as u32) < 128);
            vstd::utf8::char_u32_cast(c, c as u32);
        }
    }
    vstd::utf8::is_ascii_chars_encode_utf8(uuid);
    let code = bytes.subrange(4, 8);
    assert forall|i: int| 0 <= i < code.len() implies code[i] < 128 by {
        assert(code[i] == uuid[i + 4] as u8);
        assert((uuid[i + 4] as u32) < 128);
    }
    assert forall|i: int| 0 <= i < 4 implies #[trigger] ascii_chars(code)[i] == uuid.subrange(4, 8)[i] by {
        let c = uuid[i + 4];
        assert(code[i] == c as u8);
        assert((c as u32) < 128);
        let u = c as u32;
        assert(u < 128 ==> (u as u8) as u32 == u) by (bit_vector);
        vstd::utf8::char_u32_cast(c, u);
    }
    assert(ascii_chars(code) =~= uuid.subrange(4, 8));
}

} // verus!
