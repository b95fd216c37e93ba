//! Windows PnP (Configuration Manager) data.
//!
//! The Configuration Manager calls themselves are made by the host; this
//! module holds what is computed from their raw results: property values
//! decoded from their byte buffers, instance ids split out of a
//! NUL-separated UTF-16 list, device nodes assembled from their properties
//! and merged by instance id, and the filter that keeps top-level devices.
//!
//! Everything here is read-only.

use crate::discovery::gatt::{all_hex, is_address};
use crate::discovery::{extract_address, spec_extract_address};
use crate::text::{
    chars_have, chars_lt, chars_of, chars_start_with, find_chars_from, find_from, hex_value,
    is_hex_digit, last_index, lemma_seq_lt_asymmetric, lemma_seq_lt_irreflexive,
    lemma_seq_lt_total, lemma_seq_lt_transitive, owned, rfind_char, seq_lt, starts_with, str_eq,
    string_from_chars, to_uppercase, upper_text,
};
use vstd::prelude::*;

verus! {

/// `DEVPROP_TYPE_BYTE`.
pub const DEVPROP_TYPE_BYTE: u32 = 3;

/// `DEVPROP_TYPE_UINT32`.
pub const DEVPROP_TYPE_UINT32: u32 = 7;

/// `DEVPROP_TYPE_BOOLEAN`.
pub const DEVPROP_TYPE_BOOLEAN: u32 = 17;

/// `DEVPROP_TYPE_STRING`.
pub const DEVPROP_TYPE_STRING: u32 = 18;

/// A value read from a PnP property.
#[derive(Debug, Clone, PartialEq, Eq)]
pub enum PropValue {
    Text(String),
    Bool(bool),
    Number(u32),
    Byte(u8),
}

impl PropValue {
    pub fn as_text(&self) -> (r: Option<&str>)
        ensures
            match *self {
                PropValue::Text(s) => r matches Some(t) && t@ == s@,
                _ => r is None,
            },
    {
        match self {
            PropValue::Text(s) => Some(s.as_str()),
            _ => None,
        }
    }

    pub fn as_bool(&self) -> (r: Option<bool>)
        ensures
            r == match *self {
                PropValue::Bool(b) => Some(b),
                _ => None,
            },
    {
        match self {
            PropValue::Bool(b) => Some(*b),
            _ => None,
        }
    }

    /// Battery is reported as a byte on most stacks but a UINT32 on some; a
    /// UINT32 above 100 is not a percentage and is refused, not clamped.
    pub fn as_percent(&self) -> (r: Option<u8>)
        ensures
            r == match *self {
                PropValue::Byte(b) => Some(b),
                PropValue::Number(n) => if n <= 100 {
                    Some(n as u8)
                } else {
                    None
                },
                _ => None,
            },
    {
        match self {
            PropValue::Byte(b) => Some(*b),
            PropValue::Number(n) => {
                if *n <= 100 {
                    Some(*n as u8)
                } else {
                    None
                }
            },
            _ => None,
        }
    }
}

/// A Bluetooth-related device node as Windows sees it.
#[derive(Debug, Clone)]
pub struct PnpDevice {
    pub instance_id: String,
    pub friendly_name: Option<String>,
    pub is_connected: Option<bool>,
    pub battery_percent: Option<u8>,
    /// The Bluetooth SIG company id of the device's vendor, when Windows
    /// reports one.
    pub vendor_id: Option<u16>,
}

/// Whether an instance id names a top-level device rather than one of the
/// per-profile child nodes (which carry a service GUID in braces).
pub open spec fn spec_is_top_level(instance_id: Seq<char>) -> bool {
    let id = upper_text(instance_id);
    &&& (starts_with(id, "BTHENUM\\DEV_"@) || starts_with(id, "BTHLE\\DEV_"@))
    &&& !id.contains('{')
}

impl PnpDevice {
    /// Whether this node is a top-level device. Child profile nodes
    /// duplicate the friendly name and would otherwise show up as many
    /// spurious devices.
    pub fn is_top_level(&self) -> (r: bool)
        ensures
            r == spec_is_top_level(self.instance_id@),
    {
        let up = to_uppercase(self.instance_id.as_str());
        let id = chars_of(up.as_str());
        let has_service_guid = chars_have(&id, '{');
        let classic = chars_of("BTHENUM\\DEV_");
        let le = chars_of("BTHLE\\DEV_");
        (chars_start_with(&id, &classic) || chars_start_with(&id, &le)) && !has_service_guid
    }
}

// ---------------------------------------------------------------------------
// UTF-16
// ---------------------------------------------------------------------------

pub open spec fn is_high_surrogate(u: u16) -> bool {
    0xD800 <= u <= 0xDBFF
}

pub open spec fn is_low_surrogate(u: u16) -> bool {
    0xDC00 <= u <= 0xDFFF
}

/// UTF-16 decoding in which every unpaired surrogate becomes U+FFFD.
pub open spec fn utf16_lossy(u: Seq<u16>) -> Seq<char>
    decreases u.len(),
{
    if u.len() == 0 {
        Seq::empty()
    } else if u.len() >= 2 && is_high_surrogate(u[0]) && is_low_surrogate(u[1]) {
        seq![(0x10000 + (u[0] - 0xD800) * 0x400 + (u[1] - 0xDC00)) as char] + utf16_lossy(
            u.subrange(2, u.len() as int),
        )
    } else if is_high_surrogate(u[0]) || is_low_surrogate(u[0]) {
        seq!['\u{FFFD}'] + utf16_lossy(u.drop_first())
    } else {
        seq![u[0] as char] + utf16_lossy(u.drop_first())
    }
}

/// `String::from_utf16_lossy`: decodes UTF-16, replacing each unpaired
/// surrogate with U+FFFD (the replacement character), as its documentation
/// describes.
#[verifier::external_body]
fn from_utf16_lossy(units: &[u16]) -> (r: String)
    ensures
        r@ == utf16_lossy(units@),
{
    String::from_utf16_lossy(units)
}

/// The units before the first NUL (all of them, if there is none).
pub open spec fn before_nul(s: Seq<u16>) -> Seq<u16>
    decreases s.len(),
{
    if s.len() == 0 || s[0] == 0 {
        Seq::empty()
    } else {
        seq![s[0]] + before_nul(s.drop_first())
    }
}

proof fn lemma_before_nul(s: Seq<u16>, end: int)
    requires
        0 <= end <= s.len(),
        forall|j: int| 0 <= j < end ==> s[j] != 0,
        end == s.len() || s[end] == 0,
    ensures
        before_nul(s) == s.subrange(0, end),
    decreases s.len(),
{
    if s.len() == 0 || s[0] == 0 {
        assert(s.subrange(0, end) =~= Seq::<u16>::empty());
    } else {
        lemma_before_nul(s.drop_first(), end - 1);
        assert(s.subrange(0, end) =~= seq![s[0]] + s.drop_first().subrange(0, end - 1));
    }
}

/// Text of a NUL-terminated wide string.
pub fn wide_to_string(buf: &[u16]) -> (r: String)
    ensures
        r@ == utf16_lossy(before_nul(buf@)),
{
    let mut end: usize = 0;
    while end < buf.len() && buf[end] != 0
        invariant
            end <= buf@.len(),
            forall|j: int| 0 <= j < end ==> buf@[j] != 0,
        decreases buf@.len() - end,
    {
        end = end + 1;
    }
    proof {
        lemma_before_nul(buf@, end as int);
    }
    let head = vstd::slice::slice_subrange(buf, 0, end);
    from_utf16_lossy(head)
}

/// The UTF-16 units of one character.
pub open spec fn utf16_units(c: char) -> Seq<u16> {
    let code = c as u32;
    if code < 0x10000 {
        seq![code as u16]
    } else {
        let v = code - 0x10000;
        seq![(0xD800 + v / 0x400) as u16, (0xDC00 + v % 0x400) as u16]
    }
}

/// UTF-16 encoding of a character sequence.
pub open spec fn utf16_encode(s: Seq<char>) -> Seq<u16>
    decreases s.len(),
{
    if s.len() == 0 {
        Seq::empty()
    } else {
        utf16_encode(s.drop_last()) + utf16_units(s.last())
    }
}

/// A string as a NUL-terminated wide string.
pub fn to_wide(s: &str) -> (r: Vec<u16>)
    ensures
        r@ == utf16_encode(s@).push(0u16),
{
    let cs = chars_of(s);
    let mut out: Vec<u16> = Vec::new();
    let mut i: usize = 0;
    while i < cs.len()
        invariant
            i <= cs@.len(),
            cs@ == s@,
            out@ == utf16_encode(s@.subrange(0, i as int)),
        decreases cs@.len() - i,
    {
        let c = cs[i];
        let code = c as u32;
        proof {
            vstd::utf8::char_is_scalar(c);
        }
        if code < 0x10000 {
            out.push(code as u16);
        } else {
            let v = code - 0x10000;
            out.push((0xD800 + v / 0x400) as u16);
            out.push((0xDC00 + v % 0x400) as u16);
        }
        assert(s@.subrange(0, i + 1).drop_last() =~= s@.subrange(0, i as int));
        i = i + 1;
    }
    assert(s@.subrange(0, cs@.len() as int) =~= s@);
    out.push(0u16);
    out
}

// ---------------------------------------------------------------------------
// Multi-strings
// ---------------------------------------------------------------------------

/// Scanning state over a NUL-separated list: the finished non-empty pieces
/// and the piece being read.
pub open spec fn split_state(s: Seq<u16>) -> (Seq<Seq<u16>>, Seq<u16>)
    decreases s.len(),
{
    if s.len() == 0 {
        (Seq::empty(), Seq::empty())
    } else {
        let (done, cur) = split_state(s.drop_last());
        if s.last() == 0 {
            (if cur.len() > 0 {
                done.push(cur)
            } else {
                done
            }, Seq::empty())
        } else {
            (done, cur.push(s.last()))
        }
    }
}

/// The non-empty pieces of a NUL-separated list, in order.
pub open spec fn nul_separated(s: Seq<u16>) -> Seq<Seq<u16>> {
    let (done, cur) = split_state(s);
    if cur.len() > 0 {
        done.push(cur)
    } else {
        done
    }
}

/// The instance ids in a NUL-separated (double-NUL-terminated) UTF-16 list.
pub fn instance_ids_from_multi_string(buf: &[u16]) -> (r: Vec<String>)
    ensures
        r@.len() == nul_separated(buf@).len(),
        forall|i: int| 0 <= i < r@.len() ==> (#[trigger] r@[i])@ == utf16_lossy(nul_separated(buf@)[i]),
{
    let mut out: Vec<String> = Vec::new();
    let mut cur: Vec<u16> = Vec::new();
    let mut i: usize = 0;
    while i < buf.len()
        invariant
            i <= buf@.len(),
            split_state(buf@.subrange(0, i as int)).1 == cur@,
            out@.len() == split_state(buf@.subrange(0, i as int)).0.len(),
            forall|k: int| 0 <= k < out@.len() ==> (#[trigger] out@[k])@ == utf16_lossy(
                split_state(buf@.subrange(0, i as int)).0[k],
            ),
        decreases buf@.len() - i,
    {
        assert(buf@.subrange(0, i + 1).drop_last() =~= buf@.subrange(0, i as int));
        let u = buf[i];
        if u == 0 {
            if cur.len() > 0 {
                let piece = from_utf16_lossy(cur.as_slice());
                out.push(piece);
            }
            cur = Vec::new();
        } else {
            cur.push(u);
        }
        i = i + 1;
    }
    assert(buf@.subrange(0, buf@.len() as int) =~= buf@);
    if cur.len() > 0 {
        let piece = from_utf16_lossy(cur.as_slice());
        out.push(piece);
    }
    out
}

// ---------------------------------------------------------------------------
// Property buffers
// ---------------------------------------------------------------------------

/// Little-endian 16-bit units of a byte buffer (a trailing odd byte is
/// dropped).
pub open spec fn le_units(b: Seq<u8>) -> Seq<u16> {
    Seq::new(b.len() / 2, |i: int| (b[2 * i] + 256 * b[2 * i + 1]) as u16)
}

/// The value a property of the given `DEVPROPTYPE` holds, decoded from its
/// buffer: a string as NUL-terminated UTF-16, a boolean or a byte from the
/// first byte, a UINT32 from the first four bytes, little-endian. Other
/// types, and buffers too short for their type, give nothing.
pub open spec fn spec_decode_property(prop_type: u32, buf: Seq<u8>, v: Option<PropValue>) -> bool {
    if prop_type == DEVPROP_TYPE_STRING {
        v matches Some(PropValue::Text(s)) && s@ == utf16_lossy(before_nul(le_units(buf)))
    } else if prop_type == DEVPROP_TYPE_BOOLEAN {
        v == if buf.len() > 0 {
            Some(PropValue::Bool(buf[0] != 0))
        } else {
            None
        }
    } else if prop_type == DEVPROP_TYPE_BYTE {
        v == if buf.len() > 0 {
            Some(PropValue::Byte(buf[0]))
        } else {
            None
        }
    } else if prop_type == DEVPROP_TYPE_UINT32 {
        v == if buf.len() >= 4 {
            Some(
                PropValue::Number(
                    (buf[0] + 256 * buf[1] + 65536 * buf[2] + 16777216 * buf[3]) as u32,
                ),
            )
        } else {
            None
        }
    } else {
        v is None
    }
}

/// Decodes a property buffer read from a device node.
pub fn decode_property(prop_type: u32, buf: &[u8]) -> (r: Option<PropValue>)
    ensures
        spec_decode_property(prop_type, buf@, r),
{
    if prop_type == DEVPROP_TYPE_STRING {
        let mut units: Vec<u16> = Vec::new();
        let mut i: usize = 0;
        while i + 1 < buf.len()
            invariant
                i % 2 == 0,
                i <= buf@.len(),
                units@.len() == i / 2,
                forall|k: int| 0 <= k < units@.len() ==> units@[k] == le_units(buf@)[k],
            decreases buf@.len() - i,
        {
            let unit: u16 = buf[i] as u16 + 256 * (buf[i + 1] as u16);
            units.push(unit);
            i = i + 2;
        }
        assert(units@ =~= le_units(buf@));
        Some(PropValue::Text(wide_to_string(units.as_slice())))
    } else if prop_type == DEVPROP_TYPE_BOOLEAN {
        if buf.len() > 0 {
            Some(PropValue::Bool(buf[0] != 0))
        } else {
            None
        }
    } else if prop_type == DEVPROP_TYPE_BYTE {
        if buf.len() > 0 {
            Some(PropValue::Byte(buf[0]))
        } else {
            None
        }
    } else if prop_type == DEVPROP_TYPE_UINT32 {
        if buf.len() >= 4 {
            let n: u32 = buf[0] as u32 + 256 * (buf[1] as u32) + 65536 * (buf[2] as u32) + 16777216
                * (buf[3] as u32);
            Some(PropValue::Number(n))
        } else {
            None
        }
    } else {
        None
    }
}

/// The text of an optional property value, as an owned string.
fn owned_text(v: &Option<PropValue>) -> (r: Option<String>)
    ensures
        match *v {
            Some(PropValue::Text(s)) => r matches Some(t) && t@ == s@,
            _ => r is None,
        },
{
    match v {
        Some(p) => match p.as_text() {
            Some(t) => Some(owned(t)),
            None => None,
        },
        None => None,
    }
}

/// A device node from its instance id and the values read for its
/// friendly name, description, connection flag and battery level. The
/// description stands in for a missing friendly name; the vendor id is the
/// one the instance id carries in its `VID&0001xxxx` field.
pub fn pnp_device_from(
    instance_id: String,
    friendly_name: Option<PropValue>,
    description: Option<PropValue>,
    is_connected: Option<PropValue>,
    battery: Option<PropValue>,
) -> (r: PnpDevice)
    ensures
        r.instance_id == instance_id,
        match friendly_name {
            Some(PropValue::Text(s)) => r.friendly_name matches Some(t) && t@ == s@,
            _ => match description {
                Some(PropValue::Text(s)) => r.friendly_name matches Some(t) && t@ == s@,
                _ => r.friendly_name is None,
            },
        },
        r.is_connected == match is_connected {
            Some(PropValue::Bool(b)) => Some(b),
            _ => None,
        },
        r.battery_percent == match battery {
            Some(PropValue::Byte(b)) => Some(b),
            Some(PropValue::Number(n)) => if n <= 100 {
                Some(n as u8)
            } else {
                None
            },
            _ => None,
        },
        r.vendor_id == spec_vendor_id(instance_id@),
{
    let name = match owned_text(&friendly_name) {
        Some(t) => Some(t),
        None => owned_text(&description),
    };
    let connected = match &is_connected {
        Some(p) => p.as_bool(),
        None => None,
    };
    let percent = match &battery {
        Some(p) => p.as_percent(),
        None => None,
    };
    let vendor = vendor_id_of(instance_id.as_str());
    PnpDevice {
        instance_id,
        friendly_name: name,
        is_connected: connected,
        battery_percent: percent,
        vendor_id: vendor,
    }
}

// ---------------------------------------------------------------------------
// Merging enumerations
// ---------------------------------------------------------------------------

/// The last node seen for each instance id.
pub open spec fn latest_by_id(s: Seq<PnpDevice>) -> Map<Seq<char>, PnpDevice>
    decreases s.len(),
{
    if s.len() == 0 {
        Map::empty()
    } else {
        latest_by_id(s.drop_last()).insert(s.last().instance_id@, s.last())
    }
}

/// Strictly ascending by instance id.
pub open spec fn ordered_by_id(s: Seq<PnpDevice>) -> bool {
    forall|i: int, j: int|
        0 <= i < j < s.len() ==> seq_lt(#[trigger] s[i].instance_id@, #[trigger] s[j].instance_id@)
}

/// `out` holds exactly the latest node for each instance id of `found`.
pub open spec fn holds_latest(found: Seq<PnpDevice>, out: Seq<PnpDevice>) -> bool {
    &&& forall|i: int|
        0 <= i < out.len() ==> {
            &&& latest_by_id(found).contains_key((#[trigger] out[i]).instance_id@)
            &&& latest_by_id(found)[out[i].instance_id@] == out[i]
        }
    &&& forall|id: Seq<char>|
        latest_by_id(found).contains_key(id) ==> exists|i: int|
            0 <= i < out.len() && (#[trigger] out[i]).instance_id@ == id
}

fn str_lt(a: &str, b: &str) -> (r: bool)
    ensures
        r == seq_lt(a@, b@),
{
    let x = chars_of(a);
    let y = chars_of(b);
    chars_lt(&x, &y)
}

/// Merges the nodes of several enumerations into one list keyed by
/// instance id: a node enumerated twice appears once, as last seen, and the
/// list is in instance-id order.
fn merge_by_id(found: Vec<PnpDevice>) -> (r: Vec<PnpDevice>)
    ensures
        ordered_by_id(r@),
        holds_latest(found@, r@),
{
    let ghost orig = found@;
    let mut rest = found;
    let mut out: Vec<PnpDevice> = Vec::new();
    let ghost mut k: int = 0;
    assert(orig.subrange(0, 0) =~= Seq::<PnpDevice>::empty());
    while rest.len() > 0
        invariant
            0 <= k <= orig.len(),
            rest@ == orig.subrange(k, orig.len() as int),
            ordered_by_id(out@),
            holds_latest(orig.subrange(0, k), out@),
        decreases rest@.len(),
    {
        let dev = rest.remove(0);
        proof {
            assert(dev == orig[k]);
            assert(orig.subrange(0, k + 1).drop_last() =~= orig.subrange(0, k));
            assert(rest@ =~= orig.subrange(k + 1, orig.len() as int));
        }
        let ghost before = out@;
        let ghost old_map = latest_by_id(orig.subrange(0, k));
        let ghost new_map = latest_by_id(orig.subrange(0, k + 1));
        assert(new_map == old_map.insert(dev.instance_id@, dev));
        let mut p: usize = 0;
        while p < out.len() && str_lt(out[p].instance_id.as_str(), dev.instance_id.as_str())
            invariant
                p <= out@.len(),
                out@ == before,
                forall|j: int| 0 <= j < p ==> seq_lt(#[trigger] out@[j].instance_id@, dev.instance_id@),
            decreases out@.len() - p,
        {
            p = p + 1;
        }
        let same = p < out.len() && str_eq(out[p].instance_id.as_str(), dev.instance_id.as_str());
        let ghost id = dev.instance_id@;
        if same {
            out.set(p, dev);
            proof {
                assert forall|i: int, j: int| 0 <= i < j < out@.len() implies seq_lt(
                    #[trigger] out@[i].instance_id@,
                    #[trigger] out@[j].instance_id@,
                ) by {
                    assert(seq_lt(before[i].instance_id@, before[j].instance_id@));
                }
                assert forall|i: int| 0 <= i < out@.len() implies {
                    &&& new_map.contains_key((#[trigger] out@[i]).instance_id@)
                    &&& new_map[out@[i].instance_id@] == out@[i]
                } by {
                    if i != p {
                        assert(before[i].instance_id@ != id) by {
                            if i < p {
                                lemma_seq_lt_irreflexive(id);
                            } else {
                                assert(seq_lt(before[p as int].instance_id@, before[i].instance_id@));
                                lemma_seq_lt_irreflexive(id);
                            }
                        }
                    }
                }
                assert forall|x: Seq<char>| new_map.contains_key(x) implies exists|i: int|
                    0 <= i < out@.len() && (#[trigger] out@[i]).instance_id@ == x by {
                    if x == id {
                        assert(out@[p as int].instance_id@ == x);
                    } else {
                        let i = choose|i: int| 0 <= i < before.len() && (#[trigger] before[i]).instance_id@ == x;
                        assert(i != p);
                        assert(out@[i].instance_id@ == x);
                    }
                }
            }
        } else {
            out.insert(p, dev);
            proof {
                if p < before.len() {
                    lemma_seq_lt_total(before[p as int].instance_id@, id);
                }
                assert forall|i: int, j: int| 0 <= i < j < out@.len() implies seq_lt(
                    #[trigger] out@[i].instance_id@,
                    #[trigger] out@[j].instance_id@,
                ) by {
                    if j < p {
                        assert(seq_lt(before[i].instance_id@, before[j].instance_id@));
                    } else if j == p {
                    } else if i < p {
                        assert(out@[j] == before[j - 1]);
                        if j - 1 > p {
                            assert(seq_lt(before[p as int].instance_id@, before[j - 1].instance_id@));
                            lemma_seq_lt_transitive(id, before[p as int].instance_id@, before[j - 1].instance_id@);
                        }
                        lemma_seq_lt_transitive(before[i].instance_id@, id, before[j - 1].instance_id@);
                    } else if i == p {
                        assert(out@[j] == before[j - 1]);
                        if j - 1 > p {
                            assert(seq_lt(before[p as int].instance_id@, before[j - 1].instance_id@));
                            lemma_seq_lt_transitive(id, before[p as int].instance_id@, before[j - 1].instance_id@);
                        }
                    } else {
                        assert(out@[i] == before[i - 1]);
                        assert(out@[j] == before[j - 1]);
                        assert(seq_lt(before[i - 1].instance_id@, before[j - 1].instance_id@));
                    }
                }
                assert forall|i: int| 0 <= i < out@.len() implies {
                    &&& new_map.contains_key((#[trigger] out@[i]).instance_id@)
                    &&& new_map[out@[i].instance_id@] == out@[i]
                } by {
                    if i < p {
                        assert(out@[i] == before[i]);
                        lemma_seq_lt_irreflexive(id);
                    } else if i > p {
                        assert(out@[i] == before[i - 1]);
                        assert(before[i - 1].instance_id@ != id) by {
                            lemma_seq_lt_asymmetric(before[p as int].instance_id@, id);
                            if i - 1 > p {
                                assert(seq_lt(before[p as int].instance_id@, before[i - 1].instance_id@));
                                lemma_seq_lt_asymmetric(id, before[i - 1].instance_id@);
                                lemma_seq_lt_transitive(id, before[p as int].instance_id@, before[i - 1].instance_id@);
                                lemma_seq_lt_irreflexive(id);
                            }
                        }
                    }
                }
                assert forall|x: Seq<char>| new_map.contains_key(x) implies exists|i: int|
                    0 <= i < out@.len() && (#[trigger] out@[i]).instance_id@ == x by {
                    if x == id {
                        assert(out@[p as int].instance_id@ == x);
                    } else {
                        let i = choose|i: int| 0 <= i < before.len() && (#[trigger] before[i]).instance_id@ == x;
                        if i < p {
                            assert(out@[i].instance_id@ == x);
                        } else {
                            assert(out@[i + 1].instance_id@ == x);
                        }
                    }
                }
            }
        }
        proof {
            k = k + 1;
        }
    }
    assert(orig.subrange(0, k) =~= orig);
    out
}

// ---------------------------------------------------------------------------
// Folding properties across the nodes of one device
// ---------------------------------------------------------------------------

/// The device address a node belongs to. A top-level node carries it after
/// `DEV_`; a profile child node carries it after the last `&` of its
/// (upper-cased) instance id, as twelve hex digits followed by `_` or by
/// nothing.
pub open spec fn spec_node_address(instance_id: Seq<char>) -> Option<Seq<char>> {
    if spec_is_top_level(instance_id) {
        spec_extract_address(instance_id)
    } else {
        let u = upper_text(instance_id);
        match last_index(u, '&') {
            None => None,
            Some(k) => {
                let tail = u.subrange(k + 1, u.len() as int);
                if tail.len() >= 12 && is_address(tail.subrange(0, 12)) && (tail.len() == 12
                    || tail[12] == '_') {
                    Some(tail.subrange(0, 12))
                } else {
                    None
                }
            },
        }
    }
}

/// The device address a node belongs to (see [`spec_node_address`]).
pub fn node_address(instance_id: &str) -> (r: Option<String>)
    ensures
        match spec_node_address(instance_id@) {
            Some(a) => r matches Some(s) && s@ == a,
            None => r is None,
        },
{
    let probe = PnpDevice {
        instance_id: owned(instance_id),
        friendly_name: None,
        is_connected: None,
        battery_percent: None,
        vendor_id: None,
    };
    if probe.is_top_level() {
        return extract_address(instance_id);
    }
    let up = to_uppercase(instance_id);
    let u = chars_of(up.as_str());
    let k = match rfind_char(&u, '&') {
        Some(k) => k,
        None => return None,
    };
    let n = u.len();
    let tail = vstd::slice::slice_subrange(u.as_slice(), k + 1, n);
    if tail.len() < 12 {
        return None;
    }
    let head = vstd::slice::slice_subrange(tail, 0, 12);
    if !all_hex(head) {
        return None;
    }
    if tail.len() > 12 && tail[12] != '_' {
        return None;
    }
    Some(string_from_chars(head))
}

/// The value of four hex digits.
pub open spec fn hex4_value(d: Seq<char>) -> int {
    4096 * hex_value(d[0]) + 256 * hex_value(d[1]) + 16 * hex_value(d[2]) + hex_value(d[3])
}

/// The Bluetooth SIG company id in an instance id: the last four hex digits
/// of the first `VID&0001xxxx` field (source `0001` is the Bluetooth SIG).
pub open spec fn spec_vendor_id(instance_id: Seq<char>) -> Option<u16> {
    let u = upper_text(instance_id);
    match find_from(u, "VID&0001"@, 0) {
        None => None,
        Some(i) => if i + 12 <= u.len() && forall|k: int|
            i + 8 <= k < i + 12 ==> is_hex_digit(#[trigger] u[k]) {
            Some(hex4_value(u.subrange(i + 8, i + 12)) as u16)
        } else {
            None
        },
    }
}

fn hex_digit_value(c: char) -> (r: u16)
    requires
        is_hex_digit(c),
    ensures
        r == hex_value(c),
        r < 16,
{
    if '0' <= c && c <= '9' {
        (c as u32 - '0' as u32) as u16
    } else if 'a' <= c && c <= 'f' {
        (c as u32 - 'a' as u32 + 10) as u16
    } else {
        (c as u32 - 'A' as u32 + 10) as u16
    }
}

/// The Bluetooth SIG company id a node's instance id carries, if any.
pub fn vendor_id_of(instance_id: &str) -> (r: Option<u16>)
    ensures
        r == spec_vendor_id(instance_id@),
{
    let up = to_uppercase(instance_id);
    let u = chars_of(up.as_str());
    let field = chars_of("VID&0001");
    proof {
        reveal_strlit("VID&0001");
    }
    let i = match find_chars_from(&u, &field, 0) {
        Some(i) => i,
        None => return None,
    };
    if u.len() < 12 || i > u.len() - 12 {
        return None;
    }
    let a = u[i + 8];
    let b = u[i + 9];
    let c = u[i + 10];
    let d = u[i + 11];
    let hex = |x: char| -> (h: bool)
        ensures
            h == is_hex_digit(x),
        { ('0' <= x && x <= '9') || ('a' <= x && x <= 'f') || ('A' <= x && x <= 'F') };
    if !(hex(a) && hex(b) && hex(c) && hex(d)) {
        proof {
            let k = if !is_hex_digit(a) {
                i + 8
            } else if !is_hex_digit(b) {
                i + 9
            } else if !is_hex_digit(c) {
                i + 10
            } else {
                i + 11
            };
            assert(!is_hex_digit(u@[k as int]));
        }
        return None;
    }
    let v = 4096 * hex_digit_value(a) + 256 * hex_digit_value(b) + 16 * hex_digit_value(c)
        + hex_digit_value(d);
    let ghost digits = u@.subrange(i + 8, i + 12);
    assert(digits[0] == a && digits[1] == b && digits[2] == c && digits[3] == d);
    assert forall|k: int| i + 8 <= k < i + 12 implies is_hex_digit(#[trigger] u@[k]) by {
        assert(k == i + 8 || k == i + 9 || k == i + 10 || k == i + 11);
    }
    Some(v)
}

/// Whether node `n` belongs to the device at address `a`.
pub open spec fn of_address(n: PnpDevice, a: Seq<char>) -> bool {
    spec_node_address(n.instance_id@) == Some(a)
}

/// The battery level of the first node (in list order) of the device at
/// address `a` that reports one.
pub open spec fn first_battery(m: Seq<PnpDevice>, a: Seq<char>) -> Option<u8>
    decreases m.len(),
{
    if m.len() == 0 {
        None
    } else {
        let p = first_battery(m.drop_last(), a);
        if p is Some {
            p
        } else if of_address(m.last(), a) {
            m.last().battery_percent
        } else {
            None
        }
    }
}

/// The connection flag of the first node of the device at `a` reporting one.
pub open spec fn first_connected(m: Seq<PnpDevice>, a: Seq<char>) -> Option<bool>
    decreases m.len(),
{
    if m.len() == 0 {
        None
    } else {
        let p = first_connected(m.drop_last(), a);
        if p is Some {
            p
        } else if of_address(m.last(), a) {
            m.last().is_connected
        } else {
            None
        }
    }
}

/// The vendor id of the first node of the device at `a` carrying one.
pub open spec fn first_vendor(m: Seq<PnpDevice>, a: Seq<char>) -> Option<u16>
    decreases m.len(),
{
    if m.len() == 0 {
        None
    } else {
        let p = first_vendor(m.drop_last(), a);
        if p is Some {
            p
        } else if of_address(m.last(), a) {
            m.last().vendor_id
        } else {
            None
        }
    }
}

/// A node with the properties of its device folded in: a battery level,
/// connection flag or vendor id it lacks is taken from the first node of
/// the same device address (in `m`) that has one.
pub open spec fn fold_node(m: Seq<PnpDevice>, n: PnpDevice) -> PnpDevice {
    match spec_node_address(n.instance_id@) {
        None => n,
        Some(a) => PnpDevice {
            battery_percent: if n.battery_percent is Some {
                n.battery_percent
            } else {
                first_battery(m, a)
            },
            is_connected: if n.is_connected is Some {
                n.is_connected
            } else {
                first_connected(m, a)
            },
            vendor_id: if n.vendor_id is Some {
                n.vendor_id
            } else {
                first_vendor(m, a)
            },
            ..n
        },
    }
}

/// The properties of the device at `a`, gathered over all of `m`.
fn device_properties(m: &Vec<PnpDevice>, addrs: &Vec<Option<String>>, a: &str) -> (r: (
    Option<u8>,
    Option<bool>,
    Option<u16>,
))
    requires
        addrs@.len() == m@.len(),
        forall|j: int|
            0 <= j < m@.len() ==> match spec_node_address((#[trigger] m@[j]).instance_id@) {
                Some(x) => addrs@[j] matches Some(s) && s@ == x,
                None => addrs@[j] is None,
            },
    ensures
        r.0 == first_battery(m@, a@),
        r.1 == first_connected(m@, a@),
        r.2 == first_vendor(m@, a@),
{
    let mut b: Option<u8> = None;
    let mut c: Option<bool> = None;
    let mut v: Option<u16> = None;
    let mut j: usize = 0;
    while j < m.len()
        invariant
            j <= m@.len(),
            addrs@.len() == m@.len(),
            forall|k: int|
                0 <= k < m@.len() ==> match spec_node_address((#[trigger] m@[k]).instance_id@) {
                    Some(x) => addrs@[k] matches Some(s) && s@ == x,
                    None => addrs@[k] is None,
                },
            b == first_battery(m@.subrange(0, j as int), a@),
            c == first_connected(m@.subrange(0, j as int), a@),
            v == first_vendor(m@.subrange(0, j as int), a@),
        decreases m@.len() - j,
    {
        let ghost pre = m@.subrange(0, j as int);
        let ghost next = m@.subrange(0, j + 1);
        assert(next.drop_last() =~= pre);
        assert(next.last() == m@[j as int]);
        let same = match &addrs[j] {
            Some(x) => str_eq(x.as_str(), a),
            None => false,
        };
        assert(same == of_address(m@[j as int], a@));
        if same {
            if b.is_none() {
                b = m[j].battery_percent;
            }
            if c.is_none() {
                c = m[j].is_connected;
            }
            if v.is_none() {
                v = m[j].vendor_id;
            }
        }
        j = j + 1;
    }
    assert(m@.subrange(0, m@.len() as int) =~= m@);
    (b, c, v)
}

/// Merges the nodes of several enumerations (Classic, then LE) into one
/// list keyed by instance id, in instance-id order (a node enumerated twice
/// appears once, as last seen), and folds each device's properties across
/// every node that shares its device address: Windows reports the battery
/// on a profile child node, not on the top-level node.
pub fn enumerate_bluetooth_devices(found: Vec<PnpDevice>) -> (r: Vec<PnpDevice>)
    ensures
        ordered_by_id(r@),
        exists|m: Seq<PnpDevice>|
            #![trigger holds_latest(found@, m)]
            {
                &&& holds_latest(found@, m)
                &&& ordered_by_id(m)
                &&& r@.len() == m.len()
                &&& forall|i: int| 0 <= i < m.len() ==> r@[i] == fold_node(m, #[trigger] m[i])
            },
{
    let merged = merge_by_id(found);
    assert(ordered_by_id(merged@) && holds_latest(found@, merged@));
    let mut addrs: Vec<Option<String>> = Vec::new();
    let mut i: usize = 0;
    while i < merged.len()
        invariant
            i <= merged@.len(),
            addrs@.len() == i,
            forall|k: int|
                0 <= k < i ==> match spec_node_address((#[trigger] merged@[k]).instance_id@) {
                    Some(x) => addrs@[k] matches Some(s) && s@ == x,
                    None => addrs@[k] is None,
                },
        decreases merged@.len() - i,
    {
        let a = node_address(merged[i].instance_id.as_str());
        addrs.push(a);
        i = i + 1;
    }
    let ghost m = merged@;
    let mut props: Vec<(Option<u8>, Option<bool>, Option<u16>)> = Vec::new();
    let mut i: usize = 0;
    while i < merged.len()
        invariant
            i <= merged@.len(),
            merged@ == m,
            addrs@.len() == m.len(),
            forall|k: int|
                0 <= k < m.len() ==> match spec_node_address((#[trigger] m[k]).instance_id@) {
                    Some(x) => addrs@[k] matches Some(s) && s@ == x,
                    None => addrs@[k] is None,
                },
            props@.len() == i,
            forall|k: int|
                0 <= k < i ==> match spec_node_address(m[k].instance_id@) {
                    Some(x) => (#[trigger] props@[k]) == (
                        first_battery(m, x),
                        first_connected(m, x),
                        first_vendor(m, x),
                    ),
                    None => props@[k] == (None::<u8>, None::<bool>, None::<u16>),
                },
        decreases m.len() - i,
    {
        let p = match &addrs[i] {
            Some(a) => device_properties(&merged, &addrs, a.as_str()),
            None => (None, None, None),
        };
        props.push(p);
        i = i + 1;
    }
    let mut rest = merged;
    let mut out: Vec<PnpDevice> = Vec::new();
    let mut k: usize = 0;
    while rest.len() > 0
        invariant
            k <= m.len(),
            rest@ == m.subrange(k as int, m.len() as int),
            props@.len() == m.len(),
            forall|q: int|
                0 <= q < m.len() ==> match spec_node_address(m[q].instance_id@) {
                    Some(x) => (#[trigger] props@[q]) == (
                        first_battery(m, x),
                        first_connected(m, x),
                        first_vendor(m, x),
                    ),
                    None => props@[q] == (None::<u8>, None::<bool>, None::<u16>),
                },
            out@.len() == k,
            forall|q: int| 0 <= q < k ==> out@[q] == fold_node(m, #[trigger] m[q]),
        decreases rest@.len(),
    {
        let mut dev = rest.remove(0);
        assert(dev == m[k as int]);
        assert(rest@ =~= m.subrange(k + 1, m.len() as int));
        let p = props[k];
        if dev.battery_percent.is_none() {
            dev.battery_percent = p.0;
        }
        if dev.is_connected.is_none() {
            dev.is_connected = p.1;
        }
        if dev.vendor_id.is_none() {
            dev.vendor_id = p.2;
        }
        assert(dev == fold_node(m, m[k as int]));
        out.push(dev);
        assert(k + 1 <= props.len());
        k = k + 1;
    }
    assert(out@.len() == m.len());
    assert forall|a: int, b: int| 0 <= a < b < out@.len() implies seq_lt(
        #[trigger] out@[a].instance_id@,
        #[trigger] out@[b].instance_id@,
    ) by {
        assert(out@[a] == fold_node(m, m[a]));
        assert(out@[b] == fold_node(m, m[b]));
        assert(seq_lt(m[a].instance_id@, m[b].instance_id@));
    }
    out
}

/// After merging, each instance id appears once.
pub proof fn law_merged_ids_are_distinct(s: Seq<PnpDevice>)
    requires
        ordered_by_id(s),
    ensures
        forall|i: int, j: int|
            0 <= i < j < s.len() ==> (#[trigger] s[i]).instance_id@ != (#[trigger] s[j]).instance_id@,
{
    assert forall|i: int, j: int| 0 <= i < j < s.len() implies (#[trigger] s[i]).instance_id@
        != (#[trigger] s[j]).instance_id@ by {
        assert(seq_lt(s[i].instance_id@, s[j].instance_id@));
        lemma_seq_lt_irreflexive(s[i].instance_id@);
    }
}

} // verus!
