//! Bluetooth devices as Windows reports them.
//!
//! Everything here is read-only: no code path writes to a Bluetooth device.

pub mod pnp;
pub mod radio;

use crate::bose::{looks_like_bose, spec_looks_like_bose, BOSE_SIG_COMPANY_ID};
use crate::discovery::{extract_address, spec_extract_address};
use crate::text::{owned, starts_with, str_starts_with};
use crate::util::{spec_stable_id, stable_id};
use pnp::{spec_is_top_level, PnpDevice};
use vstd::prelude::*;

verus! {

/// A Bluetooth device as discovered through Windows, before any
/// Bose-specific interpretation.
#[derive(Debug, Clone, PartialEq, Eq)]
pub struct DiscoveredDevice {
    /// Opaque, salted hash of the instance id; the raw id stays in memory.
    pub id: String,
    pub name: String,
    pub transport: DiscoveredTransport,
    pub connected: Option<bool>,
    /// Battery as reported by the Windows PnP property, when present.
    pub battery_percent: Option<u8>,
    /// Whether the name matches a Bose hint. A hint only, never an
    /// identification.
    pub looks_like_bose: bool,
}

#[derive(Debug, Clone, Copy, PartialEq, Eq, Structural)]
pub enum DiscoveredTransport {
    Classic,
    LowEnergy,
    Unknown,
}

/// Whether the machine has a usable Bluetooth radio at all.
#[derive(Debug, Clone, PartialEq, Eq)]
pub struct BluetoothAvailability {
    pub radio_present: bool,
    pub radio_enabled: bool,
    pub detail: String,
}

impl BluetoothAvailability {
    /// No radio, with the reason.
    pub fn unavailable(detail: &str) -> (r: Self)
        ensures
            !r.radio_present,
            !r.radio_enabled,
            r.detail@ == detail@,
    {
        BluetoothAvailability { radio_present: false, radio_enabled: false, detail: owned(detail) }
    }
}

/// The name shown for a node: its friendly name, or a placeholder.
pub open spec fn display_name(d: PnpDevice) -> Seq<char> {
    match d.friendly_name {
        Some(n) => n@,
        None => "Unnamed device"@,
    }
}

/// What the UI is told about one top-level node.
pub open spec fn discovered_from(d: PnpDevice, salt: Seq<char>, out: DiscoveredDevice) -> bool {
    &&& out.id@ == spec_stable_id(salt, d.instance_id@)
    &&& out.name@ == display_name(d)
    &&& out.transport == if starts_with(d.instance_id@, "BTHLE"@) {
        DiscoveredTransport::LowEnergy
    } else {
        DiscoveredTransport::Classic
    }
    &&& out.connected == d.is_connected
    &&& out.battery_percent == d.battery_percent
    &&& out.looks_like_bose == spec_looks_like_bose(display_name(d))
}

/// The top-level nodes of a list, in order.
pub open spec fn top_level_nodes(s: Seq<PnpDevice>) -> Seq<PnpDevice>
    decreases s.len(),
{
    if s.len() == 0 {
        Seq::empty()
    } else if spec_is_top_level(s.last().instance_id@) {
        top_level_nodes(s.drop_last()).push(s.last())
    } else {
        top_level_nodes(s.drop_last())
    }
}

fn discover_one(d: &PnpDevice, salt: &str) -> (r: DiscoveredDevice)
    ensures
        discovered_from(*d, salt@, r),
{
    let name = match &d.friendly_name {
        Some(n) => n.clone(),
        None => owned("Unnamed device"),
    };
    let bose = looks_like_bose(name.as_str());
    DiscoveredDevice {
        id: stable_id(salt, d.instance_id.as_str()),
        looks_like_bose: bose,
        name,
        transport: if str_starts_with(d.instance_id.as_str(), "BTHLE") {
            DiscoveredTransport::LowEnergy
        } else {
            DiscoveredTransport::Classic
        },
        connected: d.is_connected,
        battery_percent: d.battery_percent,
    }
}

/// The Bluetooth devices Windows knows about, as shown to the user: the
/// top-level nodes only, each under its salted opaque id.
pub fn list_bluetooth_devices(devices: &[PnpDevice], salt: &str) -> (r: Vec<DiscoveredDevice>)
    ensures
        r@.len() == top_level_nodes(devices@).len(),
        forall|i: int|
            0 <= i < r@.len() ==> discovered_from(
                top_level_nodes(devices@)[i],
                salt@,
                #[trigger] r@[i],
            ),
{
    let mut out: Vec<DiscoveredDevice> = Vec::new();
    let mut i: usize = 0;
    while i < devices.len()
        invariant
            i <= devices@.len(),
            out@.len() == top_level_nodes(devices@.subrange(0, i as int)).len(),
            forall|k: int|
                0 <= k < out@.len() ==> discovered_from(
                    top_level_nodes(devices@.subrange(0, i as int))[k],
                    salt@,
                    #[trigger] out@[k],
                ),
        decreases devices@.len() - i,
    {
        assert(devices@.subrange(0, i + 1).drop_last() =~= devices@.subrange(0, i as int));
        let d = &devices[i];
        if d.is_top_level() {
            let item = discover_one(d, salt);
            out.push(item);
        }
        i = i + 1;
    }
    assert(devices@.subrange(0, devices@.len() as int) =~= devices@);
    out
}

/// A top-level node whose vendor is Bose.
pub open spec fn is_bose_node(d: PnpDevice) -> bool {
    spec_is_top_level(d.instance_id@) && d.vendor_id == Some(BOSE_SIG_COMPANY_ID)
}

/// Index of the first Bose node at or after `from`.
pub open spec fn first_bose(s: Seq<PnpDevice>, from: int) -> Option<int>
    decreases s.len() - from,
{
    if from < 0 || from >= s.len() {
        None
    } else if is_bose_node(s[from]) {
        Some(from)
    } else {
        first_bose(s, from + 1)
    }
}

/// The first paired device whose vendor is Bose, with its name (or a
/// placeholder) and its hex address; nothing if there is none, or if its
/// instance id carries no address.
pub fn find_bose_device(devices: &[PnpDevice]) -> (r: Option<(String, String)>)
    ensures
        match first_bose(devices@, 0) {
            None => r is None,
            Some(i) => match spec_extract_address(devices@[i].instance_id@) {
                None => r is None,
                Some(a) => r matches Some((n, addr)) && addr@ == a && n@ == match devices@[i].friendly_name {
                    Some(f) => f@,
                    None => "Bose device"@,
                },
            },
        },
{
    let mut i: usize = 0;
    while i < devices.len()
        invariant
            i <= devices@.len(),
            first_bose(devices@, 0) == first_bose(devices@, i as int),
        decreases devices@.len() - i,
    {
        let d = &devices[i];
        let bose = d.is_top_level() && match d.vendor_id {
            Some(v) => v == BOSE_SIG_COMPANY_ID,
            None => false,
        };
        if bose {
            let name = match &d.friendly_name {
                Some(n) => n.clone(),
                None => owned("Bose device"),
            };
            return match extract_address(d.instance_id.as_str()) {
                Some(a) => Some((name, a)),
                None => None,
            };
        }
        i = i + 1;
    }
    None
}

} // verus!
