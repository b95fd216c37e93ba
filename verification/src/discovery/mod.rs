//! Read-only Bluetooth discovery: what Windows already knows about paired
//! devices (names, connection state, battery, and the GATT services Windows
//! recorded during pairing), gathered into a report that is safe to share.
//! Nothing is ever sent to a device.

pub mod gatt;
pub mod report;

pub use crate::bose::looks_like_bose;

use crate::bluetooth::pnp::{spec_is_top_level, PnpDevice};
use crate::bluetooth::{display_name, top_level_nodes};
use crate::bose::spec_looks_like_bose;
use crate::text::{
    chars_of, chars_substring, decimal, find_chars_from, find_from, left_aligned, owned,
    push_decimal, push_left_aligned, push_str, starts_with, str_eq, str_starts_with,
    string_from_chars, to_uppercase, upper_text,
};
use crate::util::spec_stable_id;
use gatt::{
    all_hex, describes, is_address, owning_address, parse_service, service_uuid,
    spec_owning_address, GattService,
};
use report::{spec_redact_name, DeviceRecord, Report};
use vstd::prelude::*;

verus! {

/// The text after the first `DEV_` up to the next one (or the end).
pub open spec fn after_dev(s: Seq<char>) -> Option<Seq<char>> {
    match find_from(s, "DEV_"@, 0) {
        None => None,
        Some(i) => Some(
            match find_from(s, "DEV_"@, i + 4) {
                None => s.subrange(i + 4, s.len() as int),
                Some(j) => s.subrange(i + 4, j),
            },
        ),
    }
}

/// The address in a top-level instance id: the twelve characters after
/// `DEV_`, when they are hex digits.
pub open spec fn spec_extract_address(instance_id: Seq<char>) -> Option<Seq<char>> {
    match after_dev(upper_text(instance_id)) {
        None => None,
        Some(seg) => if seg.len() >= 12 && is_address(seg.subrange(0, 12)) {
            Some(seg.subrange(0, 12))
        } else {
            None
        },
    }
}

/// Pulls the 12-hex-digit address out of a top-level instance id.
pub fn extract_address(instance_id: &str) -> (r: Option<String>)
    ensures
        match spec_extract_address(instance_id@) {
            Some(a) => r matches Some(s) && s@ == a,
            None => r is None,
        },
{
    let upper_s = to_uppercase(instance_id);
    let upper = chars_of(upper_s.as_str());
    let dev = chars_of("DEV_");
    proof {
        reveal_strlit("DEV_");
    }
    let i = match find_chars_from(&upper, &dev, 0) {
        Some(i) => i,
        None => return None,
    };
    let n = upper.len();
    assert(dev@.len() == 4);
    assert(i + 4 <= n);
    let start = i + 4;
    let stop = match find_chars_from(&upper, &dev, start) {
        Some(j) => j,
        None => upper.len(),
    };
    let seg = vstd::slice::slice_subrange(upper.as_slice(), start, stop);
    assert(after_dev(upper@) == Some(seg@));
    if seg.len() < 12 {
        return None;
    }
    let candidate = vstd::slice::slice_subrange(seg, 0, 12);
    if all_hex(candidate) {
        Some(string_from_chars(candidate))
    } else {
        None
    }
}

/// A name cut to at most `n` characters, the last replaced by an ellipsis
/// when anything was cut.
pub open spec fn spec_truncate(s: Seq<char>, n: nat) -> Seq<char> {
    if s.len() <= n {
        s
    } else {
        s.subrange(0, if n == 0 { 0 } else { n - 1 }) + "…"@
    }
}

pub fn truncate(s: &str, n: usize) -> (r: String)
    ensures
        r@ == spec_truncate(s@, n as nat),
{
    let cs = chars_of(s);
    if cs.len() <= n {
        return owned(s);
    }
    let keep: usize = if n == 0 {
        0
    } else {
        n - 1
    };
    let mut out = chars_substring(&cs, 0, keep);
    push_str(&mut out, "…");
    out
}

/// How a device's connection and battery are described.
pub open spec fn spec_connection_text(d: DeviceRecord) -> Seq<char> {
    let state = match d.connected {
        Some(true) => "connected"@,
        Some(false) => "not connected"@,
        None => "state unknown"@,
    };
    let battery = match d.battery_percent {
        Some(b) => ", battery "@ + decimal(b as nat) + "%"@,
        None => ", no battery reported"@,
    };
    state + battery
}

pub fn connection_text(d: &DeviceRecord) -> (r: String)
    ensures
        r@ == spec_connection_text(*d),
{
    let mut out = String::new();
    match d.connected {
        Some(true) => push_str(&mut out, "connected"),
        Some(false) => push_str(&mut out, "not connected"),
        None => push_str(&mut out, "state unknown"),
    }
    match d.battery_percent {
        Some(b) => {
            push_str(&mut out, ", battery ");
            push_decimal(&mut out, b as u128);
            push_str(&mut out, "%");
        },
        None => push_str(&mut out, ", no battery reported"),
    }
    assert(out@ =~= spec_connection_text(*d));
    out
}

/// The UUIDs of the services recorded under an address, in the order they
/// were first seen, each once.
pub open spec fn grouped_uuids(ids: Seq<String>, address: Seq<char>) -> Seq<Seq<char>>
    decreases ids.len(),
{
    if ids.len() == 0 {
        Seq::empty()
    } else {
        let prev = grouped_uuids(ids.drop_last(), address);
        let id = ids.last()@;
        match service_uuid(id) {
            Some(u) => if spec_owning_address(id) == Some(address) && !prev.contains(u) {
                prev.push(u)
            } else {
                prev
            },
            None => prev,
        }
    }
}

/// `services` is the grouping of `ids` under `address`.
pub open spec fn grouped_services(ids: Seq<String>, address: Seq<char>, services: Seq<GattService>) -> bool {
    &&& services.len() == grouped_uuids(ids, address).len()
    &&& forall|i: int|
        0 <= i < services.len() ==> describes(#[trigger] services[i], grouped_uuids(ids, address)[i])
}

/// The services recorded under a device address, from the instance ids of
/// the `BTHLEDEVICE` service nodes.
pub fn services_for(service_ids: &[String], address: &str) -> (r: Vec<GattService>)
    ensures
        grouped_services(service_ids@, address@, r@),
{
    let mut out: Vec<GattService> = Vec::new();
    let mut i: usize = 0;
    while i < service_ids.len()
        invariant
            i <= service_ids@.len(),
            grouped_services(service_ids@.subrange(0, i as int), address@, out@),
        decreases service_ids@.len() - i,
    {
        let ghost prefix = service_ids@.subrange(0, i + 1);
        assert(prefix.drop_last() =~= service_ids@.subrange(0, i as int));
        let id = service_ids[i].as_str();
        let parsed = parse_service(id);
        let owner = owning_address(id);
        match (parsed, owner) {
            (Some(service), Some(a)) => {
                if str_eq(a.as_str(), address) {
                    let mut seen = false;
                    let mut k: usize = 0;
                    while k < out.len()
                        invariant
                            k <= out@.len(),
                            grouped_services(service_ids@.subrange(0, i as int), address@, out@),
                            seen == exists|m: int| 0 <= m < k && #[trigger] out@[m].uuid@ == service.uuid@,
                        decreases out@.len() - k,
                    {
                        if str_eq(out[k].uuid.as_str(), service.uuid.as_str()) {
                            seen = true;
                        }
                        k = k + 1;
                    }
                    let ghost prev = grouped_uuids(service_ids@.subrange(0, i as int), address@);
                    assert(seen == prev.contains(service.uuid@)) by {
                        if seen {
                            let m = choose|m: int| 0 <= m < out@.len() && #[trigger] out@[m].uuid@ == service.uuid@;
                            assert(prev[m] == service.uuid@);
                        }
                        if prev.contains(service.uuid@) {
                            let m = choose|m: int| 0 <= m < prev.len() && prev[m] == service.uuid@;
                            assert(out@[m].uuid@ == service.uuid@);
                        }
                    }
                    if !seen {
                        out.push(service);
                    }
                }
            },
            _ => {},
        }
        i = i + 1;
    }
    assert(service_ids@.subrange(0, service_ids@.len() as int) =~= service_ids@);
    out
}

/// The record a top-level node gets in a report.
pub open spec fn record_of(
    d: PnpDevice,
    service_ids: Seq<String>,
    salt: Seq<char>,
    redact: bool,
    rec: DeviceRecord,
) -> bool {
    let name = display_name(d);
    let is_bose = spec_looks_like_bose(name);
    &&& rec.id@ == spec_stable_id(salt, d.instance_id@)
    &&& rec.name@ == if redact {
        spec_redact_name(name, is_bose)
    } else {
        name
    }
    &&& rec.transport@ == if starts_with(d.instance_id@, "BTHLE"@) {
        "bluetooth-le"@
    } else {
        "bluetooth-classic"@
    }
    &&& rec.connected == d.is_connected
    &&& rec.battery_percent == d.battery_percent
    &&& rec.looks_like_bose == is_bose
    &&& match spec_extract_address(d.instance_id@) {
        None => rec.gatt_services@.len() == 0,
        Some(a) => grouped_services(service_ids, a, rec.gatt_services@),
    }
}

fn record_for(d: &PnpDevice, service_ids: &[String], salt: &str, redact: bool) -> (r: DeviceRecord)
    ensures
        record_of(*d, service_ids@, salt@, redact, r),
{
    let name = match &d.friendly_name {
        Some(n) => n.clone(),
        None => owned("Unnamed device"),
    };
    let services = match extract_address(d.instance_id.as_str()) {
        Some(a) => services_for(service_ids, a.as_str()),
        None => Vec::new(),
    };
    let is_bose = looks_like_bose(name.as_str());
    DeviceRecord {
        id: crate::util::stable_id(salt, d.instance_id.as_str()),
        name: if redact {
            report::redact_name(name.as_str(), is_bose)
        } else {
            name
        },
        transport: if str_starts_with(d.instance_id.as_str(), "BTHLE") {
            owned("bluetooth-le")
        } else {
            owned("bluetooth-classic")
        },
        connected: d.is_connected,
        battery_percent: d.battery_percent,
        looks_like_bose: is_bose,
        gatt_services: services,
    }
}

/// Builds the report from what the host enumerated: the merged Bluetooth
/// device nodes, the `BTHLEDEVICE` service node ids, and the number of radio
/// nodes. Only top-level nodes become records; names are redacted on
/// request.
pub fn collect(
    devices: &[PnpDevice],
    service_ids: &[String],
    radio_nodes: usize,
    salt: &str,
    redact: bool,
    version: &str,
) -> (r: Report)
    ensures
        r.tool@ == "bose-discovery"@,
        r.version@ == version@,
        report::standard_scope(r.scope),
        r.generated_at@ == "unknown"@ || crate::device::is_utc_rfc3339(r.generated_at@),
        r.radio_nodes == radio_nodes,
        r.devices@.len() == top_level_nodes(devices@).len(),
        forall|i: int|
            0 <= i < r.devices@.len() ==> record_of(
                top_level_nodes(devices@)[i],
                service_ids@,
                salt@,
                redact,
                #[trigger] r.devices@[i],
            ),
{
    let mut records: Vec<DeviceRecord> = Vec::new();
    let mut i: usize = 0;
    while i < devices.len()
        invariant
            i <= devices@.len(),
            records@.len() == top_level_nodes(devices@.subrange(0, i as int)).len(),
            forall|k: int|
                0 <= k < records@.len() ==> record_of(
                    top_level_nodes(devices@.subrange(0, i as int))[k],
                    service_ids@,
                    salt@,
                    redact,
                    #[trigger] records@[k],
                ),
        decreases devices@.len() - i,
    {
        assert(devices@.subrange(0, i + 1).drop_last() =~= devices@.subrange(0, i as int));
        let d = &devices[i];
        if d.is_top_level() {
            let rec = record_for(d, service_ids, salt, redact);
            records.push(rec);
        }
        i = i + 1;
    }
    assert(devices@.subrange(0, devices@.len() as int) =~= devices@);
    Report::new(radio_nodes, records, version)
}

/// The label a service gets in the console summary.
pub open spec fn summary_service_line(s: GattService) -> Seq<char> {
    "      GATT "@ + s.uuid@ + " — "@ + match s.known_name {
        Some(n) => n@,
        None => "vendor-specific"@,
    } + "\n"@
}

pub open spec fn summary_services(s: Seq<GattService>) -> Seq<char>
    decreases s.len(),
{
    if s.len() == 0 {
        Seq::empty()
    } else {
        summary_services(s.drop_last()) + summary_service_line(s.last())
    }
}

/// `LE` for Bluetooth LE records, `Classic` otherwise.
pub open spec fn transport_label(t: Seq<char>) -> Seq<char> {
    if t == "bluetooth-le"@ {
        "LE"@
    } else {
        "Classic"@
    }
}

/// The console lines for one device: name cut and padded to a column, the
/// transport (a device paired over both Classic and LE legitimately
/// appears twice), its connection, then its services.
pub open spec fn summary_row(d: DeviceRecord) -> Seq<char> {
    "  "@ + left_aligned(spec_truncate(d.name@, 34), 34) + " ["@ + left_aligned(
        transport_label(d.transport@),
        7,
    ) + "] "@ + spec_connection_text(d) + "\n"@ + summary_services(d.gatt_services@)
}

pub open spec fn summary_rows(s: Seq<DeviceRecord>) -> Seq<char>
    decreases s.len(),
{
    if s.len() == 0 {
        Seq::empty()
    } else {
        summary_rows(s.drop_last()) + summary_row(s.last())
    }
}

/// One line per possible Bose device.
pub open spec fn summary_bose(s: Seq<DeviceRecord>) -> Seq<char>
    decreases s.len(),
{
    if s.len() == 0 {
        Seq::empty()
    } else {
        summary_bose(s.drop_last()) + if s.last().looks_like_bose {
            "  "@ + s.last().name@ + " — "@ + spec_connection_text(s.last()) + "\n"@
        } else {
            Seq::empty()
        }
    }
}

/// The console summary of a report.
pub open spec fn spec_summary_text(r: Report) -> Seq<char> {
    "Bluetooth radio nodes present: "@ + decimal(r.radio_nodes as nat) + "\n"@
        + "Paired devices found: "@ + decimal(r.devices@.len()) + "\n\n"@ + (if report::bose_count(
        r.devices@,
    ) == 0 {
        "No device matching a Bose name hint was found.\n"@
            + "If your headphones are paired, check that they are powered on\n"@
            + "and connected to this PC rather than another device.\n\n"@
    } else {
        "Possible Bose device(s):\n"@ + summary_bose(r.devices@) + "\n"@
    }) + "All paired devices:\n"@ + summary_rows(r.devices@)
}

fn push_summary_row(out: &mut String, d: &DeviceRecord)
    ensures
        final(out)@ == old(out)@ + summary_row(*d),
{
    let ghost s0 = out@;
    push_str(out, "  ");
    let name = truncate(d.name.as_str(), 34);
    push_left_aligned(out, name.as_str(), 34);
    push_str(out, " [");
    let label: &str = if str_eq(d.transport.as_str(), "bluetooth-le") {
        "LE"
    } else {
        "Classic"
    };
    push_left_aligned(out, label, 7);
    push_str(out, "] ");
    let conn = connection_text(d);
    push_str(out, conn.as_str());
    push_str(out, "\n");
    let ghost s1 = out@;
    let mut i: usize = 0;
    while i < d.gatt_services.len()
        invariant
            i <= d.gatt_services@.len(),
            out@ == s1 + summary_services(d.gatt_services@.subrange(0, i as int)),
        decreases d.gatt_services@.len() - i,
    {
        assert(d.gatt_services@.subrange(0, i + 1).drop_last() =~= d.gatt_services@.subrange(
            0,
            i as int,
        ));
        let s = &d.gatt_services[i];
        push_str(out, "      GATT ");
        push_str(out, s.uuid.as_str());
        push_str(out, " — ");
        match &s.known_name {
            Some(n) => push_str(out, n.as_str()),
            None => push_str(out, "vendor-specific"),
        }
        push_str(out, "\n");
        i = i + 1;
    }
    assert(d.gatt_services@.subrange(0, d.gatt_services@.len() as int) =~= d.gatt_services@);
    assert(out@ =~= s0 + summary_row(*d));
}

/// The summary printed after a discovery run.
pub fn summary_text(r: &Report) -> (s: String)
    ensures
        s@ == spec_summary_text(*r),
{
    let mut out = String::new();
    push_str(&mut out, "Bluetooth radio nodes present: ");
    push_decimal(&mut out, r.radio_nodes as u128);
    push_str(&mut out, "\n");
    push_str(&mut out, "Paired devices found: ");
    push_decimal(&mut out, r.devices.len() as u128);
    push_str(&mut out, "\n\n");
    let ghost head = out@;
    let mut bose = String::new();
    let mut count: usize = 0;
    let mut i: usize = 0;
    while i < r.devices.len()
        invariant
            i <= r.devices@.len(),
            bose@ == summary_bose(r.devices@.subrange(0, i as int)),
            count == report::bose_count(r.devices@.subrange(0, i as int)),
            count <= i,
        decreases r.devices@.len() - i,
    {
        assert(r.devices@.subrange(0, i + 1).drop_last() =~= r.devices@.subrange(0, i as int));
        let d = &r.devices[i];
        if d.looks_like_bose {
            push_str(&mut bose, "  ");
            push_str(&mut bose, d.name.as_str());
            push_str(&mut bose, " — ");
            let conn = connection_text(d);
            push_str(&mut bose, conn.as_str());
            push_str(&mut bose, "\n");
            count = count + 1;
        }
        i = i + 1;
    }
    assert(r.devices@.subrange(0, r.devices@.len() as int) =~= r.devices@);
    if count == 0 {
        push_str(&mut out, "No device matching a Bose name hint was found.\n");
        push_str(&mut out, "If your headphones are paired, check that they are powered on\n");
        push_str(&mut out, "and connected to this PC rather than another device.\n\n");
    } else {
        push_str(&mut out, "Possible Bose device(s):\n");
        push_str(&mut out, bose.as_str());
        push_str(&mut out, "\n");
    }
    push_str(&mut out, "All paired devices:\n");
    let ghost mid = out@;
    let mut j: usize = 0;
    while j < r.devices.len()
        invariant
            j <= r.devices@.len(),
            out@ == mid + summary_rows(r.devices@.subrange(0, j as int)),
        decreases r.devices@.len() - j,
    {
        assert(r.devices@.subrange(0, j + 1).drop_last() =~= r.devices@.subrange(0, j as int));
        push_summary_row(&mut out, &r.devices[j]);
        j = j + 1;
    }
    assert(out@ =~= spec_summary_text(*r));
    out
}

} // verus!
