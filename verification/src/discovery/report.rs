//! Device reports.
//!
//! Reports are meant to be shared, so they hold nothing that identifies the
//! hardware: devices appear under salted hashes, never Bluetooth addresses,
//! and the salt is fresh per run, so two reports from one machine cannot
//! even be correlated.

use super::gatt::GattService;
use crate::text::{decimal, owned, push_decimal, push_str};
use vstd::prelude::*;

pub use crate::util::stable_id;

verus! {

#[derive(Debug, Clone, PartialEq, Eq)]
pub struct DeviceRecord {
    /// Salted hash. Never a Bluetooth address.
    pub id: String,
    pub name: String,
    pub transport: String,
    pub connected: Option<bool>,
    pub battery_percent: Option<u8>,
    pub looks_like_bose: bool,
    pub gatt_services: Vec<GattService>,
}

#[derive(Debug, Clone, PartialEq, Eq)]
pub struct Report {
    pub tool: String,
    pub version: String,
    pub generated_at: String,
    /// What this report does and does not contain, stated in the file so a
    /// reader does not have to take the tool's word for it.
    pub scope: ReportScope,
    pub radio_nodes: usize,
    pub devices: Vec<DeviceRecord>,
}

#[derive(Debug, Clone, PartialEq, Eq)]
pub struct ReportScope {
    pub read_only: bool,
    pub bytes_written_to_devices: usize,
    pub contains_bluetooth_addresses: bool,
    pub notes: Vec<String>,
}

/// The notes every report carries, in order.
pub open spec fn scope_note(i: int) -> Seq<char> {
    if i == 0 {
        "This tool is read-only. It sent nothing to any Bluetooth device."@
    } else if i == 1 {
        "Device identifiers are per-run salted hashes, not Bluetooth addresses."@
    } else if i == 2 {
        "Device NAMES are included as Windows reports them, and people often name devices after themselves. Check the names below before sharing this report, or re-run with --redact-names."@
    } else if i == 3 {
        "GATT services are read from Windows PnP nodes created during pairing. Characteristic enumeration requires an active GATT session and is NOT included in this report."@
    } else {
        "Absence of a service here means Windows did not record it, which is not proof the device does not expose it."@
    }
}

/// The scope every report declares: read-only, nothing written, no
/// addresses, and the standard notes.
pub open spec fn standard_scope(s: ReportScope) -> bool {
    &&& s.read_only
    &&& s.bytes_written_to_devices == 0
    &&& !s.contains_bluetooth_addresses
    &&& s.notes@.len() == 5
    &&& forall|i: int| 0 <= i < 5 ==> (#[trigger] s.notes@[i])@ == scope_note(i)
}

impl Default for ReportScope {
    fn default() -> (r: Self)
        ensures
            standard_scope(r),
    {
        let mut notes: Vec<String> = Vec::new();
        notes.push(owned("This tool is read-only. It sent nothing to any Bluetooth device."));
        notes.push(owned("Device identifiers are per-run salted hashes, not Bluetooth addresses."));
        notes.push(owned("Device NAMES are included as Windows reports them, and people often name devices after themselves. Check the names below before sharing this report, or re-run with --redact-names."));
        notes.push(owned("GATT services are read from Windows PnP nodes created during pairing. Characteristic enumeration requires an active GATT session and is NOT included in this report."));
        notes.push(owned("Absence of a service here means Windows did not record it, which is not proof the device does not expose it."));
        ReportScope {
            read_only: true,
            bytes_written_to_devices: 0,
            contains_bluetooth_addresses: false,
            notes,
        }
    }
}

/// `yes`, `no` or `unknown`.
pub open spec fn connected_word(c: Option<bool>) -> Seq<char> {
    match c {
        Some(true) => "yes"@,
        Some(false) => "no"@,
        None => "unknown"@,
    }
}

/// A battery level, or that none was reported.
pub open spec fn battery_words(b: Option<u8>) -> Seq<char> {
    match b {
        Some(p) => decimal(p as nat) + "%"@,
        None => "not reported"@,
    }
}

/// The line for one GATT service; unnamed ones are flagged for
/// investigation.
pub open spec fn service_line(s: GattService) -> Seq<char> {
    "      "@ + s.uuid@ + "  "@ + match s.known_name {
        Some(n) => n@,
        None => "VENDOR-SPECIFIC (investigate)"@,
    } + "\n"@
}

pub open spec fn services_text(s: Seq<GattService>) -> Seq<char>
    decreases s.len(),
{
    if s.len() == 0 {
        Seq::empty()
    } else {
        services_text(s.drop_last()) + service_line(s.last())
    }
}

/// The lines naming and describing one device.
pub open spec fn device_head(d: DeviceRecord) -> Seq<char> {
    "\n  "@ + d.name@ + "\n"@ + ("    id         : "@ + d.id@ + "\n"@) + ("    transport  : "@
        + d.transport@ + "\n"@) + ("    connected  : "@ + connected_word(d.connected) + "\n"@) + (
    "    battery    : "@ + battery_words(d.battery_percent) + "\n"@)
}

/// The GATT part of a device block.
pub open spec fn device_services(d: DeviceRecord) -> Seq<char> {
    if d.gatt_services@.len() == 0 {
        "    GATT       : none recorded by Windows\n"@
    } else {
        "    GATT services:\n"@ + services_text(d.gatt_services@)
    }
}

/// The block describing one device.
pub open spec fn device_block(d: DeviceRecord) -> Seq<char> {
    device_head(d) + device_services(d)
}

pub open spec fn devices_text(s: Seq<DeviceRecord>) -> Seq<char>
    decreases s.len(),
{
    if s.len() == 0 {
        Seq::empty()
    } else {
        devices_text(s.drop_last()) + device_block(s.last())
    }
}

/// One line per device whose name matched a Bose hint.
pub open spec fn bose_lines(s: Seq<DeviceRecord>) -> Seq<char>
    decreases s.len(),
{
    if s.len() == 0 {
        Seq::empty()
    } else {
        bose_lines(s.drop_last()) + if s.last().looks_like_bose {
            "  "@ + s.last().name@ + "\n"@
        } else {
            Seq::empty()
        }
    }
}

pub open spec fn bose_count(s: Seq<DeviceRecord>) -> nat
    decreases s.len(),
{
    if s.len() == 0 {
        0
    } else {
        bose_count(s.drop_last()) + if s.last().looks_like_bose {
            1nat
        } else {
            0nat
        }
    }
}

pub open spec fn notes_text(s: Seq<String>) -> Seq<char>
    decreases s.len(),
{
    if s.len() == 0 {
        Seq::empty()
    } else {
        notes_text(s.drop_last()) + "  - "@ + s.last()@ + "\n"@
    }
}

/// The plain-text form of a report.
pub open spec fn report_text(r: Report) -> Seq<char> {
    "BOSE QC CONTROL CENTER — DEVICE REPORT\n"@ + "======================================\n\n"@
        + "Generated : "@ + r.generated_at@ + "\n"@ + "Tool      : "@ + r.tool@ + " v"@
        + r.version@ + "\n"@ + "Posture   : READ-ONLY (0 bytes written to any device)\n\n"@
        + "Bluetooth radio nodes : "@ + decimal(r.radio_nodes as nat) + "\n"@
        + "Paired devices        : "@ + decimal(r.devices@.len()) + "\n\n"@
        + "BOSE NAME MATCHES\n-----------------\n"@ + if bose_count(r.devices@) == 0 {
        "None. No paired device name matched a Bose hint.\n\n"@
    } else {
        bose_lines(r.devices@) + "\n"@
    } + "DEVICES\n-------\n"@ + devices_text(r.devices@) + "\nNOTES\n-----\n"@ + notes_text(
        r.scope.notes@,
    )
}

fn push_service_lines(out: &mut String, services: &Vec<GattService>)
    ensures
        final(out)@ == old(out)@ + services_text(services@),
{
    let mut i: usize = 0;
    while i < services.len()
        invariant
            i <= services@.len(),
            out@ == old(out)@ + services_text(services@.subrange(0, i as int)),
        decreases services@.len() - i,
    {
        assert(services@.subrange(0, i + 1).drop_last() =~= services@.subrange(0, i as int));
        let s = &services[i];
        push_str(out, "      ");
        push_str(out, s.uuid.as_str());
        push_str(out, "  ");
        match &s.known_name {
            Some(n) => push_str(out, n.as_str()),
            None => push_str(out, "VENDOR-SPECIFIC (investigate)"),
        }
        push_str(out, "\n");
        i = i + 1;
    }
    assert(services@.subrange(0, services@.len() as int) =~= services@);
}

fn push_line(out: &mut String, label: &str, value: &str)
    ensures
        final(out)@ == old(out)@ + (label@ + value@ + "\n"@),
{
    push_str(out, label);
    push_str(out, value);
    push_str(out, "\n");
    assert(final(out)@ =~= old(out)@ + (label@ + value@ + "\n"@));
}

fn push_device_head(out: &mut String, d: &DeviceRecord)
    ensures
        final(out)@ == old(out)@ + device_head(*d),
{
    let ghost s0 = out@;
    push_line(out, "\n  ", d.name.as_str());
    push_line(out, "    id         : ", d.id.as_str());
    push_line(out, "    transport  : ", d.transport.as_str());
    let conn: &str = match d.connected {
        Some(true) => "yes",
        Some(false) => "no",
        None => "unknown",
    };
    push_line(out, "    connected  : ", conn);
    let ghost s1 = out@;
    let mut battery = String::new();
    match d.battery_percent {
        Some(b) => {
            push_decimal(&mut battery, b as u128);
            push_str(&mut battery, "%");
        },
        None => push_str(&mut battery, "not reported"),
    }
    assert(battery@ =~= battery_words(d.battery_percent));
    push_line(out, "    battery    : ", battery.as_str());
    assert(out@ =~= s0 + device_head(*d));
}

fn push_device_block(out: &mut String, d: &DeviceRecord)
    ensures
        final(out)@ == old(out)@ + device_block(*d),
{
    push_device_head(out, d);
    let ghost s1 = out@;
    if d.gatt_services.len() == 0 {
        push_str(out, "    GATT       : none recorded by Windows\n");
    } else {
        push_str(out, "    GATT services:\n");
        push_service_lines(out, &d.gatt_services);
    }
    assert(out@ =~= s1 + device_services(*d));
    assert(final(out)@ =~= old(out)@ + device_block(*d));
}

impl Report {
    /// A report generated now, with the standard scope.
    pub fn new(radio_nodes: usize, devices: Vec<DeviceRecord>, version: &str) -> (r: Self)
        ensures
            r.tool@ == "bose-discovery"@,
            r.version@ == version@,
            standard_scope(r.scope),
            r.generated_at@ == "unknown"@ || crate::device::is_utc_rfc3339(r.generated_at@),
            r.radio_nodes == radio_nodes,
            r.devices@ == devices@,
    {
        Report {
            tool: owned("bose-discovery"),
            version: owned(version),
            generated_at: crate::device::now_rfc3339_or_unknown(),
            scope: ReportScope::default(),
            radio_nodes,
            devices,
        }
    }

    /// The plain-text form of the report.
    pub fn to_text(&self) -> (r: String)
        ensures
            r@ == report_text(*self),
    {
        let mut out = String::new();
        push_str(&mut out, "BOSE QC CONTROL CENTER — DEVICE REPORT\n");
        push_str(&mut out, "======================================\n\n");
        push_str(&mut out, "Generated : ");
        push_str(&mut out, self.generated_at.as_str());
        push_str(&mut out, "\n");
        push_str(&mut out, "Tool      : ");
        push_str(&mut out, self.tool.as_str());
        push_str(&mut out, " v");
        push_str(&mut out, self.version.as_str());
        push_str(&mut out, "\n");
        push_str(&mut out, "Posture   : READ-ONLY (0 bytes written to any device)\n\n");
        push_str(&mut out, "Bluetooth radio nodes : ");
        push_decimal(&mut out, self.radio_nodes as u128);
        push_str(&mut out, "\n");
        push_str(&mut out, "Paired devices        : ");
        push_decimal(&mut out, self.devices.len() as u128);
        push_str(&mut out, "\n\n");
        push_str(&mut out, "BOSE NAME MATCHES\n-----------------\n");
        let ghost head = out@;
        let mut lines = String::new();
        let mut count: usize = 0;
        let mut i: usize = 0;
        while i < self.devices.len()
            invariant
                i <= self.devices@.len(),
                lines@ == bose_lines(self.devices@.subrange(0, i as int)),
                count == bose_count(self.devices@.subrange(0, i as int)),
                count <= i,
            decreases self.devices@.len() - i,
        {
            assert(self.devices@.subrange(0, i + 1).drop_last() =~= self.devices@.subrange(
                0,
                i as int,
            ));
            let d = &self.devices[i];
            if d.looks_like_bose {
                push_str(&mut lines, "  ");
                push_str(&mut lines, d.name.as_str());
                push_str(&mut lines, "\n");
                count = count + 1;
            }
            i = i + 1;
        }
        assert(self.devices@.subrange(0, self.devices@.len() as int) =~= self.devices@);
        if count == 0 {
            push_str(&mut out, "None. No paired device name matched a Bose hint.\n\n");
        } else {
            push_str(&mut out, lines.as_str());
            push_str(&mut out, "\n");
        }
        push_str(&mut out, "DEVICES\n-------\n");
        let ghost mid = out@;
        let mut j: usize = 0;
        while j < self.devices.len()
            invariant
                j <= self.devices@.len(),
                out@ == mid + devices_text(self.devices@.subrange(0, j as int)),
            decreases self.devices@.len() - j,
        {
            assert(self.devices@.subrange(0, j + 1).drop_last() =~= self.devices@.subrange(
                0,
                j as int,
            ));
            push_device_block(&mut out, &self.devices[j]);
            j = j + 1;
        }
        push_str(&mut out, "\nNOTES\n-----\n");
        let ghost tail = out@;
        let mut k: usize = 0;
        while k < self.scope.notes.len()
            invariant
                k <= self.scope.notes@.len(),
                out@ == tail + notes_text(self.scope.notes@.subrange(0, k as int)),
            decreases self.scope.notes@.len() - k,
        {
            assert(self.scope.notes@.subrange(0, k + 1).drop_last() =~= self.scope.notes@.subrange(
                0,
                k as int,
            ));
            push_str(&mut out, "  - ");
            push_str(&mut out, self.scope.notes[k].as_str());
            push_str(&mut out, "\n");
            k = k + 1;
        }
        assert(self.scope.notes@.subrange(0, self.scope.notes@.len() as int) =~= self.scope.notes@);
        assert(out@ =~= report_text(*self));
        out
    }
}

/// A name as it appears in a redacted report: a Bose device keeps its
/// name (the model matters for protocol work); anything else is replaced.
pub open spec fn spec_redact_name(name: Seq<char>, looks_like_bose: bool) -> Seq<char> {
    if looks_like_bose {
        name
    } else {
        "[redacted device]"@
    }
}

/// Replaces a device name with a non-identifying placeholder, unless it is
/// the Bose device the report is about.
pub fn redact_name(name: &str, looks_like_bose: bool) -> (r: String)
    ensures
        r@ == spec_redact_name(name@, looks_like_bose),
{
    if looks_like_bose {
        return owned(name);
    }
    owned("[redacted device]")
}

} // verus!
