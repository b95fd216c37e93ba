//! The btsnoop file format.
//!
//! Android writes Bluetooth HCI traces in btsnoop format: Sun's snoop format
//! (RFC 1761) with a Bluetooth datalink type.
//!
//! ```text
//! Header  (16 bytes)
//!   "btsnoop\0"          8 bytes
//!   version              4 bytes, big-endian
//!   datalink type        4 bytes, big-endian, 1002 = H4 UART
//!
//! Record (24-byte header, then data), repeated
//!   original length      4 bytes, big-endian
//!   included length      4 bytes, big-endian
//!   packet flags         4 bytes, big-endian
//!   cumulative drops     4 bytes, big-endian
//!   timestamp            8 bytes, big-endian, microseconds since 0000-01-01
//!   packet data          `included length` bytes
//! ```

use crate::text::{decimal, push_char, push_str, push_zero_padded, zero_padded};
use vstd::prelude::*;

verus! {

/// Microseconds between 0000-01-01 and the Unix epoch.
pub const EPOCH_OFFSET_US: i64 = 0x00dc_ddb3_0f2f_8000;

/// The datalink type this parser handles (H4 UART).
pub const DATALINK_H4: u32 = 1002;

#[derive(Debug, Clone, Copy, PartialEq, Eq, Structural)]
pub enum Direction {
    /// Host to controller: the phone sending to the headphones.
    Sent,
    /// Controller to host: the headphones replying.
    Received,
}

pub open spec fn spec_direction_label(d: Direction) -> Seq<char> {
    match d {
        Direction::Sent => "PHONE->DEVICE"@,
        Direction::Received => "DEVICE->PHONE"@,
    }
}

impl Direction {
    pub fn label(self) -> (r: &'static str)
        ensures
            r@ == spec_direction_label(self),
    {
        match self {
            Direction::Sent => "PHONE->DEVICE",
            Direction::Received => "DEVICE->PHONE",
        }
    }
}

#[derive(Debug, Clone, PartialEq, Eq)]
pub struct Record {
    /// Microseconds since the Unix epoch; negative for malformed logs.
    pub timestamp_us: i64,
    pub direction: Direction,
    /// H4 packet, starting with the packet-type byte.
    pub data: Vec<u8>,
}

#[derive(Debug, Clone, Copy, PartialEq, Eq, Structural)]
pub enum ParseError {
    TooShort,
    BadMagic,
    UnsupportedDatalink(u32),
}

/// The 8-byte signature every btsnoop file starts with.
pub open spec fn spec_magic() -> Seq<u8> {
    seq![0x62u8, 0x74u8, 0x73u8, 0x6eu8, 0x6fu8, 0x6fu8, 0x70u8, 0x00u8]
}

/// Big-endian unsigned 32-bit value at `off`.
pub open spec fn be_u32_at(s: Seq<u8>, off: int) -> u32 {
    (s[off] as int * 0x1000000 + s[off + 1] as int * 0x10000 + s[off + 2] as int * 0x100
        + s[off + 3] as int) as u32
}

/// Big-endian unsigned 64-bit value at `off`.
pub open spec fn be_u64_at(s: Seq<u8>, off: int) -> u64 {
    (be_u32_at(s, off) as int * 0x1_0000_0000 + be_u32_at(s, off + 4) as int) as u64
}

/// Big-endian signed 64-bit value at `off` (two's complement).
pub open spec fn be_i64_at(s: Seq<u8>, off: int) -> i64 {
    be_u64_at(s, off) as i64
}

/// One record as it lies in the file: raw timestamp, flags and data.
pub type RawRecord = (i64, u32, Seq<u8>);

/// The complete records from `off` onwards; a truncated tail is dropped.
pub open spec fn raw_records_from(s: Seq<u8>, off: int) -> Seq<RawRecord>
    decreases s.len() - off,
{
    if off < 0 || off + 24 > s.len() {
        Seq::empty()
    } else {
        let end = off + 24 + be_u32_at(s, off + 4) as int;
        if end > s.len() {
            Seq::empty()
        } else {
            seq![(be_i64_at(s, off + 16), be_u32_at(s, off + 8), s.subrange(off + 24, end))]
                + raw_records_from(s, end)
        }
    }
}

/// The records of a file whose header has been accepted.
pub open spec fn raw_records(s: Seq<u8>) -> Seq<RawRecord> {
    raw_records_from(s, 16)
}

/// What the header check decides: `None` to go on to the records.
pub open spec fn spec_header_error(s: Seq<u8>) -> Option<ParseError> {
    if s.len() < 16 {
        Some(ParseError::TooShort)
    } else if s.subrange(0, 8) != spec_magic() {
        Some(ParseError::BadMagic)
    } else if be_u32_at(s, 12) != 1002 {
        Some(ParseError::UnsupportedDatalink(be_u32_at(s, 12)))
    } else {
        None
    }
}

/// Every record's timestamp can be moved to the Unix epoch without leaving
/// the range of `i64`.
pub open spec fn timestamps_fit(s: Seq<u8>) -> bool {
    spec_header_error(s) is None ==> forall|i: int|
        0 <= i < raw_records(s).len() ==> (#[trigger] raw_records(s)[i]).0 - EPOCH_OFFSET_US
            >= i64::MIN
}

/// A decoded record, as its fields read.
pub open spec fn record_view(r: Record) -> (i64, Direction, Seq<u8>) {
    (r.timestamp_us, r.direction, r.data@)
}

/// The views of a sequence of records.
pub open spec fn records_view(s: Seq<Record>) -> Seq<(i64, Direction, Seq<u8>)> {
    s.map_values(|x: Record| record_view(x))
}

/// The decoding of a sequence of raw records.
pub open spec fn decoded(s: Seq<RawRecord>) -> Seq<(i64, Direction, Seq<u8>)> {
    s.map_values(|raw: RawRecord| decode_raw(raw))
}

/// How a raw record is decoded: the timestamp moved to the Unix epoch, and
/// bit 0 of the flags giving the direction.
pub open spec fn decode_raw(raw: RawRecord) -> (i64, Direction, Seq<u8>) {
    (
        (raw.0 - EPOCH_OFFSET_US) as i64,
        if raw.1 % 2 == 0 {
            Direction::Sent
        } else {
            Direction::Received
        },
        raw.2,
    )
}

fn be_u32(b: &[u8], off: usize) -> (r: u32)
    requires
        off + 4 <= b@.len(),
    ensures
        r == be_u32_at(b@, off as int),
{
    (b[off] as u32) * 0x1000000 + (b[off + 1] as u32) * 0x10000 + (b[off + 2] as u32) * 0x100
        + (b[off + 3] as u32)
}

fn be_i64(b: &[u8], off: usize) -> (r: i64)
    requires
        off + 8 <= b@.len(),
    ensures
        r == be_i64_at(b@, off as int),
{
    let _len = b.len();
    let hi = be_u32(b, off) as u64;
    let lo = be_u32(b, off + 4) as u64;
    assert(hi * 0x1_0000_0000 <= 0xFFFF_FFFFu64 * 0x1_0000_0000) by (nonlinear_arith)
        requires
            hi <= 0xFFFF_FFFF,
    ;
    let u: u64 = hi * 0x1_0000_0000 + lo;
    #[verifier::truncate]
    (u as i64)
}

fn has_magic(bytes: &[u8]) -> (r: bool)
    requires
        bytes@.len() >= 16,
    ensures
        r == (bytes@.subrange(0, 8) == spec_magic()),
{
    let ok = bytes[0] == 0x62 && bytes[1] == 0x74 && bytes[2] == 0x73 && bytes[3] == 0x6e
        && bytes[4] == 0x6f && bytes[5] == 0x6f && bytes[6] == 0x70 && bytes[7] == 0x00;
    if ok {
        assert(bytes@.subrange(0, 8) =~= spec_magic());
    } else {
        assert(bytes@.subrange(0, 8) != spec_magic()) by {
            if bytes@.subrange(0, 8) == spec_magic() {
                assert(bytes@.subrange(0, 8)[0] == spec_magic()[0]);
                assert(bytes@.subrange(0, 8)[1] == spec_magic()[1]);
                assert(bytes@.subrange(0, 8)[2] == spec_magic()[2]);
                assert(bytes@.subrange(0, 8)[3] == spec_magic()[3]);
                assert(bytes@.subrange(0, 8)[4] == spec_magic()[4]);
                assert(bytes@.subrange(0, 8)[5] == spec_magic()[5]);
                assert(bytes@.subrange(0, 8)[6] == spec_magic()[6]);
                assert(bytes@.subrange(0, 8)[7] == spec_magic()[7]);
            }
        }
    }
    ok
}

/// Whether `parse` can move every timestamp to the Unix epoch. A file
/// that fails this holds a record whose timestamp lies within the offset
/// of `i64::MIN`.
pub fn timestamps_in_range(bytes: &[u8]) -> (r: bool)
    ensures
        r == timestamps_fit(bytes@),
{
    if bytes.len() < 16 || !has_magic(bytes) || be_u32(bytes, 12) != DATALINK_H4 {
        return true;
    }
    let n = bytes.len();
    let mut off: usize = 16;
    let ghost mut seen: Seq<RawRecord> = Seq::empty();
    while off <= n && n - off >= 24
        invariant
            n == bytes@.len(),
            16 <= off <= n,
            spec_header_error(bytes@) is None,
            raw_records(bytes@) == seen + raw_records_from(bytes@, off as int),
            forall|i: int| 0 <= i < seen.len() ==> (#[trigger] seen[i]).0 - EPOCH_OFFSET_US >= i64::MIN,
        ensures
            raw_records_from(bytes@, off as int) =~= Seq::<RawRecord>::empty(),
        decreases n - off,
    {
        let included = be_u32(bytes, off + 4) as usize;
        let start = off + 24;
        if included > n - start {
            break;
        }
        let end = start + included;
        let ts = be_i64(bytes, off + 16);
        if ts < i64::MIN + EPOCH_OFFSET_US {
            proof {
                assert(raw_records_from(bytes@, off as int)[0].0 == ts);
                assert(raw_records(bytes@)[seen.len() as int] == raw_records_from(bytes@, off as int)[0]);
                assert(raw_records(bytes@)[seen.len() as int].0 - EPOCH_OFFSET_US < i64::MIN);
            }
            return false;
        }
        proof {
            seen = seen.push(raw_records_from(bytes@, off as int)[0]);
            assert(raw_records(bytes@) =~= seen + raw_records_from(bytes@, end as int));
        }
        off = end;
    }
    proof {
        assert(raw_records(bytes@) =~= seen);
    }
    true
}

/// Parses an entire btsnoop file into records.
///
/// A truncated trailing record is dropped rather than treated as an error,
/// because captures are often stopped mid-write.
pub fn parse(bytes: &[u8]) -> (r: Result<Vec<Record>, ParseError>)
    requires
        timestamps_fit(bytes@),
    ensures
        match spec_header_error(bytes@) {
            Some(e) => r == Err::<Vec<Record>, ParseError>(e),
            None => r matches Ok(recs) && records_view(recs@) == decoded(raw_records(bytes@)),
        },
{
    if bytes.len() < 16 {
        return Err(ParseError::TooShort);
    }
    if !has_magic(bytes) {
        return Err(ParseError::BadMagic);
    }
    let datalink = be_u32(bytes, 12);
    if datalink != DATALINK_H4 {
        return Err(ParseError::UnsupportedDatalink(datalink));
    }

    let n = bytes.len();
    let mut records: Vec<Record> = Vec::new();
    let mut off: usize = 16;
    let ghost mut seen: Seq<RawRecord> = Seq::empty();
    while off <= n && n - off >= 24
        invariant
            n == bytes@.len(),
            16 <= off <= n,
            spec_header_error(bytes@) is None,
            timestamps_fit(bytes@),
            raw_records(bytes@) == seen + raw_records_from(bytes@, off as int),
            records_view(records@) == decoded(seen),
        ensures
            raw_records_from(bytes@, off as int) =~= Seq::<RawRecord>::empty(),
            raw_records(bytes@) == seen + raw_records_from(bytes@, off as int),
            records_view(records@) == decoded(seen),
        decreases n - off,
    {
        let included = be_u32(bytes, off + 4) as usize;
        let flags = be_u32(bytes, off + 8);
        let ts = be_i64(bytes, off + 16);
        let start = off + 24;
        if included > n - start {
            break;
        }
        let end = start + included;
        let ghost raw = raw_records_from(bytes@, off as int)[0];
        proof {
            assert(raw_records(bytes@)[seen.len() as int] == raw);
            assert(raw.0 - EPOCH_OFFSET_US >= i64::MIN);
        }
        let data = vstd::slice::slice_to_vec(vstd::slice::slice_subrange(bytes, start, end));
        let direction = if flags % 2 == 0 {
            Direction::Sent
        } else {
            Direction::Received
        };
        let ghost old_records = records@;
        records.push(Record { timestamp_us: ts - EPOCH_OFFSET_US, direction, data });
        proof {
            assert(raw.0 == ts);
            assert(raw.1 == flags);
            assert(raw.2 =~= records@.last().data@);
            assert(record_view(records@.last()) == decode_raw(raw));
            assert(records@ == old_records.push(records@.last()));
            let old_seen = seen;
            seen = seen.push(raw);
            assert(raw_records(bytes@) =~= seen + raw_records_from(bytes@, end as int));
            assert(records_view(records@) =~= records_view(old_records).push(
                record_view(records@.last()),
            ));
            assert(decoded(seen) =~= decoded(old_seen).push(decode_raw(raw)));
        }
        off = end;
    }
    proof {
        assert(raw_records(bytes@) =~= seen);
    }
    Ok(records)
}

/// `HH:MM:SS.mmm` of a non-negative microsecond timestamp, hours modulo 24.
pub open spec fn spec_format_time(us: i64) -> Seq<char> {
    if us < 0 {
        "??:??:??.???"@
    } else {
        let total_secs = us as int / 1_000_000;
        let millis = (us as int % 1_000_000) / 1000;
        zero_padded(decimal(((total_secs / 3600) % 24) as nat), 2) + ":"@ + zero_padded(
            decimal(((total_secs / 60) % 60) as nat),
            2,
        ) + ":"@ + zero_padded(decimal((total_secs % 60) as nat), 2) + "."@ + zero_padded(
            decimal(millis as nat),
            3,
        )
    }
}

/// Formats a Unix-epoch microsecond timestamp as `HH:MM:SS.mmm` UTC.
pub fn format_time(us: i64) -> (r: String)
    ensures
        r@ == spec_format_time(us),
{
    if us < 0 {
        let mut out = String::new();
        push_str(&mut out, "??:??:??.???");
        return out;
    }
    let total_secs = us / 1_000_000;
    let millis = (us % 1_000_000) / 1000;
    let secs = total_secs % 60;
    let mins = (total_secs / 60) % 60;
    let hours = (total_secs / 3600) % 24;
    let mut out = String::new();
    push_zero_padded(&mut out, hours as u128, 2);
    push_str(&mut out, ":");
    push_zero_padded(&mut out, mins as u128, 2);
    push_str(&mut out, ":");
    push_zero_padded(&mut out, secs as u128, 2);
    push_str(&mut out, ".");
    push_zero_padded(&mut out, millis as u128, 3);
    assert(out@ =~= spec_format_time(us));
    out
}

pub open spec fn spec_parse_error_message(e: ParseError) -> Seq<char> {
    match e {
        ParseError::TooShort => "file is too short to be a btsnoop log"@,
        ParseError::BadMagic =>
            "not a btsnoop log (missing the \"btsnoop\\0\" signature). If this came from a bug report, extract FS/data/misc/bluetooth/logs/btsnoop_hci.log from the zip first."@,
        ParseError::UnsupportedDatalink(d) => "unsupported datalink type "@ + decimal(d as nat)
            + "; only 1002 (H4 UART) is handled"@,
    }
}

impl ParseError {
    /// The message shown for this error.
    pub fn message(&self) -> (r: String)
        ensures
            r@ == spec_parse_error_message(*self),
    {
        let mut out = String::new();
        match self {
            ParseError::TooShort => push_str(&mut out, "file is too short to be a btsnoop log"),
            ParseError::BadMagic => push_str(
                &mut out,
                "not a btsnoop log (missing the \"btsnoop\\0\" signature). If this came from a bug report, extract FS/data/misc/bluetooth/logs/btsnoop_hci.log from the zip first.",
            ),
            ParseError::UnsupportedDatalink(d) => {
                push_str(&mut out, "unsupported datalink type ");
                crate::text::push_decimal(&mut out, *d as u128);
                push_str(&mut out, "; only 1002 (H4 UART) is handled");
            },
        }
        assert(out@ =~= spec_parse_error_message(*self));
        out
    }
}

/// A record's direction depends only on bit 0 of its packet flags:
/// received (controller to host) when the bit is 1, sent (host to
/// controller) when it is 0, whatever the other flag bits hold. So two
/// records whose flags agree in bit 0 have the same direction.
pub proof fn law_direction_is_flag_bit_zero(a: RawRecord, b: RawRecord)
    ensures
        decode_raw(a).1 == Direction::Received <==> a.1 & 1u32 == 1u32,
        decode_raw(a).1 == Direction::Sent <==> a.1 & 1u32 == 0u32,
        a.1 & 1u32 == b.1 & 1u32 ==> decode_raw(a).1 == decode_raw(b).1,
{
    let fa = a.1;
    let fb = b.1;
    assert(fa & 1u32 == fa % 2 && fb & 1u32 == fb % 2) by (bit_vector);
}

/// Every record `parse` returns has the direction bit 0 of that record's
/// flags in the file gives it.
pub proof fn law_parsed_direction_is_flag_bit_zero(bytes: Seq<u8>, i: int)
    requires
        spec_header_error(bytes) is None,
        0 <= i < raw_records(bytes).len(),
    ensures
        decoded(raw_records(bytes))[i].1 == Direction::Received <==> raw_records(bytes)[i].1 & 1u32
            == 1u32,
        decoded(raw_records(bytes))[i].1 == Direction::Sent <==> raw_records(bytes)[i].1 & 1u32
            == 0u32,
{
    let r = raw_records(bytes)[i];
    law_direction_is_flag_bit_zero(r, r);
}

} // verus!
