//! Device abstraction: the boundary between the application and hardware.
//!
//! The frontend never touches Bluetooth. It issues typed, validated commands
//! that land here, and here they are dispatched to whichever backend is active
//! (mock or real).

pub mod capability;
pub mod command;
pub mod state;

pub use capability::{
    Capability, CapabilityError, CapabilityKey, CapabilitySet, CapabilityStatus, HardwareProof,
    Mechanism,
};
pub use command::{CommandOutcome, DeviceCommand};
pub use state::{
    BatteryReading, BatterySource, ConnectionState, DeviceIdentity, DeviceSnapshot, DeviceSource,
    EqSettings, EqState, NoiseControlMode, NoiseControlState, StateSource, Transport,
    WindowsAudioState,
};

use crate::text::{push_decimal, push_str};
use vstd::prelude::*;

verus! {

/// A decimal digit.
pub open spec fn is_decimal_digit(c: char) -> bool {
    '0' <= c <= '9'
}

/// A UTC timestamp in RFC 3339 form as `time` writes it:
/// `YYYY-MM-DDTHH:MM:SS`, then a fraction of one to nine digits when the
/// nanoseconds are not zero, then `Z`.
pub open spec fn is_utc_rfc3339(s: Seq<char>) -> bool {
    &&& (s.len() == 20 || (22 <= s.len() <= 30 && s[19] == '.' && forall|i: int|
        20 <= i < s.len() - 1 ==> is_decimal_digit(#[trigger] s[i])))
    &&& is_decimal_digit(s[0]) && is_decimal_digit(s[1]) && is_decimal_digit(s[2])
        && is_decimal_digit(s[3])
    &&& s[4] == '-' && is_decimal_digit(s[5]) && is_decimal_digit(s[6])
    &&& s[7] == '-' && is_decimal_digit(s[8]) && is_decimal_digit(s[9])
    &&& s[10] == 'T' && is_decimal_digit(s[11]) && is_decimal_digit(s[12])
    &&& s[13] == ':' && is_decimal_digit(s[14]) && is_decimal_digit(s[15])
    &&& s[16] == ':' && is_decimal_digit(s[17]) && is_decimal_digit(s[18])
    &&& s[s.len() - 1] == 'Z'
}

/// The system clock measured from the Unix epoch
/// (`SystemTime::now()` and `SystemTime::duration_since(UNIX_EPOCH)`):
/// `Ok` with the time since the epoch, or `Err` with how far before it the
/// clock stands, each as whole seconds (`Duration::as_secs`) and the
/// sub-second nanoseconds (`Duration::subsec_nanos`, below one second).
/// Which time it reads depends on the clock and is not stated.
#[verifier::external_body]
fn clock_since_epoch() -> (r: Result<(u64, u32), (u64, u32)>)
    ensures
        match r {
            Ok((_, nanos)) => nanos < 1_000_000_000,
            Err((_, nanos)) => nanos < 1_000_000_000,
        },
{
    match std::time::SystemTime::now().duration_since(std::time::UNIX_EPOCH) {
        Ok(d) => Ok((d.as_secs(), d.subsec_nanos())),
        Err(e) => Err((e.duration().as_secs(), e.duration().subsec_nanos())),
    }
}

/// What `time` writes, in its well-known RFC 3339 format, for the UTC
/// instant `n` nanoseconds from the Unix epoch; `None` when it writes
/// nothing.
pub uninterp spec fn rfc3339_of_unix_nanos(n: i128) -> Option<Seq<char>>;

/// Nanoseconds from the Unix epoch to 0000-01-01T00:00:00Z.
pub open spec fn year_0_start_nanos() -> int {
    -62_167_219_200_000_000_000
}

/// Nanoseconds from the Unix epoch to 10000-01-01T00:00:00Z.
pub open spec fn year_10000_start_nanos() -> int {
    253_402_300_800_000_000_000
}

/// `time::OffsetDateTime::from_unix_timestamp_nanos(n)` (a UTC value;
/// `Err` outside the dates `time` represents, years -9999..=9999 without
/// its `large-dates` feature), formatted with the well-known RFC3339 format
/// description (`OffsetDateTime::format`, which refuses years before 0).
/// Neither call panics. So there is text exactly for the years 0..=9999,
/// and it has the shape `time`'s RFC 3339 formatter writes for a UTC
/// value: four-digit year, two-digit month, day, hour, minute and second,
/// the sub-second digits with trailing zeros cut (none when the nanoseconds
/// are zero), and `Z`.
#[verifier::external_body]
fn format_unix_nanos(n: i128) -> (r: Option<String>)
    ensures
        rfc3339_of_unix_nanos(n) == match r {
            Some(s) => Some(s@),
            None => None::<Seq<char>>,
        },
        r is Some <==> year_0_start_nanos() <= n < year_10000_start_nanos(),
        r matches Some(s) ==> is_utc_rfc3339(s@),
{
    match time::OffsetDateTime::from_unix_timestamp_nanos(n) {
        Ok(t) => t.format(&time::format_description::well_known::Rfc3339).ok(),
        Err(_) => None,
    }
}

/// The current time in RFC 3339 form, or `None` when the clock stands
/// outside the years 0..=9999. Reading and formatting the clock never
/// panics.
pub(crate) fn rfc3339_now() -> (r: Option<String>)
    ensures
        r matches Some(s) ==> is_utc_rfc3339(s@),
{
    let n: i128 = match clock_since_epoch() {
        Ok((secs, nanos)) => secs as i128 * 1_000_000_000 + nanos as i128,
        Err((secs, nanos)) => -(secs as i128 * 1_000_000_000 + nanos as i128),
    };
    format_unix_nanos(n)
}

/// The timestamp used when the clock reading cannot be formatted.
pub open spec fn epoch_text() -> Seq<char> {
    "1970-01-01T00:00:00Z"@
}

proof fn lemma_epoch_text_is_rfc3339()
    ensures
        is_utc_rfc3339(epoch_text()),
{
    reveal_strlit("1970-01-01T00:00:00Z");
}

/// Current time as an RFC3339 string, or the Unix epoch if the clock
/// reading cannot be formatted. Either way the result is a UTC RFC 3339
/// timestamp; which instant it shows depends on the clock.
pub fn now_rfc3339() -> (r: String)
    ensures
        is_utc_rfc3339(r@),
{
    match rfc3339_now() {
        Some(s) => s,
        None => {
            proof {
                lemma_epoch_text_is_rfc3339();
            }
            crate::text::owned("1970-01-01T00:00:00Z")
        },
    }
}

/// Current time as an RFC3339 string, or `unknown` when the clock reading
/// cannot be formatted.
pub fn now_rfc3339_or_unknown() -> (r: String)
    ensures
        r@ == "unknown"@ || is_utc_rfc3339(r@),
{
    match rfc3339_now() {
        Some(s) => s,
        None => crate::text::owned("unknown"),
    }
}

/// Errors any device backend can produce.
#[derive(Debug, Clone, PartialEq, Eq)]
pub enum DeviceError {
    NotConnected,
    BluetoothUnavailable,
    Unreachable,
    Timeout(u64),
    Unsupported { feature: String, reason: String },
    InvalidResponse(String),
    Rejected(String),
    Platform(String),
    InvalidInput(String),
}

pub type DeviceResult<T> = Result<T, DeviceError>;

/// The user-facing message of an error.
pub open spec fn spec_error_message(e: DeviceError) -> Seq<char> {
    match e {
        DeviceError::NotConnected => "no device is connected"@,
        DeviceError::BluetoothUnavailable => "Bluetooth is unavailable or disabled on this system"@,
        DeviceError::Unreachable =>
            "the device is not reachable (powered off, out of range, or connected elsewhere)"@,
        DeviceError::Timeout(ms) =>
            "operation timed out after "@ + crate::text::decimal(ms as nat) + "ms"@,
        DeviceError::Unsupported { feature, reason } =>
            feature@ + " is not supported on this device: "@ + reason@,
        DeviceError::InvalidResponse(s) =>
            "the device returned a response we could not interpret: "@ + s@,
        DeviceError::Rejected(s) => "command rejected: "@ + s@,
        DeviceError::Platform(s) => "Windows API error: "@ + s@,
        DeviceError::InvalidInput(s) => "invalid input: "@ + s@,
    }
}

/// The short kind tag the frontend switches on.
pub open spec fn spec_error_kind(e: DeviceError) -> Seq<char> {
    match e {
        DeviceError::NotConnected => "not-connected"@,
        DeviceError::BluetoothUnavailable => "bluetooth-unavailable"@,
        DeviceError::Unreachable => "unreachable"@,
        DeviceError::Timeout(_) => "timeout"@,
        DeviceError::Unsupported { .. } => "unsupported"@,
        DeviceError::InvalidResponse(_) => "invalid-response"@,
        DeviceError::Rejected(_) => "rejected"@,
        DeviceError::Platform(_) => "platform"@,
        DeviceError::InvalidInput(_) => "invalid-input"@,
    }
}

impl DeviceError {
    /// The message shown for this error.
    pub fn message(&self) -> (r: String)
        ensures
            r@ == spec_error_message(*self),
    {
        let mut out = String::new();
        match self {
            DeviceError::NotConnected => push_str(&mut out, "no device is connected"),
            DeviceError::BluetoothUnavailable => push_str(
                &mut out,
                "Bluetooth is unavailable or disabled on this system",
            ),
            DeviceError::Unreachable => push_str(
                &mut out,
                "the device is not reachable (powered off, out of range, or connected elsewhere)",
            ),
            DeviceError::Timeout(ms) => {
                push_str(&mut out, "operation timed out after ");
                push_decimal(&mut out, *ms as u128);
                push_str(&mut out, "ms");
            },
            DeviceError::Unsupported { feature, reason } => {
                push_str(&mut out, feature.as_str());
                push_str(&mut out, " is not supported on this device: ");
                push_str(&mut out, reason.as_str());
            },
            DeviceError::InvalidResponse(s) => {
                push_str(&mut out, "the device returned a response we could not interpret: ");
                push_str(&mut out, s.as_str());
            },
            DeviceError::Rejected(s) => {
                push_str(&mut out, "command rejected: ");
                push_str(&mut out, s.as_str());
            },
            DeviceError::Platform(s) => {
                push_str(&mut out, "Windows API error: ");
                push_str(&mut out, s.as_str());
            },
            DeviceError::InvalidInput(s) => {
                push_str(&mut out, "invalid input: ");
                push_str(&mut out, s.as_str());
            },
        }
        assert(out@ =~= spec_error_message(*self));
        out
    }

    /// The kind tag for this error.
    pub fn kind(&self) -> (r: &'static str)
        ensures
            r@ == spec_error_kind(*self),
    {
        match self {
            DeviceError::NotConnected => "not-connected",
            DeviceError::BluetoothUnavailable => "bluetooth-unavailable",
            DeviceError::Unreachable => "unreachable",
            DeviceError::Timeout(_) => "timeout",
            DeviceError::Unsupported { .. } => "unsupported",
            DeviceError::InvalidResponse(_) => "invalid-response",
            DeviceError::Rejected(_) => "rejected",
            DeviceError::Platform(_) => "platform",
            DeviceError::InvalidInput(_) => "invalid-input",
        }
    }
}

} // verus!
