//! The listen-only channel's error reporting and options.
//!
//! The socket is opened by the program that holds it; it never transmits.
//! What is decided here is how an outcome is reported and which addresses
//! are accepted.

use crate::text::{push_signed_decimal, push_str, signed_decimal};
use vstd::prelude::*;

verus! {

#[derive(Debug, Clone, Copy, PartialEq, Eq, Structural)]
pub enum RfcommError {
    Startup(i32),
    SocketCreate(i32),
    Connect(i32),
    Recv(i32),
}

pub open spec fn spec_connect_error_hint(code: i32) -> Seq<char> {
    if code == 10060 {
        "the device did not answer (timed out). It may be asleep or out of range."@
    } else if code == 10061 {
        "the device refused the connection. The service may already be in use \u{2014} check whether Bose Music is connected, and close it."@
    } else if code == 10064 {
        "the host is down. Power the headphones on."@
    } else if code == 10050 || code == 10051 {
        "the Bluetooth network is unreachable. Check that Bluetooth is on."@
    } else if code == 10013 {
        "permission denied."@
    } else if code == 10022 {
        "invalid argument \u{2014} the service UUID may not be advertised by this device."@
    } else {
        "see the Winsock error code for details."@
    }
}

pub open spec fn spec_explain_connect_error(code: i32) -> Seq<char> {
    "RFCOMM connect failed ("@ + signed_decimal(code as int) + "): "@ + spec_connect_error_hint(code)
}

pub open spec fn spec_rfcomm_error_message(e: RfcommError) -> Seq<char> {
    match e {
        RfcommError::Startup(c) => "WSAStartup failed ("@ + signed_decimal(c as int) + ")"@,
        RfcommError::SocketCreate(c) => "could not create an RFCOMM socket ("@ + signed_decimal(
            c as int,
        ) + ")"@,
        RfcommError::Connect(c) => spec_explain_connect_error(c),
        RfcommError::Recv(c) => "recv failed ("@ + signed_decimal(c as int) + ")"@,
    }
}

fn connect_error_hint(code: i32) -> (r: &'static str)
    ensures
        r@ == spec_connect_error_hint(code),
{
    if code == 10060 {
        "the device did not answer (timed out). It may be asleep or out of range."
    } else if code == 10061 {
        "the device refused the connection. The service may already be in use \u{2014} check whether Bose Music is connected, and close it."
    } else if code == 10064 {
        "the host is down. Power the headphones on."
    } else if code == 10050 || code == 10051 {
        "the Bluetooth network is unreachable. Check that Bluetooth is on."
    } else if code == 10013 {
        "permission denied."
    } else if code == 10022 {
        "invalid argument \u{2014} the service UUID may not be advertised by this device."
    } else {
        "see the Winsock error code for details."
    }
}

/// Turns a Winsock connect error into something actionable.
pub fn explain_connect_error(code: i32) -> (r: String)
    ensures
        r@ == spec_explain_connect_error(code),
{
    let mut out = String::new();
    push_str(&mut out, "RFCOMM connect failed (");
    push_signed_decimal(&mut out, code as i64);
    push_str(&mut out, "): ");
    push_str(&mut out, connect_error_hint(code));
    assert(out@ =~= spec_explain_connect_error(code));
    out
}

impl RfcommError {
    /// The message shown for this error.
    pub fn message(&self) -> (r: String)
        ensures
            r@ == spec_rfcomm_error_message(*self),
    {
        let mut out = String::new();
        match self {
            RfcommError::Startup(c) => {
                push_str(&mut out, "WSAStartup failed (");
                push_signed_decimal(&mut out, *c as i64);
                push_str(&mut out, ")");
            },
            RfcommError::SocketCreate(c) => {
                push_str(&mut out, "could not create an RFCOMM socket (");
                push_signed_decimal(&mut out, *c as i64);
                push_str(&mut out, ")");
            },
            RfcommError::Connect(c) => {
                return explain_connect_error(*c);
            },
            RfcommError::Recv(c) => {
                push_str(&mut out, "recv failed (");
                push_signed_decimal(&mut out, *c as i64);
                push_str(&mut out, ")");
            },
        }
        assert(out@ =~= spec_rfcomm_error_message(*self));
        out
    }
}

/// What a single receive produced.
#[derive(Debug, Clone, PartialEq, Eq)]
pub enum RecvOutcome {
    /// The device voluntarily sent bytes.
    Data(Vec<u8>),
    /// Nothing arrived within the timeout.
    Idle,
    /// The device closed the channel.
    Closed,
}

/// How to open the channel.
#[derive(Debug, Clone, Copy, Default, PartialEq, Eq, Structural)]
pub struct OpenOptions {
    /// Half-close the transmit direction after connecting. Off by default:
    /// it tells a request/response peer that we will never speak, and the
    /// peer then hangs up.
    pub half_close_transmit: bool,
}

/// Parses a 12-hex-digit Bluetooth address (separators ignored).
pub fn parse_address(hex: &str) -> (r: Option<u64>)
    ensures
        r == crate::probe::channel::spec_parse_address(hex@),
{
    crate::probe::channel::parse_address(hex)
}

} // verus!
