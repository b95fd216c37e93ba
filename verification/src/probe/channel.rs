//! The vendor RFCOMM channel's error reporting and address parsing.
//!
//! The socket itself lives with the program that opens it; what is decided
//! here is how an outcome is reported and which addresses are accepted.

use super::frames::{spec_mode_index, NoiseMode};
use crate::text::{
    chars_of, decimal, hex_value, is_hex_digit, push_signed_decimal, push_str, signed_decimal,
};
use vstd::prelude::*;

verus! {

#[derive(Debug, Clone, Copy, PartialEq, Eq, Structural)]
pub enum ChannelError {
    Startup(i32),
    SocketCreate(i32),
    Connect(i32),
    Send(i32),
    Recv(i32),
}

/// The hint shown for a Winsock connect error code.
pub open spec fn spec_connect_hint(code: i32) -> Seq<char> {
    if code == 10060 {
        "the device did not answer. It may be asleep or out of range."@
    } else if code == 10061 {
        "the device refused the connection. The vendor channel is probably already held \u{2014} close Bose Music on your phone and retry."@
    } else if code == 10064 {
        "the host is down. Power the headphones on."@
    } else if code == 10050 || code == 10051 {
        "the Bluetooth network is unreachable. Check Bluetooth is on."@
    } else {
        "see the Winsock error code."@
    }
}

pub open spec fn spec_explain_connect(code: i32) -> Seq<char> {
    "RFCOMM connect failed ("@ + signed_decimal(code as int) + "): "@ + spec_connect_hint(code)
}

pub open spec fn spec_channel_error_message(e: ChannelError) -> Seq<char> {
    match e {
        ChannelError::Startup(c) => "WSAStartup failed ("@ + signed_decimal(c as int) + ")"@,
        ChannelError::SocketCreate(c) => "could not create an RFCOMM socket ("@ + signed_decimal(
            c as int,
        ) + ")"@,
        ChannelError::Connect(c) => spec_explain_connect(c),
        ChannelError::Send(c) => "send failed ("@ + signed_decimal(c as int) + ")"@,
        ChannelError::Recv(c) => "recv failed ("@ + signed_decimal(c as int) + ")"@,
    }
}

fn connect_hint(code: i32) -> (r: &'static str)
    ensures
        r@ == spec_connect_hint(code),
{
    if code == 10060 {
        "the device did not answer. It may be asleep or out of range."
    } else if code == 10061 {
        "the device refused the connection. The vendor channel is probably already held \u{2014} close Bose Music on your phone and retry."
    } else if code == 10064 {
        "the host is down. Power the headphones on."
    } else if code == 10050 || code == 10051 {
        "the Bluetooth network is unreachable. Check Bluetooth is on."
    } else {
        "see the Winsock error code."
    }
}

/// Turns a Winsock connect error into something actionable.
pub fn explain_connect(code: i32) -> (r: String)
    ensures
        r@ == spec_explain_connect(code),
{
    let mut out = String::new();
    push_str(&mut out, "RFCOMM connect failed (");
    push_signed_decimal(&mut out, code as i64);
    push_str(&mut out, "): ");
    push_str(&mut out, connect_hint(code));
    assert(out@ =~= spec_explain_connect(code));
    out
}

impl ChannelError {
    /// The message shown for this error.
    pub fn message(&self) -> (r: String)
        ensures
            r@ == spec_channel_error_message(*self),
    {
        let mut out = String::new();
        match self {
            ChannelError::Startup(c) => {
                push_str(&mut out, "WSAStartup failed (");
                push_signed_decimal(&mut out, *c as i64);
                push_str(&mut out, ")");
            },
            ChannelError::SocketCreate(c) => {
                push_str(&mut out, "could not create an RFCOMM socket (");
                push_signed_decimal(&mut out, *c as i64);
                push_str(&mut out, ")");
            },
            ChannelError::Connect(c) => {
                return explain_connect(*c);
            },
            ChannelError::Send(c) => {
                push_str(&mut out, "send failed (");
                push_signed_decimal(&mut out, *c as i64);
                push_str(&mut out, ")");
            },
            ChannelError::Recv(c) => {
                push_str(&mut out, "recv failed (");
                push_signed_decimal(&mut out, *c as i64);
                push_str(&mut out, ")");
            },
        }
        assert(out@ =~= spec_channel_error_message(*self));
        out
    }
}

/// What a single receive produced.
#[derive(Debug, Clone, PartialEq, Eq)]
pub enum RecvOutcome {
    Data(Vec<u8>),
    Idle,
    Closed,
}

/// The ASCII hex digits of a string, in order.
pub open spec fn hex_digits(s: Seq<char>) -> Seq<char>
    decreases s.len(),
{
    if s.len() == 0 {
        Seq::empty()
    } else if is_hex_digit(s.last()) {
        hex_digits(s.drop_last()).push(s.last())
    } else {
        hex_digits(s.drop_last())
    }
}

/// The number a string of hex digits denotes.
pub open spec fn hex_number(d: Seq<char>) -> nat
    decreases d.len(),
{
    if d.len() == 0 {
        0
    } else {
        hex_number(d.drop_last()) * 16 + hex_value(d.last()) as nat
    }
}

pub open spec fn pow16(n: nat) -> nat
    decreases n,
{
    if n == 0 {
        1
    } else {
        16 * pow16((n - 1) as nat)
    }
}

/// The address a string denotes: its hex digits, when there are exactly 12
/// of them, read as a 48-bit number.
pub open spec fn spec_parse_address(s: Seq<char>) -> Option<u64> {
    if hex_digits(s).len() == 12 {
        Some(hex_number(hex_digits(s)) as u64)
    } else {
        None
    }
}

proof fn lemma_hex_number_bound(d: Seq<char>)
    requires
        forall|i: int| 0 <= i < d.len() ==> is_hex_digit(#[trigger] d[i]),
    ensures
        hex_number(d) < pow16(d.len()),
    decreases d.len(),
{
    if d.len() > 0 {
        let p = d.drop_last();
        assert forall|i: int| 0 <= i < p.len() implies is_hex_digit(#[trigger] p[i]) by {
            assert(p[i] == d[i]);
        }
        lemma_hex_number_bound(p);
        assert(is_hex_digit(d[d.len() - 1]));
        let h = hex_number(p);
        let v = hex_value(d.last());
        assert(0 <= v < 16);
        let q = pow16(p.len());
        assert(h * 16 + v < q * 16) by (nonlinear_arith)
            requires
                h < q,
                0 <= v < 16,
        ;
    }
}

proof fn lemma_hex_digits_are_hex(s: Seq<char>)
    ensures
        forall|i: int|
            0 <= i < hex_digits(s).len() ==> is_hex_digit(#[trigger] hex_digits(s)[i]),
    decreases s.len(),
{
    if s.len() > 0 {
        lemma_hex_digits_are_hex(s.drop_last());
        let p = hex_digits(s.drop_last());
        if is_hex_digit(s.last()) {
            assert forall|i: int|
                0 <= i < hex_digits(s).len() implies is_hex_digit(#[trigger] hex_digits(s)[i]) by {
                if i < p.len() {
                    assert(hex_digits(s)[i] == p[i]);
                }
            }
        }
    }
}

fn hex_digit_value(c: char) -> (r: u64)
    requires
        is_hex_digit(c),
    ensures
        r == hex_value(c),
{
    if '0' <= c && c <= '9' {
        (c as u32 - '0' as u32) as u64
    } else if 'a' <= c && c <= 'f' {
        (c as u32 - 'a' as u32 + 10) as u64
    } else {
        (c as u32 - 'A' as u32 + 10) as u64
    }
}

fn is_ascii_hex(c: char) -> (r: bool)
    ensures
        r == is_hex_digit(c),
{
    ('0' <= c && c <= '9') || ('a' <= c && c <= 'f') || ('A' <= c && c <= 'F')
}

/// Parses a 12-hex-digit Bluetooth address into the 48-bit integer form
/// Winsock expects. Separators and any other non-hex characters are ignored.
pub fn parse_address(hex: &str) -> (r: Option<u64>)
    ensures
        r == spec_parse_address(hex@),
{
    let cs = chars_of(hex);
    let mut digits: Vec<char> = Vec::new();
    let mut i: usize = 0;
    while i < cs.len()
        invariant
            cs@ == hex@,
            i <= cs@.len(),
            digits@ == hex_digits(hex@.subrange(0, i as int)),
        decreases cs.len() - i,
    {
        assert(hex@.subrange(0, i + 1).drop_last() =~= hex@.subrange(0, i as int));
        if is_ascii_hex(cs[i]) {
            digits.push(cs[i]);
        }
        i = i + 1;
    }
    assert(hex@.subrange(0, cs@.len() as int) =~= hex@);
    if digits.len() != 12 {
        return None;
    }
    proof {
        lemma_hex_digits_are_hex(hex@);
    }
    let mut value: u64 = 0;
    let mut k: usize = 0;
    while k < 12
        invariant
            digits@ == hex_digits(hex@),
            digits@.len() == 12,
            k <= 12,
            value == hex_number(digits@.subrange(0, k as int)),
            value < pow16(k as nat),
            forall|j: int| 0 <= j < 12 ==> is_hex_digit(#[trigger] digits@[j]),
        decreases 12 - k,
    {
        let d = hex_digit_value(digits[k]);
        proof {
            let t = digits@.subrange(0, k + 1);
            assert(t.drop_last() =~= digits@.subrange(0, k as int));
            assert forall|j: int| 0 <= j < t.len() implies is_hex_digit(#[trigger] t[j]) by {
                assert(t[j] == digits@[j]);
            }
            lemma_hex_number_bound(t);
            assert(pow16((k + 1) as nat) <= pow16(12)) by {
                lemma_pow16_monotone((k + 1) as nat, 12);
            }
            assert(pow16(12) == 0x1_0000_0000_0000) by {
                reveal_with_fuel(pow16, 13);
            }
        }
        value = value * 16 + d;
        k = k + 1;
    }
    assert(digits@.subrange(0, 12) =~= digits@);
    Some(value)
}

proof fn lemma_pow16_monotone(a: nat, b: nat)
    requires
        a <= b,
    ensures
        pow16(a) <= pow16(b),
    decreases b,
{
    if a < b {
        lemma_pow16_monotone(a, (b - 1) as nat);
    }
}

/// How a read-back is judged after a mode change was sent.
#[derive(Debug, Clone, Copy, PartialEq, Eq, Structural)]
pub enum ChangeVerdict {
    /// The device reported nothing afterwards.
    Unverifiable,
    /// The device reports a mode that was not asked for.
    Mismatch,
    /// The device reports the same mode as before: no observable effect.
    Unchanged,
    /// The device reported nothing beforehand, so there is no baseline.
    NoBaseline,
    /// The device-reported mode changed to the requested one.
    Verified,
}

/// The verification rule: the state must have changed, and changed to what
/// was asked for.
pub open spec fn spec_judge_change(before: Option<u8>, after: Option<u8>, target: NoiseMode) -> ChangeVerdict {
    match after {
        None => ChangeVerdict::Unverifiable,
        Some(a) => if a != spec_mode_index(target) {
            ChangeVerdict::Mismatch
        } else {
            match before {
                Some(b) => if b == a {
                    ChangeVerdict::Unchanged
                } else {
                    ChangeVerdict::Verified
                },
                None => ChangeVerdict::NoBaseline,
            }
        },
    }
}

/// Judges a mode change from the modes the device reported before and after.
pub fn judge_change(before: Option<u8>, after: Option<u8>, target: NoiseMode) -> (r: ChangeVerdict)
    ensures
        r == spec_judge_change(before, after, target),
{
    match after {
        None => ChangeVerdict::Unverifiable,
        Some(a) => {
            if a != target.index() {
                ChangeVerdict::Mismatch
            } else {
                match before {
                    Some(b) => if b == a {
                        ChangeVerdict::Unchanged
                    } else {
                        ChangeVerdict::Verified
                    },
                    None => ChangeVerdict::NoBaseline,
                }
            }
        },
    }
}

/// A change is worth sending only when the device is not already known to be
/// in the requested mode.
pub fn needs_change(before: Option<u8>, target: NoiseMode) -> (r: bool)
    ensures
        r == (before != Some(spec_mode_index(target))),
{
    match before {
        Some(b) => b != target.index(),
        None => true,
    }
}

/// A change is reported verified exactly when the device's own read-back
/// moved from a known, different mode to the requested one.
pub proof fn law_verified_means_observed_change(before: Option<u8>, after: Option<u8>, target: NoiseMode)
    ensures
        spec_judge_change(before, after, target) == ChangeVerdict::Verified <==> (before is Some
            && after == Some(spec_mode_index(target)) && before != after),
{
}

} // verus!
