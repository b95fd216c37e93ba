//! Opaque device identifiers and salts.
//!
//! The raw Bluetooth address or PnP instance id never leaves the native
//! layer; what is shown and exported is a salted hash of it.

use crate::digest::{sha256, sha256_digest};
use crate::text::{hex_lower_joined, is_lower_hex_digit, push_hex_lower_joined};
use vstd::prelude::*;
use vstd::string::*;

verus! {

/// The message hashed for an identifier: salt, a zero byte, then the raw
/// identifier, all as UTF-8.
pub open spec fn id_message(salt: Seq<char>, raw: Seq<char>) -> Seq<u8> {
    vstd::utf8::encode_utf8(salt) + seq![0u8] + vstd::utf8::encode_utf8(raw)
}

/// The identifier: the first 10 digest bytes in lower-case hex.
pub open spec fn spec_stable_id(salt: Seq<char>, raw: Seq<char>) -> Seq<char> {
    hex_lower_joined(sha256(id_message(salt, raw)).subrange(0, 10))
}

proof fn lemma_hex_lower_joined_shape(s: Seq<u8>)
    ensures
        hex_lower_joined(s).len() == 2 * s.len(),
        forall|i: int| 0 <= i < hex_lower_joined(s).len() ==> is_lower_hex_digit(#[trigger] hex_lower_joined(s)[i]),
    decreases s.len(),
{
    if s.len() > 0 {
        lemma_hex_lower_joined_shape(s.drop_last());
        let p = hex_lower_joined(s.drop_last());
        let b = s.last();
        assert(hex_lower_joined(s) == p + crate::text::hex_pair_lower(b));
        assert forall|i: int| 0 <= i < hex_lower_joined(s).len() implies is_lower_hex_digit(#[trigger] hex_lower_joined(s)[i]) by {
            if i >= p.len() {
                assert(0 <= b as int / 16 < 16);
                assert(0 <= b as int % 16 < 16);
            }
        }
    }
}

/// A stable, opaque identifier derived from a raw device identifier and a
/// salt.
pub fn stable_id(salt: &str, raw: &str) -> (r: String)
    ensures
        r@ == spec_stable_id(salt@, raw@),
        r@.len() == 20,
        forall|i: int| 0 <= i < r@.len() ==> is_lower_hex_digit(#[trigger] r@[i]),
{
    let mut msg: Vec<u8> = vstd::slice::slice_to_vec(salt.as_bytes());
    msg.push(0u8);
    let mut tail = vstd::slice::slice_to_vec(raw.as_bytes());
    msg.append(&mut tail);
    assert(msg@ =~= id_message(salt@, raw@));
    let digest = sha256_digest(msg.as_slice());
    let mut out = String::new();
    push_hex_lower_joined(&mut out, vstd::slice::slice_subrange(digest.as_slice(), 0, 10));
    assert(out@ =~= spec_stable_id(salt@, raw@));
    proof {
        lemma_hex_lower_joined_shape(sha256(id_message(salt@, raw@)).subrange(0, 10));
    }
    out
}

/// Little-endian bytes of a number.
pub open spec fn le_bytes(n: nat, k: nat) -> Seq<u8>
    decreases k,
{
    if k == 0 {
        Seq::empty()
    } else {
        seq![(n % 256) as u8] + le_bytes(n / 256, (k - 1) as nat)
    }
}

fn push_le_bytes(out: &mut Vec<u8>, n: u128, k: usize)
    ensures
        final(out)@ == old(out)@ + le_bytes(n as nat, k as nat),
    decreases k,
{
    if k > 0 {
        out.push((n % 256) as u8);
        push_le_bytes(out, n / 256, k - 1);
        assert(final(out)@ =~= old(out)@ + le_bytes(n as nat, k as nat));
    } else {
        assert(final(out)@ =~= old(out)@ + le_bytes(n as nat, k as nat));
    }
}

/// A salt from the clock reading and the process id: the lower-case hex of
/// the SHA-256 of their little-endian bytes.
pub open spec fn spec_salt_from(nanos: u128, pid: u32) -> Seq<char> {
    hex_lower_joined(sha256(le_bytes(nanos as nat, 16) + le_bytes(pid as nat, 4)))
}

/// Derives a salt from the nanoseconds since the Unix epoch and the process
/// id. Not key material; uniqueness per run is enough.
pub fn salt_from(nanos: u128, pid: u32) -> (r: String)
    ensures
        r@ == spec_salt_from(nanos, pid),
{
    let mut msg: Vec<u8> = Vec::new();
    push_le_bytes(&mut msg, nanos, 16);
    push_le_bytes(&mut msg, pid as u128, 4);
    assert(msg@ =~= le_bytes(nanos as nat, 16) + le_bytes(pid as nat, 4));
    let digest = sha256_digest(msg.as_slice());
    let mut out = String::new();
    push_hex_lower_joined(&mut out, digest.as_slice());
    assert(out@ =~= spec_salt_from(nanos, pid));
    out
}

/// The salt used before one has been set.
pub const UNSET_SALT: &'static str = "uninitialised-salt";

/// The salt in effect: the one set for this installation, or
/// [`UNSET_SALT`] when none has been set yet.
pub fn salt_or_default(stored: Option<&str>) -> (r: &str)
    ensures
        r@ == match stored {
            Some(s) => s@,
            None => UNSET_SALT@,
        },
{
    match stored {
        Some(s) => s,
        None => UNSET_SALT,
    }
}

/// The stored salt after a request to set one: the first salt set stays.
pub open spec fn spec_set_salt(stored: Option<String>, salt: String) -> Option<String> {
    match stored {
        Some(s) => Some(s),
        None => Some(salt),
    }
}

/// Records the installation's salt. The first salt set stays: a later one
/// is ignored, so identifiers already handed out keep their meaning.
pub fn set_salt(stored: Option<String>, salt: String) -> (r: Option<String>)
    ensures
        r == spec_set_salt(stored, salt),
{
    match stored {
        Some(s) => Some(s),
        None => Some(salt),
    }
}

/// Once a salt is set, every later request leaves it in place, and the
/// salt in effect is always set afterwards.
pub proof fn law_salt_is_set_once(stored: Option<String>, first: String, second: String)
    ensures
        spec_set_salt(spec_set_salt(stored, first), second) == spec_set_salt(stored, first),
        spec_set_salt(stored, first) is Some,
{
}

} // verus!
