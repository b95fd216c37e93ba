//! Bluetooth radio availability.
//!
//! Tells "you have no Bluetooth" from "your Bluetooth is switched off" from
//! "your Bluetooth responded", so that the UI can give each its own message.
//! A radio appears under the `BTH` enumerator (paired peers appear under
//! `BTHENUM` / `BTHLE` instead, so peers alone are no evidence of a working
//! radio); a radio switched off in Windows still enumerates there.

use super::BluetoothAvailability;
use crate::text::{decimal, push_decimal, push_str};
use vstd::prelude::*;

verus! {

/// Instance id prefix of the radio device itself, as opposed to peers.
pub const RADIO_ENUMERATOR: &'static str = "BTH";

/// The availability detail when radio nodes are present and switched on.
pub open spec fn present_detail(n: nat) -> Seq<char> {
    decimal(n) + " Bluetooth radio node(s) present and the Windows Bluetooth stack responded."@
}

/// The availability detail when radio nodes are present but switched off.
pub open spec fn switched_off_detail(n: nat) -> Seq<char> {
    decimal(n) + " Bluetooth radio node(s) present, but Bluetooth is switched off in Windows."@
}

/// Availability from the number of radio nodes enumerated under
/// [`RADIO_ENUMERATOR`] and whether Windows reports the radio switched on.
pub fn availability(radio_nodes: usize, switched_on: bool) -> (r: BluetoothAvailability)
    ensures
        radio_nodes == 0 ==> {
            &&& !r.radio_present
            &&& !r.radio_enabled
            &&& r.detail@ == "No Bluetooth radio is present on this system."@
        },
        radio_nodes > 0 ==> {
            &&& r.radio_present
            &&& r.radio_enabled == switched_on
            &&& r.detail@ == if switched_on {
                present_detail(radio_nodes as nat)
            } else {
                switched_off_detail(radio_nodes as nat)
            }
        },
{
    if radio_nodes == 0 {
        return BluetoothAvailability::unavailable("No Bluetooth radio is present on this system.");
    }
    let mut detail = String::new();
    push_decimal(&mut detail, radio_nodes as u128);
    if switched_on {
        push_str(
            &mut detail,
            " Bluetooth radio node(s) present and the Windows Bluetooth stack responded.",
        );
    } else {
        push_str(&mut detail, " Bluetooth radio node(s) present, but Bluetooth is switched off in Windows.");
    }
    BluetoothAvailability { radio_present: true, radio_enabled: switched_on, detail }
}

} // verus!
