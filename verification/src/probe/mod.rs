//! The noise-control probe: the transmit allowlist, the vendor channel's
//! error reporting, and the rule that decides whether a change happened.

pub mod channel;
pub mod frames;
pub mod session;
