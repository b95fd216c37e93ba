//! The listen-only RFCOMM capture: correlation of received frames with the
//! operator's markers, and the channel's error reporting.

pub mod capture;
pub mod rfcomm;
pub mod report;
