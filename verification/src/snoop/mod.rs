//! Offline btsnoop analysis: the container format and the HCI, L2CAP and
//! RFCOMM layers inside it.

pub mod btsnoop;
pub mod stack;
pub mod report;
pub mod registration;
