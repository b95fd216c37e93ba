//! Bose QC Control Center: the verified core.
//!
//! Capability bookkeeping, the typed command layer, the simulated and
//! hardware-backed device models, and the offline tooling that decodes
//! Bluetooth traces and vendor RFCOMM frames.

pub mod text;
pub mod device;
pub mod snoop;
pub mod probe;
pub mod listen;
pub mod audio;
pub mod bluetooth;
pub mod bose;
pub mod digest;
pub mod util;
pub mod session;
pub mod discovery;
pub mod cli;
