//! Search for a bootloader unlock code.
//!
//! Candidate codes are derived from a device's identifiers and a rotating
//! secret through a SHA-256 based formula, checked with a Luhn checksum and
//! handed one by one to a device session. This crate holds the verified
//! core: the checksum, the code formula, the secret progression, the
//! decisions of the device session, and the state machines of the liveness
//! monitor and of the sweep controller. Everything that touches a process,
//! a clock or a device is left to the caller.

pub mod checksum;
pub mod controller;
pub mod formula;
pub mod monitor;
pub mod numeral;
pub mod secrets;
pub mod session;
pub mod text;
pub mod usb;
