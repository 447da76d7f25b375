//! Validation and error reporting for netlink attribute (NLA) records.
//!
//! The library decodes fixed-width integers, MAC and IPv6 addresses,
//! UTF-8 strings and NLA headers out of untrusted byte buffers, and encodes
//! the same values back. Every failure is a value of one of the closed error
//! types in [`errors`]; no function here panics.
pub mod errors;
pub mod bytes;
pub mod decode;
pub mod text;
pub mod nla;
pub mod encode;
pub mod laws;
