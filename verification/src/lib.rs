//! Wireless channel recommendation library.
//!
//! Decodes the attribute-based (TLV) records that a kernel scan dump
//! produces, extracts per-access-point observations, and recommends the
//! least congested channel for the host's own access point.

pub mod channel;
pub mod mac;
pub mod record;
pub mod scan;
pub mod select;
pub mod tlv;
