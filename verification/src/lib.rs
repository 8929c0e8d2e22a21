//! Core of a Matter-over-BLE client: little-endian byte I/O, the Matter
//! message and exchange headers, the TLV value model with its container-aware
//! decoder, and the Bluetooth Transport Protocol (framing, handshake,
//! segmentation and the sliding acknowledgement window).
//!
//! Every function is verified against its contract. The few calls into code
//! that is not verified are marked as such where they stand.

pub mod endian;
pub mod reader;
pub mod writer;
pub mod types;
pub mod packet;
pub mod payload;
pub mod btp;
pub mod tlv;
