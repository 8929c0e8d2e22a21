//! The Bluetooth Transport Protocol: frames, the handshake, the sliding
//! acknowledgement window, and the cutting of messages into segments.

pub mod framing;
pub mod window;
pub mod handshake;
pub mod advertising_data;
pub mod communicator;
pub mod uuids;
