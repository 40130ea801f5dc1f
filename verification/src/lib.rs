//! Decoder for the fixed header that opens every MQTT control packet: the
//! packet-type code, the per-type flag bits, and the variable-length
//! "remaining length" field that sizes the rest of the packet.

pub mod error;
pub mod header;
pub mod packet_type;
pub mod remaining_length;
