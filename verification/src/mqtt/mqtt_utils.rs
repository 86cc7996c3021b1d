//! Helpers shared by every message of the wire format.

pub mod fixed_header;
pub mod packet_type;
pub mod utils;
