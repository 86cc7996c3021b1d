//! The messages of the wire format, each with its encoder and decoder.

pub mod connack_message;
pub mod connack_variable_header;
pub mod connect_message;
pub mod connect_return_code;
pub mod disconnect_message;
pub mod message;
pub mod puback_message;
pub mod publish_message;
pub mod suback_message;
pub mod subscribe_message;
pub mod subscribe_return_code;
pub mod unsuback_message;
