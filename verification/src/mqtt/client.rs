//! The client side of a connection: what to send, when to send it again
//! and what to make of what arrives.

pub mod mqtt_client;
pub mod mqtt_client_listener;
pub mod mqtt_client_retransmitter;
