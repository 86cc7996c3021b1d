//! Wire format, client runtime and broker.

pub mod client;
pub mod messages;
pub mod mqtt_error;
pub mod mqtt_utils;
pub mod server;
