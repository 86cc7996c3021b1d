//! The broker: who is connected, who subscribed to what, and what goes to
//! whom.

pub mod client_reader;
pub mod mqtt_server;
pub mod registry;
pub mod user;
