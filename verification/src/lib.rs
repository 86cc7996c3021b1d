//! A small MQTT 3.1.1 broker core together with the coordination logic of a
//! camera fleet and a drone fleet that talk to each other through it.

pub mod apps;
pub mod mqtt;
