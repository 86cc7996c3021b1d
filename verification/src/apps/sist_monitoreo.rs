//! The monitoring system.

pub mod sistema_monitoreo;
