//! The drone fleet.

pub mod dron;
pub mod dron_current_info;
pub mod dron_logic;
pub mod dron_state;
pub mod sist_dron_properties;
