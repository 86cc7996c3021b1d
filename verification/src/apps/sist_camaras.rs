//! The camera fleet.

pub mod camera;
pub mod sistema_camaras_logic;
