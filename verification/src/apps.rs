//! The applications that coordinate through the broker.

pub mod apps_mqtt_topics;
pub mod incident_data;
pub mod lengths;
pub mod qos_properties;
pub mod sist_camaras;
pub mod sist_dron;
pub mod sist_monitoreo;
