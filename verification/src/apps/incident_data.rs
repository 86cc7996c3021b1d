//! Incidents: what the monitoring system reports and the fleets attend.

pub mod incident;
pub mod incident_info;
