//! The constants of a drone.

use vstd::prelude::*;
use crate::apps::lengths::{is_length, spec_is_length};
use crate::apps::sist_dron::dron_current_info::FULL_BATTERY;
use crate::mqtt::mqtt_error::MqttError;

verus! {

/// How many drones fly to one incident unless the configuration says
/// otherwise.
pub const DEFAULT_MAX_IN_FLIGHT: u8 = 2;

/// The constants that a drone is configured with. Positions, the range and
/// the speed are the bit patterns of IEEE 754 doubles that are not
/// negative where they measure a length.
#[derive(Debug, Clone, Copy, PartialEq, Eq, Structural)]
pub struct SistDronProperties {
    /// Where the drone waits for incidents.
    pub range_center_lat: u64,
    pub range_center_lon: u64,
    /// How far from its range center the drone attends incidents.
    pub range: u64,
    /// Where the drone flies to for maintenance.
    pub maintenance_lat: u64,
    pub maintenance_lon: u64,
    /// The battery level, in percent, at which the drone leaves for
    /// maintenance.
    pub maintenance_threshold: u8,
    /// The battery level, in percent, at which the drone is low on
    /// battery.
    pub low_battery_threshold: u8,
    /// How many percent the battery gains at each step of charging.
    pub charging_rate: u8,
    /// How many percent the battery loses at each step.
    pub drain_per_step: u8,
    /// How many drones fly to one incident.
    pub max_in_flight: u8,
    /// How far the drone moves at each step.
    pub speed: u64,
}

impl SistDronProperties {
    /// The thresholds are percentages, a charging battery gains something
    /// at each step, and range and speed are lengths.
    pub open spec fn wf(self) -> bool {
        &&& self.maintenance_threshold <= FULL_BATTERY
        &&& self.low_battery_threshold <= FULL_BATTERY
        &&& self.charging_rate >= 1
        &&& spec_is_length(self.range)
        &&& spec_is_length(self.speed)
    }

    /// Checks the constants. A threshold above 100, a charging rate of
    /// zero, and a range or a speed that is no length make a malformed
    /// configuration.
    pub fn validate(&self) -> (out: Result<(), MqttError>)
        ensures
            out is Ok <==> self.wf(),
            out is Err ==> out == Err::<(), MqttError>(MqttError::Config),
    {
        if self.maintenance_threshold > FULL_BATTERY || self.low_battery_threshold > FULL_BATTERY
            || self.charging_rate < 1 || !is_length(self.range) || !is_length(self.speed) {
            Err(MqttError::Config)
        } else {
            Ok(())
        }
    }

    /// Where the drone waits for incidents.
    pub fn get_range_center_position(&self) -> (position: (u64, u64))
        ensures
            position == (self.range_center_lat, self.range_center_lon),
    {
        (self.range_center_lat, self.range_center_lon)
    }

    /// Moves the range center.
    pub fn set_range_center_position(&mut self, latitude: u64, longitude: u64)
        ensures
            *final(self) == (SistDronProperties {
                range_center_lat: latitude,
                range_center_lon: longitude,
                ..*old(self)
            }),
    {
        self.range_center_lat = latitude;
        self.range_center_lon = longitude;
    }

    /// Where the drone flies to for maintenance.
    pub fn get_maintenance_position(&self) -> (position: (u64, u64))
        ensures
            position == (self.maintenance_lat, self.maintenance_lon),
    {
        (self.maintenance_lat, self.maintenance_lon)
    }
}

} // verus!
