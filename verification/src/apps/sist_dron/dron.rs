//! A drone: what it does when an incident is reported, when its peers
//! announce themselves, when it moves and when its battery runs low.
//!
//! The drone decides; whoever runs it measures distances, computes the
//! next position of a flight, publishes and waits, and reports back.

use std::collections::HashMap;
use vstd::prelude::*;
use crate::apps::incident_data::incident::{Incident, IncidentState};
use crate::apps::incident_data::incident_info::IncidentInfo;
use crate::apps::sist_dron::dron_current_info::{DronCurrentInfo, FULL_BATTERY};
use crate::apps::sist_dron::dron_logic::{
    decide_if_should_move_to_incident,
    record_distance,
    spec_is_candidate,
    spec_record,
    DronDistance,
};
use crate::apps::sist_dron::dron_state::DronState;
use crate::apps::sist_dron::sist_dron_properties::SistDronProperties;
use crate::mqtt::mqtt_error::MqttError;

verus! {

broadcast use vstd::std_specs::hash::group_hash_axioms;

/// What the owner of a drone does after the drone took note of a message.
#[derive(Debug, Clone, Copy, PartialEq, Eq, Structural)]
pub enum DronAction {
    /// Nothing.
    Ignore,
    /// Publish the current info of the drone, collect what its peers
    /// announce while the election lasts, then close the election.
    JoinElection,
    /// Publish the current info of the drone.
    PublishCurrentInfo,
}

/// What the owner of a drone does after a step of the battery.
#[derive(Debug, Clone, Copy, PartialEq, Eq, Structural)]
pub enum BatteryAction {
    /// Nothing.
    Nothing,
    /// Interrupt whatever the drone was doing: it leaves for maintenance.
    GoToMaintenance,
    /// Publish the current info of the drone: its battery is full and it
    /// is back at its range center.
    FullyCharged,
}

/// Where an incident is and how far each drone that announced itself is
/// from it.
#[derive(Debug)]
pub struct IncidentDistances {
    latitude: u64,
    longitude: u64,
    distances: Vec<DronDistance>,
}

/// Where an incident is and how far each drone that announced itself is
/// from it.
pub struct IncidentDistancesView {
    pub position: (u64, u64),
    pub distances: Seq<DronDistance>,
}

impl View for IncidentDistances {
    type V = IncidentDistancesView;

    closed spec fn view(&self) -> IncidentDistancesView {
        IncidentDistancesView {
            position: (self.latitude, self.longitude),
            distances: self.distances@,
        }
    }
}

/// What a drone holds.
pub struct DronView {
    pub current_info: DronCurrentInfo,
    pub properties: SistDronProperties,
    pub qos: u8,
    /// For each incident that the drone took note of, where it is and how
    /// far each drone is from it.
    pub distances_by_inc: Map<IncidentInfo, IncidentDistancesView>,
    /// The incident that the drone flies to or is at, and where it is.
    pub target: Option<(IncidentInfo, (u64, u64))>,
}

/// The battery level after a step of charging: never above 100.
pub open spec fn spec_charged(battery_lvl: u8, rate: u8) -> u8 {
    if battery_lvl + rate >= FULL_BATTERY {
        FULL_BATTERY
    } else {
        (battery_lvl + rate) as u8
    }
}

/// The battery level after a step of draining: never below zero.
pub open spec fn spec_drained(battery_lvl: u8, drain: u8) -> u8 {
    if battery_lvl <= drain {
        0
    } else {
        (battery_lvl - drain) as u8
    }
}

impl DronView {
    /// The battery level is a percentage, the constants are well formed,
    /// the quality of service is 0 or 1, and a drone that flies to an
    /// incident or is at one knows which.
    pub open spec fn wf(self) -> bool {
        &&& self.current_info.wf()
        &&& self.properties.wf()
        &&& self.qos <= 1
        &&& (self.current_info.state == DronState::FlyingToIncident || self.current_info.state
            == DronState::AtIncident) ==> self.target is Some
    }

    /// Whether `info` is the incident that the drone flies to or is at.
    pub open spec fn spec_attends(self, info: IncidentInfo) -> bool {
        match self.target {
            Some(target) => target.0 == info,
            None => false,
        }
    }

    /// The distances held for an incident; none for an incident that the
    /// drone did not take note of.
    pub open spec fn spec_distances(self, info: IncidentInfo) -> Seq<DronDistance> {
        if self.distances_by_inc.contains_key(info) {
            self.distances_by_inc[info].distances
        } else {
            Seq::empty()
        }
    }

    /// The drone after an incident was reported. `distance_from_center` is
    /// the distance between the incident and the range center of the
    /// drone, `distance_from_dron` that between the incident and the
    /// drone.
    ///
    /// A drone that waits for incidents takes note of an incident that
    /// needs attention within its range, with its own distance, and joins
    /// the election. A drone at an incident that is resolved starts its
    /// way back. A resolved incident is forgotten by every drone.
    pub open spec fn spec_process_incident(
        self,
        incident: Incident,
        distance_from_center: u64,
        distance_from_dron: u64,
    ) -> (DronView, DronAction) {
        let info = incident.spec_info();
        if incident.state == IncidentState::ActiveIncident {
            if self.current_info.state == DronState::ExpectingToRecvIncident
                && distance_from_center <= self.properties.range {
                (
                    DronView {
                        distances_by_inc: self.distances_by_inc.insert(
                            info,
                            IncidentDistancesView {
                                position: (incident.latitude, incident.longitude),
                                distances: spec_record(
                                    self.spec_distances(info),
                                    self.current_info.id,
                                    distance_from_dron,
                                ),
                            },
                        ),
                        ..self
                    },
                    DronAction::JoinElection,
                )
            } else {
                (self, DronAction::Ignore)
            }
        } else if self.current_info.state == DronState::AtIncident && self.spec_attends(info) {
            (
                DronView {
                    current_info: DronCurrentInfo {
                        state: DronState::ReturningToBase,
                        ..self.current_info
                    },
                    distances_by_inc: self.distances_by_inc.remove(info),
                    target: None,
                    ..self
                },
                DronAction::PublishCurrentInfo,
            )
        } else {
            (
                DronView { distances_by_inc: self.distances_by_inc.remove(info), ..self },
                DronAction::Ignore,
            )
        }
    }

    /// The drone after a peer announced its distance to an incident: the
    /// distance is taken note of if the incident is.
    pub open spec fn spec_process_peer(self, info: IncidentInfo, peer_id: u8, distance: u64) -> DronView {
        if self.distances_by_inc.contains_key(info) {
            DronView {
                distances_by_inc: self.distances_by_inc.insert(
                    info,
                    IncidentDistancesView {
                        position: self.distances_by_inc[info].position,
                        distances: spec_record(
                            self.distances_by_inc[info].distances,
                            peer_id,
                            distance,
                        ),
                    },
                ),
                ..self
            }
        } else {
            self
        }
    }

    /// Whether the drone flies to an incident once its election is closed:
    /// it does when it waits for incidents and is among the nearest drones
    /// that announced themselves.
    pub open spec fn spec_is_elected(self, info: IncidentInfo) -> bool {
        &&& self.current_info.state == DronState::ExpectingToRecvIncident
        &&& self.distances_by_inc.contains_key(info)
        &&& spec_is_candidate(
            self.distances_by_inc[info].distances,
            self.current_info.id,
            self.properties.max_in_flight,
        )
    }

    /// The drone after the election for an incident was closed.
    pub open spec fn spec_close_election(self, info: IncidentInfo) -> DronView {
        if self.spec_is_elected(info) {
            DronView {
                current_info: DronCurrentInfo {
                    state: DronState::FlyingToIncident,
                    ..self.current_info
                },
                target: Some((info, self.distances_by_inc[info].position)),
                ..self
            }
        } else {
            self
        }
    }

    /// Where the drone is flying to: to its incident, back to its range
    /// center or to the maintenance base. Nowhere in any other state.
    pub open spec fn spec_flight_target(self) -> Option<(u64, u64)> {
        match self.current_info.state {
            DronState::FlyingToIncident => match self.target {
                Some(target) => Some(target.1),
                None => None,
            },
            DronState::ReturningToBase => Some(
                (self.properties.range_center_lat, self.properties.range_center_lon),
            ),
            DronState::Maintenance => Some(
                (self.properties.maintenance_lat, self.properties.maintenance_lon),
            ),
            _ => None,
        }
    }

    /// What a drone does once its flight is over.
    pub open spec fn spec_arrival_state(state: DronState) -> DronState {
        match state {
            DronState::FlyingToIncident => DronState::AtIncident,
            DronState::ReturningToBase => DronState::ExpectingToRecvIncident,
            DronState::Maintenance => DronState::Charging,
            other => other,
        }
    }

    /// The drone after a step of its flight. `distance_to_target` is the
    /// distance that was left before the step, `next_position` where a
    /// step of the drone's speed toward the target leads. With less than a
    /// step left the drone lands on the target and its flight is over;
    /// else it moves on. A drone that is not flying stays where it is.
    pub open spec fn spec_fly_step(self, distance_to_target: u64, next_position: (u64, u64)) -> DronView {
        match self.spec_flight_target() {
            None => self,
            Some(target) => if distance_to_target < self.properties.speed {
                DronView {
                    current_info: DronCurrentInfo {
                        latitude: target.0,
                        longitude: target.1,
                        state: Self::spec_arrival_state(self.current_info.state),
                        ..self.current_info
                    },
                    ..self
                }
            } else {
                DronView {
                    current_info: DronCurrentInfo {
                        latitude: next_position.0,
                        longitude: next_position.1,
                        ..self.current_info
                    },
                    ..self
                }
            },
        }
    }

    /// The drone after a step of its battery. A charging battery gains; at
    /// 100 the drone is back at its range center, waiting for incidents.
    /// Any other battery drains; at the maintenance threshold the drone
    /// gives up what it was doing and leaves for maintenance.
    pub open spec fn spec_update_battery(self) -> (DronView, BatteryAction) {
        let info = self.current_info;
        if info.state == DronState::Charging {
            let battery_lvl = spec_charged(info.battery_lvl, self.properties.charging_rate);
            if battery_lvl == FULL_BATTERY {
                (
                    DronView {
                        current_info: DronCurrentInfo {
                            latitude: self.properties.range_center_lat,
                            longitude: self.properties.range_center_lon,
                            battery_lvl,
                            state: DronState::ExpectingToRecvIncident,
                            ..info
                        },
                        ..self
                    },
                    BatteryAction::FullyCharged,
                )
            } else {
                (
                    DronView { current_info: DronCurrentInfo { battery_lvl, ..info }, ..self },
                    BatteryAction::Nothing,
                )
            }
        } else {
            let battery_lvl = spec_drained(info.battery_lvl, self.properties.drain_per_step);
            if info.state != DronState::Maintenance && battery_lvl
                <= self.properties.maintenance_threshold {
                (
                    DronView {
                        current_info: DronCurrentInfo {
                            battery_lvl,
                            state: DronState::Maintenance,
                            ..info
                        },
                        target: None,
                        ..self
                    },
                    BatteryAction::GoToMaintenance,
                )
            } else {
                (
                    DronView { current_info: DronCurrentInfo { battery_lvl, ..info }, ..self },
                    BatteryAction::Nothing,
                )
            }
        }
    }
}

/// A drone of the fleet.
#[derive(Debug)]
pub struct Dron {
    current_info: DronCurrentInfo,
    dron_properties: SistDronProperties,
    qos: u8,
    drone_distances_by_inc: HashMap<u16, IncidentDistances>,
    target: Option<(IncidentInfo, (u64, u64))>,
}

impl View for Dron {
    type V = DronView;

    closed spec fn view(&self) -> DronView {
        DronView {
            current_info: self.current_info,
            properties: self.dron_properties,
            qos: self.qos,
            distances_by_inc: Map::new(
                |info: IncidentInfo| self.drone_distances_by_inc@.contains_key(info.spec_key()),
                |info: IncidentInfo| self.drone_distances_by_inc@[info.spec_key()]@,
            ),
            target: self.target,
        }
    }
}

impl Dron {
    /// A drone with a full battery that waits for incidents at the given
    /// place, which becomes its range center. Constants that are not well
    /// formed and a quality of service above 1 make a malformed
    /// configuration.
    pub fn new(id: u8, lat: u64, lon: u64, properties: SistDronProperties, qos: u8) -> (out:
        Result<Dron, MqttError>)
        ensures
            match out {
                Ok(dron) => dron@ == (DronView {
                    current_info: DronCurrentInfo {
                        id,
                        latitude: lat,
                        longitude: lon,
                        battery_lvl: FULL_BATTERY,
                        state: DronState::ExpectingToRecvIncident,
                    },
                    properties: SistDronProperties {
                        range_center_lat: lat,
                        range_center_lon: lon,
                        ..properties
                    },
                    qos,
                    distances_by_inc: Map::empty(),
                    target: None,
                }) && dron@.wf() && properties.wf() && qos <= 1,
                Err(e) => e == MqttError::Config && !(properties.wf() && qos <= 1),
            },
    {
        let checked = properties.validate();
        if checked.is_err() || qos > 1 {
            return Err(MqttError::Config);
        }
        let mut dron_properties = properties;
        dron_properties.set_range_center_position(lat, lon);
        let current_info = DronCurrentInfo::new(
            id,
            lat,
            lon,
            FULL_BATTERY,
            DronState::ExpectingToRecvIncident,
        );
        let dron = Dron {
            current_info,
            dron_properties,
            qos,
            drone_distances_by_inc: HashMap::new(),
            target: None,
        };
        assert(dron@.distances_by_inc =~= Map::empty());
        Ok(dron)
    }

    /// The quality of service with which the drone publishes and
    /// subscribes.
    pub fn get_qos(&self) -> (qos: u8)
        ensures
            qos == self@.qos,
    {
        self.qos
    }

    /// Identifier, position, battery level and state of the drone.
    pub fn get_current_info(&self) -> (info: DronCurrentInfo)
        ensures
            info == self@.current_info,
    {
        self.current_info
    }

    /// The identifier of the drone.
    pub fn get_id(&self) -> (id: u8)
        ensures
            id == self@.current_info.id,
    {
        self.current_info.id
    }

    /// What the drone is doing.
    pub fn get_state(&self) -> (state: DronState)
        ensures
            state == self@.current_info.state,
    {
        self.current_info.state
    }

    /// Latitude and longitude of the drone.
    pub fn get_current_position(&self) -> (position: (u64, u64))
        ensures
            position == (self@.current_info.latitude, self@.current_info.longitude),
    {
        (self.current_info.latitude, self.current_info.longitude)
    }

    /// The constants of the drone.
    pub fn get_properties(&self) -> (properties: SistDronProperties)
        ensures
            properties == self@.properties,
    {
        self.dron_properties
    }

    /// Takes note of a reported incident. `distance_from_center` is the
    /// distance between the incident and the range center of the drone,
    /// `distance_from_dron` that between the incident and the drone.
    pub fn process_incident(
        &mut self,
        incident: Incident,
        distance_from_center: u64,
        distance_from_dron: u64,
    ) -> (action: DronAction)
        requires
            old(self)@.wf(),
        ensures
            final(self)@.wf(),
            (final(self)@, action) == old(self)@.spec_process_incident(
                incident,
                distance_from_center,
                distance_from_dron,
            ),
    {
        let info = incident.get_info();
        let key: u16 = info.key();
        let ghost before = self@.distances_by_inc;
        if !incident.is_resolved() {
            let waiting: bool = match self.current_info.state {
                DronState::ExpectingToRecvIncident => true,
                _ => false,
            };
            if waiting && distance_from_center <= self.dron_properties.range {
                let known = self.drone_distances_by_inc.remove(&key);
                let mut distances: Vec<DronDistance> = match known {
                    Some(entry) => entry.distances,
                    None => Vec::new(),
                };
                record_distance(&mut distances, self.current_info.id, distance_from_dron);
                let ghost recorded = distances@;
                let position = incident.get_position();
                self.drone_distances_by_inc.insert(
                    key,
                    IncidentDistances { latitude: position.0, longitude: position.1, distances },
                );
                assert(self@.distances_by_inc =~= before.insert(
                    info,
                    IncidentDistancesView {
                        position: (incident.latitude, incident.longitude),
                        distances: recorded,
                    },
                ));
                DronAction::JoinElection
            } else {
                DronAction::Ignore
            }
        } else {
            self.drone_distances_by_inc.remove(&key);
            assert(self@.distances_by_inc =~= before.remove(info));
            let at_incident: bool = match self.current_info.state {
                DronState::AtIncident => true,
                _ => false,
            };
            let attended: bool = match self.target {
                Some(target) => target.0 == info,
                None => false,
            };
            if at_incident && attended {
                self.current_info.state = DronState::ReturningToBase;
                self.target = None;
                DronAction::PublishCurrentInfo
            } else {
                DronAction::Ignore
            }
        }
    }

    /// Takes note of the distance between a peer and an incident, if the
    /// drone took note of the incident.
    pub fn process_peer_info(&mut self, info: IncidentInfo, peer_id: u8, distance: u64)
        requires
            old(self)@.wf(),
        ensures
            final(self)@.wf(),
            final(self)@ == old(self)@.spec_process_peer(info, peer_id, distance),
    {
        let key: u16 = info.key();
        let ghost before = self@.distances_by_inc;
        let known = self.drone_distances_by_inc.remove(&key);
        match known {
            Some(entry) => {
                let ghost position = entry@.position;
                let mut entry = entry;
                record_distance(&mut entry.distances, peer_id, distance);
                let ghost recorded = entry.distances@;
                self.drone_distances_by_inc.insert(key, entry);
                assert(self@.distances_by_inc =~= before.insert(
                    info,
                    IncidentDistancesView { position, distances: recorded },
                ));
            },
            None => {
                assert(self@.distances_by_inc =~= before);
            },
        }
    }

    /// Closes the election for an incident and says whether the drone
    /// flies to it. A drone that does changes state for it.
    pub fn close_election(&mut self, info: IncidentInfo) -> (elected: bool)
        requires
            old(self)@.wf(),
        ensures
            final(self)@.wf(),
            elected == old(self)@.spec_is_elected(info),
            final(self)@ == old(self)@.spec_close_election(info),
    {
        let waiting: bool = match self.current_info.state {
            DronState::ExpectingToRecvIncident => true,
            _ => false,
        };
        if !waiting {
            return false;
        }
        let key: u16 = info.key();
        let known = self.drone_distances_by_inc.get(&key);
        let (elected, position) = match known {
            Some(entry) => (
                decide_if_should_move_to_incident(
                    &entry.distances,
                    self.current_info.id,
                    self.dron_properties.max_in_flight,
                ),
                (entry.latitude, entry.longitude),
            ),
            None => (false, (0, 0)),
        };
        if elected {
            self.current_info.state = DronState::FlyingToIncident;
            self.target = Some((info, position));
        }
        elected
    }

    /// Where the drone is flying to, if it is flying.
    pub fn flight_target(&self) -> (target: Option<(u64, u64)>)
        ensures
            target == self@.spec_flight_target(),
    {
        match self.current_info.state {
            DronState::FlyingToIncident => match self.target {
                Some(target) => Some(target.1),
                None => None,
            },
            DronState::ReturningToBase => Some(self.dron_properties.get_range_center_position()),
            DronState::Maintenance => Some(self.dron_properties.get_maintenance_position()),
            _ => None,
        }
    }

    /// Moves the drone by one step of its flight, and says whether there
    /// was a flight to move on. `distance_to_target` is the distance that
    /// was left before the step, `next_position` where a step of the
    /// drone's speed toward the target leads. After each step the current
    /// info of the drone is to be published.
    pub fn fly_step(&mut self, distance_to_target: u64, next_position: (u64, u64)) -> (moved:
        bool)
        requires
            old(self)@.wf(),
        ensures
            final(self)@.wf(),
            final(self)@ == old(self)@.spec_fly_step(distance_to_target, next_position),
            moved == old(self)@.spec_flight_target() is Some,
    {
        let flying_to = self.flight_target();
        match flying_to {
            None => false,
            Some(target) => {
                if distance_to_target < self.dron_properties.speed {
                    let arrival = match self.current_info.state {
                        DronState::FlyingToIncident => DronState::AtIncident,
                        DronState::ReturningToBase => DronState::ExpectingToRecvIncident,
                        DronState::Maintenance => DronState::Charging,
                        other => other,
                    };
                    self.current_info.latitude = target.0;
                    self.current_info.longitude = target.1;
                    self.current_info.state = arrival;
                } else {
                    self.current_info.latitude = next_position.0;
                    self.current_info.longitude = next_position.1;
                }
                true
            },
        }
    }

    /// Lets one step of time act on the battery and says what follows from
    /// it.
    pub fn update_battery(&mut self) -> (action: BatteryAction)
        requires
            old(self)@.wf(),
        ensures
            final(self)@.wf(),
            (final(self)@, action) == old(self)@.spec_update_battery(),
    {
        let charging: bool = match self.current_info.state {
            DronState::Charging => true,
            _ => false,
        };
        let in_maintenance: bool = match self.current_info.state {
            DronState::Maintenance => true,
            _ => false,
        };
        let battery_lvl: u8 = self.current_info.battery_lvl;
        if charging {
            let rate: u8 = self.dron_properties.charging_rate;
            if rate >= FULL_BATTERY || battery_lvl >= FULL_BATTERY - rate {
                self.current_info.battery_lvl = FULL_BATTERY;
                self.current_info.latitude = self.dron_properties.range_center_lat;
                self.current_info.longitude = self.dron_properties.range_center_lon;
                self.current_info.state = DronState::ExpectingToRecvIncident;
                BatteryAction::FullyCharged
            } else {
                self.current_info.battery_lvl = battery_lvl + rate;
                BatteryAction::Nothing
            }
        } else {
            let drain: u8 = self.dron_properties.drain_per_step;
            let drained: u8 = if battery_lvl <= drain {
                0
            } else {
                battery_lvl - drain
            };
            self.current_info.battery_lvl = drained;
            if !in_maintenance && drained <= self.dron_properties.maintenance_threshold {
                self.current_info.state = DronState::Maintenance;
                self.target = None;
                BatteryAction::GoToMaintenance
            } else {
                BatteryAction::Nothing
            }
        }
    }
}

/// Whatever happens to a drone, its battery level stays a percentage and a
/// drone on its way to an incident knows which.
pub proof fn lemma_dron_stays_wf(
    dron: DronView,
    incident: Incident,
    info: IncidentInfo,
    peer_id: u8,
    distance_a: u64,
    distance_b: u64,
    position: (u64, u64),
)
    requires
        dron.wf(),
    ensures
        dron.spec_process_incident(incident, distance_a, distance_b).0.wf(),
        dron.spec_process_peer(info, peer_id, distance_a).wf(),
        dron.spec_close_election(info).wf(),
        dron.spec_fly_step(distance_a, position).wf(),
        dron.spec_update_battery().0.wf(),
{
}

} // verus!
