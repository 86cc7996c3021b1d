//! What a drone is doing.

use vstd::prelude::*;

verus! {

/// The state of a drone.
#[derive(Debug, Clone, Copy, PartialEq, Eq, Structural)]
pub enum DronState {
    /// At its range center, ready for an incident.
    ExpectingToRecvIncident,
    /// On its way to an incident.
    FlyingToIncident,
    /// At an incident, until it is resolved.
    AtIncident,
    /// On its way back to its range center.
    ReturningToBase,
    /// At the maintenance base, until the battery is full.
    Charging,
    /// On its way to the maintenance base.
    Maintenance,
}

impl DronState {
    /// The state as its byte.
    pub open spec fn spec_to_byte(self) -> u8 {
        match self {
            DronState::ExpectingToRecvIncident => 1,
            DronState::FlyingToIncident => 2,
            DronState::AtIncident => 3,
            DronState::ReturningToBase => 4,
            DronState::Charging => 5,
            DronState::Maintenance => 6,
        }
    }

    /// The state that a byte stands for, if it stands for one.
    pub open spec fn spec_from_byte(byte: u8) -> Option<DronState> {
        if byte == 1 {
            Some(DronState::ExpectingToRecvIncident)
        } else if byte == 2 {
            Some(DronState::FlyingToIncident)
        } else if byte == 3 {
            Some(DronState::AtIncident)
        } else if byte == 4 {
            Some(DronState::ReturningToBase)
        } else if byte == 5 {
            Some(DronState::Charging)
        } else if byte == 6 {
            Some(DronState::Maintenance)
        } else {
            None
        }
    }

    /// The state as its byte.
    pub fn to_byte(&self) -> (byte: u8)
        ensures
            byte == self.spec_to_byte(),
    {
        match self {
            DronState::ExpectingToRecvIncident => 1,
            DronState::FlyingToIncident => 2,
            DronState::AtIncident => 3,
            DronState::ReturningToBase => 4,
            DronState::Charging => 5,
            DronState::Maintenance => 6,
        }
    }

    /// The state that `byte` stands for, if it stands for one.
    pub fn from_byte(byte: u8) -> (out: Option<DronState>)
        ensures
            out == Self::spec_from_byte(byte),
    {
        if byte == 1 {
            Some(DronState::ExpectingToRecvIncident)
        } else if byte == 2 {
            Some(DronState::FlyingToIncident)
        } else if byte == 3 {
            Some(DronState::AtIncident)
        } else if byte == 4 {
            Some(DronState::ReturningToBase)
        } else if byte == 5 {
            Some(DronState::Charging)
        } else if byte == 6 {
            Some(DronState::Maintenance)
        } else {
            None
        }
    }
}

} // verus!
