//! An incident: where it is and whether it still needs attention.

use vstd::prelude::*;
use vstd::bytes::{
    lemma_auto_spec_u64_to_from_le_bytes,
    spec_u64_from_le_bytes,
    spec_u64_to_le_bytes,
    u64_from_le_bytes,
    u64_to_le_bytes,
};
use crate::apps::incident_data::incident_info::{IncidentInfo, IncidentSource};
use crate::mqtt::mqtt_error::MqttError;
use crate::mqtt::mqtt_utils::utils::{copy_range, push_bytes};

verus! {

/// The number of bytes of a serialized incident.
pub const INCIDENT_LEN: usize = 19;

/// Whether an incident still needs attention.
#[derive(Debug, Clone, Copy, PartialEq, Eq, Structural)]
pub enum IncidentState {
    ActiveIncident,
    ResolvedIncident,
}

impl IncidentState {
    /// The state as its byte.
    pub open spec fn spec_to_byte(self) -> u8 {
        match self {
            IncidentState::ActiveIncident => 1,
            IncidentState::ResolvedIncident => 2,
        }
    }

    /// The state that a byte stands for, if it stands for one.
    pub open spec fn spec_from_byte(byte: u8) -> Option<IncidentState> {
        if byte == 1 {
            Some(IncidentState::ActiveIncident)
        } else if byte == 2 {
            Some(IncidentState::ResolvedIncident)
        } else {
            None
        }
    }
}

/// An incident. Latitude and longitude are held as the bit patterns of
/// IEEE 754 doubles.
#[derive(Debug, Clone, Copy, PartialEq, Eq, Structural)]
pub struct Incident {
    pub id: u8,
    pub latitude: u64,
    pub longitude: u64,
    pub state: IncidentState,
    pub source: IncidentSource,
}

impl Incident {
    /// The incident as it travels: identifier, latitude and longitude in
    /// little-endian order, state, source.
    pub open spec fn spec_to_bytes(self) -> Seq<u8> {
        seq![self.id] + spec_u64_to_le_bytes(self.latitude) + spec_u64_to_le_bytes(self.longitude)
            + seq![self.state.spec_to_byte(), self.source.spec_to_byte()]
    }

    /// The incident that `bytes` spells, if they spell one and nothing
    /// more.
    pub open spec fn spec_from_bytes(bytes: Seq<u8>) -> Option<Incident> {
        if bytes.len() != INCIDENT_LEN {
            None
        } else {
            match (
                IncidentState::spec_from_byte(bytes[17]),
                IncidentSource::spec_from_byte(bytes[18]),
            ) {
                (Some(state), Some(source)) => Some(
                    Incident {
                        id: bytes[0],
                        latitude: spec_u64_from_le_bytes(bytes.subrange(1, 9)),
                        longitude: spec_u64_from_le_bytes(bytes.subrange(9, 17)),
                        state,
                        source,
                    },
                ),
                _ => None,
            }
        }
    }

    /// What identifies the incident.
    pub open spec fn spec_info(self) -> IncidentInfo {
        IncidentInfo { inc_id: self.id, src: self.source }
    }

    /// A new incident at the given place, in need of attention.
    pub fn new(id: u8, latitude: u64, longitude: u64, source: IncidentSource) -> (incident:
        Incident)
        ensures
            incident == (Incident {
                id,
                latitude,
                longitude,
                state: IncidentState::ActiveIncident,
                source,
            }),
    {
        Incident { id, latitude, longitude, state: IncidentState::ActiveIncident, source }
    }

    /// The identifier of the incident.
    pub fn get_id(&self) -> (id: u8)
        ensures
            id == self.id,
    {
        self.id
    }

    /// What identifies the incident.
    pub fn get_info(&self) -> (info: IncidentInfo)
        ensures
            info == self.spec_info(),
    {
        IncidentInfo::new(self.id, self.source)
    }

    /// Latitude and longitude of the incident.
    pub fn get_position(&self) -> (position: (u64, u64))
        ensures
            position == (self.latitude, self.longitude),
    {
        (self.latitude, self.longitude)
    }

    /// Whether the incident needs no more attention.
    pub fn is_resolved(&self) -> (resolved: bool)
        ensures
            resolved == (self.state == IncidentState::ResolvedIncident),
    {
        match self.state {
            IncidentState::ResolvedIncident => true,
            IncidentState::ActiveIncident => false,
        }
    }

    /// Marks the incident as resolved.
    pub fn set_resolved(&mut self)
        ensures
            *final(self) == (Incident { state: IncidentState::ResolvedIncident, ..*old(self) }),
    {
        self.state = IncidentState::ResolvedIncident;
    }

    /// The nineteen bytes of the incident.
    pub fn to_bytes(&self) -> (bytes: Vec<u8>)
        ensures
            bytes@ == self.spec_to_bytes(),
            bytes@.len() == INCIDENT_LEN,
    {
        proof {
            lemma_auto_spec_u64_to_from_le_bytes();
        }
        let mut bytes: Vec<u8> = Vec::new();
        bytes.push(self.id);
        let latitude = u64_to_le_bytes(self.latitude);
        push_bytes(&mut bytes, &latitude);
        let longitude = u64_to_le_bytes(self.longitude);
        push_bytes(&mut bytes, &longitude);
        let state: u8 = match self.state {
            IncidentState::ActiveIncident => 1,
            IncidentState::ResolvedIncident => 2,
        };
        bytes.push(state);
        bytes.push(self.source.to_byte());
        assert(bytes@ =~= self.spec_to_bytes());
        bytes
    }

    /// Reads an incident from the whole of `bytes`. Any other length and a
    /// byte that names no state or no source are protocol violations.
    pub fn from_bytes(bytes: &Vec<u8>) -> (out: Result<Incident, MqttError>)
        ensures
            match out {
                Ok(incident) => Self::spec_from_bytes(bytes@) == Some(incident),
                Err(e) => e == MqttError::ProtocolViolation && Self::spec_from_bytes(bytes@)
                    is None,
            },
    {
        if bytes.len() != INCIDENT_LEN {
            return Err(MqttError::ProtocolViolation);
        }
        let state = if bytes[17] == 1 {
            IncidentState::ActiveIncident
        } else if bytes[17] == 2 {
            IncidentState::ResolvedIncident
        } else {
            return Err(MqttError::ProtocolViolation);
        };
        let read_source = IncidentSource::from_byte(bytes[18]);
        let source = match read_source {
            Some(source) => source,
            None => {
                return Err(MqttError::ProtocolViolation);
            },
        };
        let latitude_bytes = copy_range(bytes, 1, 9);
        let longitude_bytes = copy_range(bytes, 9, 17);
        let latitude: u64 = u64_from_le_bytes(latitude_bytes.as_slice());
        let longitude: u64 = u64_from_le_bytes(longitude_bytes.as_slice());
        Ok(Incident { id: bytes[0], latitude, longitude, state, source })
    }
}

/// An incident is read back from its bytes.
pub proof fn lemma_incident_round_trip(incident: Incident)
    ensures
        Incident::spec_from_bytes(incident.spec_to_bytes()) == Some(incident),
{
    lemma_auto_spec_u64_to_from_le_bytes();
    let bytes = incident.spec_to_bytes();
    let latitude = spec_u64_to_le_bytes(incident.latitude);
    let longitude = spec_u64_to_le_bytes(incident.longitude);
    assert(bytes.subrange(1, 9) =~= latitude);
    assert(bytes.subrange(9, 17) =~= longitude);
    assert(bytes[17] == incident.state.spec_to_byte());
    assert(bytes[18] == incident.source.spec_to_byte());
}

} // verus!
