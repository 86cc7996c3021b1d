//! What a drone publishes about itself.

use vstd::prelude::*;
use vstd::bytes::{
    lemma_auto_spec_u64_to_from_le_bytes,
    spec_u64_from_le_bytes,
    spec_u64_to_le_bytes,
    u64_from_le_bytes,
    u64_to_le_bytes,
};
use crate::apps::sist_dron::dron_state::DronState;
use crate::mqtt::mqtt_error::MqttError;
use crate::mqtt::mqtt_utils::utils::{copy_range, push_bytes};

verus! {

/// The number of bytes of a serialized current info.
pub const DRON_CURRENT_INFO_LEN: usize = 19;

/// The battery level of a full battery, in percent.
pub const FULL_BATTERY: u8 = 100;

/// Identifier, position, battery level and state of a drone. Latitude and
/// longitude are the bit patterns of IEEE 754 doubles; the battery level is
/// a percentage.
#[derive(Debug, Clone, Copy, PartialEq, Eq, Structural)]
pub struct DronCurrentInfo {
    pub id: u8,
    pub latitude: u64,
    pub longitude: u64,
    pub battery_lvl: u8,
    pub state: DronState,
}

impl DronCurrentInfo {
    /// The battery level is a percentage.
    pub open spec fn wf(self) -> bool {
        self.battery_lvl <= FULL_BATTERY
    }

    /// The info as it travels: identifier, latitude and longitude in
    /// little-endian order, battery level, state.
    pub open spec fn spec_to_bytes(self) -> Seq<u8> {
        seq![self.id] + spec_u64_to_le_bytes(self.latitude) + spec_u64_to_le_bytes(self.longitude)
            + seq![self.battery_lvl, self.state.spec_to_byte()]
    }

    /// The info that `bytes` spells, if they spell one and nothing more.
    pub open spec fn spec_from_bytes(bytes: Seq<u8>) -> Option<DronCurrentInfo> {
        if bytes.len() != DRON_CURRENT_INFO_LEN || bytes[17] > FULL_BATTERY {
            None
        } else {
            match DronState::spec_from_byte(bytes[18]) {
                Some(state) => Some(
                    DronCurrentInfo {
                        id: bytes[0],
                        latitude: spec_u64_from_le_bytes(bytes.subrange(1, 9)),
                        longitude: spec_u64_from_le_bytes(bytes.subrange(9, 17)),
                        battery_lvl: bytes[17],
                        state,
                    },
                ),
                None => None,
            }
        }
    }

    /// The info of a drone. A battery level above 100 is taken as 100.
    pub fn new(id: u8, latitude: u64, longitude: u64, battery_lvl: u8, state: DronState) -> (info:
        DronCurrentInfo)
        ensures
            info == (DronCurrentInfo {
                id,
                latitude,
                longitude,
                battery_lvl: if battery_lvl > FULL_BATTERY {
                    FULL_BATTERY
                } else {
                    battery_lvl
                },
                state,
            }),
            info.wf(),
    {
        let battery_lvl: u8 = if battery_lvl > FULL_BATTERY {
            FULL_BATTERY
        } else {
            battery_lvl
        };
        DronCurrentInfo { id, latitude, longitude, battery_lvl, state }
    }

    /// The identifier of the drone.
    pub fn get_id(&self) -> (id: u8)
        ensures
            id == self.id,
    {
        self.id
    }

    /// Latitude and longitude of the drone.
    pub fn get_current_position(&self) -> (position: (u64, u64))
        ensures
            position == (self.latitude, self.longitude),
    {
        (self.latitude, self.longitude)
    }

    /// The battery level of the drone.
    pub fn get_battery_lvl(&self) -> (battery_lvl: u8)
        ensures
            battery_lvl == self.battery_lvl,
    {
        self.battery_lvl
    }

    /// What the drone is doing.
    pub fn get_state(&self) -> (state: DronState)
        ensures
            state == self.state,
    {
        self.state
    }

    /// The nineteen bytes of the info.
    pub fn to_bytes(&self) -> (bytes: Vec<u8>)
        ensures
            bytes@ == self.spec_to_bytes(),
            bytes@.len() == DRON_CURRENT_INFO_LEN,
    {
        proof {
            lemma_auto_spec_u64_to_from_le_bytes();
        }
        let mut bytes: Vec<u8> = Vec::new();
        bytes.push(self.id);
        let latitude = u64_to_le_bytes(self.latitude);
        push_bytes(&mut bytes, &latitude);
        let longitude = u64_to_le_bytes(self.longitude);
        push_bytes(&mut bytes, &longitude);
        bytes.push(self.battery_lvl);
        bytes.push(self.state.to_byte());
        assert(bytes@ =~= self.spec_to_bytes());
        bytes
    }

    /// Reads an info from the whole of `bytes`. Any other length, a battery
    /// level above 100 and a byte that names no state are protocol
    /// violations.
    pub fn from_bytes(bytes: &Vec<u8>) -> (out: Result<DronCurrentInfo, MqttError>)
        ensures
            match out {
                Ok(info) => Self::spec_from_bytes(bytes@) == Some(info) && info.wf(),
                Err(e) => e == MqttError::ProtocolViolation && Self::spec_from_bytes(bytes@)
                    is None,
            },
    {
        if bytes.len() != DRON_CURRENT_INFO_LEN || bytes[17] > FULL_BATTERY {
            return Err(MqttError::ProtocolViolation);
        }
        let read_state = DronState::from_byte(bytes[18]);
        let state = match read_state {
            Some(state) => state,
            None => {
                return Err(MqttError::ProtocolViolation);
            },
        };
        let latitude_bytes = copy_range(bytes, 1, 9);
        let longitude_bytes = copy_range(bytes, 9, 17);
        let latitude: u64 = u64_from_le_bytes(latitude_bytes.as_slice());
        let longitude: u64 = u64_from_le_bytes(longitude_bytes.as_slice());
        Ok(DronCurrentInfo { id: bytes[0], latitude, longitude, battery_lvl: bytes[17], state })
    }
}

/// An info with a battery level up to 100 is read back from its bytes.
pub proof fn lemma_current_info_round_trip(info: DronCurrentInfo)
    requires
        info.wf(),
    ensures
        DronCurrentInfo::spec_from_bytes(info.spec_to_bytes()) == Some(info),
{
    lemma_auto_spec_u64_to_from_le_bytes();
    let bytes = info.spec_to_bytes();
    assert(bytes.subrange(1, 9) =~= spec_u64_to_le_bytes(info.latitude));
    assert(bytes.subrange(9, 17) =~= spec_u64_to_le_bytes(info.longitude));
    assert(bytes[17] == info.battery_lvl);
    assert(bytes[18] == info.state.spec_to_byte());
}

} // verus!
