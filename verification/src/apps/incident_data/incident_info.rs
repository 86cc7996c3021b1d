//! What identifies an incident across its lifetime.

use vstd::prelude::*;

verus! {

/// Who reported an incident.
#[derive(Debug, Clone, Copy, PartialEq, Eq, Hash, Structural)]
pub enum IncidentSource {
    /// An operator of the monitoring system.
    Manual,
    /// A camera.
    Automated,
}

impl IncidentSource {
    /// The source as its byte.
    pub open spec fn spec_to_byte(self) -> u8 {
        match self {
            IncidentSource::Manual => 1,
            IncidentSource::Automated => 2,
        }
    }

    /// The source that a byte stands for, if it stands for one.
    pub open spec fn spec_from_byte(byte: u8) -> Option<IncidentSource> {
        if byte == 1 {
            Some(IncidentSource::Manual)
        } else if byte == 2 {
            Some(IncidentSource::Automated)
        } else {
            None
        }
    }

    /// The source as its byte.
    pub fn to_byte(&self) -> (byte: u8)
        ensures
            byte == self.spec_to_byte(),
    {
        match self {
            IncidentSource::Manual => 1,
            IncidentSource::Automated => 2,
        }
    }

    /// The source that `byte` stands for, if it stands for one.
    pub fn from_byte(byte: u8) -> (out: Option<IncidentSource>)
        ensures
            out == Self::spec_from_byte(byte),
    {
        if byte == 1 {
            Some(IncidentSource::Manual)
        } else if byte == 2 {
            Some(IncidentSource::Automated)
        } else {
            None
        }
    }
}

/// The identifier of an incident together with its source: two incidents
/// are the same exactly when both agree.
#[derive(Debug, Clone, Copy, PartialEq, Eq, Hash, Structural)]
pub struct IncidentInfo {
    pub inc_id: u8,
    pub src: IncidentSource,
}

impl IncidentInfo {
    /// The number that stands for the incident in a map: the identifier in
    /// the high byte, the source in the low one.
    pub open spec fn spec_key(self) -> u16 {
        (self.inc_id * 256 + self.src.spec_to_byte()) as u16
    }

    /// The identifying pair of an incident.
    pub fn new(inc_id: u8, src: IncidentSource) -> (info: IncidentInfo)
        ensures
            info == (IncidentInfo { inc_id, src }),
    {
        IncidentInfo { inc_id, src }
    }

    /// The identifier of the incident.
    pub fn get_inc_id(&self) -> (inc_id: u8)
        ensures
            inc_id == self.inc_id,
    {
        self.inc_id
    }

    /// The source of the incident.
    pub fn get_src(&self) -> (src: IncidentSource)
        ensures
            src == self.src,
    {
        self.src
    }

    /// The number that stands for the incident in a map.
    pub fn key(&self) -> (key: u16)
        ensures
            key == self.spec_key(),
    {
        (self.inc_id as u16) * 256 + self.src.to_byte() as u16
    }
}

/// Two incidents with the same key are the same incident.
pub proof fn lemma_key_injective(a: IncidentInfo, b: IncidentInfo)
    requires
        a.spec_key() == b.spec_key(),
    ensures
        a == b,
{
}

} // verus!
