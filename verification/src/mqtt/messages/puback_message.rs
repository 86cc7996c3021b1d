//! PUBACK: the acknowledgement of a PUBLISH sent with quality of service 1.

use vstd::prelude::*;
use crate::mqtt::mqtt_error::MqttError;
use crate::mqtt::mqtt_utils::utils::{spec_u16_from_be_bytes, spec_u16_to_be_bytes};

verus! {

/// The first byte of every PUBACK.
pub const PUBACK_FIRST_BYTE: u8 = 0x40;

/// The number of bytes of every PUBACK.
pub const PUBACK_LEN: usize = 4;

/// A PUBACK message.
#[derive(Debug, Clone, Copy, PartialEq, Eq, Structural)]
pub struct PubAckMessage {
    pub packet_id: u16,
}

impl PubAckMessage {
    /// The message as it travels.
    pub open spec fn spec_to_bytes(self) -> Seq<u8> {
        seq![PUBACK_FIRST_BYTE, 2u8] + spec_u16_to_be_bytes(self.packet_id)
    }

    /// The message that `bytes` spells, if they spell a PUBACK and nothing
    /// more.
    pub open spec fn spec_from_bytes(bytes: Seq<u8>) -> Option<PubAckMessage> {
        if bytes.len() != PUBACK_LEN || bytes[0] != PUBACK_FIRST_BYTE || bytes[1] != 2 {
            None
        } else {
            Some(PubAckMessage { packet_id: spec_u16_from_be_bytes(bytes[2], bytes[3]) })
        }
    }

    /// The acknowledgement of the PUBLISH with this packet identifier.
    pub fn new(packet_id: u16) -> (msg: PubAckMessage)
        ensures
            msg.packet_id == packet_id,
    {
        PubAckMessage { packet_id }
    }

    /// The four bytes of the message.
    pub fn to_bytes(&self) -> (bytes: Vec<u8>)
        ensures
            bytes@ == self.spec_to_bytes(),
            bytes@.len() == PUBACK_LEN,
            bytes@[1] == bytes@.len() - 2,
    {
        let mut bytes: Vec<u8> = Vec::new();
        bytes.push(PUBACK_FIRST_BYTE);
        bytes.push(2);
        bytes.push((self.packet_id / 256) as u8);
        bytes.push((self.packet_id % 256) as u8);
        assert(bytes@ =~= self.spec_to_bytes());
        bytes
    }

    /// Reads a PUBACK from the whole of `bytes`. Any other length, first
    /// byte or remaining length is a protocol violation.
    pub fn from_bytes(bytes: &Vec<u8>) -> (out: Result<PubAckMessage, MqttError>)
        ensures
            match out {
                Ok(msg) => Self::spec_from_bytes(bytes@) == Some(msg),
                Err(e) => e == MqttError::ProtocolViolation && Self::spec_from_bytes(bytes@)
                    is None,
            },
    {
        if bytes.len() != PUBACK_LEN || bytes[0] != PUBACK_FIRST_BYTE || bytes[1] != 2 {
            return Err(MqttError::ProtocolViolation);
        }
        let packet_id: u16 = (bytes[2] as u16) * 256 + bytes[3] as u16;
        Ok(PubAckMessage { packet_id })
    }

    /// The identifier of the PUBLISH that is acknowledged.
    pub fn get_packet_id(&self) -> (packet_id: u16)
        ensures
            packet_id == self.packet_id,
    {
        self.packet_id
    }
}

/// A PUBACK is read back from its bytes, and its second byte counts the
/// bytes that follow it.
pub proof fn lemma_puback_round_trip(msg: PubAckMessage)
    ensures
        PubAckMessage::spec_from_bytes(msg.spec_to_bytes()) == Some(msg),
        msg.spec_to_bytes().len() == PUBACK_LEN,
        msg.spec_to_bytes()[1] == msg.spec_to_bytes().len() - 2,
{
    let bytes = msg.spec_to_bytes();
    assert(bytes[2] == (msg.packet_id / 256) as u8);
    assert(bytes[3] == (msg.packet_id % 256) as u8);
}

} // verus!
