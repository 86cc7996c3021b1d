//! DISCONNECT: the message with which a client ends its session.

use vstd::prelude::*;
use crate::mqtt::mqtt_error::MqttError;

verus! {

/// The first byte of every DISCONNECT.
pub const DISCONNECT_FIRST_BYTE: u8 = 0xE0;

/// The number of bytes of every DISCONNECT.
pub const DISCONNECT_LEN: usize = 2;

/// A DISCONNECT message. It carries nothing but its header.
#[derive(Debug, Clone, Copy, PartialEq, Eq, Structural)]
pub struct DisconnectMessage {}

impl DisconnectMessage {
    /// The message as it travels.
    pub open spec fn spec_to_bytes(self) -> Seq<u8> {
        seq![DISCONNECT_FIRST_BYTE, 0u8]
    }

    /// The message that `bytes` spells, if they spell a DISCONNECT and
    /// nothing more.
    pub open spec fn spec_from_bytes(bytes: Seq<u8>) -> Option<DisconnectMessage> {
        if bytes.len() != DISCONNECT_LEN || bytes[0] != DISCONNECT_FIRST_BYTE || bytes[1] != 0 {
            None
        } else {
            Some(DisconnectMessage {  })
        }
    }

    /// A DISCONNECT.
    pub fn new() -> (msg: DisconnectMessage) {
        DisconnectMessage {  }
    }

    /// The two bytes of the message.
    pub fn to_bytes(&self) -> (bytes: Vec<u8>)
        ensures
            bytes@ == self.spec_to_bytes(),
    {
        let mut bytes: Vec<u8> = Vec::new();
        bytes.push(DISCONNECT_FIRST_BYTE);
        bytes.push(0);
        assert(bytes@ =~= self.spec_to_bytes());
        bytes
    }

    /// Reads a DISCONNECT from the whole of `bytes`. Anything but its two
    /// bytes is a protocol violation.
    pub fn from_bytes(bytes: &Vec<u8>) -> (out: Result<DisconnectMessage, MqttError>)
        ensures
            match out {
                Ok(msg) => Self::spec_from_bytes(bytes@) == Some(msg),
                Err(e) => e == MqttError::ProtocolViolation && Self::spec_from_bytes(bytes@)
                    is None,
            },
    {
        if bytes.len() != DISCONNECT_LEN || bytes[0] != DISCONNECT_FIRST_BYTE || bytes[1] != 0 {
            return Err(MqttError::ProtocolViolation);
        }
        Ok(DisconnectMessage {  })
    }
}

/// A DISCONNECT is read back from its bytes.
pub proof fn lemma_disconnect_round_trip(msg: DisconnectMessage)
    ensures
        DisconnectMessage::spec_from_bytes(msg.spec_to_bytes()) == Some(msg),
{
}

} // verus!
