//! CONNACK: the answer of the broker to a CONNECT.

use vstd::prelude::*;
use crate::mqtt::messages::connack_variable_header::VariableHeader;
use crate::mqtt::messages::connect_return_code::ConnectReturnCode;
use crate::mqtt::mqtt_error::MqttError;

verus! {

/// The first byte of every CONNACK.
pub const CONNACK_FIRST_BYTE: u8 = 0x20;

/// The number of bytes of every CONNACK.
pub const CONNACK_LEN: usize = 4;

/// A CONNACK message.
#[derive(Debug, Clone, Copy, PartialEq, Eq, Structural)]
pub struct ConnackMessage {
    pub variable_header: VariableHeader,
}

impl ConnackMessage {
    /// The acknowledge flags are 0 or 1.
    pub open spec fn wf(self) -> bool {
        self.variable_header.connect_acknowledge_flags <= 1
    }

    /// The message as it travels.
    pub open spec fn spec_to_bytes(self) -> Seq<u8> {
        seq![
            CONNACK_FIRST_BYTE,
            2u8,
            self.variable_header.connect_acknowledge_flags,
            self.variable_header.connect_return_code.spec_to_byte(),
        ]
    }

    /// The message that `bytes` spells, if they spell a CONNACK and nothing
    /// more.
    pub open spec fn spec_from_bytes(bytes: Seq<u8>) -> Option<ConnackMessage> {
        if bytes.len() != CONNACK_LEN || bytes[0] != CONNACK_FIRST_BYTE || bytes[1] != 2
            || bytes[2] > 1 {
            None
        } else {
            match ConnectReturnCode::spec_from_byte(bytes[3]) {
                Some(connect_return_code) => Some(
                    ConnackMessage {
                        variable_header: VariableHeader {
                            connect_acknowledge_flags: bytes[2],
                            connect_return_code,
                        },
                    },
                ),
                None => None,
            }
        }
    }

    /// The answer with the given return code, for a session that is, or is
    /// not, already present.
    pub fn new(session_present: bool, connect_return_code: ConnectReturnCode) -> (msg:
        ConnackMessage)
        ensures
            msg.wf(),
            msg.variable_header.connect_return_code == connect_return_code,
            msg.variable_header.connect_acknowledge_flags == (if session_present {
                1u8
            } else {
                0u8
            }),
    {
        let connect_acknowledge_flags: u8 = if session_present {
            1
        } else {
            0
        };
        ConnackMessage {
            variable_header: VariableHeader { connect_acknowledge_flags, connect_return_code },
        }
    }

    /// The four bytes of the message.
    pub fn to_bytes(&self) -> (bytes: Vec<u8>)
        ensures
            bytes@ == self.spec_to_bytes(),
            bytes@.len() == CONNACK_LEN,
    {
        let mut bytes: Vec<u8> = Vec::new();
        bytes.push(CONNACK_FIRST_BYTE);
        bytes.push(2);
        bytes.push(self.variable_header.connect_acknowledge_flags);
        bytes.push(self.variable_header.connect_return_code.to_byte());
        assert(bytes@ =~= self.spec_to_bytes());
        bytes
    }

    /// Reads a CONNACK from the whole of `bytes`. Any other length, first
    /// byte or remaining length, acknowledge flags above 1 and a return
    /// code above 5 are protocol violations.
    pub fn from_bytes(bytes: &Vec<u8>) -> (out: Result<ConnackMessage, MqttError>)
        ensures
            match out {
                Ok(msg) => Self::spec_from_bytes(bytes@) == Some(msg) && msg.wf(),
                Err(e) => e == MqttError::ProtocolViolation && Self::spec_from_bytes(bytes@)
                    is None,
            },
    {
        if bytes.len() != CONNACK_LEN || bytes[0] != CONNACK_FIRST_BYTE || bytes[1] != 2
            || bytes[2] > 1 {
            return Err(MqttError::ProtocolViolation);
        }
        let code = ConnectReturnCode::from_byte(bytes[3]);
        match code {
            Some(connect_return_code) => Ok(
                ConnackMessage {
                    variable_header: VariableHeader {
                        connect_acknowledge_flags: bytes[2],
                        connect_return_code,
                    },
                },
            ),
            None => Err(MqttError::ProtocolViolation),
        }
    }

    /// The return code of the answer.
    pub fn get_return_code(&self) -> (code: ConnectReturnCode)
        ensures
            code == self.variable_header.connect_return_code,
    {
        self.variable_header.connect_return_code
    }

    /// What the answer means to the client that asked: success on return
    /// code zero, a refusal on any other.
    pub fn to_result(&self) -> (out: Result<(), MqttError>)
        ensures
            out is Ok <==> self.variable_header.connect_return_code
                == ConnectReturnCode::ConnectionAccepted,
            out is Err ==> out == Err::<(), MqttError>(MqttError::AuthRefused),
    {
        if self.variable_header.connect_return_code.is_accepted() {
            Ok(())
        } else {
            Err(MqttError::AuthRefused)
        }
    }
}

/// A CONNACK is read back from its bytes.
pub proof fn lemma_connack_round_trip(msg: ConnackMessage)
    requires
        msg.wf(),
    ensures
        ConnackMessage::spec_from_bytes(msg.spec_to_bytes()) == Some(msg),
        msg.spec_to_bytes().len() == CONNACK_LEN,
{
}

} // verus!
