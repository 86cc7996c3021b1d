//! UNSUBACK: the acknowledgement of an UNSUBSCRIBE.

use vstd::prelude::*;

verus! {

/// The number of bytes of every UNSUBACK.
pub const UNSUBACK_LEN: usize = 4;

/// An UNSUBACK message. It has no payload.
#[derive(Debug, Clone, Copy, PartialEq, Eq, Structural)]
pub struct Unsuback {
    pub fixed_header: FixedHeader,
    pub variable_header: VariableHeader,
}

/// The fixed header of an UNSUBACK.
#[derive(Debug, Clone, Copy, PartialEq, Eq, Structural)]
pub struct FixedHeader {
    /// High nibble of the first byte: 11 for an UNSUBACK.
    pub message_type: u8,
    /// Low nibble of the first byte: zero.
    pub reserved: u8,
    /// The number of bytes of the variable header: 2.
    pub remaining_length: u8,
}

/// The packet identifier of the UNSUBSCRIBE that is acknowledged.
#[derive(Debug, Clone, Copy, PartialEq, Eq, Structural)]
pub struct VariableHeader {
    pub packet_type_identifier_msb: u8,
    pub packet_type_identifier_lsb: u8,
}

impl Unsuback {
    /// Each half of the first byte fits its nibble.
    pub open spec fn wf(self) -> bool {
        self.fixed_header.message_type < 16 && self.fixed_header.reserved < 16
    }

    /// The message as it travels.
    pub open spec fn spec_to_bytes(self) -> Seq<u8> {
        seq![
            (self.fixed_header.message_type * 16 + self.fixed_header.reserved) as u8,
            self.fixed_header.remaining_length,
            self.variable_header.packet_type_identifier_msb,
            self.variable_header.packet_type_identifier_lsb,
        ]
    }

    /// The message that the first four bytes of `bytes` spell.
    pub open spec fn spec_from_bytes(bytes: Seq<u8>) -> Unsuback
        recommends
            bytes.len() >= UNSUBACK_LEN,
    {
        Unsuback {
            fixed_header: FixedHeader {
                message_type: bytes[0] / 16,
                reserved: bytes[0] % 16,
                remaining_length: bytes[1],
            },
            variable_header: VariableHeader {
                packet_type_identifier_msb: bytes[2],
                packet_type_identifier_lsb: bytes[3],
            },
        }
    }

    /// The acknowledgement of the UNSUBSCRIBE whose packet identifier has
    /// these two bytes.
    pub fn new(packet_type_identifier_msb: u8, packet_type_identifier_lsb: u8) -> (msg: Unsuback)
        ensures
            msg == (Unsuback {
                fixed_header: FixedHeader { message_type: 11, reserved: 0, remaining_length: 2 },
                variable_header: VariableHeader {
                    packet_type_identifier_msb,
                    packet_type_identifier_lsb,
                },
            }),
            msg.wf(),
    {
        let variable_header = VariableHeader {
            packet_type_identifier_msb,
            packet_type_identifier_lsb,
        };
        let fixed_header = FixedHeader { message_type: 11, reserved: 0, remaining_length: 2 };
        Unsuback { fixed_header, variable_header }
    }

    /// The four bytes of the message: the message type in the high nibble
    /// of the first byte, laid over the reserved bits, then the remaining
    /// length and the packet identifier.
    pub fn to_bytes(&self) -> (bytes: Vec<u8>)
        ensures
            self.wf() ==> bytes@ == self.spec_to_bytes(),
            bytes@.len() == UNSUBACK_LEN,
            bytes@[0] == (self.fixed_header.message_type << 4) | self.fixed_header.reserved,
            bytes@[1] == self.fixed_header.remaining_length,
            bytes@[2] == self.variable_header.packet_type_identifier_msb,
            bytes@[3] == self.variable_header.packet_type_identifier_lsb,
    {
        let mut bytes: Vec<u8> = Vec::new();
        let message_type: u8 = self.fixed_header.message_type;
        let reserved: u8 = self.fixed_header.reserved;
        let first: u8 = message_type << 4 | reserved;
        bytes.push(first);
        bytes.push(self.fixed_header.remaining_length);
        bytes.push(self.variable_header.packet_type_identifier_msb);
        bytes.push(self.variable_header.packet_type_identifier_lsb);
        if message_type < 16 && reserved < 16 {
            assert((message_type << 4) | reserved == message_type * 16 + reserved) by (bit_vector)
                requires
                    message_type < 16,
                    reserved < 16,
            ;
            assert(bytes@ =~= self.spec_to_bytes());
        }
        bytes
    }

    /// Reads an UNSUBACK from the first four bytes of `bytes`.
    pub fn from_bytes(bytes: &[u8]) -> (msg: Unsuback)
        requires
            bytes@.len() >= UNSUBACK_LEN,
        ensures
            msg == Self::spec_from_bytes(bytes@),
            msg.wf(),
    {
        let fixed_header = FixedHeader {
            message_type: bytes[0] / 16,
            reserved: bytes[0] % 16,
            remaining_length: bytes[1],
        };
        let variable_header = VariableHeader {
            packet_type_identifier_msb: bytes[2],
            packet_type_identifier_lsb: bytes[3],
        };
        Unsuback { fixed_header, variable_header }
    }
}

/// An UNSUBACK is read back from its bytes.
pub proof fn lemma_unsuback_round_trip(msg: Unsuback)
    requires
        msg.wf(),
    ensures
        Unsuback::spec_from_bytes(msg.spec_to_bytes()) == msg,
{
}

} // verus!
