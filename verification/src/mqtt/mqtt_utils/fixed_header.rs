//! The two bytes that open every message.

use vstd::prelude::*;
use crate::mqtt::mqtt_error::MqttError;
use crate::mqtt::mqtt_utils::packet_type::PacketType;

verus! {

/// The number of bytes of a fixed header.
pub const FIXED_HEADER_LEN: usize = 2;

/// The first remaining length that one byte cannot announce.
pub const REMAINING_LENGTH_LIMIT: usize = 128;

/// What a fixed header says: the kind of the message, its four flag bits
/// and the number of bytes that follow the header.
pub struct FixedHeaderView {
    pub packet_type: PacketType,
    pub flags: u8,
    pub remaining_length: u8,
}

impl FixedHeaderView {
    /// The flags fit their nibble and the length fits one byte without a
    /// continuation bit.
    pub open spec fn wf(self) -> bool {
        self.flags < 16 && self.remaining_length < REMAINING_LENGTH_LIMIT
    }

    /// The header as two bytes.
    pub open spec fn spec_to_bytes(self) -> Seq<u8> {
        seq![(self.packet_type.spec_code() * 16 + self.flags) as u8, self.remaining_length]
    }

    /// The header that the first two bytes of `bytes` spell, if they spell
    /// one.
    pub open spec fn spec_from_bytes(bytes: Seq<u8>) -> Option<FixedHeaderView> {
        if bytes.len() < FIXED_HEADER_LEN {
            None
        } else if bytes[1] >= REMAINING_LENGTH_LIMIT {
            None
        } else {
            match PacketType::spec_from_code(bytes[0] / 16) {
                Some(packet_type) => Some(
                    FixedHeaderView {
                        packet_type,
                        flags: bytes[0] % 16,
                        remaining_length: bytes[1],
                    },
                ),
                None => None,
            }
        }
    }
}

/// The fixed header of a message.
#[derive(Debug, Clone, Copy, PartialEq, Eq)]
pub struct FixedHeader {
    packet_type: PacketType,
    flags: u8,
    remaining_length: u8,
}

impl View for FixedHeader {
    type V = FixedHeaderView;

    closed spec fn view(&self) -> FixedHeaderView {
        FixedHeaderView {
            packet_type: self.packet_type,
            flags: self.flags,
            remaining_length: self.remaining_length,
        }
    }
}

impl FixedHeader {
    #[verifier::type_invariant]
    spec fn inv(&self) -> bool {
        self@.wf()
    }

    /// A header for a message of kind `packet_type` with `remaining_length`
    /// bytes behind it. Flags above 15 and lengths above 127 are refused.
    pub fn new(packet_type: PacketType, flags: u8, remaining_length: u8) -> (out: Result<
        FixedHeader,
        MqttError,
    >)
        ensures
            match out {
                Ok(header) => header@ == (FixedHeaderView { packet_type, flags, remaining_length })
                    && header@.wf(),
                Err(e) => e == MqttError::ProtocolViolation && !(FixedHeaderView {
                    packet_type,
                    flags,
                    remaining_length,
                }).wf(),
            },
    {
        if flags >= 16 || remaining_length >= 128 {
            return Err(MqttError::ProtocolViolation);
        }
        Ok(FixedHeader { packet_type, flags, remaining_length })
    }

    /// The number of bytes of a fixed header.
    pub fn fixed_header_len() -> (len: usize)
        ensures
            len == FIXED_HEADER_LEN,
    {
        FIXED_HEADER_LEN
    }

    /// The header as it travels.
    pub fn to_bytes(&self) -> (bytes: Vec<u8>)
        ensures
            bytes@ == self@.spec_to_bytes(),
            self@.wf(),
    {
        proof {
            use_type_invariant(self);
        }
        let first: u8 = self.packet_type.code() * 16 + self.flags;
        let mut bytes: Vec<u8> = Vec::new();
        bytes.push(first);
        bytes.push(self.remaining_length);
        assert(bytes@ =~= self@.spec_to_bytes());
        bytes
    }

    /// Reads a header from the first two bytes of `bytes`. Fewer than two
    /// bytes, a code that names no kind of message and a length above 127
    /// are protocol violations.
    pub fn from_bytes(bytes: &Vec<u8>) -> (out: Result<FixedHeader, MqttError>)
        ensures
            match out {
                Ok(header) => FixedHeaderView::spec_from_bytes(bytes@) == Some(header@)
                    && header@.wf(),
                Err(e) => e == MqttError::ProtocolViolation && FixedHeaderView::spec_from_bytes(
                    bytes@,
                ) is None,
            },
    {
        if bytes.len() < FIXED_HEADER_LEN {
            return Err(MqttError::ProtocolViolation);
        }
        let first: u8 = bytes[0];
        let remaining_length: u8 = bytes[1];
        if remaining_length >= 128 {
            return Err(MqttError::ProtocolViolation);
        }
        let kind = PacketType::from_code(first / 16);
        match kind {
            Some(packet_type) => Ok(
                FixedHeader { packet_type, flags: first % 16, remaining_length },
            ),
            None => Err(MqttError::ProtocolViolation),
        }
    }

    /// The kind of message that the header opens.
    pub fn get_message_type(&self) -> (kind: PacketType)
        ensures
            kind == self@.packet_type,
    {
        self.packet_type
    }

    /// The four flag bits of the first byte.
    pub fn get_flags(&self) -> (flags: u8)
        ensures
            flags == self@.flags,
            flags < 16,
    {
        proof {
            use_type_invariant(self);
        }
        self.flags
    }

    /// The number of bytes that follow the header.
    pub fn get_rem_len(&self) -> (len: usize)
        ensures
            len == self@.remaining_length,
            len < REMAINING_LENGTH_LIMIT,
    {
        proof {
            use_type_invariant(self);
        }
        self.remaining_length as usize
    }

    /// Whether the header opens a DISCONNECT.
    pub fn is_disconnect_msg(&self) -> (yes: bool)
        ensures
            yes == (self@.packet_type == PacketType::Disconnect),
    {
        match self.packet_type {
            PacketType::Disconnect => true,
            _ => false,
        }
    }
}

/// A header is read back from its two bytes, whatever follows them.
pub proof fn lemma_fixed_header_round_trip(header: FixedHeaderView, rest: Seq<u8>)
    requires
        header.wf(),
    ensures
        FixedHeaderView::spec_from_bytes(header.spec_to_bytes() + rest) == Some(header),
{
    let bytes = header.spec_to_bytes() + rest;
    assert(bytes[0] == (header.packet_type.spec_code() * 16 + header.flags) as u8);
    assert(bytes[1] == header.remaining_length);
}

} // verus!
