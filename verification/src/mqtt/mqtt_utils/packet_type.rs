//! The kinds of message that travel between clients and broker.

use vstd::prelude::*;

verus! {

/// The kind of a message, as the high nibble of its first byte names it.
#[derive(Debug, Clone, Copy, PartialEq, Eq, Structural)]
pub enum PacketType {
    Connect,
    Connack,
    Publish,
    Puback,
    Subscribe,
    Suback,
    Disconnect,
}

impl PacketType {
    /// The code of this kind on the wire.
    pub open spec fn spec_code(self) -> u8 {
        match self {
            PacketType::Connect => 1,
            PacketType::Connack => 2,
            PacketType::Publish => 3,
            PacketType::Puback => 4,
            PacketType::Subscribe => 8,
            PacketType::Suback => 9,
            PacketType::Disconnect => 14,
        }
    }

    /// The kind that a code stands for, if it stands for one.
    pub open spec fn spec_from_code(code: u8) -> Option<PacketType> {
        if code == 1 {
            Some(PacketType::Connect)
        } else if code == 2 {
            Some(PacketType::Connack)
        } else if code == 3 {
            Some(PacketType::Publish)
        } else if code == 4 {
            Some(PacketType::Puback)
        } else if code == 8 {
            Some(PacketType::Subscribe)
        } else if code == 9 {
            Some(PacketType::Suback)
        } else if code == 14 {
            Some(PacketType::Disconnect)
        } else {
            None
        }
    }

    /// The code of this kind on the wire.
    pub fn code(self) -> (code: u8)
        ensures
            code == self.spec_code(),
            0 < code < 16,
    {
        match self {
            PacketType::Connect => 1,
            PacketType::Connack => 2,
            PacketType::Publish => 3,
            PacketType::Puback => 4,
            PacketType::Subscribe => 8,
            PacketType::Suback => 9,
            PacketType::Disconnect => 14,
        }
    }

    /// The kind that `code` stands for; none for a code that names no kind.
    pub fn from_code(code: u8) -> (kind: Option<PacketType>)
        ensures
            kind == Self::spec_from_code(code),
    {
        if code == 1 {
            Some(PacketType::Connect)
        } else if code == 2 {
            Some(PacketType::Connack)
        } else if code == 3 {
            Some(PacketType::Publish)
        } else if code == 4 {
            Some(PacketType::Puback)
        } else if code == 8 {
            Some(PacketType::Subscribe)
        } else if code == 9 {
            Some(PacketType::Suback)
        } else if code == 14 {
            Some(PacketType::Disconnect)
        } else {
            None
        }
    }
}

/// Every kind is found again from its code.
pub proof fn lemma_packet_type_code_round_trip(kind: PacketType)
    ensures
        PacketType::spec_from_code(kind.spec_code()) == Some(kind),
{
}

} // verus!
