//! The answer of the broker to one topic filter of a SUBSCRIBE.

use vstd::prelude::*;

verus! {

/// The return code of one topic filter in a SUBACK.
#[derive(Debug, Clone, Copy, PartialEq, Eq, Structural)]
pub enum SubscribeReturnCode {
    QoS0,
    QoS1,
    Failure,
}

impl SubscribeReturnCode {
    /// The code as its byte.
    pub open spec fn spec_to_byte(self) -> u8 {
        match self {
            SubscribeReturnCode::QoS0 => 0x00,
            SubscribeReturnCode::QoS1 => 0x01,
            SubscribeReturnCode::Failure => 0x80,
        }
    }

    /// The code that a byte stands for, if it stands for one.
    pub open spec fn spec_from_byte(byte: u8) -> Option<SubscribeReturnCode> {
        if byte == 0x00 {
            Some(SubscribeReturnCode::QoS0)
        } else if byte == 0x01 {
            Some(SubscribeReturnCode::QoS1)
        } else if byte == 0x80 {
            Some(SubscribeReturnCode::Failure)
        } else {
            None
        }
    }

    /// The code as its byte.
    pub fn to_byte(self) -> (byte: u8)
        ensures
            byte == self.spec_to_byte(),
    {
        match self {
            SubscribeReturnCode::QoS0 => 0x00,
            SubscribeReturnCode::QoS1 => 0x01,
            SubscribeReturnCode::Failure => 0x80,
        }
    }

    /// The code that `byte` stands for, if it stands for one.
    pub fn from_byte(byte: u8) -> (code: Option<SubscribeReturnCode>)
        ensures
            code == Self::spec_from_byte(byte),
    {
        if byte == 0x00 {
            Some(SubscribeReturnCode::QoS0)
        } else if byte == 0x01 {
            Some(SubscribeReturnCode::QoS1)
        } else if byte == 0x80 {
            Some(SubscribeReturnCode::Failure)
        } else {
            None
        }
    }
}

} // verus!
