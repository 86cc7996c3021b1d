//! The answer of the broker to a CONNECT.

use vstd::prelude::*;

verus! {

/// The return code of a CONNACK.
#[derive(Debug, Clone, Copy, PartialEq, Eq, Structural)]
pub enum ConnectReturnCode {
    ConnectionAccepted,
    UnacceptableProtocolVersion,
    IdentifierRejected,
    ServerUnavailable,
    BadUsernameOrPassword,
    NotAuthorized,
}

impl ConnectReturnCode {
    /// The code as its byte.
    pub open spec fn spec_to_byte(self) -> u8 {
        match self {
            ConnectReturnCode::ConnectionAccepted => 0,
            ConnectReturnCode::UnacceptableProtocolVersion => 1,
            ConnectReturnCode::IdentifierRejected => 2,
            ConnectReturnCode::ServerUnavailable => 3,
            ConnectReturnCode::BadUsernameOrPassword => 4,
            ConnectReturnCode::NotAuthorized => 5,
        }
    }

    /// The code that a byte stands for, if it stands for one.
    pub open spec fn spec_from_byte(byte: u8) -> Option<ConnectReturnCode> {
        if byte == 0 {
            Some(ConnectReturnCode::ConnectionAccepted)
        } else if byte == 1 {
            Some(ConnectReturnCode::UnacceptableProtocolVersion)
        } else if byte == 2 {
            Some(ConnectReturnCode::IdentifierRejected)
        } else if byte == 3 {
            Some(ConnectReturnCode::ServerUnavailable)
        } else if byte == 4 {
            Some(ConnectReturnCode::BadUsernameOrPassword)
        } else if byte == 5 {
            Some(ConnectReturnCode::NotAuthorized)
        } else {
            None
        }
    }

    /// The code as its byte.
    pub fn to_byte(self) -> (byte: u8)
        ensures
            byte == self.spec_to_byte(),
    {
        match self {
            ConnectReturnCode::ConnectionAccepted => 0,
            ConnectReturnCode::UnacceptableProtocolVersion => 1,
            ConnectReturnCode::IdentifierRejected => 2,
            ConnectReturnCode::ServerUnavailable => 3,
            ConnectReturnCode::BadUsernameOrPassword => 4,
            ConnectReturnCode::NotAuthorized => 5,
        }
    }

    /// The code that `byte` stands for; none above 5.
    pub fn from_byte(byte: u8) -> (code: Option<ConnectReturnCode>)
        ensures
            code == Self::spec_from_byte(byte),
    {
        if byte == 0 {
            Some(ConnectReturnCode::ConnectionAccepted)
        } else if byte == 1 {
            Some(ConnectReturnCode::UnacceptableProtocolVersion)
        } else if byte == 2 {
            Some(ConnectReturnCode::IdentifierRejected)
        } else if byte == 3 {
            Some(ConnectReturnCode::ServerUnavailable)
        } else if byte == 4 {
            Some(ConnectReturnCode::BadUsernameOrPassword)
        } else if byte == 5 {
            Some(ConnectReturnCode::NotAuthorized)
        } else {
            None
        }
    }

    /// Whether the broker accepted the connection.
    pub fn is_accepted(self) -> (yes: bool)
        ensures
            yes == (self == ConnectReturnCode::ConnectionAccepted),
    {
        match self {
            ConnectReturnCode::ConnectionAccepted => true,
            _ => false,
        }
    }
}

} // verus!
