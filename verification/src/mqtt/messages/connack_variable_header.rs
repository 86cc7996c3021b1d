//! The two bytes behind the fixed header of a CONNACK.

use vstd::prelude::*;
use crate::mqtt::messages::connect_return_code::ConnectReturnCode;

verus! {

/// The variable header of a CONNACK.
#[derive(Debug, Clone, Copy, PartialEq, Eq, Structural)]
pub struct VariableHeader {
    /// Third byte of the message: 1 when a session is present, else 0.
    pub connect_acknowledge_flags: u8,
    /// Fourth byte of the message.
    pub connect_return_code: ConnectReturnCode,
}

} // verus!
