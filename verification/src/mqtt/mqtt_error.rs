//! The ways in which an operation of the broker or of a client can fail.

use vstd::prelude::*;

verus! {

/// Why an operation was refused or given up.
#[derive(Debug, Clone, Copy, PartialEq, Eq, Structural)]
pub enum MqttError {
    /// Malformed header, reserved bit set, unknown packet type or a quality
    /// of service above 1.
    ProtocolViolation,
    /// The broker answered a CONNECT with a return code other than zero.
    AuthRefused,
    /// Every retransmission was spent without an acknowledgement.
    MaxRetriesExceeded,
    /// The peer closed the connection.
    TransportClosed,
    /// The broker's registries contradict each other.
    RegistryInconsistency,
    /// The configuration handed in is malformed.
    Config,
    /// A shared resource could not be taken.
    Internal,
}

} // verus!
