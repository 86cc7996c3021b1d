//! SUBACK: the acknowledgement of a SUBSCRIBE.

use vstd::prelude::*;
use crate::mqtt::messages::subscribe_return_code::SubscribeReturnCode;
use crate::mqtt::mqtt_error::MqttError;
use crate::mqtt::mqtt_utils::fixed_header::REMAINING_LENGTH_LIMIT;
use crate::mqtt::mqtt_utils::utils::{spec_u16_from_be_bytes, spec_u16_to_be_bytes};

verus! {

/// The first byte of every SUBACK.
pub const SUBACK_FIRST_BYTE: u8 = 0x90;

/// The bytes in front of the return codes: the fixed header and the packet
/// identifier.
pub const SUBACK_PREAMBLE_LEN: usize = 4;

/// What a SUBACK says.
pub struct SubAckMessageView {
    /// The packet identifier of the SUBSCRIBE that is acknowledged.
    pub packet_id: u16,
    /// One return code for each topic filter of the SUBSCRIBE, in order.
    pub return_codes: Seq<SubscribeReturnCode>,
}

impl SubAckMessageView {
    /// The number of bytes behind the fixed header.
    pub open spec fn spec_remaining_length(self) -> int {
        (2 + self.return_codes.len()) as int
    }

    /// The message fits the one-byte remaining length.
    pub open spec fn wf(self) -> bool {
        self.spec_remaining_length() < REMAINING_LENGTH_LIMIT
    }

    /// The message as it travels: header, packet identifier, then one byte
    /// for each return code.
    pub open spec fn spec_to_bytes(self) -> Seq<u8> {
        seq![SUBACK_FIRST_BYTE, self.spec_remaining_length() as u8] + spec_u16_to_be_bytes(
            self.packet_id,
        ) + Seq::new(self.return_codes.len(), |i: int| self.return_codes[i].spec_to_byte())
    }

    /// Whether `bytes` starts like a SUBACK whose announced length is the
    /// length it has, and every byte behind the packet identifier is a
    /// return code.
    pub open spec fn spec_bytes_ok(bytes: Seq<u8>) -> bool {
        &&& bytes.len() >= SUBACK_PREAMBLE_LEN
        &&& bytes[0] == SUBACK_FIRST_BYTE
        &&& bytes[1] < REMAINING_LENGTH_LIMIT
        &&& bytes.len() == 2 + bytes[1]
        &&& forall|i: int|
            SUBACK_PREAMBLE_LEN <= i < bytes.len() ==> (
            #[trigger] SubscribeReturnCode::spec_from_byte(bytes[i])) is Some
    }

    /// The message that `bytes` spells, if they spell a SUBACK and nothing
    /// more.
    pub open spec fn spec_from_bytes(bytes: Seq<u8>) -> Option<SubAckMessageView> {
        if Self::spec_bytes_ok(bytes) {
            Some(
                SubAckMessageView {
                    packet_id: spec_u16_from_be_bytes(bytes[2], bytes[3]),
                    return_codes: Seq::new(
                        (bytes.len() - SUBACK_PREAMBLE_LEN) as nat,
                        |i: int|
                            SubscribeReturnCode::spec_from_byte(
                                bytes[SUBACK_PREAMBLE_LEN + i],
                            )->0,
                    ),
                },
            )
        } else {
            None
        }
    }
}

/// A SUBACK message.
#[derive(Debug, PartialEq, Eq)]
pub struct SubAckMessage {
    packet_id: u16,
    return_codes: Vec<SubscribeReturnCode>,
}

impl View for SubAckMessage {
    type V = SubAckMessageView;

    closed spec fn view(&self) -> SubAckMessageView {
        SubAckMessageView { packet_id: self.packet_id, return_codes: self.return_codes@ }
    }
}

impl SubAckMessage {
    #[verifier::type_invariant]
    spec fn inv(&self) -> bool {
        self@.wf()
    }

    /// The acknowledgement of the SUBSCRIBE with this packet identifier,
    /// with one return code for each of its topic filters. More return
    /// codes than the one-byte remaining length can announce are refused.
    pub fn new(packet_id: u16, return_codes: Vec<SubscribeReturnCode>) -> (out: Result<
        SubAckMessage,
        MqttError,
    >)
        ensures
            match out {
                Ok(msg) => msg@ == (SubAckMessageView { packet_id, return_codes: return_codes@ })
                    && msg@.wf(),
                Err(e) => e == MqttError::ProtocolViolation && !(SubAckMessageView {
                    packet_id,
                    return_codes: return_codes@,
                }).wf(),
            },
    {
        if return_codes.len() >= REMAINING_LENGTH_LIMIT - 2 {
            return Err(MqttError::ProtocolViolation);
        }
        Ok(SubAckMessage { packet_id, return_codes })
    }

    /// The message as it travels. Its second byte counts the bytes that
    /// follow it.
    pub fn to_bytes(&self) -> (bytes: Vec<u8>)
        ensures
            bytes@ == self@.spec_to_bytes(),
            bytes@.len() == 2 + self@.spec_remaining_length(),
            bytes@[1] == bytes@.len() - 2,
            self@.wf(),
    {
        proof {
            use_type_invariant(self);
        }
        let count: usize = self.return_codes.len();
        let mut bytes: Vec<u8> = Vec::new();
        bytes.push(SUBACK_FIRST_BYTE);
        bytes.push((2 + count) as u8);
        bytes.push((self.packet_id / 256) as u8);
        bytes.push((self.packet_id % 256) as u8);
        let ghost preamble = bytes@;
        let mut i: usize = 0;
        while i < count
            invariant
                i <= count,
                count == self.return_codes.len(),
                bytes@ == preamble + Seq::new(
                    i as nat,
                    |k: int| self.return_codes@[k].spec_to_byte(),
                ),
            decreases count - i,
        {
            bytes.push(self.return_codes[i].to_byte());
            i += 1;
            assert(bytes@ =~= preamble + Seq::new(
                i as nat,
                |k: int| self.return_codes@[k].spec_to_byte(),
            ));
        }
        assert(bytes@ =~= self@.spec_to_bytes());
        bytes
    }

    /// Reads a SUBACK from the whole of `bytes`. Anything that is not the
    /// encoding of one is a protocol violation: another first byte, a
    /// length that the bytes do not have, a byte that is no return code.
    pub fn from_bytes(bytes: &Vec<u8>) -> (out: Result<SubAckMessage, MqttError>)
        ensures
            match out {
                Ok(msg) => SubAckMessageView::spec_from_bytes(bytes@) == Some(msg@) && msg@.wf(),
                Err(e) => e == MqttError::ProtocolViolation && SubAckMessageView::spec_from_bytes(
                    bytes@,
                ) is None,
            },
    {
        let total: usize = bytes.len();
        if total < SUBACK_PREAMBLE_LEN {
            return Err(MqttError::ProtocolViolation);
        }
        if bytes[0] != SUBACK_FIRST_BYTE || bytes[1] >= 128 || total != 2 + bytes[1] as usize {
            return Err(MqttError::ProtocolViolation);
        }
        let packet_id: u16 = (bytes[2] as u16) * 256 + bytes[3] as u16;
        let mut return_codes: Vec<SubscribeReturnCode> = Vec::new();
        let mut i: usize = SUBACK_PREAMBLE_LEN;
        while i < total
            invariant
                SUBACK_PREAMBLE_LEN <= i <= total,
                total == bytes.len(),
                return_codes@.len() == i - SUBACK_PREAMBLE_LEN,
                forall|k: int|
                    SUBACK_PREAMBLE_LEN <= k < i ==> (#[trigger] SubscribeReturnCode::spec_from_byte(
                        bytes@[k],
                    )) == Some(return_codes@[k - SUBACK_PREAMBLE_LEN]),
            decreases total - i,
        {
            let code = SubscribeReturnCode::from_byte(bytes[i]);
            match code {
                Some(c) => {
                    return_codes.push(c);
                },
                None => {
                    return Err(MqttError::ProtocolViolation);
                },
            }
            i += 1;
        }
        let ghost expected = SubAckMessageView::spec_from_bytes(bytes@)->0;
        assert(SubAckMessageView::spec_bytes_ok(bytes@));
        assert(return_codes@ =~= expected.return_codes);
        Ok(SubAckMessage { packet_id, return_codes })
    }

    /// The packet identifier of the SUBSCRIBE that is acknowledged.
    pub fn get_packet_id(&self) -> (packet_id: u16)
        ensures
            packet_id == self@.packet_id,
    {
        self.packet_id
    }

    /// The return codes, one for each topic filter.
    pub fn get_return_codes(&self) -> (codes: &Vec<SubscribeReturnCode>)
        ensures
            codes@ == self@.return_codes,
    {
        &self.return_codes
    }
}

/// A SUBACK is read back from its bytes, and its second byte counts the
/// bytes that follow it.
pub proof fn lemma_suback_round_trip(msg: SubAckMessageView)
    requires
        msg.wf(),
    ensures
        SubAckMessageView::spec_from_bytes(msg.spec_to_bytes()) == Some(msg),
        msg.spec_to_bytes().len() == 2 + msg.spec_remaining_length(),
        msg.spec_to_bytes()[1] == msg.spec_to_bytes().len() - 2,
{
    let bytes = msg.spec_to_bytes();
    assert(bytes[0] == SUBACK_FIRST_BYTE);
    assert(bytes[1] == msg.spec_remaining_length() as u8);
    assert(bytes[2] == (msg.packet_id / 256) as u8);
    assert(bytes[3] == (msg.packet_id % 256) as u8);
    assert forall|i: int| SUBACK_PREAMBLE_LEN <= i < bytes.len() implies (
    #[trigger] SubscribeReturnCode::spec_from_byte(bytes[i])) == Some(
        msg.return_codes[i - SUBACK_PREAMBLE_LEN],
    ) by {
        assert(bytes[i] == msg.return_codes[i - SUBACK_PREAMBLE_LEN].spec_to_byte());
    }
    let back = SubAckMessageView::spec_from_bytes(bytes)->0;
    assert(back.return_codes =~= msg.return_codes);
}

} // verus!
