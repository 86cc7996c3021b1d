//! PUBLISH: a payload sent to a topic.

use vstd::prelude::*;
use vstd::bytes::{
    lemma_auto_spec_u128_to_from_le_bytes,
    spec_u128_from_le_bytes,
    spec_u128_to_le_bytes,
    u128_from_le_bytes,
    u128_to_le_bytes,
};
use crate::mqtt::mqtt_error::MqttError;
use crate::mqtt::mqtt_utils::fixed_header::REMAINING_LENGTH_LIMIT;
use crate::mqtt::mqtt_utils::packet_type::PacketType;
use crate::mqtt::mqtt_utils::utils::{
    copy_range,
    lemma_string_round_trip,
    lemma_u16_round_trip,
    push_bytes,
    push_string_field,
    push_u16_be,
    read_string_field,
    read_u16_be,
    spec_read_string,
    spec_read_u16,
    spec_string_field,
    spec_u16_to_be_bytes,
};

verus! {

/// The first byte of a PUBLISH sent with quality of service 0.
pub const PUBLISH_FIRST_BYTE: u8 = 0x30;

/// The number of bytes of the creation timestamp that closes a PUBLISH.
pub const TIMESTAMP_LEN: usize = 16;

/// What a PUBLISH says.
pub struct PublishMessageView {
    /// 0: sent once; 1: acknowledged by a PUBACK.
    pub qos: u8,
    pub topic: Seq<u8>,
    /// Present exactly when the quality of service is 1.
    pub packet_id: Option<u16>,
    pub payload: Seq<u8>,
    /// Milliseconds between a fixed epoch and the creation of the message.
    pub timestamp: u128,
}

/// The two bytes of a packet identifier, when there is one.
pub open spec fn spec_packet_id_bytes(packet_id: Option<u16>) -> Seq<u8> {
    match packet_id {
        Some(id) => spec_u16_to_be_bytes(id),
        None => Seq::empty(),
    }
}

/// The packet identifier found at `pos` when the quality of service asks
/// for one, and the position behind it.
pub open spec fn spec_read_packet_id(bytes: Seq<u8>, pos: int, qos: u8) -> Option<
    (Option<u16>, int),
> {
    if qos == 0 {
        Some((None, pos))
    } else {
        match spec_read_u16(bytes, pos) {
            Some(id) => Some((Some(id), pos + 2)),
            None => None,
        }
    }
}

impl PublishMessageView {
    /// The number of bytes behind the fixed header.
    pub open spec fn spec_remaining_length(self) -> int {
        spec_string_field(self.topic).len() + spec_packet_id_bytes(self.packet_id).len()
            + self.payload.len() + TIMESTAMP_LEN
    }

    /// The quality of service is 0 or 1, a packet identifier goes with 1
    /// and with 1 only, and the message fits the one-byte remaining length.
    pub open spec fn wf(self) -> bool {
        &&& self.qos <= 1
        &&& self.packet_id is Some <==> self.qos == 1
        &&& self.spec_remaining_length() < REMAINING_LENGTH_LIMIT
    }

    /// The fixed header of the message: `0011_0QQ0`, then the remaining
    /// length.
    pub open spec fn spec_header(self) -> Seq<u8> {
        seq![(PUBLISH_FIRST_BYTE + 2 * self.qos) as u8, self.spec_remaining_length() as u8]
    }

    /// The message as it travels: header, topic, packet identifier if any,
    /// payload, timestamp.
    pub open spec fn spec_to_bytes(self) -> Seq<u8> {
        self.spec_header() + spec_string_field(self.topic) + spec_packet_id_bytes(self.packet_id)
            + self.payload + spec_u128_to_le_bytes(self.timestamp)
    }

    /// The quality of service that a first byte asks for.
    pub open spec fn spec_qos_of(first: u8) -> u8 {
        ((first % 16) / 2) % 4
    }

    /// Whether `bytes` starts with the header of a PUBLISH whose announced
    /// length is the length it has and whose quality of service is 0 or 1.
    pub open spec fn spec_header_ok(bytes: Seq<u8>) -> bool {
        &&& bytes.len() >= 2
        &&& bytes[0] / 16 == PacketType::Publish.spec_code()
        &&& bytes[1] < REMAINING_LENGTH_LIMIT
        &&& bytes.len() == 2 + bytes[1]
        &&& Self::spec_qos_of(bytes[0]) <= 1
    }

    /// The message that `bytes` spells, if they spell a PUBLISH and nothing
    /// more.
    pub open spec fn spec_from_bytes(bytes: Seq<u8>) -> Option<PublishMessageView> {
        if !Self::spec_header_ok(bytes) {
            None
        } else {
            let qos = Self::spec_qos_of(bytes[0]);
            match spec_read_string(bytes, 2) {
                None => None,
                Some((topic, p1)) => match spec_read_packet_id(bytes, p1, qos) {
                    None => None,
                    Some((packet_id, p2)) => if p2 + TIMESTAMP_LEN <= bytes.len() {
                        Some(
                            PublishMessageView {
                                qos,
                                topic,
                                packet_id,
                                payload: bytes.subrange(p2, bytes.len() - TIMESTAMP_LEN),
                                timestamp: spec_u128_from_le_bytes(
                                    bytes.subrange(
                                        bytes.len() - TIMESTAMP_LEN,
                                        bytes.len() as int,
                                    ),
                                ),
                            },
                        )
                    } else {
                        None
                    },
                },
            }
        }
    }
}

/// A PUBLISH message.
#[derive(Debug, PartialEq, Eq)]
pub struct PublishMessage {
    qos: u8,
    topic: Vec<u8>,
    packet_id: Option<u16>,
    payload: Vec<u8>,
    timestamp: u128,
}

impl View for PublishMessage {
    type V = PublishMessageView;

    closed spec fn view(&self) -> PublishMessageView {
        PublishMessageView {
            qos: self.qos,
            topic: self.topic@,
            packet_id: self.packet_id,
            payload: self.payload@,
            timestamp: self.timestamp,
        }
    }
}

impl PublishMessage {
    #[verifier::type_invariant]
    spec fn inv(&self) -> bool {
        self@.wf()
    }

    /// A PUBLISH of `payload` to `topic`, created at `timestamp`. A quality
    /// of service above 1, a packet identifier without quality of service
    /// 1, quality of service 1 without a packet identifier and a message
    /// too long for the one-byte remaining length are refused.
    pub fn new(
        qos: u8,
        topic: Vec<u8>,
        packet_id: Option<u16>,
        payload: Vec<u8>,
        timestamp: u128,
    ) -> (out: Result<PublishMessage, MqttError>)
        ensures
            match out {
                Ok(msg) => msg@ == (PublishMessageView {
                    qos,
                    topic: topic@,
                    packet_id,
                    payload: payload@,
                    timestamp,
                }) && msg@.wf(),
                Err(e) => e == MqttError::ProtocolViolation && !(PublishMessageView {
                    qos,
                    topic: topic@,
                    packet_id,
                    payload: payload@,
                    timestamp,
                }).wf(),
            },
    {
        if qos > 1 || packet_id.is_some() != (qos == 1) {
            return Err(MqttError::ProtocolViolation);
        }
        if topic.len() >= REMAINING_LENGTH_LIMIT || payload.len() >= REMAINING_LENGTH_LIMIT {
            return Err(MqttError::ProtocolViolation);
        }
        let id_len: usize = if qos == 1 {
            2
        } else {
            0
        };
        if 2 + topic.len() + id_len + payload.len() + TIMESTAMP_LEN >= REMAINING_LENGTH_LIMIT {
            return Err(MqttError::ProtocolViolation);
        }
        Ok(PublishMessage { qos, topic, packet_id, payload, timestamp })
    }

    /// The message as it travels.
    pub fn to_bytes(&self) -> (bytes: Vec<u8>)
        ensures
            bytes@ == self@.spec_to_bytes(),
            bytes@.len() == 2 + self@.spec_remaining_length(),
            self@.wf(),
    {
        proof {
            use_type_invariant(self);
            lemma_auto_spec_u128_to_from_le_bytes();
        }
        let id_len: usize = if self.qos == 1 {
            2
        } else {
            0
        };
        let remaining: usize = 2 + self.topic.len() + id_len + self.payload.len() + TIMESTAMP_LEN;
        let mut bytes: Vec<u8> = Vec::new();
        bytes.push(PUBLISH_FIRST_BYTE + 2 * self.qos);
        bytes.push(remaining as u8);
        assert(bytes@ =~= self@.spec_header());
        push_string_field(&mut bytes, &self.topic);
        match self.packet_id {
            Some(id) => {
                push_u16_be(&mut bytes, id);
            },
            None => {
                assert(bytes@ =~= bytes@ + Seq::<u8>::empty());
            },
        }
        push_bytes(&mut bytes, &self.payload);
        let stamp = u128_to_le_bytes(self.timestamp);
        push_bytes(&mut bytes, &stamp);
        bytes
    }

    /// Reads a PUBLISH from the whole of `bytes`. Anything that is not the
    /// encoding of one is a protocol violation: another kind of message, a
    /// quality of service above 1, a length that the bytes do not have, a
    /// topic or packet identifier cut short, no room for the timestamp.
    pub fn from_bytes(bytes: &Vec<u8>) -> (out: Result<PublishMessage, MqttError>)
        ensures
            match out {
                Ok(msg) => PublishMessageView::spec_from_bytes(bytes@) == Some(msg@) && msg@.wf(),
                Err(e) => e == MqttError::ProtocolViolation && PublishMessageView::spec_from_bytes(
                    bytes@,
                ) is None,
            },
    {
        let total: usize = bytes.len();
        if total < 2 {
            return Err(MqttError::ProtocolViolation);
        }
        let first: u8 = bytes[0];
        if first / 16 != 3 || bytes[1] >= 128 || total != 2 + bytes[1] as usize {
            return Err(MqttError::ProtocolViolation);
        }
        let qos: u8 = ((first % 16) / 2) % 4;
        if qos > 1 {
            return Err(MqttError::ProtocolViolation);
        }
        let read_topic = read_string_field(bytes, 2);
        let (topic, p1) = match read_topic {
            Some(found) => found,
            None => {
                return Err(MqttError::ProtocolViolation);
            },
        };
        let mut packet_id: Option<u16> = None;
        let mut p2: usize = p1;
        if qos == 1 {
            let read_id = read_u16_be(bytes, p1);
            match read_id {
                Some(id) => {
                    packet_id = Some(id);
                    p2 = p1 + 2;
                },
                None => {
                    return Err(MqttError::ProtocolViolation);
                },
            }
        }
        if total - p2 < TIMESTAMP_LEN {
            return Err(MqttError::ProtocolViolation);
        }
        let payload = copy_range(bytes, p2, total - TIMESTAMP_LEN);
        let stamp = copy_range(bytes, total - TIMESTAMP_LEN, total);
        let timestamp: u128 = u128_from_le_bytes(stamp.as_slice());
        Ok(PublishMessage { qos, topic, packet_id, payload, timestamp })
    }

    /// The topic of the message.
    pub fn get_topic(&self) -> (topic: &Vec<u8>)
        ensures
            topic@ == self@.topic,
    {
        &self.topic
    }

    /// The payload of the message.
    pub fn get_payload(&self) -> (payload: &Vec<u8>)
        ensures
            payload@ == self@.payload,
    {
        &self.payload
    }

    /// The quality of service of the message: 0 or 1.
    pub fn get_qos(&self) -> (qos: u8)
        ensures
            qos == self@.qos,
            qos <= 1,
    {
        proof {
            use_type_invariant(self);
        }
        self.qos
    }

    /// The packet identifier: present exactly when the quality of service
    /// is 1.
    pub fn get_packet_id(&self) -> (packet_id: Option<u16>)
        ensures
            packet_id == self@.packet_id,
            packet_id is Some <==> self@.qos == 1,
    {
        proof {
            use_type_invariant(self);
        }
        self.packet_id
    }

    /// When the message was created.
    pub fn get_timestamp(&self) -> (timestamp: u128)
        ensures
            timestamp == self@.timestamp,
    {
        self.timestamp
    }
}

/// Five byte sequences laid end to end, and where the last two lie in the
/// whole.
proof fn lemma_regroup(a: Seq<u8>, b: Seq<u8>, c: Seq<u8>, d: Seq<u8>, e: Seq<u8>)
    ensures
        a + b + c + d + e == a + b + (c + d + e),
        a + b + c + d + e == (a + b) + c + (d + e),
        (a + b + c + d + e).len() == a.len() + b.len() + c.len() + d.len() + e.len(),
        (a + b + c + d + e).subrange(
            (a.len() + b.len() + c.len()) as int,
            (a.len() + b.len() + c.len() + d.len()) as int,
        ) == d,
        (a + b + c + d + e).subrange(
            (a.len() + b.len() + c.len() + d.len()) as int,
            (a.len() + b.len() + c.len() + d.len() + e.len()) as int,
        ) == e,
        a.len() >= 2 ==> (a + b + c + d + e)[0] == a[0] && (a + b + c + d + e)[1] == a[1],
{
    let all = a + b + c + d + e;
    let p3 = (a.len() + b.len() + c.len()) as int;
    let p4 = p3 + d.len();
    let p5 = p4 + e.len();
    assert(all =~= a + b + (c + d + e));
    assert(all =~= (a + b) + c + (d + e));
    assert(all.subrange(p3, p4) =~= d);
    assert(all.subrange(p4, p5) =~= e);
}

/// A PUBLISH is read back from its bytes.
pub proof fn lemma_publish_round_trip(msg: PublishMessageView)
    requires
        msg.wf(),
    ensures
        PublishMessageView::spec_from_bytes(msg.spec_to_bytes()) == Some(msg),
        msg.spec_to_bytes().len() == 2 + msg.spec_remaining_length(),
{
    lemma_auto_spec_u128_to_from_le_bytes();
    let bytes = msg.spec_to_bytes();
    let header = msg.spec_header();
    let topic = spec_string_field(msg.topic);
    let id = spec_packet_id_bytes(msg.packet_id);
    let stamp = spec_u128_to_le_bytes(msg.timestamp);
    lemma_regroup(header, topic, id, msg.payload, stamp);
    lemma_string_round_trip(header, msg.topic, id + msg.payload + stamp);
    if msg.qos == 1 {
        lemma_u16_round_trip(header + topic, msg.packet_id->0, msg.payload + stamp);
    }
    let p1 = (header.len() + topic.len()) as int;
    let p2 = p1 + id.len();
    assert(PublishMessageView::spec_qos_of(bytes[0]) == msg.qos);
    assert(PublishMessageView::spec_header_ok(bytes));
    assert(spec_read_string(bytes, 2) == Some((msg.topic, p1)));
    assert(spec_read_packet_id(bytes, p1, msg.qos) == Some((msg.packet_id, p2)));
}

} // verus!
