//! Any message of the wire format, told apart by its kind.

use vstd::prelude::*;
use crate::mqtt::messages::connack_message::{lemma_connack_round_trip, ConnackMessage};
use crate::mqtt::messages::connect_message::{
    lemma_connect_round_trip,
    ConnectMessage,
    ConnectMessageView,
};
use crate::mqtt::messages::disconnect_message::{lemma_disconnect_round_trip, DisconnectMessage};
use crate::mqtt::messages::puback_message::{lemma_puback_round_trip, PubAckMessage};
use crate::mqtt::messages::publish_message::{
    lemma_publish_round_trip,
    PublishMessage,
    PublishMessageView,
};
use crate::mqtt::messages::suback_message::{
    lemma_suback_round_trip,
    SubAckMessage,
    SubAckMessageView,
};
use crate::mqtt::messages::subscribe_message::{
    lemma_subscribe_round_trip,
    SubscribeMessage,
    SubscribeMessageView,
};
use crate::mqtt::mqtt_error::MqttError;
use crate::mqtt::mqtt_utils::packet_type::PacketType;

verus! {

/// A message of any of the seven kinds.
#[derive(Debug, PartialEq, Eq)]
pub enum Message {
    Connect(ConnectMessage),
    Connack(ConnackMessage),
    Publish(PublishMessage),
    Puback(PubAckMessage),
    Subscribe(SubscribeMessage),
    Suback(SubAckMessage),
    Disconnect(DisconnectMessage),
}

/// What a message of any kind says.
pub enum MessageView {
    Connect(ConnectMessageView),
    Connack(ConnackMessage),
    Publish(PublishMessageView),
    Puback(PubAckMessage),
    Subscribe(SubscribeMessageView),
    Suback(SubAckMessageView),
    Disconnect(DisconnectMessage),
}

impl MessageView {
    /// The message meets what its kind asks of it.
    pub open spec fn wf(self) -> bool {
        match self {
            MessageView::Connect(m) => m.wf(),
            MessageView::Connack(m) => m.wf(),
            MessageView::Publish(m) => m.wf(),
            MessageView::Puback(_) => true,
            MessageView::Subscribe(m) => m.wf(),
            MessageView::Suback(m) => m.wf(),
            MessageView::Disconnect(_) => true,
        }
    }

    /// The kind of the message.
    pub open spec fn spec_type(self) -> PacketType {
        match self {
            MessageView::Connect(_) => PacketType::Connect,
            MessageView::Connack(_) => PacketType::Connack,
            MessageView::Publish(_) => PacketType::Publish,
            MessageView::Puback(_) => PacketType::Puback,
            MessageView::Subscribe(_) => PacketType::Subscribe,
            MessageView::Suback(_) => PacketType::Suback,
            MessageView::Disconnect(_) => PacketType::Disconnect,
        }
    }

    /// The packet identifier of the message, for the kinds that carry one.
    pub open spec fn spec_packet_id(self) -> Option<u16> {
        match self {
            MessageView::Publish(m) => m.packet_id,
            MessageView::Puback(m) => Some(m.packet_id),
            MessageView::Subscribe(m) => Some(m.packet_id),
            MessageView::Suback(m) => Some(m.packet_id),
            _ => None,
        }
    }

    /// Whether the sender of the message waits for an acknowledgement: of a
    /// PUBLISH with quality of service 1, and of every SUBSCRIBE.
    pub open spec fn spec_needs_ack(self) -> bool {
        match self {
            MessageView::Publish(m) => m.qos == 1,
            MessageView::Subscribe(_) => true,
            _ => false,
        }
    }

    /// The message as it travels.
    pub open spec fn spec_to_bytes(self) -> Seq<u8> {
        match self {
            MessageView::Connect(m) => m.spec_to_bytes(),
            MessageView::Connack(m) => m.spec_to_bytes(),
            MessageView::Publish(m) => m.spec_to_bytes(),
            MessageView::Puback(m) => m.spec_to_bytes(),
            MessageView::Subscribe(m) => m.spec_to_bytes(),
            MessageView::Suback(m) => m.spec_to_bytes(),
            MessageView::Disconnect(m) => m.spec_to_bytes(),
        }
    }

    /// The kind that the first byte of `bytes` names, if there is a first
    /// byte and it names one.
    pub open spec fn spec_type_of(bytes: Seq<u8>) -> Option<PacketType> {
        if bytes.len() == 0 {
            None
        } else {
            PacketType::spec_from_code(bytes[0] / 16)
        }
    }

    /// The message that `bytes` spells: the one that the decoder of the
    /// kind named by the first byte finds in them.
    pub open spec fn spec_from_bytes(bytes: Seq<u8>) -> Option<MessageView> {
        match Self::spec_type_of(bytes) {
            None => None,
            Some(PacketType::Connect) => match ConnectMessageView::spec_from_bytes(bytes) {
                Some(m) => Some(MessageView::Connect(m)),
                None => None,
            },
            Some(PacketType::Connack) => match ConnackMessage::spec_from_bytes(bytes) {
                Some(m) => Some(MessageView::Connack(m)),
                None => None,
            },
            Some(PacketType::Publish) => match PublishMessageView::spec_from_bytes(bytes) {
                Some(m) => Some(MessageView::Publish(m)),
                None => None,
            },
            Some(PacketType::Puback) => match PubAckMessage::spec_from_bytes(bytes) {
                Some(m) => Some(MessageView::Puback(m)),
                None => None,
            },
            Some(PacketType::Subscribe) => match SubscribeMessageView::spec_from_bytes(bytes) {
                Some(m) => Some(MessageView::Subscribe(m)),
                None => None,
            },
            Some(PacketType::Suback) => match SubAckMessageView::spec_from_bytes(bytes) {
                Some(m) => Some(MessageView::Suback(m)),
                None => None,
            },
            Some(PacketType::Disconnect) => match DisconnectMessage::spec_from_bytes(bytes) {
                Some(m) => Some(MessageView::Disconnect(m)),
                None => None,
            },
        }
    }
}

impl View for Message {
    type V = MessageView;

    open spec fn view(&self) -> MessageView {
        match self {
            Message::Connect(m) => MessageView::Connect(m@),
            Message::Connack(m) => MessageView::Connack(*m),
            Message::Publish(m) => MessageView::Publish(m@),
            Message::Puback(m) => MessageView::Puback(*m),
            Message::Subscribe(m) => MessageView::Subscribe(m@),
            Message::Suback(m) => MessageView::Suback(m@),
            Message::Disconnect(m) => MessageView::Disconnect(*m),
        }
    }
}

impl Message {
    /// The message as it travels.
    pub fn to_bytes(&self) -> (bytes: Vec<u8>)
        ensures
            bytes@ == self@.spec_to_bytes(),
    {
        match self {
            Message::Connect(m) => m.encode(),
            Message::Connack(m) => m.to_bytes(),
            Message::Publish(m) => m.to_bytes(),
            Message::Puback(m) => m.to_bytes(),
            Message::Subscribe(m) => m.to_bytes(),
            Message::Suback(m) => m.to_bytes(),
            Message::Disconnect(m) => m.to_bytes(),
        }
    }

    /// Reads the message that the whole of `bytes` spells, by the decoder of
    /// the kind that the first byte names. No first byte, a first byte that
    /// names no kind and bytes that the decoder refuses are protocol
    /// violations.
    pub fn from_bytes(bytes: &Vec<u8>) -> (out: Result<Message, MqttError>)
        ensures
            match out {
                Ok(msg) => MessageView::spec_from_bytes(bytes@) == Some(msg@),
                Err(e) => e == MqttError::ProtocolViolation && MessageView::spec_from_bytes(
                    bytes@,
                ) is None,
            },
    {
        if bytes.len() == 0 {
            return Err(MqttError::ProtocolViolation);
        }
        let kind = PacketType::from_code(bytes[0] / 16);
        match kind {
            None => Err(MqttError::ProtocolViolation),
            Some(PacketType::Connect) => {
                let read = ConnectMessage::from_bytes(bytes);
                match read {
                    Ok(m) => Ok(Message::Connect(m)),
                    Err(e) => Err(e),
                }
            },
            Some(PacketType::Connack) => {
                let read = ConnackMessage::from_bytes(bytes);
                match read {
                    Ok(m) => Ok(Message::Connack(m)),
                    Err(e) => Err(e),
                }
            },
            Some(PacketType::Publish) => {
                let read = PublishMessage::from_bytes(bytes);
                match read {
                    Ok(m) => Ok(Message::Publish(m)),
                    Err(e) => Err(e),
                }
            },
            Some(PacketType::Puback) => {
                let read = PubAckMessage::from_bytes(bytes);
                match read {
                    Ok(m) => Ok(Message::Puback(m)),
                    Err(e) => Err(e),
                }
            },
            Some(PacketType::Subscribe) => {
                let read = SubscribeMessage::from_bytes(bytes);
                match read {
                    Ok(m) => Ok(Message::Subscribe(m)),
                    Err(e) => Err(e),
                }
            },
            Some(PacketType::Suback) => {
                let read = SubAckMessage::from_bytes(bytes);
                match read {
                    Ok(m) => Ok(Message::Suback(m)),
                    Err(e) => Err(e),
                }
            },
            Some(PacketType::Disconnect) => {
                let read = DisconnectMessage::from_bytes(bytes);
                match read {
                    Ok(m) => Ok(Message::Disconnect(m)),
                    Err(e) => Err(e),
                }
            },
        }
    }

    /// The kind of the message.
    pub fn get_type(&self) -> (kind: PacketType)
        ensures
            kind == self@.spec_type(),
    {
        match self {
            Message::Connect(_) => PacketType::Connect,
            Message::Connack(_) => PacketType::Connack,
            Message::Publish(_) => PacketType::Publish,
            Message::Puback(_) => PacketType::Puback,
            Message::Subscribe(_) => PacketType::Subscribe,
            Message::Suback(_) => PacketType::Suback,
            Message::Disconnect(_) => PacketType::Disconnect,
        }
    }

    /// The packet identifier of the message, for the kinds that carry one.
    pub fn get_packet_id(&self) -> (packet_id: Option<u16>)
        ensures
            packet_id == self@.spec_packet_id(),
    {
        match self {
            Message::Publish(m) => m.get_packet_id(),
            Message::Puback(m) => Some(m.get_packet_id()),
            Message::Subscribe(m) => Some(m.get_packet_id()),
            Message::Suback(m) => Some(m.get_packet_id()),
            _ => None,
        }
    }

    /// Whether the sender of the message waits for an acknowledgement.
    pub fn needs_ack(&self) -> (yes: bool)
        ensures
            yes == self@.spec_needs_ack(),
    {
        match self {
            Message::Publish(m) => m.get_qos() == 1,
            Message::Subscribe(_) => true,
            _ => false,
        }
    }
}

/// Decoding the encoding of a message gives the message back, whatever its
/// kind.
pub proof fn lemma_message_round_trip(msg: MessageView)
    requires
        msg.wf(),
    ensures
        MessageView::spec_from_bytes(msg.spec_to_bytes()) == Some(msg),
{
    let bytes = msg.spec_to_bytes();
    match msg {
        MessageView::Connect(m) => {
            lemma_connect_round_trip(m);
            assert(bytes[0] == m.spec_preamble()[0]);
        },
        MessageView::Connack(m) => {
            lemma_connack_round_trip(m);
        },
        MessageView::Publish(m) => {
            lemma_publish_round_trip(m);
            assert(PublishMessageView::spec_header_ok(bytes));
        },
        MessageView::Puback(m) => {
            lemma_puback_round_trip(m);
            assert(bytes[0] == 0x40);
        },
        MessageView::Subscribe(m) => {
            lemma_subscribe_round_trip(m);
            assert(SubscribeMessageView::spec_preamble_ok(bytes));
        },
        MessageView::Suback(m) => {
            lemma_suback_round_trip(m);
            assert(SubAckMessageView::spec_bytes_ok(bytes));
        },
        MessageView::Disconnect(m) => {
            lemma_disconnect_round_trip(m);
        },
    }
}

/// A CONNACK always takes four bytes, and the second byte of a PUBACK and
/// of a SUBACK counts the bytes that follow it.
pub proof fn lemma_ack_lengths(msg: MessageView)
    requires
        msg.wf(),
    ensures
        msg is Connack ==> msg.spec_to_bytes().len() == 4,
        msg is Puback || msg is Suback ==> msg.spec_to_bytes()[1] == msg.spec_to_bytes().len()
            - 2,
{
    match msg {
        MessageView::Connack(m) => {
            lemma_connack_round_trip(m);
        },
        MessageView::Puback(m) => {
            lemma_puback_round_trip(m);
        },
        MessageView::Suback(m) => {
            lemma_suback_round_trip(m);
        },
        _ => {},
    }
}

} // verus!
