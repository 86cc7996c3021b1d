//! The operations of a client: connect, publish, subscribe, disconnect.

use vstd::prelude::*;
use crate::mqtt::client::mqtt_client_retransmitter::{
    RetransmitAction,
    Retransmitter,
    RetransmitterView,
    AMOUNT_OF_RETRIES,
};
use crate::mqtt::messages::message::Message;
use crate::mqtt::messages::publish_message::{PublishMessage, PublishMessageView};
use crate::mqtt::messages::subscribe_message::{
    spec_filters,
    SubscribeMessage,
    SubscribeMessageView,
};
use crate::mqtt::mqtt_error::MqttError;

verus! {

/// The packet identifier that follows `last`: one more, and 1 after the
/// largest, since zero is reserved.
pub open spec fn spec_next_packet_id(last: u16) -> u16 {
    if last == u16::MAX {
        1
    } else {
        (last + 1) as u16
    }
}

/// Hands out packet identifiers in increasing order.
#[derive(Debug, Clone, Copy, PartialEq, Eq)]
pub struct PacketIdAllocator {
    last: u16,
}

impl PacketIdAllocator {
    /// The identifier handed out last; zero before the first.
    pub closed spec fn spec_last(&self) -> u16 {
        self.last
    }

    /// An allocator that has handed out nothing yet.
    pub fn new() -> (out: PacketIdAllocator)
        ensures
            out.spec_last() == 0,
    {
        PacketIdAllocator { last: 0 }
    }

    /// The next packet identifier: never zero.
    pub fn next_id(&mut self) -> (id: u16)
        ensures
            id == spec_next_packet_id(old(self).spec_last()),
            final(self).spec_last() == id,
            id != 0,
    {
        if self.last == u16::MAX {
            self.last = 1;
        } else {
            self.last = self.last + 1;
        }
        self.last
    }
}

/// A client of the broker: its packet identifiers and its retransmitter.
#[derive(Debug)]
pub struct MQTTClient {
    packet_ids: PacketIdAllocator,
    retransmitter: Retransmitter,
}

impl MQTTClient {
    /// The packet identifier handed out last.
    pub closed spec fn spec_last_packet_id(&self) -> u16 {
        self.packet_ids.spec_last()
    }

    /// The retransmitter of the client.
    pub closed spec fn spec_retransmitter(&self) -> Retransmitter {
        self.retransmitter
    }

    /// A client that has sent nothing yet.
    pub fn new() -> (out: MQTTClient)
        ensures
            out.spec_last_packet_id() == 0,
            out.spec_retransmitter()@ == (RetransmitterView {
                pending: Seq::empty(),
                awaited: None,
                writes: 0,
                remaining_retries: 0,
            }),
    {
        MQTTClient { packet_ids: PacketIdAllocator::new(), retransmitter: Retransmitter::new() }
    }

    /// What `mqtt_publish` sends: with quality of service 1 a PUBLISH with
    /// the packet identifier `packet_id`, else one without.
    pub open spec fn spec_publish(
        topic: Seq<u8>,
        payload: Seq<u8>,
        qos: u8,
        timestamp: u128,
        packet_id: u16,
    ) -> PublishMessageView {
        PublishMessageView {
            qos,
            topic,
            packet_id: if qos == 1 {
                Some(packet_id)
            } else {
                None
            },
            payload,
            timestamp,
        }
    }

    /// Starts the publication of `payload` to `topic`, created at
    /// `timestamp`. With quality of service 1 the next packet identifier is
    /// taken and its PUBACK awaited; with 0 the message is written once.
    /// The bytes to write are the pending bytes of the retransmitter. A
    /// message that cannot be encoded is refused, and nothing changes.
    pub fn mqtt_publish(
        &mut self,
        topic: Vec<u8>,
        payload: Vec<u8>,
        qos: u8,
        timestamp: u128,
    ) -> (out: Result<RetransmitAction, MqttError>)
        ensures
            ({
                let next = spec_next_packet_id(old(self).spec_last_packet_id());
                let msg = Self::spec_publish(topic@, payload@, qos, timestamp, next);
                match out {
                    Ok(action) => {
                        &&& msg.wf()
                        &&& final(self).spec_retransmitter()@.pending == msg.spec_to_bytes()
                        &&& final(self).spec_retransmitter()@.writes == 1
                        &&& qos == 1 ==> action == RetransmitAction::WriteAndWait
                            && final(self).spec_last_packet_id() == next
                            && final(self).spec_retransmitter()@.awaited == Some(next)
                            && final(self).spec_retransmitter()@.remaining_retries
                            == AMOUNT_OF_RETRIES
                        &&& qos == 0 ==> action == RetransmitAction::WriteAndReturn
                            && final(self).spec_last_packet_id() == old(
                            self,
                        ).spec_last_packet_id()
                            && final(self).spec_retransmitter()@.awaited is None
                            && final(self).spec_retransmitter()@.remaining_retries == 0
                    },
                    Err(e) => e == MqttError::ProtocolViolation && !msg.wf() && *final(self)
                        == *old(self),
                }
            }),
    {
        let mut ids = self.packet_ids;
        let packet_id: Option<u16> = if qos == 1 {
            Some(ids.next_id())
        } else {
            None
        };
        let built = PublishMessage::new(qos, topic, packet_id, payload, timestamp);
        match built {
            Ok(publish) => {
                if qos == 1 {
                    self.packet_ids = ids;
                }
                let msg = Message::Publish(publish);
                Ok(self.retransmitter.send_and_retransmit(&msg))
            },
            Err(e) => Err(e),
        }
    }

    /// Starts the subscription to `topics`, each with the quality of
    /// service asked for it: the next packet identifier is taken and the
    /// SUBACK that carries it awaited. A message that cannot be encoded is
    /// refused, and nothing changes.
    pub fn mqtt_subscribe(&mut self, topics: Vec<(Vec<u8>, u8)>) -> (out: Result<
        RetransmitAction,
        MqttError,
    >)
        ensures
            ({
                let next = spec_next_packet_id(old(self).spec_last_packet_id());
                let msg = SubscribeMessageView {
                    packet_id: next,
                    topic_filters: spec_filters(topics@),
                };
                match out {
                    Ok(action) => {
                        &&& msg.wf()
                        &&& action == RetransmitAction::WriteAndWait
                        &&& final(self).spec_last_packet_id() == next
                        &&& final(self).spec_retransmitter()@.pending == msg.spec_to_bytes()
                        &&& final(self).spec_retransmitter()@.writes == 1
                        &&& final(self).spec_retransmitter()@.awaited == Some(next)
                        &&& final(self).spec_retransmitter()@.remaining_retries
                            == AMOUNT_OF_RETRIES
                    },
                    Err(e) => e == MqttError::ProtocolViolation && !msg.wf() && *final(self)
                        == *old(self),
                }
            }),
    {
        let mut ids = self.packet_ids;
        let packet_id: u16 = ids.next_id();
        let built = SubscribeMessage::new(packet_id, topics);
        match built {
            Ok(subscribe) => {
                self.packet_ids = ids;
                let msg = Message::Subscribe(subscribe);
                Ok(self.retransmitter.send_and_retransmit(&msg))
            },
            Err(e) => Err(e),
        }
    }

    /// The retransmitter of the client, to report what a wait brought.
    pub fn retransmitter(&mut self) -> (out: &mut Retransmitter)
        ensures
            *out == old(self).spec_retransmitter(),
            final(self).spec_retransmitter() == *final(out),
            final(self).spec_last_packet_id() == old(self).spec_last_packet_id(),
    {
        &mut self.retransmitter
    }
}

} // verus!
