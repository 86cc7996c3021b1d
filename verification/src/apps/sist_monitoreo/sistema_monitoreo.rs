//! The monitoring consumer: what it subscribes to, and which of the
//! messages that arrive it passes on to be shown.
//!
//! Of cameras and drones only the newest word counts: a message that was
//! created before the last one passed on for the same camera or drone is
//! held back. Everything else is passed on.

use std::collections::HashMap;
use vstd::prelude::*;
use crate::apps::apps_mqtt_topics::AppsMqttTopics;
use crate::apps::incident_data::incident::Incident;
use crate::apps::sist_camaras::camera::{spec_camera_from_bytes, Camera};
use crate::apps::sist_dron::dron_current_info::DronCurrentInfo;
use crate::mqtt::client::mqtt_client::{spec_next_packet_id, MQTTClient};
use crate::mqtt::client::mqtt_client_retransmitter::{
    RetransmitAction,
    RetransmitterView,
    AMOUNT_OF_RETRIES,
};
use crate::mqtt::messages::publish_message::PublishMessage;
use crate::mqtt::messages::subscribe_message::{spec_filters, SubscribeMessageView};
use crate::mqtt::mqtt_error::MqttError;
use crate::mqtt::mqtt_utils::utils::copy_range;

verus! {

broadcast use vstd::std_specs::hash::group_hash_axioms;

/// The topics that the monitoring system subscribes to, in order.
pub open spec fn spec_monitored_topics() -> Seq<AppsMqttTopics> {
    seq![
        AppsMqttTopics::CameraTopic,
        AppsMqttTopics::DronTopic,
        AppsMqttTopics::IncidentTopic,
        AppsMqttTopics::DescTopic,
    ]
}

/// The topic filters of the monitoring system: each of its topics with the
/// quality of service `qos`.
pub open spec fn spec_monitored_filters(qos: u8) -> Seq<(Seq<u8>, u8)> {
    Seq::new(4, |i: int| (spec_monitored_topics()[i].spec_to_bytes(), qos))
}

/// The number that stands for a camera or a drone in the map of
/// timestamps: the topic in the high byte, the identifier in the low one.
pub open spec fn spec_entity_key(topic: AppsMqttTopics, id: u8) -> u16 {
    (topic.spec_code() * 256 + id) as u16
}

/// The camera or drone that a message is about: for a message on the
/// camera topic or on the drone topic, the identifier that its payload
/// gives. None for a message on another topic, which is about neither.
pub open spec fn spec_entity_of(topic: AppsMqttTopics, payload: Seq<u8>) -> Option<u8> {
    match topic {
        AppsMqttTopics::DronTopic => match DronCurrentInfo::spec_from_bytes(payload) {
            Some(info) => Some(info.id),
            None => None,
        },
        AppsMqttTopics::CameraTopic => match spec_camera_from_bytes(payload) {
            Some(camera) => Some(camera.id),
            None => None,
        },
        _ => None,
    }
}

/// Whether a message on `topic` is about a camera or a drone.
pub open spec fn spec_is_entity_topic(topic: AppsMqttTopics) -> bool {
    topic == AppsMqttTopics::DronTopic || topic == AppsMqttTopics::CameraTopic
}

/// What the monitoring system holds.
pub struct SistemaMonitoreoView {
    pub qos: u8,
    pub topics: Seq<(Seq<u8>, u8)>,
    /// For each camera and drone, when the last message passed on about it
    /// was created.
    pub timestamp_by_topic: Map<(AppsMqttTopics, u8), u128>,
}

impl SistemaMonitoreoView {
    /// Whether a message about `entity` created at `timestamp` is passed
    /// on: the first about it is, and so is each that was not created
    /// before the last one passed on.
    pub open spec fn spec_is_newer(self, entity: (AppsMqttTopics, u8), timestamp: u128) -> bool {
        !self.timestamp_by_topic.contains_key(entity) || timestamp
            >= self.timestamp_by_topic[entity]
    }

    /// The system after a message about `entity` created at `timestamp`
    /// arrived: a message that is passed on leaves its timestamp behind.
    pub open spec fn spec_update_timestamp(
        self,
        entity: (AppsMqttTopics, u8),
        timestamp: u128,
    ) -> SistemaMonitoreoView {
        if self.spec_is_newer(entity, timestamp) {
            SistemaMonitoreoView {
                timestamp_by_topic: self.timestamp_by_topic.insert(entity, timestamp),
                ..self
            }
        } else {
            self
        }
    }
}

/// The monitoring system.
#[derive(Debug)]
pub struct SistemaMonitoreo {
    qos: u8,
    topics: Vec<(Vec<u8>, u8)>,
    timestamp_by_topic: HashMap<u16, u128>,
}

impl View for SistemaMonitoreo {
    type V = SistemaMonitoreoView;

    closed spec fn view(&self) -> SistemaMonitoreoView {
        SistemaMonitoreoView {
            qos: self.qos,
            topics: spec_filters(self.topics@),
            timestamp_by_topic: Map::new(
                |entity: (AppsMqttTopics, u8)|
                    self.timestamp_by_topic@.contains_key(spec_entity_key(entity.0, entity.1)),
                |entity: (AppsMqttTopics, u8)|
                    self.timestamp_by_topic@[spec_entity_key(entity.0, entity.1)],
            ),
        }
    }
}

/// A copy of topic filters.
fn copy_filters(filters: &Vec<(Vec<u8>, u8)>) -> (out: Vec<(Vec<u8>, u8)>)
    ensures
        spec_filters(out@) == spec_filters(filters@),
{
    let mut out: Vec<(Vec<u8>, u8)> = Vec::new();
    let mut i: usize = 0;
    while i < filters.len()
        invariant
            i <= filters.len(),
            out@.len() == i,
            forall|k: int|
                0 <= k < i ==> (#[trigger] out@[k]).0@ == filters@[k].0@ && out@[k].1
                    == filters@[k].1,
        decreases filters.len() - i,
    {
        let topic = copy_range(&filters[i].0, 0, filters[i].0.len());
        assert(topic@ =~= filters@[i as int].0@);
        out.push((topic, filters[i].1));
        i += 1;
    }
    assert(spec_filters(out@) =~= spec_filters(filters@));
    out
}

impl SistemaMonitoreo {
    /// A monitoring system that subscribes to the topics of cameras,
    /// drones, incidents and wills with the quality of service `qos`, and
    /// that has passed on nothing yet.
    pub fn new(qos: u8) -> (out: SistemaMonitoreo)
        ensures
            out@ == (SistemaMonitoreoView {
                qos,
                topics: spec_monitored_filters(qos),
                timestamp_by_topic: Map::empty(),
            }),
    {
        let mut topics: Vec<(Vec<u8>, u8)> = Vec::new();
        topics.push((AppsMqttTopics::CameraTopic.to_bytes(), qos));
        topics.push((AppsMqttTopics::DronTopic.to_bytes(), qos));
        topics.push((AppsMqttTopics::IncidentTopic.to_bytes(), qos));
        topics.push((AppsMqttTopics::DescTopic.to_bytes(), qos));
        let out = SistemaMonitoreo { qos, topics, timestamp_by_topic: HashMap::new() };
        assert(out@.topics =~= spec_monitored_filters(qos));
        assert(out@.timestamp_by_topic =~= Map::empty());
        out
    }

    /// The quality of service with which the system publishes and
    /// subscribes.
    pub fn get_qos(&self) -> (qos: u8)
        ensures
            qos == self@.qos,
    {
        self.qos
    }

    /// A copy of the system.
    pub fn clone_ref(&self) -> (out: SistemaMonitoreo)
        ensures
            out@ == self@,
    {
        let topics = copy_filters(&self.topics);
        let out = SistemaMonitoreo {
            qos: self.qos,
            topics,
            timestamp_by_topic: self.timestamp_by_topic.clone(),
        };
        assert(out@.timestamp_by_topic =~= self@.timestamp_by_topic);
        out
    }

    /// Starts the subscription to the topics of the system: the client
    /// takes its next packet identifier and awaits the SUBACK that carries
    /// it. Gives up quietly, and leaves the client as it was, where the
    /// subscription cannot be encoded.
    pub fn subscribe_to_topics(&self, mqtt_client: &mut MQTTClient) -> (action: Option<
        RetransmitAction,
    >)
        ensures
            ({
                let next = spec_next_packet_id(old(mqtt_client).spec_last_packet_id());
                let msg = SubscribeMessageView { packet_id: next, topic_filters: self@.topics };
                match action {
                    Some(action) => {
                        &&& msg.wf()
                        &&& action == RetransmitAction::WriteAndWait
                        &&& final(mqtt_client).spec_last_packet_id() == next
                        &&& final(mqtt_client).spec_retransmitter()@ == (RetransmitterView {
                            pending: msg.spec_to_bytes(),
                            awaited: Some(next),
                            writes: 1,
                            remaining_retries: AMOUNT_OF_RETRIES as int,
                        })
                    },
                    None => !msg.wf() && *final(mqtt_client) == *old(mqtt_client),
                }
            }),
    {
        let started = self.subscribe_to_topics_vec(mqtt_client);
        match started {
            Ok(action) => Some(action),
            Err(_) => None,
        }
    }

    /// Starts the subscription to the topics of the system: the client
    /// takes its next packet identifier and awaits the SUBACK that carries
    /// it. A subscription that cannot be encoded is refused.
    pub fn subscribe_to_topics_vec(&self, mqtt_client: &mut MQTTClient) -> (out: Result<
        RetransmitAction,
        MqttError,
    >)
        ensures
            ({
                let next = spec_next_packet_id(old(mqtt_client).spec_last_packet_id());
                let msg = SubscribeMessageView { packet_id: next, topic_filters: self@.topics };
                match out {
                    Ok(action) => {
                        &&& msg.wf()
                        &&& action == RetransmitAction::WriteAndWait
                        &&& final(mqtt_client).spec_last_packet_id() == next
                        &&& final(mqtt_client).spec_retransmitter()@ == (RetransmitterView {
                            pending: msg.spec_to_bytes(),
                            awaited: Some(next),
                            writes: 1,
                            remaining_retries: AMOUNT_OF_RETRIES as int,
                        })
                    },
                    Err(e) => e == MqttError::ProtocolViolation && !msg.wf() && *final(mqtt_client) == *old(mqtt_client),
                }
            }),
    {
        let topics = copy_filters(&self.topics);
        mqtt_client.mqtt_subscribe(topics)
    }

    /// Starts the publication of an incident on the incident topic, created
    /// at `timestamp`, with the quality of service of the system: with 1
    /// the client takes its next packet identifier and awaits the PUBACK
    /// that carries it, with 0 the message is written once. An incident
    /// that cannot be published is refused, and the client stays as it was.
    pub fn publish_incident(
        &self,
        incident: Incident,
        mqtt_client: &mut MQTTClient,
        timestamp: u128,
    ) -> (out: Result<RetransmitAction, MqttError>)
        ensures
            ({
                let next = spec_next_packet_id(old(mqtt_client).spec_last_packet_id());
                let msg = MQTTClient::spec_publish(
                    AppsMqttTopics::IncidentTopic.spec_to_bytes(),
                    incident.spec_to_bytes(),
                    self@.qos,
                    timestamp,
                    next,
                );
                match out {
                    Ok(action) => {
                        &&& msg.wf()
                        &&& action == (if self@.qos == 1 {
                            RetransmitAction::WriteAndWait
                        } else {
                            RetransmitAction::WriteAndReturn
                        })
                        &&& final(mqtt_client).spec_last_packet_id() == (if self@.qos == 1 {
                            next
                        } else {
                            old(mqtt_client).spec_last_packet_id()
                        })
                        &&& final(mqtt_client).spec_retransmitter()@ == (RetransmitterView {
                            pending: msg.spec_to_bytes(),
                            awaited: msg.packet_id,
                            writes: 1,
                            remaining_retries: if self@.qos == 1 {
                                AMOUNT_OF_RETRIES as int
                            } else {
                                0
                            },
                        })
                    },
                    Err(e) => e == MqttError::ProtocolViolation && !msg.wf() && *final(mqtt_client) == *old(mqtt_client),
                }
            }),
    {
        mqtt_client.mqtt_publish(
            AppsMqttTopics::IncidentTopic.to_bytes(),
            incident.to_bytes(),
            self.qos,
            timestamp,
        )
    }

    /// Whether a message that arrived is passed on to be shown. A message
    /// about a camera or a drone is passed on unless it was created before
    /// the last one passed on about the same camera or drone, and leaves
    /// its timestamp behind when it is. Any other message is passed on. A
    /// topic that is none of the applications' and a payload that spells
    /// neither camera nor drone on their topics are protocol violations,
    /// and change nothing.
    pub fn is_newer(&mut self, publish_msg: &PublishMessage) -> (out: Result<bool, MqttError>)
        ensures
            match AppsMqttTopics::spec_from_bytes(publish_msg@.topic) {
                None => out == Err::<bool, MqttError>(MqttError::ProtocolViolation) && final(self)@ == old(self)@,
                Some(topic) => if spec_is_entity_topic(topic) {
                    match spec_entity_of(topic, publish_msg@.payload) {
                        None => out == Err::<bool, MqttError>(MqttError::ProtocolViolation)
                            && final(self)@ == old(self)@,
                        Some(id) => out == Ok::<bool, MqttError>(
                            old(self)@.spec_is_newer((topic, id), publish_msg@.timestamp),
                        ) && final(self)@ == old(self)@.spec_update_timestamp(
                            (topic, id),
                            publish_msg@.timestamp,
                        ),
                    }
                } else {
                    out == Ok::<bool, MqttError>(true) && final(self)@ == old(self)@
                },
            },
    {
        let read_topic = AppsMqttTopics::topic_from_bytes(publish_msg.get_topic());
        let topic = match read_topic {
            Ok(topic) => topic,
            Err(e) => {
                return Err(e);
            },
        };
        match topic {
            AppsMqttTopics::DronTopic => {
                let read = DronCurrentInfo::from_bytes(publish_msg.get_payload());
                match read {
                    Ok(current_info) => {
                        let id: u8 = current_info.get_id();
                        Ok(self.update_timestamp_if_newer(topic, id, publish_msg.get_timestamp()))
                    },
                    Err(e) => Err(e),
                }
            },
            AppsMqttTopics::CameraTopic => {
                let read = Camera::from_bytes(publish_msg.get_payload());
                match read {
                    Ok(camera) => {
                        let id: u8 = camera.get_id();
                        Ok(self.update_timestamp_if_newer(topic, id, publish_msg.get_timestamp()))
                    },
                    Err(e) => Err(e),
                }
            },
            _ => Ok(true),
        }
    }

    /// Takes note of a message about the camera or drone `id` created at
    /// `rcv_timestamp`, and says whether it is passed on: it is unless it
    /// was created before the last one passed on about the same camera or
    /// drone.
    pub fn update_timestamp_if_newer(
        &mut self,
        topic: AppsMqttTopics,
        id: u8,
        rcv_timestamp: u128,
    ) -> (newer: bool)
        ensures
            newer == old(self)@.spec_is_newer((topic, id), rcv_timestamp),
            final(self)@ == old(self)@.spec_update_timestamp((topic, id), rcv_timestamp),
    {
        let key: u16 = (topic.code() as u16) * 256 + id as u16;
        let ghost before = self@.timestamp_by_topic;
        let last = self.timestamp_by_topic.get(&key);
        let newer: bool = match last {
            Some(last_timestamp) => rcv_timestamp >= *last_timestamp,
            None => true,
        };
        if newer {
            self.timestamp_by_topic.insert(key, rcv_timestamp);
            assert(self@.timestamp_by_topic =~= before.insert((topic, id), rcv_timestamp));
        }
        newer
    }
}

/// A message about a camera or a drone that is passed on is not held back
/// when it arrives again, and from then on every message created before it
/// is.
pub proof fn lemma_passed_on_once(
    system: SistemaMonitoreoView,
    entity: (AppsMqttTopics, u8),
    timestamp: u128,
    earlier: u128,
)
    requires
        system.spec_is_newer(entity, timestamp),
        earlier < timestamp,
    ensures
        system.spec_update_timestamp(entity, timestamp).spec_is_newer(entity, timestamp),
        !system.spec_update_timestamp(entity, timestamp).spec_is_newer(entity, earlier),
{
}

} // verus!
