use rustx::apps::apps_mqtt_topics::AppsMqttTopics;
use rustx::apps::incident_data::incident::Incident;
use rustx::apps::incident_data::incident_info::IncidentSource;
use rustx::apps::qos_properties::{find_qos_label, parse_qos};
use rustx::apps::sist_camaras::camera::Camera;
use rustx::apps::sist_dron::dron_current_info::DronCurrentInfo;
use rustx::apps::sist_dron::dron_state::DronState;
use rustx::apps::sist_monitoreo::sistema_monitoreo::SistemaMonitoreo;
use rustx::mqtt::client::mqtt_client::MQTTClient;
use rustx::mqtt::client::mqtt_client_retransmitter::RetransmitAction;
use rustx::mqtt::messages::publish_message::PublishMessage;
use rustx::mqtt::messages::subscribe_message::SubscribeMessage;
use rustx::mqtt::mqtt_error::MqttError;

fn dron_message(id: u8, timestamp: u128) -> PublishMessage {
    let info = DronCurrentInfo::new(id, 1, 2, 50, DronState::FlyingToIncident);
    PublishMessage::new(0, b"dron".to_vec(), None, info.to_bytes(), timestamp).unwrap()
}

fn camera_message(id: u8, timestamp: u128) -> PublishMessage {
    let camera = Camera::new(id, 1, 2, 3, vec![]);
    PublishMessage::new(0, b"cam".to_vec(), None, camera.to_bytes(), timestamp).unwrap()
}

#[test]
fn topics_have_their_fixed_names() {
    let topics = [
        (AppsMqttTopics::CameraTopic, "cam"),
        (AppsMqttTopics::DronTopic, "dron"),
        (AppsMqttTopics::IncidentTopic, "inc"),
        (AppsMqttTopics::DescTopic, "desc"),
    ];
    for (n, (topic, name)) in topics.iter().enumerate() {
        assert_eq!(topic.to_str(), *name);
        assert_eq!(topic.to_bytes(), name.as_bytes().to_vec());
        assert_eq!(AppsMqttTopics::topic_from_bytes(&name.as_bytes().to_vec()), Ok(*topic));
        assert_eq!(topic.code(), n as u8);
    }
    assert_eq!(
        AppsMqttTopics::topic_from_bytes(&b"came".to_vec()),
        Err(MqttError::ProtocolViolation)
    );
    assert_eq!(AppsMqttTopics::topic_from_bytes(&b"".to_vec()), Err(MqttError::ProtocolViolation));
}

#[test]
fn older_message_about_the_same_dron_is_held_back() {
    let mut system = SistemaMonitoreo::new(1);
    assert_eq!(system.is_newer(&dron_message(4, 100)), Ok(true));
    assert_eq!(system.is_newer(&dron_message(4, 99)), Ok(false));
    assert_eq!(system.is_newer(&dron_message(4, 100)), Ok(true));
    assert_eq!(system.is_newer(&dron_message(4, 101)), Ok(true));
    assert_eq!(system.is_newer(&dron_message(4, 100)), Ok(false));
    assert_eq!(system.is_newer(&dron_message(5, 1)), Ok(true));
}

#[test]
fn cameras_and_drones_do_not_share_timestamps() {
    let mut system = SistemaMonitoreo::new(0);
    assert_eq!(system.is_newer(&dron_message(4, 100)), Ok(true));
    assert_eq!(system.is_newer(&camera_message(4, 50)), Ok(true));
    assert_eq!(system.is_newer(&camera_message(4, 49)), Ok(false));
    assert_eq!(system.is_newer(&dron_message(4, 60)), Ok(false));
    assert!(system.update_timestamp_if_newer(AppsMqttTopics::CameraTopic, 9, 0));
    assert!(!system.update_timestamp_if_newer(AppsMqttTopics::CameraTopic, 4, 49));
    assert!(system.update_timestamp_if_newer(AppsMqttTopics::CameraTopic, 4, 50));
}

#[test]
fn incidents_are_always_passed_on() {
    let mut system = SistemaMonitoreo::new(0);
    let incident = Incident::new(1, 0, 0, IncidentSource::Manual);
    let newer = PublishMessage::new(0, b"inc".to_vec(), None, incident.to_bytes(), 100).unwrap();
    let older = PublishMessage::new(0, b"inc".to_vec(), None, incident.to_bytes(), 1).unwrap();
    assert_eq!(system.is_newer(&newer), Ok(true));
    assert_eq!(system.is_newer(&older), Ok(true));
    let will = PublishMessage::new(0, b"desc".to_vec(), None, b"down".to_vec(), 0).unwrap();
    assert_eq!(system.is_newer(&will), Ok(true));
}

#[test]
fn unknown_topic_and_malformed_payload_are_protocol_violations() {
    let mut system = SistemaMonitoreo::new(0);
    let unknown = PublishMessage::new(0, b"other".to_vec(), None, vec![], 0).unwrap();
    assert_eq!(system.is_newer(&unknown), Err(MqttError::ProtocolViolation));
    let malformed = PublishMessage::new(0, b"dron".to_vec(), None, vec![1, 2, 3], 0).unwrap();
    assert_eq!(system.is_newer(&malformed), Err(MqttError::ProtocolViolation));
    let malformed = PublishMessage::new(0, b"cam".to_vec(), None, vec![1, 2, 3], 0).unwrap();
    assert_eq!(system.is_newer(&malformed), Err(MqttError::ProtocolViolation));
}

#[test]
fn monitoring_subscribes_to_its_four_topics() {
    let system = SistemaMonitoreo::new(1);
    assert_eq!(system.get_qos(), 1);
    let mut client = MQTTClient::new();
    assert_eq!(system.subscribe_to_topics_vec(&mut client), Ok(RetransmitAction::WriteAndWait));
    let expected = SubscribeMessage::new(
        1,
        vec![
            (b"cam".to_vec(), 1),
            (b"dron".to_vec(), 1),
            (b"inc".to_vec(), 1),
            (b"desc".to_vec(), 1),
        ],
    )
    .unwrap();
    assert_eq!(client.retransmitter().pending_bytes(), &expected.to_bytes());
    let copy = system.clone_ref();
    assert_eq!(copy.get_qos(), 1);
    let mut other = MQTTClient::new();
    assert_eq!(copy.subscribe_to_topics(&mut other), Some(RetransmitAction::WriteAndWait));
    assert_eq!(other.retransmitter().pending_bytes(), &expected.to_bytes());
}

#[test]
fn monitoring_with_an_impossible_qos_cannot_subscribe() {
    let system = SistemaMonitoreo::new(2);
    let mut client = MQTTClient::new();
    assert_eq!(system.subscribe_to_topics_vec(&mut client), Err(MqttError::ProtocolViolation));
    assert_eq!(system.subscribe_to_topics(&mut client), None);
}

#[test]
fn monitoring_publishes_incidents_on_their_topic() {
    let system = SistemaMonitoreo::new(1);
    let mut client = MQTTClient::new();
    let incident = Incident::new(3, 10, 20, IncidentSource::Manual);
    assert_eq!(
        system.publish_incident(incident, &mut client, 123),
        Ok(RetransmitAction::WriteAndWait)
    );
    let expected = PublishMessage::new(1, b"inc".to_vec(), Some(1), incident.to_bytes(), 123).unwrap();
    assert_eq!(client.retransmitter().pending_bytes(), &expected.to_bytes());
    assert_eq!(client.retransmitter().writes(), 1);
    assert!(client.retransmitter().is_waiting());

    let quiet = SistemaMonitoreo::new(0);
    let mut other = MQTTClient::new();
    assert_eq!(
        quiet.publish_incident(incident, &mut other, 124),
        Ok(RetransmitAction::WriteAndReturn)
    );
    let expected = PublishMessage::new(0, b"inc".to_vec(), None, incident.to_bytes(), 124).unwrap();
    assert_eq!(other.retransmitter().pending_bytes(), &expected.to_bytes());
    assert!(!other.retransmitter().is_waiting());
}

#[test]
fn monitoring_subscription_is_started_on_the_given_client() {
    let system = SistemaMonitoreo::new(0);
    let mut client = MQTTClient::new();
    client.mqtt_publish(b"inc".to_vec(), vec![], 1, 0).unwrap();
    assert_eq!(system.subscribe_to_topics(&mut client), Some(RetransmitAction::WriteAndWait));
    let expected = SubscribeMessage::new(
        2,
        vec![
            (b"cam".to_vec(), 0),
            (b"dron".to_vec(), 0),
            (b"inc".to_vec(), 0),
            (b"desc".to_vec(), 0),
        ],
    )
    .unwrap();
    assert_eq!(client.retransmitter().pending_bytes(), &expected.to_bytes());
    assert_eq!(client.retransmitter().writes(), 1);
    assert!(client.retransmitter().is_waiting());
}

#[test]
fn copy_of_the_monitoring_system_remembers_timestamps() {
    let mut system = SistemaMonitoreo::new(0);
    assert_eq!(system.is_newer(&dron_message(4, 100)), Ok(true));
    let mut copy = system.clone_ref();
    assert_eq!(copy.is_newer(&dron_message(4, 99)), Ok(false));
}

#[test]
fn qos_is_read_from_behind_its_label() {
    let text = |s: &str| s.as_bytes().to_vec();
    assert_eq!(parse_qos(&text("qos=1")), Ok(1));
    assert_eq!(parse_qos(&text("qos=0\n")), Ok(0));
    assert_eq!(parse_qos(&text("# client\nqos= \t 255 \r\n")), Ok(255));
    assert_eq!(parse_qos(&text("qos=+7")), Ok(7));
    assert_eq!(parse_qos(&text("qos=007")), Ok(7));
    assert_eq!(parse_qos(&text("xqos=2qos=3")), Err(MqttError::Config));
    assert_eq!(parse_qos(&text("qos=256")), Err(MqttError::Config));
    assert_eq!(parse_qos(&text("qos=")), Err(MqttError::Config));
    assert_eq!(parse_qos(&text("qos=+")), Err(MqttError::Config));
    assert_eq!(parse_qos(&text("qos=-0")), Err(MqttError::Config));
    assert_eq!(parse_qos(&text("qos=1\nip=127.0.0.1")), Err(MqttError::Config));
    assert_eq!(parse_qos(&text("qos 1")), Err(MqttError::Config));
    assert_eq!(parse_qos(&text("")), Err(MqttError::Config));
    assert_eq!(find_qos_label(&text("a qos=1 qos=2")), Some(2));
    assert_eq!(find_qos_label(&text("qos")), None);
}

#[test]
fn qos_reading_agrees_with_the_standard_number_reader() {
    for tail in ["0", "9", "10", "99", "100", "255", "256", "300", "1000", "+1", "++1", "1a", " 5 ", ""] {
        let content = format!("qos={}", tail);
        let expected = tail.trim().parse::<u8>().ok();
        assert_eq!(parse_qos(&content.as_bytes().to_vec()).ok(), expected);
    }
}

#[test]
fn qos_reading_trims_every_white_space_character() {
    for code in 0u32..=0x3100 {
        let Some(c) = char::from_u32(code) else {
            continue;
        };
        let content = format!("qos={}7{}", c, c);
        let expected = content[4..].trim().parse::<u8>().ok();
        assert_eq!(parse_qos(&content.as_bytes().to_vec()).ok(), expected);
        if c.is_whitespace() {
            assert_eq!(expected, Some(7));
        }
    }
    let content = "qos=\u{2003}\u{a0} 1\u{a0}\n\u{3000}";
    assert_eq!(parse_qos(&content.as_bytes().to_vec()), Ok(1));
    assert_eq!(parse_qos(&"qos=1\u{a0}".as_bytes().to_vec()), Ok(1));
    assert_eq!(parse_qos(&"qos=1\u{200b}".as_bytes().to_vec()), Err(MqttError::Config));
    assert_eq!(parse_qos(&"qos=\u{2028}".as_bytes().to_vec()), Err(MqttError::Config));
}
