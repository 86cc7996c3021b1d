use rustx::mqtt::messages::connect_message::ConnectMessage;
use rustx::mqtt::messages::disconnect_message::DisconnectMessage;
use rustx::mqtt::messages::puback_message::PubAckMessage;
use rustx::mqtt::messages::publish_message::PublishMessage;
use rustx::mqtt::messages::suback_message::SubAckMessage;
use rustx::mqtt::messages::subscribe_message::SubscribeMessage;
use rustx::mqtt::messages::subscribe_return_code::SubscribeReturnCode;
use rustx::mqtt::mqtt_error::MqttError;
use rustx::mqtt::mqtt_utils::fixed_header::FixedHeader;
use rustx::mqtt::mqtt_utils::packet_type::PacketType;
use rustx::mqtt::server::client_reader::{
    create_packet, get_connect_message, get_whole_message_in_bytes, ClientReader, Handled,
    ReadStep, ReaderPhase,
};
use rustx::mqtt::server::mqtt_server::{MQTTServer, Outgoing};
use rustx::mqtt::server::registry::UserState;
use rustx::mqtt::server::user::WillMessage;

const USER: &str = "sistema-monitoreo";
const PASSWORD: &str = "rustx123";

fn new_server() -> MQTTServer {
    MQTTServer::new(USER.as_bytes().to_vec(), PASSWORD.as_bytes().to_vec())
}

fn connect_bytes(client_id: &str, will: Option<(&str, &str)>, password: &str) -> Vec<u8> {
    let mut msg = ConnectMessage::new(
        0x10,
        client_id,
        will.map(|w| w.0),
        will.map(|w| w.1),
        Some(USER),
        Some(password),
    )
    .unwrap();
    msg.to_bytes()
}

fn connected(server: &mut MQTTServer, conn: u64, client_id: &str, will: Option<(&str, &str)>) -> ClientReader {
    let mut reader = ClientReader::new(conn).unwrap();
    let handled = reader.handle_client(server, &connect_bytes(client_id, will, PASSWORD));
    assert_eq!(
        handled,
        Handled {
            outgoing: vec![Outgoing { conn, bytes: vec![0x20, 0x02, 0x00, 0x00] }],
            close: false
        }
    );
    assert_eq!(reader.get_phase(), ReaderPhase::Connected);
    reader
}

fn subscribe(server: &mut MQTTServer, reader: &mut ClientReader, packet_id: u16, topic: &str) -> Handled {
    let msg = SubscribeMessage::new(packet_id, vec![(topic.as_bytes().to_vec(), 1)]).unwrap();
    reader.handle_packet(server, &msg.to_bytes(), 0)
}

#[test]
fn published_message_reaches_the_subscriber_and_is_acknowledged() {
    let mut server = new_server();
    let mut a = connected(&mut server, 1, "A", None);
    let handled = subscribe(&mut server, &mut a, 5, "cam");
    let suback = SubAckMessage::new(5, vec![SubscribeReturnCode::QoS1]).unwrap();
    assert_eq!(
        handled,
        Handled { outgoing: vec![Outgoing { conn: 1, bytes: suback.to_bytes() }], close: false }
    );
    let mut b = connected(&mut server, 2, "B", None);
    let publish = PublishMessage::new(1, b"cam".to_vec(), Some(77), b"hello".to_vec(), 1000).unwrap();
    let handled = b.handle_packet(&mut server, &publish.to_bytes(), 1001);
    assert_eq!(
        handled,
        Handled {
            outgoing: vec![
                Outgoing { conn: 2, bytes: PubAckMessage::new(77).to_bytes() },
                Outgoing { conn: 1, bytes: publish.to_bytes() },
            ],
            close: false
        }
    );
    let received = PublishMessage::from_bytes(&handled.outgoing[1].bytes).unwrap();
    assert_eq!(received.get_payload(), &b"hello".to_vec());
    assert_eq!(received.get_topic(), &b"cam".to_vec());
}

#[test]
fn wrong_password_is_refused_and_the_connection_closed() {
    let mut server = new_server();
    let mut reader = ClientReader::new(4).unwrap();
    let handled = reader.handle_client(&mut server, &connect_bytes("A", None, "rustx124"));
    assert_eq!(
        handled,
        Handled {
            outgoing: vec![Outgoing { conn: 4, bytes: vec![0x20, 0x02, 0x00, 0x05] }],
            close: true
        }
    );
    assert_eq!(reader.get_phase(), ReaderPhase::Closed);
    assert!(!server.has_user(&b"A".to_vec()));
}

#[test]
fn missing_credentials_are_refused() {
    let mut server = new_server();
    let mut reader = ClientReader::new(4).unwrap();
    let mut msg = ConnectMessage::new(0x10, "A", None, None, None, None).unwrap();
    let handled = reader.handle_client(&mut server, &msg.to_bytes());
    assert_eq!(handled.outgoing, vec![Outgoing { conn: 4, bytes: vec![0x20, 0x02, 0x00, 0x05] }]);
    assert!(handled.close);
}

#[test]
fn will_is_published_when_the_connection_breaks() {
    let mut server = new_server();
    let mut b = connected(&mut server, 2, "B", None);
    subscribe(&mut server, &mut b, 1, "dron");
    let mut a = connected(&mut server, 1, "A", Some(("dron", "down")));
    let handled = a.server_handle_client_disconnection(&mut server, 555);
    let will = PublishMessage::new(0, b"dron".to_vec(), None, b"down".to_vec(), 555).unwrap();
    assert_eq!(
        handled,
        Handled { outgoing: vec![Outgoing { conn: 2, bytes: will.to_bytes() }], close: true }
    );
    assert_eq!(
        PublishMessage::from_bytes(&handled.outgoing[0].bytes).unwrap().get_payload(),
        &b"down".to_vec()
    );
    assert_eq!(server.user_state(&b"A".to_vec()), Some(UserState::TemporallyDisconnected));
    assert_eq!(a.get_phase(), ReaderPhase::Closed);
}

#[test]
fn broken_connection_keeps_subscriptions_for_the_next_connect() {
    let mut server = new_server();
    let mut a = connected(&mut server, 1, "A", None);
    subscribe(&mut server, &mut a, 1, "cam");
    a.server_handle_client_disconnection(&mut server, 0);
    assert!(server.is_subscribed(&b"A".to_vec(), &b"cam".to_vec()));
    assert_eq!(server.get_subscribers(&b"cam".to_vec(), &b"B".to_vec()), vec![1]);
    let _again = connected(&mut server, 9, "A", None);
    assert_eq!(server.user_state(&b"A".to_vec()), Some(UserState::Active));
    assert!(server.is_subscribed(&b"A".to_vec(), &b"cam".to_vec()));
    assert_eq!(server.get_subscribers(&b"cam".to_vec(), &b"B".to_vec()), vec![9]);
}

#[test]
fn disconnect_publishes_the_will_and_forgets_the_user() {
    let mut server = new_server();
    let mut b = connected(&mut server, 2, "B", None);
    subscribe(&mut server, &mut b, 1, "desc");
    let mut a = connected(&mut server, 1, "A", Some(("desc", "bye")));
    subscribe(&mut server, &mut a, 1, "cam");
    let handled = a.handle_packet(&mut server, &DisconnectMessage::new().to_bytes(), 10);
    let will = PublishMessage::new(0, b"desc".to_vec(), None, b"bye".to_vec(), 10).unwrap();
    assert_eq!(
        handled,
        Handled { outgoing: vec![Outgoing { conn: 2, bytes: will.to_bytes() }], close: true }
    );
    assert!(!server.has_user(&b"A".to_vec()));
    assert_eq!(server.user_state(&b"A".to_vec()), None);
    assert!(!server.is_subscribed(&b"A".to_vec(), &b"cam".to_vec()));
    assert_eq!(server.get_subscribers(&b"cam".to_vec(), &b"B".to_vec()), Vec::<u64>::new());
}

#[test]
fn publish_without_subscribers_is_still_acknowledged() {
    let mut server = new_server();
    let mut b = connected(&mut server, 2, "B", None);
    let publish = PublishMessage::new(1, b"cam".to_vec(), Some(3), Vec::new(), 0).unwrap();
    let handled = b.handle_packet(&mut server, &publish.to_bytes(), 0);
    assert_eq!(
        handled,
        Handled {
            outgoing: vec![Outgoing { conn: 2, bytes: vec![0x40, 0x02, 0x00, 0x03] }],
            close: false
        }
    );
}

#[test]
fn publish_qos0_is_forwarded_without_acknowledgement() {
    let mut server = new_server();
    let mut a = connected(&mut server, 1, "A", None);
    subscribe(&mut server, &mut a, 1, "inc");
    let mut b = connected(&mut server, 2, "B", None);
    let publish = PublishMessage::new(0, b"inc".to_vec(), None, vec![1], 0).unwrap();
    let handled = b.handle_packet(&mut server, &publish.to_bytes(), 0);
    assert_eq!(
        handled,
        Handled { outgoing: vec![Outgoing { conn: 1, bytes: publish.to_bytes() }], close: false }
    );
}

#[test]
fn sender_does_not_receive_its_own_message() {
    let mut server = new_server();
    let mut a = connected(&mut server, 1, "A", None);
    subscribe(&mut server, &mut a, 1, "cam");
    let mut b = connected(&mut server, 2, "B", None);
    subscribe(&mut server, &mut b, 1, "cam");
    let publish = PublishMessage::new(0, b"cam".to_vec(), None, vec![1], 0).unwrap();
    let handled = a.handle_packet(&mut server, &publish.to_bytes(), 0);
    assert_eq!(handled.outgoing, vec![Outgoing { conn: 2, bytes: publish.to_bytes() }]);
    let handled = b.handle_packet(&mut server, &publish.to_bytes(), 0);
    assert_eq!(handled.outgoing, vec![Outgoing { conn: 1, bytes: publish.to_bytes() }]);
}

#[test]
fn messages_of_one_topic_reach_subscribers_in_subscription_order() {
    let mut server = new_server();
    for (conn, id) in [(3u64, "C"), (1, "A"), (2, "B")] {
        let mut reader = connected(&mut server, conn, id, None);
        subscribe(&mut server, &mut reader, 1, "cam");
    }
    assert_eq!(server.get_subscribers(&b"cam".to_vec(), &b"Z".to_vec()), vec![3, 1, 2]);
    assert_eq!(server.get_subscribers(&b"cam".to_vec(), &b"A".to_vec()), vec![3, 2]);
    assert_eq!(server.get_subscribers(&b"dron".to_vec(), &b"Z".to_vec()), Vec::<u64>::new());
}

#[test]
fn registries_agree_after_every_step() {
    let mut server = new_server();
    let ids = ["A", "B", "C"];
    let topics = ["cam", "dron", "inc"];
    let mut readers: Vec<ClientReader> = Vec::new();
    for (n, id) in ids.iter().enumerate() {
        readers.push(connected(&mut server, n as u64, id, None));
    }
    let agree = |server: &MQTTServer, expected: &Vec<(usize, usize)>| {
        for (c, id) in ids.iter().enumerate() {
            for (t, topic) in topics.iter().enumerate() {
                let by_user = server.is_subscribed(&id.as_bytes().to_vec(), &topic.as_bytes().to_vec());
                let by_topic = server
                    .get_subscribers(&topic.as_bytes().to_vec(), &b"nobody".to_vec())
                    .contains(&(c as u64));
                assert_eq!(by_user, by_topic);
                assert_eq!(by_user, expected.contains(&(c, t)));
            }
        }
    };
    let mut expected: Vec<(usize, usize)> = Vec::new();
    agree(&server, &expected);
    for (c, t) in [(0usize, 0usize), (1, 0), (0, 1), (2, 2), (0, 0)] {
        subscribe(&mut server, &mut readers[c], 1, topics[t]);
        if !expected.contains(&(c, t)) {
            expected.push((c, t));
        }
        agree(&server, &expected);
    }
    readers[1].server_handle_client_disconnection(&mut server, 0);
    agree(&server, &expected);
    readers[0].server_handle_disconnect(&mut server, 0);
    expected.retain(|pair| pair.0 != 0);
    agree(&server, &expected);
}

#[test]
fn repeated_subscription_is_added_at_the_end_again() {
    let mut server = new_server();
    let mut c = connected(&mut server, 1, "C", None);
    let mut d = connected(&mut server, 2, "D", None);
    subscribe(&mut server, &mut c, 1, "cam");
    subscribe(&mut server, &mut d, 1, "cam");
    assert_eq!(server.get_subscribers(&b"cam".to_vec(), &b"Z".to_vec()), vec![1, 2]);
    subscribe(&mut server, &mut c, 2, "cam");
    assert_eq!(server.get_subscribers(&b"cam".to_vec(), &b"Z".to_vec()), vec![1, 2, 1]);
    assert_eq!(server.get_subscribers(&b"cam".to_vec(), &b"C".to_vec()), vec![2]);
    assert!(server.is_subscribed(&b"C".to_vec(), &b"cam".to_vec()));
    c.server_handle_disconnect(&mut server, 0);
    assert_eq!(server.get_subscribers(&b"cam".to_vec(), &b"Z".to_vec()), vec![2]);
}

#[test]
fn subscribe_leaves_other_topics_as_they_were() {
    let mut server = new_server();
    let mut c = connected(&mut server, 1, "C", None);
    let mut d = connected(&mut server, 2, "D", None);
    subscribe(&mut server, &mut c, 1, "dron");
    let msg = SubscribeMessage::new(9, vec![(b"cam".to_vec(), 0), (b"inc".to_vec(), 1)]).unwrap();
    d.handle_packet(&mut server, &msg.to_bytes(), 0);
    assert_eq!(server.get_subscribers(&b"dron".to_vec(), &b"Z".to_vec()), vec![1]);
    assert_eq!(server.get_subscribers(&b"cam".to_vec(), &b"Z".to_vec()), vec![2]);
    assert_eq!(server.get_subscribers(&b"inc".to_vec(), &b"Z".to_vec()), vec![2]);
}

#[test]
fn wrong_credentials_are_answered_whatever_the_will() {
    let mut server = new_server();
    let refused = Handled {
        outgoing: vec![Outgoing { conn: 1, bytes: vec![0x20, 0x02, 0x00, 0x05] }],
        close: true,
    };
    let topic = "t".repeat(10);
    for message in ["m".repeat(99), "m".repeat(100)] {
        let mut msg = ConnectMessage::new(0x10, "A", Some(&topic), Some(&message), None, None).unwrap();
        let mut reader = ClientReader::new(1).unwrap();
        assert_eq!(reader.handle_client(&mut server, &msg.to_bytes()), refused);
        assert_eq!(reader.get_phase(), ReaderPhase::Closed);
        assert!(!server.has_user(&b"A".to_vec()));
    }
    let mut longest = ConnectMessage::new(0x10, "", Some("desc"), Some(&"m".repeat(106)), None, None).unwrap();
    let bytes = longest.to_bytes();
    assert_eq!(bytes.len(), 128);
    let mut reader = ClientReader::new(1).unwrap();
    assert_eq!(reader.handle_client(&mut server, &bytes), refused);
}

#[test]
fn will_that_cannot_be_published_is_stored_and_published_to_nobody() {
    let mut server = new_server();
    let mut b = connected(&mut server, 2, "B", None);
    subscribe(&mut server, &mut b, 1, "desc");
    server.connect_user(
        b"A".to_vec(),
        1,
        Some(WillMessage { topic: b"desc".to_vec(), message: b"x".to_vec(), qos: 2 }),
    );
    assert_eq!(server.user_state(&b"A".to_vec()), Some(UserState::Active));
    assert_eq!(server.publish_users_will_message(&b"A".to_vec(), 4), vec![]);
    server.connect_user(
        b"C".to_vec(),
        3,
        Some(WillMessage { topic: b"desc".to_vec(), message: vec![b'x'; 106], qos: 0 }),
    );
    assert_eq!(server.publish_users_will_message(&b"C".to_vec(), 4), vec![]);
}

#[test]
fn will_is_publishable_when_it_fits_a_publish() {
    let will = |qos: u8, message: usize| WillMessage {
        topic: b"desc".to_vec(),
        message: vec![b'x'; message],
        qos,
    };
    assert!(will(0, 0).is_publishable());
    assert!(will(0, 105).is_publishable());
    assert!(!will(0, 106).is_publishable());
    assert!(will(1, 103).is_publishable());
    assert!(!will(1, 104).is_publishable());
    assert!(!will(2, 0).is_publishable());
}

#[test]
fn suback_grants_qos1_for_every_filter() {
    let mut server = new_server();
    let mut a = connected(&mut server, 1, "A", None);
    let msg = SubscribeMessage::new(300, vec![(b"cam".to_vec(), 0), (b"dron".to_vec(), 1)]).unwrap();
    let handled = a.handle_packet(&mut server, &msg.to_bytes(), 0);
    assert_eq!(handled.outgoing[0].bytes, vec![0x90, 4, 0x01, 0x2C, 0x01, 0x01]);
    assert!(server.is_subscribed(&b"A".to_vec(), &b"dron".to_vec()));
    assert_eq!(
        server.add_subscribers_to_topic(&msg, &b"A".to_vec()),
        Ok(vec![SubscribeReturnCode::QoS1, SubscribeReturnCode::QoS1])
    );
    assert_eq!(
        server.add_subscribers_to_topic(&msg, &b"nobody".to_vec()),
        Err(MqttError::RegistryInconsistency)
    );
}

#[test]
fn first_message_must_be_a_connect() {
    let mut server = new_server();
    let mut reader = ClientReader::new(1).unwrap();
    let publish = PublishMessage::new(0, b"cam".to_vec(), None, vec![1], 0).unwrap();
    let handled = reader.handle_client(&mut server, &publish.to_bytes());
    assert_eq!(handled, Handled { outgoing: vec![], close: true });
    assert_eq!(reader.get_phase(), ReaderPhase::Closed);
}

#[test]
fn reserved_connect_flag_refuses_the_connection_without_connack() {
    let mut server = new_server();
    let mut reader = ClientReader::new(1).unwrap();
    let mut bytes = connect_bytes("A", None, PASSWORD);
    bytes[9] |= 1;
    let handled = reader.handle_client(&mut server, &bytes);
    assert_eq!(handled, Handled { outgoing: vec![], close: true });
    assert!(!server.has_user(&b"A".to_vec()));
}

#[test]
fn packets_before_connect_are_passed_over() {
    let mut server = new_server();
    let mut reader = ClientReader::new(1).unwrap();
    let publish = PublishMessage::new(1, b"cam".to_vec(), Some(1), vec![1], 0).unwrap();
    let handled = reader.handle_packet(&mut server, &publish.to_bytes(), 0);
    assert_eq!(handled, Handled { outgoing: vec![], close: false });
    assert_eq!(reader.get_phase(), ReaderPhase::AwaitingConnect);
}

#[test]
fn malformed_packet_ends_the_connection_like_a_broken_one() {
    let mut server = new_server();
    let mut b = connected(&mut server, 2, "B", None);
    subscribe(&mut server, &mut b, 1, "desc");
    let mut a = connected(&mut server, 1, "A", Some(("desc", "gone")));
    let handled = a.handle_packet(&mut server, &vec![0x30, 0x01, 0x00], 9);
    let will = PublishMessage::new(0, b"desc".to_vec(), None, b"gone".to_vec(), 9).unwrap();
    assert_eq!(
        handled,
        Handled { outgoing: vec![Outgoing { conn: 2, bytes: will.to_bytes() }], close: true }
    );
    assert_eq!(server.user_state(&b"A".to_vec()), Some(UserState::TemporallyDisconnected));
}

#[test]
fn acknowledgements_from_clients_are_passed_over() {
    let mut server = new_server();
    let mut a = connected(&mut server, 1, "A", None);
    let handled = a.handle_packet(&mut server, &PubAckMessage::new(1).to_bytes(), 0);
    assert_eq!(handled, Handled { outgoing: vec![], close: false });
    assert_eq!(a.get_phase(), ReaderPhase::Connected);
}

#[test]
fn second_connect_of_an_active_client_starts_afresh() {
    let mut server = new_server();
    let mut a = connected(&mut server, 1, "A", None);
    subscribe(&mut server, &mut a, 1, "cam");
    let _other = connected(&mut server, 7, "A", None);
    assert_eq!(server.user_state(&b"A".to_vec()), Some(UserState::Active));
    assert!(!server.is_subscribed(&b"A".to_vec(), &b"cam".to_vec()));
    assert_eq!(server.get_subscribers(&b"cam".to_vec(), &b"B".to_vec()), Vec::<u64>::new());
}

#[test]
fn will_with_qos1_takes_a_packet_identifier_of_the_broker() {
    let mut server = new_server();
    let mut b = connected(&mut server, 2, "B", None);
    subscribe(&mut server, &mut b, 1, "desc");
    server.connect_user(
        b"A".to_vec(),
        1,
        Some(WillMessage { topic: b"desc".to_vec(), message: b"x".to_vec(), qos: 1 }),
    );
    let first = server.publish_users_will_message(&b"A".to_vec(), 4);
    let expected = PublishMessage::new(1, b"desc".to_vec(), Some(1), b"x".to_vec(), 4).unwrap();
    assert_eq!(first, vec![Outgoing { conn: 2, bytes: expected.to_bytes() }]);
    let second = server.publish_users_will_message(&b"A".to_vec(), 5);
    let expected = PublishMessage::new(1, b"desc".to_vec(), Some(2), b"x".to_vec(), 5).unwrap();
    assert_eq!(second, vec![Outgoing { conn: 2, bytes: expected.to_bytes() }]);
    assert_eq!(server.publish_users_will_message(&b"B".to_vec(), 5), vec![]);
}

#[test]
fn header_says_what_to_read_next() {
    assert_eq!(ClientReader::next_read_step(&vec![0x30, 12]), ReadStep::ReadRemaining(12));
    assert_eq!(ClientReader::next_read_step(&vec![0x82, 1]), ReadStep::ReadRemaining(1));
    assert_eq!(ClientReader::next_read_step(&vec![0xE0, 0]), ReadStep::Disconnect);
    assert_eq!(ClientReader::next_read_step(&vec![0x30, 0]), ReadStep::EndOfStream);
    assert_eq!(ClientReader::next_read_step(&vec![0x00, 0]), ReadStep::EndOfStream);
    assert_eq!(ClientReader::next_read_step(&vec![0x30, 200]), ReadStep::EndOfStream);
    assert_eq!(ClientReader::next_read_step(&vec![]), ReadStep::EndOfStream);
    assert_eq!(
        ClientReader::read_and_validate_header(&vec![0x10, 12]),
        FixedHeader::new(PacketType::Connect, 0, 12)
    );
    assert_eq!(
        ClientReader::read_and_validate_header(&vec![0x10]),
        Err(MqttError::ProtocolViolation)
    );
}

#[test]
fn packet_is_put_together_from_header_and_rest() {
    let whole = connect_bytes("A", None, PASSWORD);
    let header_bytes = whole[..2].to_vec();
    let rest = whole[2..].to_vec();
    assert_eq!(get_whole_message_in_bytes(&header_bytes, &rest), whole);
    let header = FixedHeader::from_bytes(&header_bytes).unwrap();
    let packet = create_packet(&header, &header_bytes, &rest, &b"A".to_vec());
    assert_eq!(packet.message_type, PacketType::Connect);
    assert_eq!(packet.msg_bytes, whole);
    assert_eq!(packet.client_id, b"A".to_vec());
    let msg = get_connect_message(&header_bytes, &rest).unwrap();
    assert_eq!(msg.get_client_id(), &b"A".to_vec());
    assert_eq!(
        get_connect_message(&header_bytes, &rest[1..].to_vec()),
        Err(MqttError::ProtocolViolation)
    );
}

#[test]
fn authenticate_answers_with_the_right_connack() {
    let server = new_server();
    let good = ConnectMessage::new(0x10, "A", None, None, Some(USER), Some(PASSWORD)).unwrap();
    assert_eq!(server.authenticate(&good), (true, vec![0x20, 0x02, 0x00, 0x00]));
    let bad = ConnectMessage::new(0x10, "A", None, None, Some("sistema"), Some(PASSWORD)).unwrap();
    assert_eq!(server.authenticate(&bad), (false, vec![0x20, 0x02, 0x00, 0x05]));
    assert!(server.is_authentic(&Some(USER.as_bytes().to_vec()), &Some(PASSWORD.as_bytes().to_vec())));
    assert!(!server.is_authentic(&Some(USER.as_bytes().to_vec()), &None));
}
