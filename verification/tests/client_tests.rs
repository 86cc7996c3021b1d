use rustx::mqtt::client::mqtt_client::{MQTTClient, PacketIdAllocator};
use rustx::mqtt::client::mqtt_client_listener::{dispatch, ListenerAction};
use rustx::mqtt::client::mqtt_client_retransmitter::{
    AckWait, RetransmitAction, Retransmitter, ACK_WAITING_INTERVAL, AMOUNT_OF_RETRIES,
};
use rustx::mqtt::messages::connack_message::ConnackMessage;
use rustx::mqtt::messages::connect_return_code::ConnectReturnCode;
use rustx::mqtt::messages::disconnect_message::DisconnectMessage;
use rustx::mqtt::messages::message::Message;
use rustx::mqtt::messages::puback_message::PubAckMessage;
use rustx::mqtt::messages::publish_message::PublishMessage;
use rustx::mqtt::messages::suback_message::SubAckMessage;
use rustx::mqtt::messages::subscribe_message::SubscribeMessage;
use rustx::mqtt::messages::subscribe_return_code::SubscribeReturnCode;
use rustx::mqtt::mqtt_error::MqttError;

fn qos1_publish(packet_id: u16) -> Message {
    Message::Publish(
        PublishMessage::new(1, b"cam".to_vec(), Some(packet_id), b"hello".to_vec(), 77).unwrap(),
    )
}

#[test]
fn retransmission_constants_are_five_retries_of_one_second() {
    assert_eq!(AMOUNT_OF_RETRIES, 5);
    assert_eq!(ACK_WAITING_INTERVAL, 1000);
}

#[test]
fn packet_identifiers_grow_and_skip_zero() {
    let mut ids = PacketIdAllocator::new();
    assert_eq!(ids.next_id(), 1);
    assert_eq!(ids.next_id(), 2);
    for _ in 0..65532 {
        ids.next_id();
    }
    assert_eq!(ids.next_id(), 65535);
    assert_eq!(ids.next_id(), 1);
}

#[test]
fn qos0_publish_is_written_once_and_not_awaited() {
    let mut retransmitter = Retransmitter::new();
    let msg = Message::Publish(PublishMessage::new(0, b"cam".to_vec(), None, vec![1], 5).unwrap());
    assert_eq!(retransmitter.send_and_retransmit(&msg), RetransmitAction::WriteAndReturn);
    assert_eq!(retransmitter.pending_bytes(), &msg.to_bytes());
    assert_eq!(retransmitter.writes(), 1);
    assert!(!retransmitter.is_waiting());
    assert_eq!(Retransmitter::wait_for_ack_and_retransmit(&msg), None);
    assert_eq!(retransmitter.wait_and_retransmit(AckWait::Timeout), RetransmitAction::ReturnOk);
    assert_eq!(retransmitter.writes(), 1);
}

#[test]
fn qos1_publish_ends_with_its_puback() {
    let mut retransmitter = Retransmitter::new();
    let msg = qos1_publish(9);
    assert_eq!(Retransmitter::wait_for_ack_and_retransmit(&msg), Some(9));
    assert_eq!(retransmitter.send_and_retransmit(&msg), RetransmitAction::WriteAndWait);
    assert!(retransmitter.is_waiting());
    assert_eq!(
        retransmitter.wait_and_retransmit(AckWait::Ack(Some(9))),
        RetransmitAction::ReturnOk
    );
    assert_eq!(retransmitter.writes(), 1);
    assert!(!retransmitter.is_waiting());
}

#[test]
fn dropped_puback_costs_exactly_one_identical_rewrite() {
    let mut retransmitter = Retransmitter::new();
    let msg = qos1_publish(9);
    let first = retransmitter.send_and_retransmit(&msg);
    assert_eq!(first, RetransmitAction::WriteAndWait);
    let first_bytes = retransmitter.pending_bytes().clone();
    let second = retransmitter.wait_and_retransmit(AckWait::Timeout);
    assert_eq!(second, RetransmitAction::WriteAndWait);
    assert_eq!(retransmitter.pending_bytes(), &first_bytes);
    assert_eq!(first_bytes, msg.to_bytes());
    let done = retransmitter.wait_and_retransmit(AckWait::Ack(Some(9)));
    assert_eq!(done, RetransmitAction::ReturnOk);
    assert_eq!(Retransmitter::result_of(done), Some(Ok(())));
    assert_eq!(retransmitter.writes(), 2);
}

#[test]
fn retries_are_spent_after_six_writes() {
    let mut retransmitter = Retransmitter::new();
    let msg = qos1_publish(3);
    let mut action = retransmitter.send_and_retransmit(&msg);
    let mut writes = 0;
    let mut rounds = 0;
    while action == RetransmitAction::WriteAndWait {
        writes += 1;
        rounds += 1;
        assert!(rounds < 100);
        action = retransmitter.wait_and_retransmit(AckWait::Timeout);
    }
    assert_eq!(writes, 6);
    assert_eq!(retransmitter.writes(), 6);
    assert_eq!(action, RetransmitAction::ReturnMaxRetriesExceeded);
    assert_eq!(Retransmitter::result_of(action), Some(Err(MqttError::MaxRetriesExceeded)));
    assert!(!retransmitter.is_waiting());
}

#[test]
fn acknowledgement_of_another_packet_is_discarded() {
    let mut retransmitter = Retransmitter::new();
    retransmitter.send_and_retransmit(&qos1_publish(3));
    assert_eq!(
        retransmitter.wait_and_retransmit(AckWait::Ack(Some(4))),
        RetransmitAction::WriteAndWait
    );
    assert_eq!(
        retransmitter.wait_and_retransmit(AckWait::Ack(None)),
        RetransmitAction::WriteAndWait
    );
    assert_eq!(
        retransmitter.wait_and_retransmit(AckWait::Disconnected),
        RetransmitAction::WriteAndWait
    );
    assert_eq!(retransmitter.writes(), 4);
    assert_eq!(
        retransmitter.wait_and_retransmit(AckWait::Ack(Some(3))),
        RetransmitAction::ReturnOk
    );
}

#[test]
fn ack_arrival_is_told_from_the_outcome_of_the_wait() {
    assert_eq!(Retransmitter::has_ack_arrived(Some(5), AckWait::Ack(Some(5))), Ok(true));
    assert_eq!(Retransmitter::has_ack_arrived(Some(5), AckWait::Ack(Some(6))), Ok(false));
    assert_eq!(Retransmitter::has_ack_arrived(Some(5), AckWait::Timeout), Ok(false));
    assert_eq!(Retransmitter::has_ack_arrived(Some(5), AckWait::Disconnected), Ok(false));
    assert_eq!(
        Retransmitter::has_ack_arrived(None, AckWait::Ack(Some(5))),
        Err(MqttError::ProtocolViolation)
    );
    assert!(Retransmitter::start_waiting_and_check_for_ack(1, AckWait::Ack(Some(1))));
    assert!(!Retransmitter::start_waiting_and_check_for_ack(1, AckWait::Ack(None)));
    assert_eq!(Retransmitter::result_of(RetransmitAction::WriteAndWait), None);
    assert_eq!(Retransmitter::result_of(RetransmitAction::WriteAndReturn), Some(Ok(())));
}

#[test]
fn subscribe_is_awaited_like_a_qos1_publish() {
    let mut retransmitter = Retransmitter::new();
    let msg = Message::Subscribe(SubscribeMessage::new(21, vec![(b"inc".to_vec(), 0)]).unwrap());
    assert_eq!(retransmitter.send_and_retransmit(&msg), RetransmitAction::WriteAndWait);
    assert_eq!(
        retransmitter.wait_and_retransmit(AckWait::Ack(Some(21))),
        RetransmitAction::ReturnOk
    );
}

#[test]
fn messages_without_acknowledgement_are_not_awaited() {
    let msg = Message::Disconnect(DisconnectMessage::new());
    assert_eq!(Retransmitter::wait_for_ack_and_retransmit(&msg), None);
    let mut retransmitter = Retransmitter::new();
    assert_eq!(retransmitter.send_and_retransmit(&msg), RetransmitAction::WriteAndReturn);
    assert_eq!(retransmitter.pending_bytes(), &vec![0xE0, 0x00]);
}

#[test]
fn client_publish_takes_the_next_packet_identifier() {
    let mut client = MQTTClient::new();
    let action = client.mqtt_publish(b"cam".to_vec(), b"hello".to_vec(), 1, 40).unwrap();
    assert_eq!(action, RetransmitAction::WriteAndWait);
    let expected = PublishMessage::new(1, b"cam".to_vec(), Some(1), b"hello".to_vec(), 40).unwrap();
    assert_eq!(client.retransmitter().pending_bytes(), &expected.to_bytes());
    assert_eq!(
        client.retransmitter().wait_and_retransmit(AckWait::Ack(Some(1))),
        RetransmitAction::ReturnOk
    );
    let action = client.mqtt_publish(b"cam".to_vec(), b"again".to_vec(), 1, 41).unwrap();
    assert_eq!(action, RetransmitAction::WriteAndWait);
    let expected = PublishMessage::new(1, b"cam".to_vec(), Some(2), b"again".to_vec(), 41).unwrap();
    assert_eq!(client.retransmitter().pending_bytes(), &expected.to_bytes());
}

#[test]
fn fresh_client_has_nothing_pending() {
    let mut client = MQTTClient::new();
    assert_eq!(client.retransmitter().pending_bytes(), &Vec::<u8>::new());
    assert_eq!(client.retransmitter().writes(), 0);
    assert!(!client.retransmitter().is_waiting());
    assert_eq!(
        client.retransmitter().wait_and_retransmit(AckWait::Timeout),
        RetransmitAction::ReturnOk
    );
}

#[test]
fn client_publish_qos0_takes_no_packet_identifier() {
    let mut client = MQTTClient::new();
    let action = client.mqtt_publish(b"cam".to_vec(), vec![], 0, 40).unwrap();
    assert_eq!(action, RetransmitAction::WriteAndReturn);
    let action = client.mqtt_publish(b"cam".to_vec(), vec![], 1, 40).unwrap();
    assert_eq!(action, RetransmitAction::WriteAndWait);
    let expected = PublishMessage::new(1, b"cam".to_vec(), Some(1), vec![], 40).unwrap();
    assert_eq!(client.retransmitter().pending_bytes(), &expected.to_bytes());
}

#[test]
fn client_refuses_what_cannot_be_encoded() {
    let mut client = MQTTClient::new();
    assert_eq!(
        client.mqtt_publish(b"cam".to_vec(), vec![0; 200], 1, 40),
        Err(MqttError::ProtocolViolation)
    );
    assert_eq!(
        client.mqtt_publish(b"cam".to_vec(), vec![], 2, 40),
        Err(MqttError::ProtocolViolation)
    );
    assert_eq!(
        client.mqtt_subscribe(vec![(b"cam".to_vec(), 3)]),
        Err(MqttError::ProtocolViolation)
    );
    let action = client.mqtt_subscribe(vec![(b"cam".to_vec(), 1)]).unwrap();
    assert_eq!(action, RetransmitAction::WriteAndWait);
    let expected = SubscribeMessage::new(1, vec![(b"cam".to_vec(), 1)]).unwrap();
    assert_eq!(client.retransmitter().pending_bytes(), &expected.to_bytes());
}

#[test]
fn listener_sends_each_message_where_it_belongs() {
    let connack = Message::Connack(ConnackMessage::new(false, ConnectReturnCode::ConnectionAccepted));
    assert_eq!(dispatch(connack), ListenerAction::NotifyAck(AckWait::Ack(None)));
    assert_eq!(
        dispatch(Message::Puback(PubAckMessage::new(8))),
        ListenerAction::NotifyAck(AckWait::Ack(Some(8)))
    );
    let suback = SubAckMessage::new(9, vec![SubscribeReturnCode::QoS1]).unwrap();
    assert_eq!(
        dispatch(Message::Suback(suback)),
        ListenerAction::NotifyAck(AckWait::Ack(Some(9)))
    );
    let publish = PublishMessage::new(0, b"inc".to_vec(), None, vec![1, 2, 3], 7).unwrap();
    let copy = PublishMessage::from_bytes(&publish.to_bytes()).unwrap();
    assert_eq!(dispatch(Message::Publish(publish)), ListenerAction::Deliver(copy));
    assert_eq!(dispatch(Message::Disconnect(DisconnectMessage::new())), ListenerAction::Discard);
}
