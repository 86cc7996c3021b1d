use rustx::mqtt::messages::connack_message::ConnackMessage;
use rustx::mqtt::messages::connect_message::{ConnectFlags, ConnectMessage};
use rustx::mqtt::messages::connect_return_code::ConnectReturnCode;
use rustx::mqtt::messages::disconnect_message::DisconnectMessage;
use rustx::mqtt::messages::message::Message;
use rustx::mqtt::messages::puback_message::PubAckMessage;
use rustx::mqtt::messages::publish_message::PublishMessage;
use rustx::mqtt::messages::suback_message::SubAckMessage;
use rustx::mqtt::messages::subscribe_message::SubscribeMessage;
use rustx::mqtt::messages::subscribe_return_code::SubscribeReturnCode;
use rustx::mqtt::mqtt_error::MqttError;
use rustx::mqtt::mqtt_utils::fixed_header::FixedHeader;
use rustx::mqtt::mqtt_utils::packet_type::PacketType;
use rustx::mqtt::mqtt_utils::utils::{
    bytes_eq, copy_range, push_string_field, push_u16_be, read_string_field, read_u16_be,
};

#[test]
fn u16_is_written_most_significant_byte_first() {
    let mut bytes = vec![9u8];
    push_u16_be(&mut bytes, 0x1234);
    assert_eq!(bytes, vec![9, 0x12, 0x34]);
    assert_eq!(read_u16_be(&bytes, 1), Some(0x1234));
    assert_eq!(read_u16_be(&bytes, 2), None);
}

#[test]
fn string_field_carries_its_length_in_front() {
    let mut bytes = Vec::new();
    push_string_field(&mut bytes, &b"cam".to_vec());
    assert_eq!(bytes, vec![0, 3, b'c', b'a', b'm']);
    assert_eq!(read_string_field(&bytes, 0), Some((b"cam".to_vec(), 5)));
    assert_eq!(read_string_field(&bytes[..4].to_vec(), 0), None);
}

#[test]
fn byte_helpers_compare_and_copy() {
    assert!(bytes_eq(&b"dron".to_vec(), &b"dron".to_vec()));
    assert!(!bytes_eq(&b"dron".to_vec(), &b"dro".to_vec()));
    assert!(!bytes_eq(&b"dron".to_vec(), &b"drom".to_vec()));
    assert_eq!(copy_range(&vec![1, 2, 3, 4], 1, 3), vec![2, 3]);
}

#[test]
fn packet_type_codes_are_those_of_the_protocol() {
    let kinds = [
        (PacketType::Connect, 1u8),
        (PacketType::Connack, 2),
        (PacketType::Publish, 3),
        (PacketType::Puback, 4),
        (PacketType::Subscribe, 8),
        (PacketType::Suback, 9),
        (PacketType::Disconnect, 14),
    ];
    for (kind, code) in kinds {
        assert_eq!(kind.code(), code);
        assert_eq!(PacketType::from_code(code), Some(kind));
    }
    assert_eq!(PacketType::from_code(0), None);
    assert_eq!(PacketType::from_code(11), None);
    assert_eq!(PacketType::from_code(15), None);
}

#[test]
fn fixed_header_round_trip_and_limits() {
    let header = FixedHeader::new(PacketType::Publish, 2, 17).unwrap();
    assert_eq!(header.to_bytes(), vec![0x32, 17]);
    let back = FixedHeader::from_bytes(&vec![0x32, 17, 99]).unwrap();
    assert_eq!(back, header);
    assert_eq!(back.get_message_type(), PacketType::Publish);
    assert_eq!(back.get_flags(), 2);
    assert_eq!(back.get_rem_len(), 17);
    assert!(!back.is_disconnect_msg());
    assert_eq!(FixedHeader::fixed_header_len(), 2);
    assert_eq!(
        FixedHeader::new(PacketType::Publish, 0, 128),
        Err(MqttError::ProtocolViolation)
    );
    assert_eq!(
        FixedHeader::new(PacketType::Publish, 16, 0),
        Err(MqttError::ProtocolViolation)
    );
    assert_eq!(FixedHeader::from_bytes(&vec![0x30, 128]), Err(MqttError::ProtocolViolation));
    assert_eq!(FixedHeader::from_bytes(&vec![0x00, 0]), Err(MqttError::ProtocolViolation));
    assert_eq!(FixedHeader::from_bytes(&vec![0x30]), Err(MqttError::ProtocolViolation));
    assert!(FixedHeader::from_bytes(&vec![0xE0, 0]).unwrap().is_disconnect_msg());
}

#[test]
fn connect_flags_sit_on_their_bits() {
    let flags = ConnectFlags {
        username_flag: true,
        password_flag: true,
        will_retain: false,
        will_qos: 1,
        will_flag: true,
        clean_session: true,
        reserved: false,
    };
    assert_eq!(flags.to_byte(), 0b1100_1110);
    assert_eq!(ConnectFlags::from_byte(0b1100_1110), Ok(flags));
    assert_eq!(ConnectFlags::from_byte(0b0000_0001), Err(MqttError::ProtocolViolation));
    assert_eq!(ConnectFlags::from_byte(0b0001_0000), Err(MqttError::ProtocolViolation));
    let retain_only = ConnectFlags::from_byte(0b0010_0000).unwrap();
    assert!(retain_only.will_retain);
    assert!(!retain_only.clean_session);
}

#[test]
fn connack_is_always_four_bytes() {
    let accepted = ConnackMessage::new(false, ConnectReturnCode::ConnectionAccepted);
    assert_eq!(accepted.to_bytes(), vec![0x20, 0x02, 0x00, 0x00]);
    let refused = ConnackMessage::new(false, ConnectReturnCode::NotAuthorized);
    assert_eq!(refused.to_bytes(), vec![0x20, 0x02, 0x00, 0x05]);
    assert_eq!(ConnackMessage::new(true, ConnectReturnCode::ServerUnavailable).to_bytes().len(), 4);
    assert_eq!(ConnackMessage::from_bytes(&refused.to_bytes()), Ok(refused));
    assert_eq!(refused.get_return_code(), ConnectReturnCode::NotAuthorized);
    assert_eq!(accepted.to_result(), Ok(()));
    assert_eq!(refused.to_result(), Err(MqttError::AuthRefused));
    assert_eq!(
        ConnackMessage::from_bytes(&vec![0x20, 0x02, 0x00, 0x06]),
        Err(MqttError::ProtocolViolation)
    );
    assert_eq!(
        ConnackMessage::from_bytes(&vec![0x20, 0x02, 0x02, 0x00]),
        Err(MqttError::ProtocolViolation)
    );
    assert_eq!(
        ConnackMessage::from_bytes(&vec![0x20, 0x02, 0x00]),
        Err(MqttError::ProtocolViolation)
    );
}

#[test]
fn connect_return_codes_are_their_bytes() {
    for byte in 0u8..=5 {
        assert_eq!(ConnectReturnCode::from_byte(byte).unwrap().to_byte(), byte);
    }
    assert_eq!(ConnectReturnCode::from_byte(6), None);
    assert!(ConnectReturnCode::ConnectionAccepted.is_accepted());
    assert!(!ConnectReturnCode::BadUsernameOrPassword.is_accepted());
}

#[test]
fn puback_carries_the_packet_identifier() {
    let ack = PubAckMessage::new(0x0102);
    assert_eq!(ack.to_bytes(), vec![0x40, 0x02, 0x01, 0x02]);
    assert_eq!(PubAckMessage::from_bytes(&ack.to_bytes()), Ok(ack));
    assert_eq!(ack.get_packet_id(), 0x0102);
    assert_eq!(
        PubAckMessage::from_bytes(&vec![0x40, 0x03, 0x01, 0x02]),
        Err(MqttError::ProtocolViolation)
    );
    assert_eq!(
        PubAckMessage::from_bytes(&vec![0x50, 0x02, 0x01, 0x02]),
        Err(MqttError::ProtocolViolation)
    );
}

#[test]
fn suback_length_matches_what_follows() {
    let codes = vec![SubscribeReturnCode::QoS1, SubscribeReturnCode::QoS0, SubscribeReturnCode::Failure];
    let ack = SubAckMessage::new(0x0A0B, codes.clone()).unwrap();
    let bytes = ack.to_bytes();
    assert_eq!(bytes, vec![0x90, 5, 0x0A, 0x0B, 0x01, 0x00, 0x80]);
    assert_eq!(bytes[1] as usize, bytes.len() - 2);
    let back = SubAckMessage::from_bytes(&bytes).unwrap();
    assert_eq!(back, ack);
    assert_eq!(back.get_packet_id(), 0x0A0B);
    assert_eq!(back.get_return_codes(), &codes);
    assert_eq!(
        SubAckMessage::from_bytes(&vec![0x90, 3, 0, 1, 0x02]),
        Err(MqttError::ProtocolViolation)
    );
    assert_eq!(
        SubAckMessage::from_bytes(&vec![0x90, 4, 0, 1, 0x01]),
        Err(MqttError::ProtocolViolation)
    );
    assert_eq!(
        SubAckMessage::new(1, vec![SubscribeReturnCode::QoS1; 126]),
        Err(MqttError::ProtocolViolation)
    );
    assert!(SubAckMessage::new(1, vec![SubscribeReturnCode::QoS1; 125]).is_ok());
}

#[test]
fn subscribe_return_codes_are_their_bytes() {
    assert_eq!(SubscribeReturnCode::QoS0.to_byte(), 0x00);
    assert_eq!(SubscribeReturnCode::QoS1.to_byte(), 0x01);
    assert_eq!(SubscribeReturnCode::Failure.to_byte(), 0x80);
    assert_eq!(SubscribeReturnCode::from_byte(0x80), Some(SubscribeReturnCode::Failure));
    assert_eq!(SubscribeReturnCode::from_byte(0x02), None);
}

#[test]
fn subscribe_lists_its_filters_in_order() {
    let filters = vec![(b"cam".to_vec(), 1u8), (b"dron".to_vec(), 0u8)];
    let msg = SubscribeMessage::new(7, filters.clone()).unwrap();
    let bytes = msg.to_bytes();
    assert_eq!(
        bytes,
        vec![0x82, 15, 0, 7, 0, 3, b'c', b'a', b'm', 1, 0, 4, b'd', b'r', b'o', b'n', 0]
    );
    let back = SubscribeMessage::from_bytes(&bytes).unwrap();
    assert_eq!(back, msg);
    assert_eq!(back.get_packet_id(), 7);
    assert_eq!(back.get_topic_filters(), &filters);
}

#[test]
fn subscribe_refuses_what_it_cannot_spell() {
    assert_eq!(
        SubscribeMessage::new(7, vec![(b"cam".to_vec(), 2u8)]),
        Err(MqttError::ProtocolViolation)
    );
    assert_eq!(
        SubscribeMessage::new(7, vec![(vec![b'x'; 123], 0u8)]),
        Err(MqttError::ProtocolViolation)
    );
    assert!(SubscribeMessage::new(7, vec![(vec![b'x'; 122], 0u8)]).is_ok());
    assert_eq!(
        SubscribeMessage::from_bytes(&vec![0x82, 6, 0, 7, 0, 3, b'c', b'a']),
        Err(MqttError::ProtocolViolation)
    );
    assert_eq!(
        SubscribeMessage::from_bytes(&vec![0x82, 8, 0, 7, 0, 3, b'c', b'a', b'm', 2]),
        Err(MqttError::ProtocolViolation)
    );
    assert_eq!(
        SubscribeMessage::from_bytes(&vec![0x80, 8, 0, 7, 0, 3, b'c', b'a', b'm', 1]),
        Err(MqttError::ProtocolViolation)
    );
}

#[test]
fn publish_qos1_is_laid_out_field_by_field() {
    let msg = PublishMessage::new(1, b"cam".to_vec(), Some(0x0102), b"hello".to_vec(), 0x0A0B).unwrap();
    let bytes = msg.to_bytes();
    let mut expected = vec![0x32, 28, 0, 3, b'c', b'a', b'm', 0x01, 0x02];
    expected.extend_from_slice(b"hello");
    expected.extend_from_slice(&0x0A0Bu128.to_le_bytes());
    assert_eq!(bytes, expected);
    let back = PublishMessage::from_bytes(&bytes).unwrap();
    assert_eq!(back, msg);
    assert_eq!(back.get_topic(), &b"cam".to_vec());
    assert_eq!(back.get_payload(), &b"hello".to_vec());
    assert_eq!(back.get_qos(), 1);
    assert_eq!(back.get_packet_id(), Some(0x0102));
    assert_eq!(back.get_timestamp(), 0x0A0B);
}

#[test]
fn publish_qos0_has_no_packet_identifier() {
    let msg = PublishMessage::new(0, b"inc".to_vec(), None, vec![1, 2], u128::MAX).unwrap();
    let bytes = msg.to_bytes();
    assert_eq!(bytes[0], 0x30);
    assert_eq!(bytes.len(), 2 + 5 + 2 + 16);
    assert_eq!(&bytes[2..9], &[0, 3, b'i', b'n', b'c', 1, 2]);
    assert_eq!(PublishMessage::from_bytes(&bytes).unwrap(), msg);
    assert_eq!(msg.get_packet_id(), None);
}

#[test]
fn publish_with_empty_payload_is_valid() {
    let msg = PublishMessage::new(1, b"cam".to_vec(), Some(9), Vec::new(), 5).unwrap();
    let back = PublishMessage::from_bytes(&msg.to_bytes()).unwrap();
    assert_eq!(back.get_payload(), &Vec::<u8>::new());
    assert_eq!(back, msg);
}

#[test]
fn publish_refuses_what_it_cannot_spell() {
    let violation = Err(MqttError::ProtocolViolation);
    assert_eq!(PublishMessage::new(2, b"cam".to_vec(), Some(1), vec![], 0), violation);
    assert_eq!(PublishMessage::new(1, b"cam".to_vec(), None, vec![], 0), violation);
    assert_eq!(PublishMessage::new(0, b"cam".to_vec(), Some(1), vec![], 0), violation);
    assert_eq!(PublishMessage::new(0, b"cam".to_vec(), None, vec![0; 107], 0), violation);
    assert!(PublishMessage::new(0, b"cam".to_vec(), None, vec![0; 106], 0).is_ok());
    let good = PublishMessage::new(1, b"cam".to_vec(), Some(1), vec![7], 0).unwrap().to_bytes();
    let mut qos2 = good.clone();
    qos2[0] = 0x34;
    assert_eq!(PublishMessage::from_bytes(&qos2), violation);
    let mut short = good.clone();
    short.pop();
    assert_eq!(PublishMessage::from_bytes(&short), violation);
    let mut long_header = good.clone();
    long_header[1] = 128;
    assert_eq!(PublishMessage::from_bytes(&long_header), violation);
    assert_eq!(PublishMessage::from_bytes(&vec![0x30, 3, 0, 1, b'a']), violation);
}

#[test]
fn publish_ignores_dup_and_retain() {
    let good = PublishMessage::new(1, b"cam".to_vec(), Some(1), vec![7], 3).unwrap();
    let mut bytes = good.to_bytes();
    bytes[0] = 0x3B;
    assert_eq!(PublishMessage::from_bytes(&bytes).unwrap(), good);
}

#[test]
fn disconnect_is_two_bytes() {
    let msg = DisconnectMessage::new();
    assert_eq!(msg.to_bytes(), vec![0xE0, 0x00]);
    assert_eq!(DisconnectMessage::from_bytes(&vec![0xE0, 0x00]), Ok(msg));
    assert_eq!(
        DisconnectMessage::from_bytes(&vec![0xE0, 0x01]),
        Err(MqttError::ProtocolViolation)
    );
    assert_eq!(DisconnectMessage::from_bytes(&vec![0xE0]), Err(MqttError::ProtocolViolation));
}

#[test]
fn every_kind_of_message_survives_the_wire() {
    let messages = vec![
        Message::Connect(
            ConnectMessage::new(0x10, "c", Some("desc"), Some("bye"), Some("u"), Some("p")).unwrap(),
        ),
        Message::Connack(ConnackMessage::new(true, ConnectReturnCode::IdentifierRejected)),
        Message::Publish(PublishMessage::new(1, b"t".to_vec(), Some(65535), vec![0, 255], 1).unwrap()),
        Message::Publish(PublishMessage::new(0, Vec::new(), None, Vec::new(), 0).unwrap()),
        Message::Puback(PubAckMessage::new(0)),
        Message::Subscribe(SubscribeMessage::new(3, vec![(b"a".to_vec(), 0), (Vec::new(), 1)]).unwrap()),
        Message::Subscribe(SubscribeMessage::new(3, Vec::new()).unwrap()),
        Message::Suback(SubAckMessage::new(3, vec![SubscribeReturnCode::Failure]).unwrap()),
        Message::Suback(SubAckMessage::new(3, Vec::new()).unwrap()),
        Message::Disconnect(DisconnectMessage::new()),
    ];
    for msg in messages {
        let bytes = msg.to_bytes();
        assert_eq!(bytes[1] as usize, bytes.len() - 2);
        assert_eq!(Message::from_bytes(&bytes), Ok(msg));
    }
}

#[test]
fn message_knows_its_kind_and_packet_identifier() {
    let publish = Message::Publish(PublishMessage::new(1, b"t".to_vec(), Some(12), vec![], 1).unwrap());
    assert_eq!(publish.get_type(), PacketType::Publish);
    assert_eq!(publish.get_packet_id(), Some(12));
    assert!(publish.needs_ack());
    let quiet = Message::Publish(PublishMessage::new(0, b"t".to_vec(), None, vec![], 1).unwrap());
    assert_eq!(quiet.get_packet_id(), None);
    assert!(!quiet.needs_ack());
    let subscribe = Message::Subscribe(SubscribeMessage::new(5, vec![]).unwrap());
    assert_eq!(subscribe.get_type(), PacketType::Subscribe);
    assert_eq!(subscribe.get_packet_id(), Some(5));
    assert!(subscribe.needs_ack());
    let ack = Message::Puback(PubAckMessage::new(12));
    assert_eq!(ack.get_packet_id(), Some(12));
    assert!(!ack.needs_ack());
    assert_eq!(Message::Disconnect(DisconnectMessage::new()).get_packet_id(), None);
}

#[test]
fn message_of_unknown_kind_is_a_protocol_violation() {
    assert_eq!(Message::from_bytes(&Vec::new()), Err(MqttError::ProtocolViolation));
    assert_eq!(Message::from_bytes(&vec![0x00, 0x00]), Err(MqttError::ProtocolViolation));
    assert_eq!(Message::from_bytes(&vec![0xB0, 0x02, 0, 1]), Err(MqttError::ProtocolViolation));
    assert_eq!(Message::from_bytes(&vec![0x40, 0x02, 0]), Err(MqttError::ProtocolViolation));
}
