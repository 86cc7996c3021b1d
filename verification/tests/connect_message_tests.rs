use rustx::mqtt::messages::connect_message::ConnectMessage;
use rustx::mqtt::mqtt_error::MqttError;

#[test]
fn connect_with_credentials_is_laid_out_field_by_field() {
    let mut msg =
        ConnectMessage::new(0x10, "c1", None, None, Some("sistema-monitoreo"), Some("rustx123"))
            .unwrap();
    let bytes = msg.to_bytes();
    let mut expected: Vec<u8> = vec![0x10, 43, 0, 4, b'M', b'Q', b'T', b'T', 4, 0xC2, 0, 0];
    expected.extend_from_slice(&[0, 2]);
    expected.extend_from_slice(b"c1");
    expected.extend_from_slice(&[0, 17]);
    expected.extend_from_slice(b"sistema-monitoreo");
    expected.extend_from_slice(&[0, 8]);
    expected.extend_from_slice(b"rustx123");
    assert_eq!(bytes, expected);
}

#[test]
fn connect_round_trip_keeps_every_field() {
    let mut msg =
        ConnectMessage::new(0x10, "dron-4", Some("dron"), Some("down"), Some("u"), Some("p"))
            .unwrap();
    let bytes = msg.to_bytes();
    let back = ConnectMessage::from_bytes(&bytes).unwrap();
    assert_eq!(back, msg);
    assert_eq!(back.get_client_id(), &b"dron-4".to_vec());
    assert_eq!(back.get_will_topic(), &Some(b"dron".to_vec()));
    assert_eq!(back.get_will_message(), &Some(b"down".to_vec()));
    assert_eq!(back.get_user(), &Some(b"u".to_vec()));
    assert_eq!(back.get_passwd(), &Some(b"p".to_vec()));
}

#[test]
fn connect_with_reserved_flag_is_refused() {
    let mut msg = ConnectMessage::new(0x10, "c1", None, None, None, None).unwrap();
    let mut bytes = msg.to_bytes();
    bytes[9] |= 0x01;
    assert_eq!(ConnectMessage::from_bytes(&bytes), Err(MqttError::ProtocolViolation));
}

#[test]
fn connect_too_long_for_one_length_byte_is_refused() {
    let long_id = "x".repeat(120);
    assert_eq!(
        ConnectMessage::new(0x10, &long_id, None, None, None, None),
        Err(MqttError::ProtocolViolation)
    );
}

#[test]
fn connect_with_another_first_byte_is_refused() {
    assert_eq!(
        ConnectMessage::new(0x20, "c1", None, None, None, None),
        Err(MqttError::ProtocolViolation)
    );
}
