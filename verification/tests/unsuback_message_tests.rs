use rustx::mqtt::messages::unsuback_message::Unsuback;

#[test]
fn test_to_bytes() {
    let unsuback = Unsuback::new(0x00, 0x01);
    let bytes = unsuback.to_bytes();

    assert_eq!(bytes, vec![0b1011_0000, 0x02, 0x00, 0x01]);
}

#[test]
fn test_from_bytes() {
    let bytes = vec![0b1011_0000, 0x02, 0x00, 0x01];
    let unsuback = Unsuback::from_bytes(&bytes);

    assert_eq!(unsuback.fixed_header.message_type, 0b1011);
    assert_eq!(unsuback.fixed_header.reserved, 0b0000);
    assert_eq!(unsuback.fixed_header.remaining_length, 2);
    assert_eq!(unsuback.variable_header.packet_type_identifier_msb, 0x00);
    assert_eq!(unsuback.variable_header.packet_type_identifier_lsb, 0x01);
}

#[test]
fn unsuback_round_trip() {
    let msg = Unsuback::new(0xAB, 0xCD);
    assert_eq!(Unsuback::from_bytes(&msg.to_bytes()), msg);
}

#[test]
fn unsuback_lays_type_over_reserved_bits() {
    let mut msg = Unsuback::new(1, 2);
    msg.fixed_header.message_type = 0x1B;
    msg.fixed_header.reserved = 0x05;
    assert_eq!(msg.to_bytes()[0], 0xB5);
}
