//! CONNECT: the message with which a client opens its session.

use vstd::prelude::*;
use vstd::string::*;
use crate::mqtt::mqtt_error::MqttError;
use crate::mqtt::mqtt_utils::fixed_header::REMAINING_LENGTH_LIMIT;
use crate::mqtt::mqtt_utils::utils::{
    lemma_optional_round_trip,
    lemma_string_round_trip,
    push_optional_field,
    push_string_field,
    push_u16_be,
    read_optional_field,
    read_string_field,
    spec_optional_bytes,
    spec_optional_field,
    spec_read_optional,
    spec_read_string,
    spec_string_field,
    spec_u16_from_be_bytes,
    spec_u16_to_be_bytes,
};

verus! {

/// The first byte of every CONNECT.
pub const CONNECT_FIRST_BYTE: u8 = 0x10;

/// The protocol level of MQTT 3.1.1.
pub const PROTOCOL_LEVEL: u8 = 4;

/// The bytes in front of the client identifier: the fixed header, the
/// protocol name with its length, the level, the flags and the keep-alive.
pub const CONNECT_PREAMBLE_LEN: usize = 12;

/// The first two bytes of a CONNECT.
#[derive(Debug, Clone, Copy, PartialEq, Eq)]
pub struct FixedHeader {
    message_type: u8,
    remaining_length: u8,
}

/// What follows the fixed header of a CONNECT, up to the payload.
#[derive(Debug, Clone, Copy, PartialEq, Eq)]
pub struct VariableHeader {
    protocol_name: [u8; 4],
    protocol_level: u8,
    connect_flags: ConnectFlags,
    keep_alive: u16,
}

/// The connect-flags byte, bit by bit.
#[derive(Debug, Clone, Copy, PartialEq, Eq)]
pub struct ConnectFlags {
    /// Bit 7: a user name is part of the payload.
    pub username_flag: bool,
    /// Bit 6: a password is part of the payload.
    pub password_flag: bool,
    /// Bit 5.
    pub will_retain: bool,
    /// Bits 3 and 4.
    pub will_qos: u8,
    /// Bit 2: a will topic and a will message are part of the payload.
    pub will_flag: bool,
    /// Bit 1.
    pub clean_session: bool,
    /// Bit 0, which no valid message sets.
    pub reserved: bool,
}

/// The strings of a CONNECT.
#[derive(Debug, PartialEq, Eq)]
pub struct Payload {
    client_id: Vec<u8>,
    will_topic: Option<Vec<u8>>,
    will_message: Option<Vec<u8>>,
    username: Option<Vec<u8>>,
    password: Option<Vec<u8>>,
}

/// A CONNECT message.
#[derive(Debug, PartialEq, Eq)]
pub struct ConnectMessage {
    fixed_header: FixedHeader,
    variable_header: VariableHeader,
    payload: Payload,
}

/// The weight of a flag in the connect-flags byte.
pub open spec fn spec_bit(flag: bool, weight: int) -> int {
    if flag {
        weight
    } else {
        0
    }
}

impl ConnectFlags {
    /// No reserved bit and no quality of service above 1.
    pub open spec fn wf(self) -> bool {
        !self.reserved && self.will_qos <= 1
    }

    /// The flags as one byte. The reserved bit is never written.
    pub open spec fn spec_to_byte(self) -> u8 {
        (spec_bit(self.username_flag, 128) + spec_bit(self.password_flag, 64) + spec_bit(
            self.will_retain,
            32,
        ) + (self.will_qos % 4) * 8 + spec_bit(self.will_flag, 4) + spec_bit(
            self.clean_session,
            2,
        )) as u8
    }

    /// The flags that a byte spells, bit by bit.
    pub open spec fn spec_bits(byte: u8) -> ConnectFlags {
        ConnectFlags {
            username_flag: byte / 128 == 1,
            password_flag: (byte / 64) % 2 == 1,
            will_retain: (byte / 32) % 2 == 1,
            will_qos: (byte / 8) % 4,
            will_flag: (byte / 4) % 2 == 1,
            clean_session: (byte / 2) % 2 == 1,
            reserved: byte % 2 == 1,
        }
    }

    /// The flags that a byte spells, unless it sets the reserved bit or asks
    /// for a quality of service above 1.
    pub open spec fn spec_from_byte(byte: u8) -> Option<ConnectFlags> {
        if Self::spec_bits(byte).wf() {
            Some(Self::spec_bits(byte))
        } else {
            None
        }
    }

    /// The flags as one byte. The reserved bit is never written.
    pub fn to_byte(&self) -> (byte: u8)
        ensures
            byte == self.spec_to_byte(),
    {
        let mut byte: u8 = (self.will_qos % 4) * 8;
        if self.username_flag {
            byte = byte + 128;
        }
        if self.password_flag {
            byte = byte + 64;
        }
        if self.will_retain {
            byte = byte + 32;
        }
        if self.will_flag {
            byte = byte + 4;
        }
        if self.clean_session {
            byte = byte + 2;
        }
        byte
    }

    /// Reads the flags from their byte. A set reserved bit and a quality of
    /// service above 1 are protocol violations.
    pub fn from_byte(byte: u8) -> (out: Result<ConnectFlags, MqttError>)
        ensures
            match out {
                Ok(flags) => Self::spec_from_byte(byte) == Some(flags) && flags.wf(),
                Err(e) => e == MqttError::ProtocolViolation && Self::spec_from_byte(byte) is None,
            },
    {
        let flags = ConnectFlags {
            username_flag: byte / 128 == 1,
            password_flag: (byte / 64) % 2 == 1,
            will_retain: (byte / 32) % 2 == 1,
            will_qos: (byte / 8) % 4,
            will_flag: (byte / 4) % 2 == 1,
            clean_session: (byte / 2) % 2 == 1,
            reserved: byte % 2 == 1,
        };
        if flags.reserved || flags.will_qos > 1 {
            Err(MqttError::ProtocolViolation)
        } else {
            Ok(flags)
        }
    }
}

/// Flags without the reserved bit are read back from their byte.
pub proof fn lemma_connect_flags_round_trip(flags: ConnectFlags)
    requires
        flags.wf(),
    ensures
        ConnectFlags::spec_from_byte(flags.spec_to_byte()) == Some(flags),
{
}

/// The strings of a CONNECT, as byte sequences.
pub struct PayloadView {
    pub client_id: Seq<u8>,
    pub will_topic: Option<Seq<u8>>,
    pub will_message: Option<Seq<u8>>,
    pub username: Option<Seq<u8>>,
    pub password: Option<Seq<u8>>,
}

impl PayloadView {
    /// The number of bytes that the payload takes on the wire.
    pub open spec fn spec_len(self) -> nat {
        spec_string_field(self.client_id).len() + spec_optional_field(self.will_topic).len()
            + spec_optional_field(self.will_message).len() + spec_optional_field(
            self.username,
        ).len() + spec_optional_field(self.password).len()
    }

    /// The payload as it travels.
    pub open spec fn spec_to_bytes(self) -> Seq<u8> {
        spec_string_field(self.client_id) + spec_optional_field(self.will_topic)
            + spec_optional_field(self.will_message) + spec_optional_field(self.username)
            + spec_optional_field(self.password)
    }

    /// The payload holds exactly the strings that `flags` announces.
    pub open spec fn announced_by(self, flags: ConnectFlags) -> bool {
        &&& flags.will_flag == self.will_topic is Some
        &&& flags.will_flag == self.will_message is Some
        &&& flags.username_flag == self.username is Some
        &&& flags.password_flag == self.password is Some
    }

    /// The will, the user name and the password found behind a client
    /// identifier, as far as `flags` announces them, with the position
    /// behind the last of them.
    pub open spec fn spec_read_rest(
        bytes: Seq<u8>,
        client_id: Seq<u8>,
        pos: int,
        flags: ConnectFlags,
    ) -> Option<(PayloadView, int)> {
        match spec_read_optional(bytes, pos, flags.will_flag) {
            None => None,
            Some((will_topic, p2)) => match spec_read_optional(bytes, p2, flags.will_flag) {
                None => None,
                Some((will_message, p3)) => match spec_read_optional(
                    bytes,
                    p3,
                    flags.username_flag,
                ) {
                    None => None,
                    Some((username, p4)) => match spec_read_optional(
                        bytes,
                        p4,
                        flags.password_flag,
                    ) {
                        None => None,
                        Some((password, p5)) => Some(
                            (
                                PayloadView {
                                    client_id,
                                    will_topic,
                                    will_message,
                                    username,
                                    password,
                                },
                                p5,
                            ),
                        ),
                    },
                },
            },
        }
    }

    /// The payload found at `pos`, with the strings that `flags` announces,
    /// and the position behind it.
    pub open spec fn spec_read(bytes: Seq<u8>, pos: int, flags: ConnectFlags) -> Option<
        (PayloadView, int),
    > {
        match spec_read_string(bytes, pos) {
            None => None,
            Some((client_id, p1)) => Self::spec_read_rest(bytes, client_id, p1, flags),
        }
    }
}

/// The ways of grouping six byte sequences laid end to end.
proof fn lemma_regroup(a: Seq<u8>, b: Seq<u8>, c: Seq<u8>, d: Seq<u8>, e: Seq<u8>, f: Seq<u8>)
    ensures
        a + (b + c + d + e + f) == a + b + (c + d + e + f),
        a + (b + c + d + e + f) == (a + b) + c + (d + e + f),
        a + (b + c + d + e + f) == (a + b + c) + d + (e + f),
        a + (b + c + d + e + f) == (a + b + c + d) + e + f,
        a + (b + c + d + e + f) == (a + b + c + d + e) + f + Seq::<u8>::empty(),
        (a + (b + c + d + e + f)).len() == a.len() + b.len() + c.len() + d.len() + e.len()
            + f.len(),
{
    let all = a + (b + c + d + e + f);
    assert(all =~= a + b + (c + d + e + f));
    assert(all =~= (a + b) + c + (d + e + f));
    assert(all =~= (a + b + c) + d + (e + f));
    assert(all =~= (a + b + c + d) + e + f);
    assert(all =~= (a + b + c + d + e) + f + Seq::<u8>::empty());
}

/// A payload is read back from its bytes by whoever knows its flags.
#[verifier::rlimit(40)]
pub proof fn lemma_payload_round_trip(prefix: Seq<u8>, payload: PayloadView, flags: ConnectFlags)
    requires
        payload.announced_by(flags),
        payload.spec_len() < REMAINING_LENGTH_LIMIT,
    ensures
        PayloadView::spec_read(prefix + payload.spec_to_bytes(), prefix.len() as int, flags)
            == Some((payload, (prefix.len() + payload.spec_len()) as int)),
        (prefix + payload.spec_to_bytes()).len() == prefix.len() + payload.spec_len(),
{
    let bytes = prefix + payload.spec_to_bytes();
    let f0 = spec_string_field(payload.client_id);
    let f1 = spec_optional_field(payload.will_topic);
    let f2 = spec_optional_field(payload.will_message);
    let f3 = spec_optional_field(payload.username);
    let f4 = spec_optional_field(payload.password);
    let e = Seq::<u8>::empty();
    let p0 = prefix.len() as int;
    let p1 = p0 + f0.len();
    let p2 = p1 + f1.len();
    let p3 = p2 + f2.len();
    let p4 = p3 + f3.len();
    let p5 = p4 + f4.len();
    lemma_regroup(prefix, f0, f1, f2, f3, f4);
    lemma_string_round_trip(prefix, payload.client_id, f1 + f2 + f3 + f4);
    lemma_optional_round_trip(prefix + f0, payload.will_topic, f2 + f3 + f4);
    lemma_optional_round_trip(prefix + f0 + f1, payload.will_message, f3 + f4);
    lemma_optional_round_trip(prefix + f0 + f1 + f2, payload.username, f4);
    lemma_optional_round_trip(prefix + f0 + f1 + f2 + f3, payload.password, e);
    assert(spec_read_string(bytes, p0) == Some((payload.client_id, p1)));
    assert(spec_read_optional(bytes, p1, flags.will_flag) == Some((payload.will_topic, p2)));
    assert(spec_read_optional(bytes, p2, flags.will_flag) == Some((payload.will_message, p3)));
    assert(spec_read_optional(bytes, p3, flags.username_flag) == Some((payload.username, p4)));
    assert(spec_read_optional(bytes, p4, flags.password_flag) == Some((payload.password, p5)));
    assert(bytes.len() == p5);
}

impl View for Payload {
    type V = PayloadView;

    closed spec fn view(&self) -> PayloadView {
        PayloadView {
            client_id: self.client_id@,
            will_topic: spec_optional_bytes(self.will_topic),
            will_message: spec_optional_bytes(self.will_message),
            username: spec_optional_bytes(self.username),
            password: spec_optional_bytes(self.password),
        }
    }
}

/// What a CONNECT says.
pub struct ConnectMessageView {
    pub connect_flags: ConnectFlags,
    pub keep_alive: u16,
    pub payload: PayloadView,
}

impl ConnectMessageView {
    /// The number of bytes behind the fixed header.
    pub open spec fn spec_remaining_length(self) -> int {
        CONNECT_PREAMBLE_LEN - 2 + self.payload.spec_len()
    }

    /// The flags announce exactly the strings that the payload holds, and
    /// the message fits the one-byte remaining length.
    pub open spec fn wf(self) -> bool {
        &&& self.connect_flags.wf()
        &&& self.connect_flags.will_flag == self.payload.will_topic is Some
        &&& self.connect_flags.will_flag == self.payload.will_message is Some
        &&& self.connect_flags.username_flag == self.payload.username is Some
        &&& self.connect_flags.password_flag == self.payload.password is Some
        &&& self.spec_remaining_length() < REMAINING_LENGTH_LIMIT
    }

    /// The twelve bytes in front of the payload.
    pub open spec fn spec_preamble(self) -> Seq<u8> {
        seq![
            CONNECT_FIRST_BYTE,
            self.spec_remaining_length() as u8,
            0u8,
            4u8,
            77u8,
            81u8,
            84u8,
            84u8,
            PROTOCOL_LEVEL,
            self.connect_flags.spec_to_byte(),
        ] + spec_u16_to_be_bytes(self.keep_alive)
    }

    /// The message as it travels.
    pub open spec fn spec_to_bytes(self) -> Seq<u8> {
        self.spec_preamble() + self.payload.spec_to_bytes()
    }

    /// Whether `bytes` starts like a CONNECT whose announced length is the
    /// length it has.
    pub open spec fn spec_preamble_ok(bytes: Seq<u8>) -> bool {
        &&& bytes.len() >= CONNECT_PREAMBLE_LEN
        &&& bytes[0] == CONNECT_FIRST_BYTE
        &&& bytes[1] < REMAINING_LENGTH_LIMIT
        &&& bytes.len() == 2 + bytes[1]
        &&& bytes[2] == 0
        &&& bytes[3] == 4
        &&& bytes[4] == 77
        &&& bytes[5] == 81
        &&& bytes[6] == 84
        &&& bytes[7] == 84
        &&& bytes[8] == PROTOCOL_LEVEL
    }

    /// The message that `bytes` spells, if they spell a CONNECT and nothing
    /// more.
    pub open spec fn spec_from_bytes(bytes: Seq<u8>) -> Option<ConnectMessageView> {
        if !Self::spec_preamble_ok(bytes) {
            None
        } else {
            match ConnectFlags::spec_from_byte(bytes[9]) {
                None => None,
                Some(flags) => match PayloadView::spec_read(
                    bytes,
                    CONNECT_PREAMBLE_LEN as int,
                    flags,
                ) {
                    None => None,
                    Some((payload, end)) => if end == bytes.len() {
                        Some(
                            ConnectMessageView {
                                connect_flags: flags,
                                keep_alive: spec_u16_from_be_bytes(bytes[10], bytes[11]),
                                payload,
                            },
                        )
                    } else {
                        None
                    },
                },
            }
        }
    }
}

impl View for ConnectMessage {
    type V = ConnectMessageView;

    closed spec fn view(&self) -> ConnectMessageView {
        ConnectMessageView {
            connect_flags: self.variable_header.connect_flags,
            keep_alive: self.variable_header.keep_alive,
            payload: self.payload@,
        }
    }
}

/// The bytes of a string, when there is one.
pub open spec fn spec_optional_str(field: Option<&str>) -> Option<Seq<u8>> {
    match field {
        Some(s) => Some(s.spec_bytes()),
        None => None,
    }
}

/// What `ConnectMessage::new` builds from its arguments: a clean session
/// without keep-alive, with a will only when both its topic and its message
/// are given.
pub open spec fn spec_new_connect(
    client_id: &str,
    will_topic: Option<&str>,
    will_message: Option<&str>,
    username: Option<&str>,
    password: Option<&str>,
) -> ConnectMessageView {
    let will = will_topic is Some && will_message is Some;
    ConnectMessageView {
        connect_flags: ConnectFlags {
            username_flag: username is Some,
            password_flag: password is Some,
            will_retain: false,
            will_qos: 0,
            will_flag: will,
            clean_session: true,
            reserved: false,
        },
        keep_alive: 0,
        payload: PayloadView {
            client_id: client_id.spec_bytes(),
            will_topic: if will {
                spec_optional_str(will_topic)
            } else {
                None
            },
            will_message: if will {
                spec_optional_str(will_message)
            } else {
                None
            },
            username: spec_optional_str(username),
            password: spec_optional_str(password),
        },
    }
}

/// The bytes of an optional string.
fn optional_str_bytes(field: Option<&str>) -> (out: Option<Vec<u8>>)
    ensures
        spec_optional_bytes(out) == spec_optional_str(field),
{
    match field {
        Some(s) => Some(s.as_bytes_vec()),
        None => None,
    }
}

/// The number of bytes of an optional string on the wire, or nothing when
/// the string alone is too long for any message.
fn optional_field_len(field: &Option<Vec<u8>>) -> (out: Option<usize>)
    ensures
        match out {
            Some(n) => n == spec_optional_field(spec_optional_bytes(*field)).len()
                && n < REMAINING_LENGTH_LIMIT,
            None => spec_optional_field(spec_optional_bytes(*field)).len()
                >= REMAINING_LENGTH_LIMIT,
        },
{
    match field {
        Some(s) => {
            if s.len() >= 126 {
                None
            } else {
                Some(s.len() + 2)
            }
        },
        None => Some(0),
    }
}

impl Payload {
    /// Appends the payload as it travels.
    fn write(&self, bytes: &mut Vec<u8>)
        requires
            self@.spec_len() < REMAINING_LENGTH_LIMIT,
        ensures
            final(bytes)@ == old(bytes)@ + self@.spec_to_bytes(),
    {
        push_string_field(bytes, &self.client_id);
        push_optional_field(bytes, &self.will_topic);
        push_optional_field(bytes, &self.will_message);
        push_optional_field(bytes, &self.username);
        push_optional_field(bytes, &self.password);
        assert(bytes@ =~= old(bytes)@ + self@.spec_to_bytes());
    }

    /// Reads the will, the user name and the password behind a client
    /// identifier, as far as `flags` announces them.
    fn read_rest(bytes: &Vec<u8>, client_id: Vec<u8>, pos: usize, flags: ConnectFlags) -> (out:
        Option<(Payload, usize)>)
        ensures
            match out {
                Some((payload, next)) => PayloadView::spec_read_rest(
                    bytes@,
                    client_id@,
                    pos as int,
                    flags,
                ) == Some((payload@, next as int)),
                None => PayloadView::spec_read_rest(bytes@, client_id@, pos as int, flags) is None,
            },
    {
        let read_will_topic = read_optional_field(bytes, pos, flags.will_flag);
        let (will_topic, p2) = match read_will_topic {
            Some(found) => found,
            None => {
                return None;
            },
        };
        let read_will_message = read_optional_field(bytes, p2, flags.will_flag);
        let (will_message, p3) = match read_will_message {
            Some(found) => found,
            None => {
                return None;
            },
        };
        let read_username = read_optional_field(bytes, p3, flags.username_flag);
        let (username, p4) = match read_username {
            Some(found) => found,
            None => {
                return None;
            },
        };
        let read_password = read_optional_field(bytes, p4, flags.password_flag);
        let (password, p5) = match read_password {
            Some(found) => found,
            None => {
                return None;
            },
        };
        Some((Payload { client_id, will_topic, will_message, username, password }, p5))
    }

    /// Reads the payload at `pos`, with the strings that `flags` announces.
    fn read(bytes: &Vec<u8>, pos: usize, flags: ConnectFlags) -> (out: Option<(Payload, usize)>)
        ensures
            match out {
                Some((payload, next)) => PayloadView::spec_read(bytes@, pos as int, flags) == Some(
                    (payload@, next as int),
                ),
                None => PayloadView::spec_read(bytes@, pos as int, flags) is None,
            },
    {
        let read_client_id = read_string_field(bytes, pos);
        match read_client_id {
            Some((client_id, p1)) => Self::read_rest(bytes, client_id, p1, flags),
            None => None,
        }
    }
}

impl ConnectMessage {
    #[verifier::type_invariant]
    spec fn inv(&self) -> bool {
        &&& self@.wf()
        &&& self.fixed_header.message_type == CONNECT_FIRST_BYTE
        &&& self.fixed_header.remaining_length == self@.spec_remaining_length()
        &&& self.variable_header.protocol_name@ == seq![77u8, 81u8, 84u8, 84u8]
        &&& self.variable_header.protocol_level == PROTOCOL_LEVEL
    }

    /// Builds the CONNECT of a client: a clean session without keep-alive,
    /// with the credentials that are given and with a will when both its
    /// topic and its message are given. `message_type` is the first byte of
    /// the message. Any first byte but that of a CONNECT is refused, and so
    /// is a message too long for the one-byte remaining length.
    pub fn new(
        message_type: u8,
        client_id: &str,
        will_topic: Option<&str>,
        will_message: Option<&str>,
        username: Option<&str>,
        password: Option<&str>,
    ) -> (out: Result<ConnectMessage, MqttError>)
        ensures
            match out {
                Ok(msg) => msg@ == spec_new_connect(
                    client_id,
                    will_topic,
                    will_message,
                    username,
                    password,
                ) && msg@.wf() && message_type == CONNECT_FIRST_BYTE,
                Err(e) => e == MqttError::ProtocolViolation && !(message_type
                    == CONNECT_FIRST_BYTE && spec_new_connect(
                    client_id,
                    will_topic,
                    will_message,
                    username,
                    password,
                ).wf()),
            },
    {
        let fixed_header = FixedHeader { message_type, remaining_length: 0 };
        let will: bool = will_topic.is_some() && will_message.is_some();
        let variable_header = VariableHeader {
            protocol_name: [77, 81, 84, 84],
            protocol_level: PROTOCOL_LEVEL,
            connect_flags: ConnectFlags {
                username_flag: username.is_some(),
                password_flag: password.is_some(),
                will_retain: false,
                will_qos: 0,
                will_flag: will,
                clean_session: true,
                reserved: false,
            },
            keep_alive: 0,
        };
        let payload = Payload {
            client_id: client_id.as_bytes_vec(),
            will_topic: if will {
                optional_str_bytes(will_topic)
            } else {
                None
            },
            will_message: if will {
                optional_str_bytes(will_message)
            } else {
                None
            },
            username: optional_str_bytes(username),
            password: optional_str_bytes(password),
        };
        if message_type != CONNECT_FIRST_BYTE {
            return Err(MqttError::ProtocolViolation);
        }
        let remaining = Self::calculate_remaining_length(&payload);
        match remaining {
            Some(remaining_length) => Ok(
                ConnectMessage {
                    fixed_header: FixedHeader { message_type, remaining_length },
                    variable_header,
                    payload,
                },
            ),
            None => Err(MqttError::ProtocolViolation),
        }
    }

    /// The number of bytes behind the fixed header of a CONNECT with this
    /// payload, or nothing when one byte cannot announce it.
    fn calculate_remaining_length(payload: &Payload) -> (out: Option<u8>)
        ensures
            match out {
                Some(n) => n == CONNECT_PREAMBLE_LEN - 2 + payload@.spec_len()
                    && n < REMAINING_LENGTH_LIMIT,
                None => CONNECT_PREAMBLE_LEN - 2 + payload@.spec_len() >= REMAINING_LENGTH_LIMIT,
            },
    {
        let variable_header_length: usize = CONNECT_PREAMBLE_LEN - 2;
        if payload.client_id.len() >= 126 {
            return None;
        }
        let mut total: usize = variable_header_length + 2 + payload.client_id.len();
        let will_topic = optional_field_len(&payload.will_topic);
        let will_message = optional_field_len(&payload.will_message);
        let username = optional_field_len(&payload.username);
        let password = optional_field_len(&payload.password);
        match (will_topic, will_message, username, password) {
            (Some(a), Some(b), Some(c), Some(d)) => {
                total = total + a + b + c + d;
                if total < REMAINING_LENGTH_LIMIT {
                    Some(total as u8)
                } else {
                    None
                }
            },
            _ => None,
        }
    }

    /// The message as it travels: the fixed header, the protocol name and
    /// level, the flags, the keep-alive, then each string with its length
    /// in front. The remaining length is computed afresh, which leaves the
    /// message as it was.
    pub fn to_bytes(&mut self) -> (bytes: Vec<u8>)
        ensures
            final(self)@ == old(self)@,
            bytes@ == old(self)@.spec_to_bytes(),
            bytes@.len() == 2 + old(self)@.spec_remaining_length(),
            old(self)@.wf(),
    {
        proof {
            use_type_invariant(&*self);
        }
        let remaining = Self::calculate_remaining_length(&self.payload);
        match remaining {
            Some(remaining_length) => {
                self.fixed_header.remaining_length = remaining_length;
            },
            None => {},
        }
        self.encode()
    }

    /// The message as it travels.
    pub fn encode(&self) -> (bytes: Vec<u8>)
        ensures
            bytes@ == self@.spec_to_bytes(),
            bytes@.len() == 2 + self@.spec_remaining_length(),
            self@.wf(),
    {
        proof {
            use_type_invariant(self);
        }
        let mut bytes: Vec<u8> = Vec::new();
        bytes.push(self.fixed_header.message_type);
        bytes.push(self.fixed_header.remaining_length);
        bytes.push(0);
        bytes.push(4);
        bytes.push(self.variable_header.protocol_name[0]);
        bytes.push(self.variable_header.protocol_name[1]);
        bytes.push(self.variable_header.protocol_name[2]);
        bytes.push(self.variable_header.protocol_name[3]);
        bytes.push(self.variable_header.protocol_level);
        let connect_flags: u8 = self.variable_header.connect_flags.to_byte();
        bytes.push(connect_flags);
        push_u16_be(&mut bytes, self.variable_header.keep_alive);
        assert(bytes@ =~= self@.spec_preamble());
        self.payload.write(&mut bytes);
        bytes
    }

    /// Reads a CONNECT from the whole of `bytes`. Anything that is not the
    /// encoding of one is a protocol violation: a wrong first byte, protocol
    /// name or level, a set reserved flag, a will quality of service above
    /// 1, a length that the bytes do not have, a string cut short, bytes
    /// left over.
    pub fn from_bytes(bytes: &Vec<u8>) -> (out: Result<ConnectMessage, MqttError>)
        ensures
            match out {
                Ok(msg) => ConnectMessageView::spec_from_bytes(bytes@) == Some(msg@) && msg@.wf(),
                Err(e) => e == MqttError::ProtocolViolation && ConnectMessageView::spec_from_bytes(
                    bytes@,
                ) is None,
            },
    {
        let total: usize = bytes.len();
        if total < CONNECT_PREAMBLE_LEN {
            return Err(MqttError::ProtocolViolation);
        }
        if bytes[0] != CONNECT_FIRST_BYTE || bytes[1] >= 128 || total != 2 + bytes[1] as usize {
            return Err(MqttError::ProtocolViolation);
        }
        if bytes[2] != 0 || bytes[3] != 4 || bytes[4] != 77 || bytes[5] != 81 || bytes[6] != 84
            || bytes[7] != 84 || bytes[8] != PROTOCOL_LEVEL {
            return Err(MqttError::ProtocolViolation);
        }
        let read_flags = ConnectFlags::from_byte(bytes[9]);
        let flags = match read_flags {
            Ok(flags) => flags,
            Err(e) => {
                return Err(e);
            },
        };
        let keep_alive: u16 = (bytes[10] as u16) * 256 + bytes[11] as u16;
        let read_payload = Payload::read(bytes, CONNECT_PREAMBLE_LEN, flags);
        let (payload, end) = match read_payload {
            Some(found) => found,
            None => {
                return Err(MqttError::ProtocolViolation);
            },
        };
        if end != total {
            return Err(MqttError::ProtocolViolation);
        }
        proof {
            lemma_payload_read_len(bytes@, CONNECT_PREAMBLE_LEN as int, flags);
        }
        Ok(
            ConnectMessage {
                fixed_header: FixedHeader { message_type: bytes[0], remaining_length: bytes[1] },
                variable_header: VariableHeader {
                    protocol_name: [77, 81, 84, 84],
                    protocol_level: PROTOCOL_LEVEL,
                    connect_flags: flags,
                    keep_alive,
                },
                payload,
            },
        )
    }

    /// The client identifier.
    pub fn get_client_id(&self) -> (id: &Vec<u8>)
        ensures
            id@ == self@.payload.client_id,
    {
        &self.payload.client_id
    }

    /// The user name, when the message carries one.
    pub fn get_user(&self) -> (user: &Option<Vec<u8>>)
        ensures
            spec_optional_bytes(*user) == self@.payload.username,
    {
        &self.payload.username
    }

    /// The password, when the message carries one.
    pub fn get_passwd(&self) -> (passwd: &Option<Vec<u8>>)
        ensures
            spec_optional_bytes(*passwd) == self@.payload.password,
    {
        &self.payload.password
    }

    /// The topic of the will, when the message carries a will.
    pub fn get_will_topic(&self) -> (topic: &Option<Vec<u8>>)
        ensures
            spec_optional_bytes(*topic) == self@.payload.will_topic,
    {
        &self.payload.will_topic
    }

    /// The message of the will, when the message carries a will.
    pub fn get_will_message(&self) -> (message: &Option<Vec<u8>>)
        ensures
            spec_optional_bytes(*message) == self@.payload.will_message,
    {
        &self.payload.will_message
    }

    /// The connect flags.
    pub fn get_connect_flags(&self) -> (flags: ConnectFlags)
        ensures
            flags == self@.connect_flags,
    {
        self.variable_header.connect_flags
    }
}

/// A payload that was read takes as many bytes as the reader moved on,
/// and holds the strings that the flags announce.
pub proof fn lemma_payload_read_len(bytes: Seq<u8>, pos: int, flags: ConnectFlags)
    requires
        PayloadView::spec_read(bytes, pos, flags) is Some,
    ensures
        ({
            let (payload, end) = PayloadView::spec_read(bytes, pos, flags)->0;
            &&& end == pos + payload.spec_len()
            &&& end <= bytes.len()
            &&& payload.announced_by(flags)
        }),
{
}

/// A CONNECT is read back from its bytes.
pub proof fn lemma_connect_round_trip(msg: ConnectMessageView)
    requires
        msg.wf(),
    ensures
        ConnectMessageView::spec_from_bytes(msg.spec_to_bytes()) == Some(msg),
{
    let bytes = msg.spec_to_bytes();
    let pre = msg.spec_preamble();
    assert(pre.len() == CONNECT_PREAMBLE_LEN);
    lemma_payload_round_trip(pre, msg.payload, msg.connect_flags);
    assert(bytes[0] == pre[0] && bytes[1] == pre[1] && bytes[2] == pre[2] && bytes[3] == pre[3]);
    assert(bytes[4] == pre[4] && bytes[5] == pre[5] && bytes[6] == pre[6] && bytes[7] == pre[7]);
    assert(bytes[8] == pre[8] && bytes[9] == pre[9] && bytes[10] == pre[10] && bytes[11]
        == pre[11]);
    assert(pre[10] == (msg.keep_alive / 256) as u8);
    assert(pre[11] == (msg.keep_alive % 256) as u8);
    lemma_connect_flags_round_trip(msg.connect_flags);
    assert(ConnectMessageView::spec_preamble_ok(bytes));
}

} // verus!
