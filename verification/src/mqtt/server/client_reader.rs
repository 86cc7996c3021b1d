//! What the broker does with what one client sends.
//!
//! The reader decides; whoever owns the connection reads the bytes, hands
//! them over, writes what the reader hands back and closes the connection
//! when it says so.

use vstd::prelude::*;
use crate::mqtt::messages::connect_message::{ConnectMessage, ConnectMessageView};
use crate::mqtt::messages::message::{Message, MessageView};
use crate::mqtt::messages::puback_message::PubAckMessage;
use crate::mqtt::messages::suback_message::SubAckMessageView;
use crate::mqtt::messages::subscribe_return_code::SubscribeReturnCode;
use crate::mqtt::mqtt_error::MqttError;
use crate::mqtt::mqtt_utils::fixed_header::{FixedHeader, FixedHeaderView};
use crate::mqtt::mqtt_utils::packet_type::PacketType;
use crate::mqtt::mqtt_utils::utils::{copy_bytes, push_bytes};
use crate::mqtt::server::mqtt_server::{
    spec_connack,
    spec_outgoing,
    spec_to_each,
    spec_topics_of,
    spec_will_of,
    MQTTServer,
    MQTTServerView,
    Outgoing,
};
use crate::mqtt::server::registry::spec_fan_out;
use crate::mqtt::server::user::{spec_optional_will, WillMessage};

verus! {

/// How far a connection has come.
#[derive(Debug, Clone, Copy, PartialEq, Eq, Structural)]
pub enum ReaderPhase {
    /// Nothing was received yet: the first message has to be a CONNECT.
    AwaitingConnect,
    /// The CONNECT was accepted.
    Connected,
    /// The connection is over.
    Closed,
}

/// Why a connection ended.
#[derive(Debug, Clone, Copy, PartialEq, Eq, Structural)]
pub enum DisconnectReason {
    /// The client sent a DISCONNECT.
    Voluntaria,
    /// The connection broke.
    Involuntaria,
}

/// What the owner of the connection reads next, after a fixed header.
#[derive(Debug, Clone, Copy, PartialEq, Eq, Structural)]
pub enum ReadStep {
    /// As many bytes as the header announces, to hand them over together
    /// with the header.
    ReadRemaining(usize),
    /// Nothing: the client sent a DISCONNECT.
    Disconnect,
    /// Nothing: the stream is over.
    EndOfStream,
}

/// What the owner of the connection does after the reader took a message.
#[derive(Debug, PartialEq, Eq)]
pub struct Handled {
    /// What to write, to which connection, in order.
    pub outgoing: Vec<Outgoing>,
    /// Whether to close the connection of the client afterwards.
    pub close: bool,
}

/// What the owner of the connection does after the reader took a message.
pub struct HandledView {
    pub outgoing: Seq<(u64, Seq<u8>)>,
    pub close: bool,
}

impl View for Handled {
    type V = HandledView;

    open spec fn view(&self) -> HandledView {
        HandledView { outgoing: spec_outgoing(self.outgoing@), close: self.close }
    }
}

/// A message as it was received, with its kind and its sender.
#[derive(Debug, PartialEq, Eq)]
pub struct Packet {
    pub message_type: PacketType,
    pub msg_bytes: Vec<u8>,
    pub client_id: Vec<u8>,
}

/// What the reader of a connection holds.
pub struct ClientReaderView {
    pub conn: u64,
    pub client_id: Seq<u8>,
    pub phase: ReaderPhase,
}

/// What follows a fixed header. A DISCONNECT stands alone. Any other header
/// that opens a message announces its remaining bytes; one that announces
/// none, and bytes that are no header, end the stream.
pub open spec fn spec_read_step(header: Seq<u8>) -> ReadStep {
    match FixedHeaderView::spec_from_bytes(header) {
        None => ReadStep::EndOfStream,
        Some(fixed_header) => if fixed_header.packet_type == PacketType::Disconnect {
            ReadStep::Disconnect
        } else if fixed_header.remaining_length == 0 {
            ReadStep::EndOfStream
        } else {
            ReadStep::ReadRemaining(fixed_header.remaining_length as usize)
        },
    }
}

/// The reader and the broker after the first message of a connection, and
/// what the owner of the connection does.
///
/// Anything but a CONNECT closes the connection, and nothing is written.
/// A CONNECT with other credentials than those of the broker is answered
/// with return code 5, and the connection is closed. A CONNECT with the
/// credentials of the broker is answered with return code 0, and the
/// client is a user from then on.
pub open spec fn spec_handle_client(
    reader: ClientReaderView,
    server: MQTTServerView,
    message: Seq<u8>,
) -> (ClientReaderView, MQTTServerView, HandledView) {
    if reader.phase != ReaderPhase::AwaitingConnect {
        (reader, server, HandledView { outgoing: Seq::empty(), close: false })
    } else {
        match ConnectMessageView::spec_from_bytes(message) {
            None => (
                ClientReaderView { phase: ReaderPhase::Closed, ..reader },
                server,
                HandledView { outgoing: Seq::empty(), close: true },
            ),
            Some(connect) => {
                let authentic = server.spec_is_authentic(
                    connect.payload.username,
                    connect.payload.password,
                );
                let answer = seq![(reader.conn, spec_connack(authentic).spec_to_bytes())];
                if authentic {
                    (
                        ClientReaderView {
                            client_id: connect.payload.client_id,
                            phase: ReaderPhase::Connected,
                            ..reader
                        },
                        MQTTServerView {
                            registry: server.registry.spec_connect(
                                connect.payload.client_id,
                                reader.conn,
                                spec_will_of(connect),
                            ),
                            ..server
                        },
                        HandledView { outgoing: answer, close: false },
                    )
                } else {
                    (
                        ClientReaderView { phase: ReaderPhase::Closed, ..reader },
                        server,
                        HandledView { outgoing: answer, close: true },
                    )
                }
            },
        }
    }
}

/// What is written for a PUBLISH that `sender` sent on the connection
/// `conn`: a PUBACK to the sender when the quality of service is 1, then
/// the message as it was received to each subscriber of its topic but the
/// sender.
pub open spec fn spec_publish_written(
    server: MQTTServerView,
    conn: u64,
    sender: Seq<u8>,
    topic: Seq<u8>,
    packet_id: Option<u16>,
    packet: Seq<u8>,
) -> Seq<(u64, Seq<u8>)> {
    (match packet_id {
        Some(packet_id) => seq![(conn, (PubAckMessage { packet_id }).spec_to_bytes())],
        None => Seq::empty(),
    }) + spec_to_each(spec_fan_out(server.registry.subs_by_topic, topic, sender), packet)
}

/// The SUBACK that answers a SUBSCRIBE with `count` topic filters: its
/// packet identifier, and quality of service 1 granted for each filter.
pub open spec fn spec_suback(packet_id: u16, count: nat) -> SubAckMessageView {
    SubAckMessageView {
        packet_id,
        return_codes: Seq::new(count, |i: int| SubscribeReturnCode::QoS1),
    }
}

/// The reader and the broker after a message of a connected client that
/// arrived at `timestamp`, and what the owner of the connection does.
///
/// A PUBLISH is acknowledged and handed on. A SUBSCRIBE is taken note of
/// and acknowledged. A DISCONNECT ends the connection for good. Bytes that
/// spell no message end it as a broken connection does. Any other message
/// is passed over.
pub open spec fn spec_handle_packet(
    reader: ClientReaderView,
    server: MQTTServerView,
    packet: Seq<u8>,
    timestamp: u128,
) -> (ClientReaderView, MQTTServerView, HandledView) {
    if reader.phase != ReaderPhase::Connected {
        (reader, server, HandledView { outgoing: Seq::empty(), close: false })
    } else {
        match MessageView::spec_from_bytes(packet) {
            Some(MessageView::Publish(publish)) => (
                reader,
                server,
                HandledView {
                    outgoing: spec_publish_written(
                        server,
                        reader.conn,
                        reader.client_id,
                        publish.topic,
                        publish.packet_id,
                        packet,
                    ),
                    close: false,
                },
            ),
            Some(MessageView::Subscribe(subscribe)) => if server.registry.spec_has_user(
                reader.client_id,
            ) {
                (
                    reader,
                    MQTTServerView {
                        registry: server.registry.spec_subscribe_all(
                            reader.client_id,
                            spec_topics_of(subscribe.topic_filters),
                        ),
                        ..server
                    },
                    HandledView {
                        outgoing: if spec_suback(
                            subscribe.packet_id,
                            subscribe.topic_filters.len(),
                        ).wf() {
                            seq![
                                (
                                    reader.conn,
                                    spec_suback(
                                        subscribe.packet_id,
                                        subscribe.topic_filters.len(),
                                    ).spec_to_bytes(),
                                ),
                            ]
                        } else {
                            Seq::empty()
                        },
                        close: false,
                    },
                )
            } else {
                (
                    ClientReaderView { phase: ReaderPhase::Closed, ..reader },
                    server,
                    HandledView { outgoing: Seq::empty(), close: true },
                )
            },
            Some(MessageView::Disconnect(_)) => {
                let (after, written) = server.spec_voluntary_disconnect(
                    reader.client_id,
                    timestamp,
                );
                (
                    ClientReaderView { phase: ReaderPhase::Closed, ..reader },
                    after,
                    HandledView { outgoing: written, close: true },
                )
            },
            Some(_) => (reader, server, HandledView { outgoing: Seq::empty(), close: false }),
            None => {
                let (after, written) = server.spec_involuntary_disconnect(
                    reader.client_id,
                    timestamp,
                );
                (
                    ClientReaderView { phase: ReaderPhase::Closed, ..reader },
                    after,
                    HandledView { outgoing: written, close: true },
                )
            },
        }
    }
}

/// The reader of one connection of the broker.
#[derive(Debug, PartialEq, Eq)]
pub struct ClientReader {
    conn: u64,
    client_id: Vec<u8>,
    phase: ReaderPhase,
}

impl View for ClientReader {
    type V = ClientReaderView;

    closed spec fn view(&self) -> ClientReaderView {
        ClientReaderView { conn: self.conn, client_id: self.client_id@, phase: self.phase }
    }
}

/// The bytes of a message: its fixed header, then what follows it.
pub fn get_whole_message_in_bytes(fixed_header_bytes: &Vec<u8>, remaining: &Vec<u8>) -> (bytes:
    Vec<u8>)
    ensures
        bytes@ == fixed_header_bytes@ + remaining@,
{
    let mut bytes = copy_bytes(fixed_header_bytes);
    push_bytes(&mut bytes, remaining);
    bytes
}

/// Puts a message together from its fixed header and what follows it, with
/// the kind that the header names and the client that sent it.
pub fn create_packet(
    fixed_header: &FixedHeader,
    fixed_header_bytes: &Vec<u8>,
    remaining: &Vec<u8>,
    client_id: &Vec<u8>,
) -> (packet: Packet)
    ensures
        packet.message_type == fixed_header@.packet_type,
        packet.msg_bytes@ == fixed_header_bytes@ + remaining@,
        packet.client_id@ == client_id@,
{
    let msg_bytes = get_whole_message_in_bytes(fixed_header_bytes, remaining);
    let message_type = fixed_header.get_message_type();
    Packet { message_type, msg_bytes, client_id: copy_bytes(client_id) }
}

/// Reads the CONNECT that a fixed header and what follows it spell.
pub fn get_connect_message(fixed_header_bytes: &Vec<u8>, remaining: &Vec<u8>) -> (out: Result<
    ConnectMessage,
    MqttError,
>)
    ensures
        match out {
            Ok(msg) => ConnectMessageView::spec_from_bytes(fixed_header_bytes@ + remaining@)
                == Some(msg@),
            Err(e) => e == MqttError::ProtocolViolation && ConnectMessageView::spec_from_bytes(
                fixed_header_bytes@ + remaining@,
            ) is None,
        },
{
    let msg_bytes = get_whole_message_in_bytes(fixed_header_bytes, remaining);
    ConnectMessage::from_bytes(&msg_bytes)
}

/// The will that a CONNECT carries, if it carries one.
fn will_of(connect_msg: &ConnectMessage) -> (will: Option<WillMessage>)
    ensures
        spec_optional_will(will) == spec_will_of(connect_msg@),
{
    match (connect_msg.get_will_topic(), connect_msg.get_will_message()) {
        (Some(topic), Some(message)) => Some(
            WillMessage {
                topic: copy_bytes(topic),
                message: copy_bytes(message),
                qos: connect_msg.get_connect_flags().will_qos,
            },
        ),
        _ => None,
    }
}

/// Nothing to write, and the connection stays or goes.
fn nothing_written(close: bool) -> (handled: Handled)
    ensures
        handled@ == (HandledView { outgoing: Seq::empty(), close }),
{
    let handled = Handled { outgoing: Vec::new(), close };
    assert(handled@.outgoing =~= Seq::empty());
    handled
}

impl ClientReader {
    /// The reader of the connection `conn`, on which nothing was received
    /// yet.
    pub fn new(conn: u64) -> (out: Result<ClientReader, MqttError>)
        ensures
            out is Ok,
            out->Ok_0@ == (ClientReaderView {
                conn,
                client_id: Seq::empty(),
                phase: ReaderPhase::AwaitingConnect,
            }),
    {
        Ok(ClientReader { conn, client_id: Vec::new(), phase: ReaderPhase::AwaitingConnect })
    }

    /// How far the connection has come.
    pub fn get_phase(&self) -> (phase: ReaderPhase)
        ensures
            phase == self@.phase,
    {
        self.phase
    }

    /// The client identifier of the client, once its CONNECT was accepted.
    pub fn get_client_id(&self) -> (client_id: &Vec<u8>)
        ensures
            client_id@ == self@.client_id,
    {
        &self.client_id
    }

    /// Reads the fixed header that opens a message.
    pub fn read_and_validate_header(fixed_header_bytes: &Vec<u8>) -> (out: Result<
        FixedHeader,
        MqttError,
    >)
        ensures
            match out {
                Ok(header) => FixedHeaderView::spec_from_bytes(fixed_header_bytes@) == Some(
                    header@,
                ),
                Err(e) => e == MqttError::ProtocolViolation && FixedHeaderView::spec_from_bytes(
                    fixed_header_bytes@,
                ) is None,
            },
    {
        FixedHeader::from_bytes(fixed_header_bytes)
    }

    /// Says what the owner of the connection reads after a fixed header.
    pub fn next_read_step(fixed_header_bytes: &Vec<u8>) -> (step: ReadStep)
        ensures
            step == spec_read_step(fixed_header_bytes@),
    {
        let read = Self::read_and_validate_header(fixed_header_bytes);
        match read {
            Err(_) => ReadStep::EndOfStream,
            Ok(fixed_header) => {
                if fixed_header.is_disconnect_msg() {
                    ReadStep::Disconnect
                } else if fixed_header.get_rem_len() == 0 {
                    ReadStep::EndOfStream
                } else {
                    ReadStep::ReadRemaining(fixed_header.get_rem_len())
                }
            },
        }
    }

    /// Takes the first message of the connection, which has to be a
    /// CONNECT with the credentials of the broker.
    pub fn handle_client(&mut self, mqtt_server: &mut MQTTServer, message: &Vec<u8>) -> (handled:
        Handled)
        requires
            old(mqtt_server)@.wf(),
        ensures
            final(mqtt_server)@.wf(),
            (final(self)@, final(mqtt_server)@, handled@) == spec_handle_client(
                old(self)@,
                old(mqtt_server)@,
                message@,
            ),
    {
        match self.phase {
            ReaderPhase::AwaitingConnect => {},
            _ => {
                return nothing_written(false);
            },
        }
        let read = Self::read_and_validate_header(message);
        match read {
            Ok(fixed_header) => self.authenticate_and_handle_connection(
                &fixed_header,
                message,
                mqtt_server,
            ),
            Err(_) => {
                self.phase = ReaderPhase::Closed;
                nothing_written(true)
            },
        }
    }

    /// Takes the first message of the connection once its fixed header was
    /// read.
    pub fn authenticate_and_handle_connection(
        &mut self,
        fixed_header: &FixedHeader,
        message: &Vec<u8>,
        mqtt_server: &mut MQTTServer,
    ) -> (handled: Handled)
        requires
            old(mqtt_server)@.wf(),
            old(self)@.phase == ReaderPhase::AwaitingConnect,
            FixedHeaderView::spec_from_bytes(message@) == Some(fixed_header@),
        ensures
            final(mqtt_server)@.wf(),
            (final(self)@, final(mqtt_server)@, handled@) == spec_handle_client(
                old(self)@,
                old(mqtt_server)@,
                message@,
            ),
    {
        match fixed_header.get_message_type() {
            PacketType::Connect => {
                let read = ConnectMessage::from_bytes(message);
                let connect_msg = match read {
                    Ok(connect_msg) => connect_msg,
                    Err(_) => {
                        self.phase = ReaderPhase::Closed;
                        return nothing_written(true);
                    },
                };
                let (is_authentic, connack_response) = mqtt_server.authenticate(&connect_msg);
                let mut outgoing: Vec<Outgoing> = Vec::new();
                outgoing.push(Outgoing { conn: self.conn, bytes: connack_response });
                assert(spec_outgoing(outgoing@) =~= seq![
                    (self.conn, spec_connack(is_authentic).spec_to_bytes()),
                ]);
                if is_authentic {
                    let client_id = copy_bytes(connect_msg.get_client_id());
                    mqtt_server.connect_user(client_id, self.conn, will_of(&connect_msg));
                    self.client_id = copy_bytes(connect_msg.get_client_id());
                    self.phase = ReaderPhase::Connected;
                    Handled { outgoing, close: false }
                } else {
                    self.phase = ReaderPhase::Closed;
                    Handled { outgoing, close: true }
                }
            },
            _ => {
                self.phase = ReaderPhase::Closed;
                nothing_written(true)
            },
        }
    }

    /// Takes a message of the client once it is connected. `timestamp` is
    /// when the message arrived.
    pub fn handle_packet(
        &mut self,
        mqtt_server: &mut MQTTServer,
        packet: &Vec<u8>,
        timestamp: u128,
    ) -> (handled: Handled)
        requires
            old(mqtt_server)@.wf(),
        ensures
            final(mqtt_server)@.wf(),
            (final(self)@, final(mqtt_server)@, handled@) == spec_handle_packet(
                old(self)@,
                old(mqtt_server)@,
                packet@,
                timestamp,
            ),
    {
        match self.phase {
            ReaderPhase::Connected => {},
            _ => {
                return nothing_written(false);
            },
        }
        let read = Message::from_bytes(packet);
        match read {
            Ok(Message::Publish(publish)) => {
                let mut outgoing: Vec<Outgoing> = Vec::new();
                let ack = MQTTServer::send_puback(&publish);
                match ack {
                    Some(bytes) => {
                        outgoing.push(Outgoing { conn: self.conn, bytes });
                    },
                    None => {},
                }
                let ghost acked = spec_outgoing(outgoing@);
                let mut forwarded = mqtt_server.distribute_to_subscribers(
                    publish.get_topic(),
                    packet,
                    &self.client_id,
                );
                let ghost sent = spec_outgoing(forwarded@);
                outgoing.append(&mut forwarded);
                assert(spec_outgoing(outgoing@) =~= acked + sent);
                assert(acked =~= (match publish@.packet_id {
                    Some(packet_id) => seq![
                        (self.conn, (PubAckMessage { packet_id }).spec_to_bytes()),
                    ],
                    None => Seq::empty(),
                }));
                Handled { outgoing, close: false }
            },
            Ok(Message::Subscribe(subscribe)) => {
                let added = mqtt_server.add_subscribers_to_topic(&subscribe, &self.client_id);
                match added {
                    Ok(return_codes) => {
                        let ack = MQTTServer::send_suback(subscribe.get_packet_id(), return_codes);
                        let mut outgoing: Vec<Outgoing> = Vec::new();
                        match ack {
                            Some(bytes) => {
                                outgoing.push(Outgoing { conn: self.conn, bytes });
                                assert(spec_outgoing(outgoing@) =~= seq![
                                    (
                                        self.conn,
                                        spec_suback(
                                            subscribe@.packet_id,
                                            subscribe@.topic_filters.len(),
                                        ).spec_to_bytes(),
                                    ),
                                ]);
                            },
                            None => {
                                assert(spec_outgoing(outgoing@) =~= Seq::empty());
                            },
                        }
                        Handled { outgoing, close: false }
                    },
                    Err(_) => {
                        self.phase = ReaderPhase::Closed;
                        nothing_written(true)
                    },
                }
            },
            Ok(Message::Disconnect(_)) => self.server_handle_disconnect(mqtt_server, timestamp),
            Ok(_) => nothing_written(false),
            Err(_) => self.server_handle_client_disconnection(mqtt_server, timestamp),
        }
    }

    /// Ends the connection after a DISCONNECT: the will of the user is
    /// published, then the user and its subscriptions are gone.
    pub fn server_handle_disconnect(&mut self, mqtt_server: &mut MQTTServer, timestamp: u128) -> (handled:
        Handled)
        requires
            old(mqtt_server)@.wf(),
        ensures
            final(mqtt_server)@.wf(),
            final(self)@ == (ClientReaderView { phase: ReaderPhase::Closed, ..old(self)@ }),
            (final(mqtt_server)@, handled@.outgoing) == old(
                mqtt_server,
            )@.spec_voluntary_disconnect(old(self)@.client_id, timestamp),
            handled@.close,
    {
        let outgoing = mqtt_server.publish_users_will_message(&self.client_id, timestamp);
        mqtt_server.remove_user(&self.client_id);
        self.phase = ReaderPhase::Closed;
        Handled { outgoing, close: true }
    }

    /// Ends the connection after it broke: the user is marked as gone, its
    /// subscriptions stay, and its will is published.
    pub fn server_handle_client_disconnection(
        &mut self,
        mqtt_server: &mut MQTTServer,
        timestamp: u128,
    ) -> (handled: Handled)
        requires
            old(mqtt_server)@.wf(),
        ensures
            final(mqtt_server)@.wf(),
            final(self)@ == (ClientReaderView { phase: ReaderPhase::Closed, ..old(self)@ }),
            (final(mqtt_server)@, handled@.outgoing) == old(
                mqtt_server,
            )@.spec_involuntary_disconnect(old(self)@.client_id, timestamp),
            handled@.close,
    {
        mqtt_server.set_user_as_temporally_disconnected(&self.client_id);
        let outgoing = mqtt_server.publish_users_will_message(&self.client_id, timestamp);
        self.phase = ReaderPhase::Closed;
        Handled { outgoing, close: true }
    }
}

} // verus!
