//! The state of the broker and what each message of a client does to it.

use vstd::prelude::*;
use crate::mqtt::client::mqtt_client::{spec_next_packet_id, PacketIdAllocator};
use crate::mqtt::messages::connack_message::ConnackMessage;
use crate::mqtt::messages::connack_variable_header::VariableHeader;
use crate::mqtt::messages::connect_message::{ConnectMessage, ConnectMessageView};
use crate::mqtt::messages::connect_return_code::ConnectReturnCode;
use crate::mqtt::messages::puback_message::PubAckMessage;
use crate::mqtt::messages::publish_message::{
    lemma_publish_round_trip,
    PublishMessage,
    PublishMessageView,
};
use crate::mqtt::messages::suback_message::{SubAckMessage, SubAckMessageView};
use crate::mqtt::messages::subscribe_message::{spec_filters, SubscribeMessage, TopicFilterView};
use crate::mqtt::messages::subscribe_return_code::SubscribeReturnCode;
use crate::mqtt::mqtt_error::MqttError;
use crate::mqtt::mqtt_utils::utils::{
    bytes_eq,
    copy_bytes,
    spec_byte_seqs,
    spec_optional_bytes,
};
use crate::mqtt::server::registry::{lemma_connect_keeps_wf, lemma_remove_user_keeps_wf, lemma_set_temporally_disconnected_keeps_wf, lemma_subscribe_all_lists, lemma_subscribe_keeps_wf, lemma_user_index, spec_fan_out, spec_topic_list, spec_without_client, RegistryView, UserState, WillView};
use crate::mqtt::server::user::{
    spec_optional_will,
    spec_subscription_views,
    spec_user_views,
    Subscription,
    User,
    WillMessage,
};

verus! {

/// Bytes to write to a connection.
#[derive(Debug, PartialEq, Eq)]
pub struct Outgoing {
    pub conn: u64,
    pub bytes: Vec<u8>,
}

impl View for Outgoing {
    type V = (u64, Seq<u8>);

    open spec fn view(&self) -> (u64, Seq<u8>) {
        (self.conn, self.bytes@)
    }
}

/// What is to be written, to which connection, in order.
pub open spec fn spec_outgoing(items: Seq<Outgoing>) -> Seq<(u64, Seq<u8>)> {
    Seq::new(items.len(), |i: int| items[i]@)
}

/// The same bytes for each of some connections.
pub open spec fn spec_to_each(conns: Seq<u64>, bytes: Seq<u8>) -> Seq<(u64, Seq<u8>)> {
    Seq::new(conns.len(), |i: int| (conns[i], bytes))
}

/// The topics of topic filters.
pub open spec fn spec_topics_of(filters: Seq<TopicFilterView>) -> Seq<Seq<u8>> {
    Seq::new(filters.len(), |i: int| filters[i].0)
}

/// The answer to a CONNECT: accepted for the right credentials, not
/// authorized for any other.
pub open spec fn spec_connack(authentic: bool) -> ConnackMessage {
    ConnackMessage {
        variable_header: VariableHeader {
            connect_acknowledge_flags: 0,
            connect_return_code: if authentic {
                ConnectReturnCode::ConnectionAccepted
            } else {
                ConnectReturnCode::NotAuthorized
            },
        },
    }
}

/// The will that a CONNECT carries, if it carries one.
pub open spec fn spec_will_of(msg: ConnectMessageView) -> Option<WillView> {
    match (msg.payload.will_topic, msg.payload.will_message) {
        (Some(topic), Some(message)) => Some(
            WillView { topic, message, qos: msg.connect_flags.will_qos },
        ),
        _ => None,
    }
}

/// What the broker holds.
pub struct MQTTServerView {
    pub registry: RegistryView,
    /// The credentials that a client has to present.
    pub username: Seq<u8>,
    pub password: Seq<u8>,
    /// The packet identifier that the broker used last.
    pub last_packet_id: u16,
}

impl MQTTServerView {
    /// The registries are well formed.
    pub open spec fn wf(self) -> bool {
        self.registry.wf()
    }

    /// Whether credentials are those that the broker asks for: both are
    /// there, and both are the same, byte for byte.
    pub open spec fn spec_is_authentic(self, username: Option<Seq<u8>>, password: Option<Seq<u8>>) -> bool {
        username == Some(self.username) && password == Some(self.password)
    }

    /// The will of the user `client_id`, if there is such a user and it
    /// has a will.
    pub open spec fn spec_users_will(self, client_id: Seq<u8>) -> Option<WillView> {
        if self.registry.spec_has_user(client_id) {
            self.registry.users[self.registry.spec_user_index(client_id)].will
        } else {
            None
        }
    }

    /// The broker after the user `client_id` sent a DISCONNECT at
    /// `timestamp`, and what is written for it: the will of the user is
    /// published, then the user and its subscriptions are gone.
    pub open spec fn spec_voluntary_disconnect(self, client_id: Seq<u8>, timestamp: u128) -> (
        MQTTServerView,
        Seq<(u64, Seq<u8>)>,
    ) {
        let (written, last_packet_id) = self.spec_publish_will(client_id, timestamp);
        (
            MQTTServerView {
                registry: self.registry.spec_remove_user(client_id),
                last_packet_id,
                ..self
            },
            written,
        )
    }

    /// The broker after the connection of the user `client_id` broke at
    /// `timestamp`, and what is written for it: the user is marked as gone,
    /// its subscriptions stay, and its will is published.
    pub open spec fn spec_involuntary_disconnect(self, client_id: Seq<u8>, timestamp: u128) -> (
        MQTTServerView,
        Seq<(u64, Seq<u8>)>,
    ) {
        let gone = MQTTServerView {
            registry: self.registry.spec_set_temporally_disconnected(client_id),
            ..self
        };
        let (written, last_packet_id) = gone.spec_publish_will(client_id, timestamp);
        (MQTTServerView { last_packet_id, ..gone }, written)
    }

    /// What is written when the user `client_id` disconnects at
    /// `timestamp`, and the packet identifier that the broker used last
    /// after that. A user with a will has it published to the subscribers
    /// of its topic, but not to itself; a will with quality of service 1
    /// takes the next packet identifier. A will that cannot be published,
    /// for its quality of service or its length, is published to nobody.
    pub open spec fn spec_publish_will(self, client_id: Seq<u8>, timestamp: u128) -> (
        Seq<(u64, Seq<u8>)>,
        u16,
    ) {
        match self.spec_users_will(client_id) {
            None => (Seq::empty(), self.last_packet_id),
            Some(will) => {
                let next = spec_next_packet_id(self.last_packet_id);
                if will.wf() {
                    (
                        spec_to_each(
                            spec_fan_out(self.registry.subs_by_topic, will.topic, client_id),
                            will.spec_publish(timestamp, next).spec_to_bytes(),
                        ),
                        if will.qos == 1 {
                            next
                        } else {
                            self.last_packet_id
                        },
                    )
                } else {
                    (Seq::empty(), self.last_packet_id)
                }
            },
        }
    }
}

/// The state of the broker.
#[derive(Debug)]
pub struct MQTTServer {
    users: Vec<User>,
    subs_by_topic: Vec<Subscription>,
    username: Vec<u8>,
    password: Vec<u8>,
    packet_ids: PacketIdAllocator,
}

impl View for MQTTServer {
    type V = MQTTServerView;

    closed spec fn view(&self) -> MQTTServerView {
        MQTTServerView {
            registry: RegistryView {
                users: spec_user_views(self.users@),
                subs_by_topic: spec_subscription_views(self.subs_by_topic@),
            },
            username: self.username@,
            password: self.password@,
            last_packet_id: self.packet_ids.spec_last(),
        }
    }
}

impl MQTTServer {
    /// A broker without users that asks its clients for these credentials.
    pub fn new(username: Vec<u8>, password: Vec<u8>) -> (server: MQTTServer)
        ensures
            server@ == (MQTTServerView {
                registry: RegistryView { users: Seq::empty(), subs_by_topic: Seq::empty() },
                username: username@,
                password: password@,
                last_packet_id: 0,
            }),
            server@.wf(),
    {
        let server = MQTTServer {
            users: Vec::new(),
            subs_by_topic: Vec::new(),
            username,
            password,
            packet_ids: PacketIdAllocator::new(),
        };
        assert(server@.registry.users =~= Seq::empty());
        assert(server@.registry.subs_by_topic =~= Seq::empty());
        server
    }

    /// Whether credentials are those that the broker asks for.
    pub fn is_authentic(&self, username: &Option<Vec<u8>>, password: &Option<Vec<u8>>) -> (yes:
        bool)
        ensures
            yes == self@.spec_is_authentic(
                spec_optional_bytes(*username),
                spec_optional_bytes(*password),
            ),
    {
        match (username, password) {
            (Some(msg_user), Some(msg_passwd)) => bytes_eq(msg_user, &self.username) && bytes_eq(
                msg_passwd,
                &self.password,
            ),
            _ => false,
        }
    }

    /// Where the users hold the user with this client identifier, if they
    /// hold one.
    fn find_user(&self, client_id: &Vec<u8>) -> (out: Option<usize>)
        requires
            self@.wf(),
        ensures
            match out {
                Some(i) => i < self.users@.len() && self.users@[i as int].client_id@ == client_id@
                    && self@.registry.spec_has_user(client_id@)
                    && self@.registry.spec_user_index(client_id@) == i,
                None => !self@.registry.spec_has_user(client_id@),
            },
    {
        let mut i: usize = 0;
        while i < self.users.len()
            invariant
                i <= self.users.len(),
                self@.wf(),
                forall|k: int| 0 <= k < i ==> (#[trigger] self@.registry.users[k]).client_id
                    != client_id@,
            decreases self.users.len() - i,
        {
            if bytes_eq(&self.users[i].client_id, client_id) {
                proof {
                    assert(self@.registry.users[i as int].client_id == client_id@);
                    lemma_user_index(self@.registry, client_id@, i as int);
                }
                return Some(i);
            }
            i += 1;
        }
        None
    }

    /// Whether the broker holds a user with this client identifier.
    pub fn has_user(&self, client_id: &Vec<u8>) -> (yes: bool)
        requires
            self@.wf(),
        ensures
            yes == self@.registry.spec_has_user(client_id@),
    {
        self.find_user(client_id).is_some()
    }

    /// Whether the user with this client identifier is connected, if the
    /// broker holds such a user.
    pub fn user_state(&self, client_id: &Vec<u8>) -> (state: Option<UserState>)
        requires
            self@.wf(),
        ensures
            match state {
                Some(state) => self@.registry.spec_has_user(client_id@)
                    && self@.registry.users[self@.registry.spec_user_index(client_id@)].state
                    == state,
                None => !self@.registry.spec_has_user(client_id@),
            },
    {
        let found = self.find_user(client_id);
        match found {
            Some(i) => Some(self.users[i].state),
            None => None,
        }
    }

    /// Whether `topic` is among the topics of the user `client_id`, which
    /// is to say: whether the user is among the subscribers of the topic.
    pub fn is_subscribed(&self, client_id: &Vec<u8>, topic: &Vec<u8>) -> (yes: bool)
        requires
            self@.wf(),
        ensures
            yes == self@.registry.spec_in_user_subs(client_id@, topic@),
            yes == self@.registry.spec_in_subs_by_topic(client_id@, topic@),
    {
        let found = self.find_user(client_id);
        match found {
            Some(i) => {
                let yes = Self::holds_topic(&self.users[i], topic);
                proof {
                    let registry = self@.registry;
                    if yes {
                        assert(registry.users[i as int].client_id == client_id@);
                    }
                    if registry.spec_in_user_subs(client_id@, topic@) {
                        let j = choose|j: int|
                            0 <= j < registry.users.len() && (
                            #[trigger] registry.users[j]).client_id == client_id@
                                && registry.users[j].topics.contains(topic@);
                        assert(registry.users[j].client_id == registry.users[i as int].client_id);
                    }
                }
                yes
            },
            None => {
                proof {
                    let registry = self@.registry;
                    if registry.spec_in_user_subs(client_id@, topic@) {
                        let j = choose|j: int|
                            0 <= j < registry.users.len() && (
                            #[trigger] registry.users[j]).client_id == client_id@
                                && registry.users[j].topics.contains(topic@);
                        assert(registry.spec_has_user(client_id@));
                    }
                }
                false
            },
        }
    }

    /// Whether a user holds `topic` among its topics.
    fn holds_topic(user: &User, topic: &Vec<u8>) -> (yes: bool)
        ensures
            yes == user@.topics.contains(topic@),
    {
        let mut p: usize = 0;
        while p < user.topics.len()
            invariant
                p <= user.topics.len(),
                forall|q: int| 0 <= q < p ==> (#[trigger] user@.topics[q]) != topic@,
            decreases user.topics.len() - p,
        {
            if bytes_eq(&user.topics[p], topic) {
                assert(user@.topics[p as int] == topic@);
                return true;
            }
            p += 1;
        }
        false
    }

    /// Takes the user `client_id` out of the users and its subscriptions
    /// out of the subscriptions by topic. Without such a user nothing
    /// changes.
    pub fn remove_user(&mut self, client_id: &Vec<u8>)
        requires
            old(self)@.wf(),
        ensures
            final(self)@ == (MQTTServerView {
                registry: old(self)@.registry.spec_remove_user(client_id@),
                ..old(self)@
            }),
            final(self)@.wf(),
            !final(self)@.registry.spec_has_user(client_id@),
    {
        proof {
            lemma_remove_user_keeps_wf(self@.registry, client_id@);
        }
        let found = self.find_user(client_id);
        match found {
            Some(i) => {
                let ghost before = self@.registry;
                self.users.remove(i);
                assert(spec_user_views(self.users@) =~= before.users.remove(i as int));
                let mut kept: Vec<Subscription> = Vec::new();
                let mut k: usize = 0;
                assert(before.subs_by_topic.subrange(0, 0) =~= Seq::empty());
                assert(spec_subscription_views(kept@) =~= Seq::empty());
                while k < self.subs_by_topic.len()
                    invariant
                        k <= self.subs_by_topic.len(),
                        before.subs_by_topic == spec_subscription_views(self.subs_by_topic@),
                        spec_subscription_views(kept@) == spec_without_client(
                            before.subs_by_topic.subrange(0, k as int),
                            client_id@,
                        ),
                    decreases self.subs_by_topic.len() - k,
                {
                    let ghost kept_before = spec_subscription_views(kept@);
                    proof {
                        let next = before.subs_by_topic.subrange(0, k + 1);
                        assert(next.drop_last() =~= before.subs_by_topic.subrange(0, k as int));
                        assert(next.last() == self.subs_by_topic@[k as int]@);
                    }
                    let sub = &self.subs_by_topic[k];
                    if !bytes_eq(&sub.client_id, client_id) {
                        let copy = Subscription {
                            topic: copy_bytes(&sub.topic),
                            client_id: copy_bytes(&sub.client_id),
                            conn: sub.conn,
                        };
                        assert(copy@ == sub@);
                        kept.push(copy);
                        assert(spec_subscription_views(kept@) =~= kept_before.push(sub@));
                    }
                    k += 1;
                }
                assert(before.subs_by_topic.subrange(0, k as int) =~= before.subs_by_topic);
                self.subs_by_topic = kept;
            },
            None => {},
        }
    }

    /// Takes note of a client whose CONNECT was accepted. A user that was
    /// gone without a DISCONNECT is taken over: it is connected again, on
    /// the new connection, and keeps its subscriptions; a will that came
    /// with the CONNECT replaces its will. Any other user with the same
    /// client identifier gives way to a fresh one without subscriptions.
    /// A will is stored as it comes.
    pub fn connect_user(&mut self, client_id: Vec<u8>, conn: u64, will: Option<WillMessage>)
        requires
            old(self)@.wf(),
        ensures
            final(self)@ == (MQTTServerView {
                registry: old(self)@.registry.spec_connect(
                    client_id@,
                    conn,
                    spec_optional_will(will),
                ),
                ..old(self)@
            }),
            final(self)@.wf(),
            final(self)@.registry.spec_has_user(client_id@),
    {
        let ghost before = self@.registry;
        let ghost will_view = spec_optional_will(will);
        proof {
            lemma_connect_keeps_wf(before, client_id@, conn, will_view);
        }
        let found = self.find_user(&client_id);
        let gone: bool = match found {
            Some(i) => match self.users[i].state {
                UserState::TemporallyDisconnected => true,
                UserState::Active => false,
            },
            None => false,
        };
        match found {
            Some(i) if gone => {
                self.users[i].conn = conn;
                self.users[i].state = UserState::Active;
                if will.is_some() {
                    self.users[i].will = will;
                }
                assert(spec_user_views(self.users@) =~= before.spec_take_over(
                    client_id@,
                    conn,
                    will_view,
                ).users);
                let ghost taken = before.spec_take_over(client_id@, conn, will_view);
                let mut k: usize = 0;
                while k < self.subs_by_topic.len()
                    invariant
                        k <= self.subs_by_topic.len(),
                        self.subs_by_topic@.len() == before.subs_by_topic.len(),
                        before.subs_by_topic.len() == taken.subs_by_topic.len(),
                        taken == before.spec_take_over(client_id@, conn, will_view),
                        spec_user_views(self.users@) == taken.users,
                        self.username == old(self).username,
                        self.password == old(self).password,
                        self.packet_ids == old(self).packet_ids,
                        forall|n: int|
                            0 <= n < k ==> (#[trigger] self.subs_by_topic@[n])@
                                == before.spec_take_over(
                                client_id@,
                                conn,
                                will_view,
                            ).subs_by_topic[n],
                        forall|n: int|
                            k <= n < self.subs_by_topic@.len() ==> (
                            #[trigger] self.subs_by_topic@[n])@ == before.subs_by_topic[n],
                    decreases self.subs_by_topic.len() - k,
                {
                    if bytes_eq(&self.subs_by_topic[k].client_id, &client_id) {
                        self.subs_by_topic[k].conn = conn;
                    }
                    k += 1;
                }
                assert(spec_subscription_views(self.subs_by_topic@) =~= before.spec_take_over(
                    client_id@,
                    conn,
                    will_view,
                ).subs_by_topic);
            },
            _ => {
                self.remove_user(&client_id);
                let ghost removed = self@.registry;
                let ghost id = client_id@;
                self.users.push(
                    User { client_id, conn, state: UserState::Active, will, topics: Vec::new() },
                );
                assert(spec_byte_seqs(Seq::<Vec<u8>>::empty()) =~= Seq::<Seq<u8>>::empty());
                assert(spec_user_views(self.users@) =~= removed.spec_add_user(
                    id,
                    conn,
                    will_view,
                ).users);
            },
        }
    }

    /// Takes note that the user `client_id` is gone without a DISCONNECT.
    /// Its subscriptions stay. Without such a user nothing changes.
    pub fn set_user_as_temporally_disconnected(&mut self, client_id: &Vec<u8>)
        requires
            old(self)@.wf(),
        ensures
            final(self)@ == (MQTTServerView {
                registry: old(self)@.registry.spec_set_temporally_disconnected(client_id@),
                ..old(self)@
            }),
            final(self)@.wf(),
    {
        let ghost before = self@.registry;
        proof {
            lemma_set_temporally_disconnected_keeps_wf(before, client_id@);
        }
        let found = self.find_user(client_id);
        match found {
            Some(i) => {
                self.users[i].state = UserState::TemporallyDisconnected;
                assert(spec_user_views(self.users@) =~= before.spec_set_temporally_disconnected(
                    client_id@,
                ).users);
            },
            None => {},
        }
    }

    /// Subscribes the user `client_id` to one topic: the user is added at
    /// the end of the subscribers of the topic, also when it is among them
    /// already, and the topic comes to be among the topics of the user
    /// unless it is. Without such a user nothing changes.
    pub fn add_topic_to_subscriber(&mut self, client_id: &Vec<u8>, topic: &Vec<u8>)
        requires
            old(self)@.wf(),
        ensures
            final(self)@ == (MQTTServerView {
                registry: old(self)@.registry.spec_subscribe(client_id@, topic@),
                ..old(self)@
            }),
            final(self)@.wf(),
    {
        let ghost before = self@.registry;
        proof {
            lemma_subscribe_keeps_wf(before, client_id@, topic@);
        }
        let found = self.find_user(client_id);
        match found {
            Some(i) => {
                let held: bool = Self::holds_topic(&self.users[i], topic);
                let conn: u64 = self.users[i].conn;
                if !held {
                    let ghost topics_before = spec_byte_seqs(self.users@[i as int].topics@);
                    self.users[i].topics.push(copy_bytes(topic));
                    assert(spec_byte_seqs(self.users@[i as int].topics@) =~= topics_before.push(
                        topic@,
                    ));
                }
                assert(spec_user_views(self.users@) =~= before.spec_subscribe(
                    client_id@,
                    topic@,
                ).users);
                self.subs_by_topic.push(
                    Subscription { topic: copy_bytes(topic), client_id: copy_bytes(client_id), conn },
                );
                assert(spec_subscription_views(self.subs_by_topic@) =~= before.spec_subscribe(
                    client_id@,
                    topic@,
                ).subs_by_topic);
            },
            None => {},
        }
    }

    /// The connections to write a message on `topic` to: those of the
    /// subscribers of the topic, but for that of the sender, in the order
    /// in which they subscribed, once for each subscription.
    pub fn get_subscribers(&self, topic: &Vec<u8>, sender: &Vec<u8>) -> (conns: Vec<u64>)
        ensures
            conns@ == spec_fan_out(self@.registry.subs_by_topic, topic@, sender@),
    {
        let mut conns: Vec<u64> = Vec::new();
        let ghost subs = self@.registry.subs_by_topic;
        let mut k: usize = 0;
        assert(subs.subrange(0, 0) =~= Seq::empty());
        while k < self.subs_by_topic.len()
            invariant
                k <= self.subs_by_topic.len(),
                subs == spec_subscription_views(self.subs_by_topic@),
                conns@ == spec_fan_out(subs.subrange(0, k as int), topic@, sender@),
            decreases self.subs_by_topic.len() - k,
        {
            proof {
                let next = subs.subrange(0, k + 1);
                assert(next.drop_last() =~= subs.subrange(0, k as int));
                assert(next.last() == self.subs_by_topic@[k as int]@);
            }
            let sub = &self.subs_by_topic[k];
            if bytes_eq(&sub.topic, topic) && !bytes_eq(&sub.client_id, sender) {
                conns.push(sub.conn);
            }
            k += 1;
        }
        assert(subs.subrange(0, k as int) =~= subs);
        conns
    }

    /// Checks the credentials of a CONNECT and gives the answer to write:
    /// a CONNACK with return code 0 for the right credentials, with return
    /// code 5 for any other.
    pub fn authenticate(&self, connect_msg: &ConnectMessage) -> (out: (bool, Vec<u8>))
        ensures
            out.0 == self@.spec_is_authentic(
                connect_msg@.payload.username,
                connect_msg@.payload.password,
            ),
            out.1@ == spec_connack(out.0).spec_to_bytes(),
            out.1@ == seq![0x20u8, 0x02u8, 0x00u8, if out.0 {
                0x00u8
            } else {
                0x05u8
            }],
    {
        let is_authentic: bool = self.is_authentic(
            connect_msg.get_user(),
            connect_msg.get_passwd(),
        );
        let code = if is_authentic {
            ConnectReturnCode::ConnectionAccepted
        } else {
            ConnectReturnCode::NotAuthorized
        };
        let connack_response = ConnackMessage::new(false, code).to_bytes();
        assert(connack_response@ =~= seq![0x20u8, 0x02u8, 0x00u8, if is_authentic {
            0x00u8
        } else {
            0x05u8
        }]);
        (is_authentic, connack_response)
    }

    /// Subscribes the user `client_id` to every topic filter of a
    /// SUBSCRIBE, in order, and gives the return codes to answer with: one
    /// for each filter, each granting quality of service 1. The user is
    /// added at the end of the subscribers of each filter, also where it is
    /// among them already; nobody is taken out or moved, and the
    /// subscribers of a topic that the SUBSCRIBE does not name stay as they
    /// were. Without such a user the registries contradict the connection,
    /// and nothing changes.
    pub fn add_subscribers_to_topic(&mut self, msg: &SubscribeMessage, client_id: &Vec<u8>) -> (out:
        Result<Vec<SubscribeReturnCode>, MqttError>)
        requires
            old(self)@.wf(),
        ensures
            final(self)@.wf(),
            match out {
                Ok(return_codes) => {
                    &&& old(self)@.registry.spec_has_user(client_id@)
                    &&& final(self)@ == (MQTTServerView {
                        registry: old(self)@.registry.spec_subscribe_all(
                            client_id@,
                            spec_topics_of(msg@.topic_filters),
                        ),
                        ..old(self)@
                    })
                    &&& return_codes@ == Seq::new(
                        msg@.topic_filters.len(),
                        |i: int| SubscribeReturnCode::QoS1,
                    )
                    &&& forall|topic: Seq<u8>|
                        #![trigger spec_topic_list(final(self)@.registry.subs_by_topic, topic)]
                        {
                            let before = spec_topic_list(
                                old(self)@.registry.subs_by_topic,
                                topic,
                            );
                            let after = spec_topic_list(
                                final(self)@.registry.subs_by_topic,
                                topic,
                            );
                            &&& before.is_prefix_of(after)
                            &&& !spec_topics_of(msg@.topic_filters).contains(topic) ==> after
                                == before
                            &&& spec_topics_of(msg@.topic_filters).contains(topic) ==> after.len()
                                > 0 && after.last() == (
                                client_id@,
                                old(self)@.registry.users[old(self)@.registry.spec_user_index(
                                    client_id@,
                                )].conn,
                            )
                        }
                },
                Err(e) => e == MqttError::RegistryInconsistency
                    && !old(self)@.registry.spec_has_user(client_id@) && final(self)@ == old(
                    self,
                )@,
            },
    {
        if !self.has_user(client_id) {
            return Err(MqttError::RegistryInconsistency);
        }
        let mut return_codes: Vec<SubscribeReturnCode> = Vec::new();
        let filters = msg.get_topic_filters();
        let ghost topics = spec_topics_of(msg@.topic_filters);
        let ghost before = self@;
        let mut i: usize = 0;
        assert(topics.subrange(0, 0) =~= Seq::empty());
        while i < filters.len()
            invariant
                i <= filters.len(),
                spec_filters(filters@) == msg@.topic_filters,
                topics == spec_topics_of(msg@.topic_filters),
                before.wf(),
                self@.wf(),
                self@ == (MQTTServerView {
                    registry: before.registry.spec_subscribe_all(
                        client_id@,
                        topics.subrange(0, i as int),
                    ),
                    ..before
                }),
                return_codes@ == Seq::new(i as nat, |k: int| SubscribeReturnCode::QoS1),
            decreases filters.len() - i,
        {
            proof {
                let next = topics.subrange(0, i + 1);
                assert(next.drop_last() =~= topics.subrange(0, i as int));
                assert(next.last() == filters@[i as int].0@);
            }
            return_codes.push(SubscribeReturnCode::QoS1);
            self.add_topic_to_subscriber(client_id, &filters[i].0);
            i += 1;
            assert(return_codes@ =~= Seq::new(i as nat, |k: int| SubscribeReturnCode::QoS1));
        }
        assert(topics.subrange(0, i as int) =~= topics);
        proof {
            assert forall|topic: Seq<u8>|
                #![trigger spec_topic_list(self@.registry.subs_by_topic, topic)]
                {
                    let old_list = spec_topic_list(before.registry.subs_by_topic, topic);
                    let new_list = spec_topic_list(self@.registry.subs_by_topic, topic);
                    &&& old_list.is_prefix_of(new_list)
                    &&& !topics.contains(topic) ==> new_list == old_list
                    &&& topics.contains(topic) ==> new_list.len() > 0 && new_list.last() == (
                        client_id@,
                        before.registry.users[before.registry.spec_user_index(client_id@)].conn,
                    )
                } by {
                lemma_subscribe_all_lists(before.registry, client_id@, topics, topic);
            }
        }
        Ok(return_codes)
    }

    /// The answer to a SUBSCRIBE: a SUBACK with its packet identifier and
    /// the return codes. Nothing when that cannot be encoded.
    pub fn send_suback(packet_id: u16, return_codes: Vec<SubscribeReturnCode>) -> (out: Option<
        Vec<u8>,
    >)
        ensures
            match out {
                Some(bytes) => (SubAckMessageView { packet_id, return_codes: return_codes@ }).wf()
                    && bytes@ == (SubAckMessageView {
                    packet_id,
                    return_codes: return_codes@,
                }).spec_to_bytes(),
                None => !(SubAckMessageView { packet_id, return_codes: return_codes@ }).wf(),
            },
    {
        let built = SubAckMessage::new(packet_id, return_codes);
        match built {
            Ok(ack) => Some(ack.to_bytes()),
            Err(_) => None,
        }
    }

    /// The answer to a PUBLISH: a PUBACK with its packet identifier when
    /// its quality of service is 1, nothing when it is 0.
    pub fn send_puback(msg: &PublishMessage) -> (out: Option<Vec<u8>>)
        ensures
            match msg@.packet_id {
                Some(packet_id) => out is Some && out->0@ == (PubAckMessage {
                    packet_id,
                }).spec_to_bytes(),
                None => out is None,
            },
    {
        match msg.get_packet_id() {
            Some(packet_id) => Some(PubAckMessage::new(packet_id).to_bytes()),
            None => None,
        }
    }

    /// What is written for a message on `topic` sent by `sender`: `bytes`
    /// to each subscriber of the topic but the sender, in the order in
    /// which they subscribed.
    pub fn distribute_to_subscribers(&self, topic: &Vec<u8>, bytes: &Vec<u8>, sender: &Vec<u8>) -> (out:
        Vec<Outgoing>)
        ensures
            spec_outgoing(out@) == spec_to_each(
                spec_fan_out(self@.registry.subs_by_topic, topic@, sender@),
                bytes@,
            ),
    {
        let conns = self.get_subscribers(topic, sender);
        let mut out: Vec<Outgoing> = Vec::new();
        let mut i: usize = 0;
        while i < conns.len()
            invariant
                i <= conns.len(),
                out@.len() == i,
                forall|k: int| 0 <= k < i ==> (#[trigger] out@[k])@ == (conns@[k], bytes@),
            decreases conns.len() - i,
        {
            out.push(Outgoing { conn: conns[i], bytes: copy_bytes(bytes) });
            i += 1;
        }
        assert(spec_outgoing(out@) =~= spec_to_each(conns@, bytes@));
        out
    }

    /// Publishes the will of the user `client_id`, created at `timestamp`,
    /// and gives what is to be written for it.
    pub fn publish_users_will_message(&mut self, client_id: &Vec<u8>, timestamp: u128) -> (out:
        Vec<Outgoing>)
        requires
            old(self)@.wf(),
        ensures
            final(self)@ == (MQTTServerView {
                last_packet_id: old(self)@.spec_publish_will(client_id@, timestamp).1,
                ..old(self)@
            }),
            spec_outgoing(out@) == old(self)@.spec_publish_will(client_id@, timestamp).0,
    {
        let found = self.find_user(client_id);
        let i: usize = match found {
            Some(i) => i,
            None => {
                let out: Vec<Outgoing> = Vec::new();
                assert(spec_outgoing(out@) =~= Seq::empty());
                return out;
            },
        };
        let mut ids = self.packet_ids;
        let next: u16 = ids.next_id();
        let built = match &self.users[i].will {
            Some(will) => {
                let packet_id: Option<u16> = if will.qos == 1 {
                    Some(next)
                } else {
                    None
                };
                let built = PublishMessage::new(
                    will.qos,
                    copy_bytes(&will.topic),
                    packet_id,
                    copy_bytes(&will.message),
                    timestamp,
                );
                proof {
                    let held = self@.registry.users[i as int].will;
                    assert(held == Some(will@));
                    assert(will@.wf() == will@.spec_publish(timestamp, next).wf());
                }
                match built {
                    Ok(publish) => Some((publish, will.qos == 1)),
                    Err(_) => None,
                }
            },
            None => None,
        };
        match built {
            Some((publish, takes_id)) => {
                let bytes = publish.to_bytes();
                let out = self.distribute_to_subscribers(publish.get_topic(), &bytes, client_id);
                if takes_id {
                    self.packet_ids = ids;
                }
                out
            },
            None => {
                let out: Vec<Outgoing> = Vec::new();
                assert(spec_outgoing(out@) =~= Seq::empty());
                out
            },
        }
    }
}

/// Every subscriber of a topic other than the sender is among those that
/// a message on the topic is written to.
pub proof fn lemma_fan_out_reaches(
    subs: Seq<crate::mqtt::server::registry::SubscriptionView>,
    topic: Seq<u8>,
    sender: Seq<u8>,
    k: int,
)
    requires
        0 <= k < subs.len(),
        subs[k].topic == topic,
        subs[k].client_id != sender,
    ensures
        spec_fan_out(subs, topic, sender).contains(subs[k].conn),
    decreases subs.len(),
{
    let all = spec_fan_out(subs, topic, sender);
    let rest = spec_fan_out(subs.drop_last(), topic, sender);
    if k == subs.len() - 1 {
        assert(all[all.len() - 1] == subs[k].conn);
    } else {
        lemma_fan_out_reaches(subs.drop_last(), topic, sender, k);
        let n = choose|n: int| 0 <= n < rest.len() && rest[n] == subs[k].conn;
        assert(all[n] == subs[k].conn);
    }
}

/// When the connection of a user with a will that can be published
/// breaks, the will is published: every other subscriber of its topic is written a PUBLISH on
/// that topic with the message of the will as payload, the user is marked
/// as gone, and every subscription stays where it was.
pub proof fn lemma_broken_connection_publishes_will(
    server: MQTTServerView,
    client_id: Seq<u8>,
    timestamp: u128,
    k: int,
)
    requires
        server.wf(),
        server.spec_users_will(client_id) is Some,
        server.spec_users_will(client_id)->0.wf(),
        0 <= k < server.registry.subs_by_topic.len(),
        server.registry.subs_by_topic[k].topic == server.spec_users_will(client_id)->0.topic,
        server.registry.subs_by_topic[k].client_id != client_id,
    ensures
        ({
            let will = server.spec_users_will(client_id)->0;
            let (after, written) = server.spec_involuntary_disconnect(client_id, timestamp);
            let publish = will.spec_publish(timestamp, spec_next_packet_id(server.last_packet_id));
            &&& publish.wf()
            &&& publish.topic == will.topic
            &&& publish.payload == will.message
            &&& PublishMessageView::spec_from_bytes(publish.spec_to_bytes()) == Some(publish)
            &&& written.contains((server.registry.subs_by_topic[k].conn, publish.spec_to_bytes()))
            &&& after.registry.subs_by_topic == server.registry.subs_by_topic
            &&& after.registry.spec_has_user(client_id)
            &&& after.registry.users[after.registry.spec_user_index(client_id)].state
                == UserState::TemporallyDisconnected
            &&& after.wf()
        }),
{
    let registry = server.registry;
    let i = registry.spec_user_index(client_id);
    let will = server.spec_users_will(client_id)->0;
    let gone = registry.spec_set_temporally_disconnected(client_id);
    lemma_set_temporally_disconnected_keeps_wf(registry, client_id);
    assert(gone.users[i].client_id == client_id);
    assert(gone.spec_ids_unique());
    lemma_user_index(gone, client_id, i);
    assert(registry.users[i].will == Some(will));
    let publish = will.spec_publish(timestamp, spec_next_packet_id(server.last_packet_id));
    lemma_publish_round_trip(publish);
    let conns = spec_fan_out(registry.subs_by_topic, will.topic, client_id);
    lemma_fan_out_reaches(registry.subs_by_topic, will.topic, client_id, k);
    let n = choose|n: int| 0 <= n < conns.len() && conns[n] == registry.subs_by_topic[k].conn;
    let written = spec_to_each(conns, publish.spec_to_bytes());
    assert(written[n] == (registry.subs_by_topic[k].conn, publish.spec_to_bytes()));
}

} // verus!
