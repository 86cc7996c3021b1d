//! The two registries of the broker, as mathematical values: the users by
//! client identifier, each with the topics it subscribed to, and the
//! subscriptions by topic, each with the connection to write to. What the
//! broker does is stated over these, and that it keeps the two consistent
//! is proved here.

use vstd::prelude::*;
use crate::mqtt::messages::publish_message::PublishMessageView;

verus! {

/// Whether a user is connected.
#[derive(Debug, Clone, Copy, PartialEq, Eq, Structural)]
pub enum UserState {
    /// Connected.
    Active,
    /// Gone without a DISCONNECT; its subscriptions wait for it.
    TemporallyDisconnected,
}

/// What the broker publishes on behalf of a user that disconnects.
pub struct WillView {
    pub topic: Seq<u8>,
    pub message: Seq<u8>,
    pub qos: u8,
}

impl WillView {
    /// The PUBLISH that carries the will, created at `timestamp`: with the
    /// quality of service of the will, and with the packet identifier
    /// `packet_id` if that is 1.
    pub open spec fn spec_publish(self, timestamp: u128, packet_id: u16) -> PublishMessageView {
        PublishMessageView {
            qos: self.qos,
            topic: self.topic,
            packet_id: if self.qos == 1 {
                Some(packet_id)
            } else {
                None
            },
            payload: self.message,
            timestamp,
        }
    }

    /// The will can be published: its quality of service is 0 or 1, and
    /// topic and message fit a PUBLISH.
    pub open spec fn wf(self) -> bool {
        self.spec_publish(0, 0).wf()
    }
}

/// A user of the broker.
pub struct UserView {
    pub client_id: Seq<u8>,
    /// The connection of the user.
    pub conn: u64,
    pub state: UserState,
    pub will: Option<WillView>,
    /// The topics that the user subscribed to.
    pub topics: Seq<Seq<u8>>,
}

/// One subscription: a client, the topic it subscribed to and the
/// connection on which it receives.
pub struct SubscriptionView {
    pub topic: Seq<u8>,
    pub client_id: Seq<u8>,
    pub conn: u64,
}

/// The registries of the broker.
pub struct RegistryView {
    pub users: Seq<UserView>,
    pub subs_by_topic: Seq<SubscriptionView>,
}

/// The subscriptions but those of one client.
pub open spec fn spec_without_client(subs: Seq<SubscriptionView>, client_id: Seq<u8>) -> Seq<
    SubscriptionView,
>
    decreases subs.len(),
{
    if subs.len() == 0 {
        Seq::empty()
    } else {
        let rest = spec_without_client(subs.drop_last(), client_id);
        if subs.last().client_id == client_id {
            rest
        } else {
            rest.push(subs.last())
        }
    }
}

/// The connections of the subscribers of a topic, but for that of the
/// sender, in the order in which they subscribed, once for each
/// subscription.
pub open spec fn spec_fan_out(subs: Seq<SubscriptionView>, topic: Seq<u8>, sender: Seq<u8>) -> Seq<
    u64,
>
    decreases subs.len(),
{
    if subs.len() == 0 {
        Seq::empty()
    } else {
        let rest = spec_fan_out(subs.drop_last(), topic, sender);
        if subs.last().topic == topic && subs.last().client_id != sender {
            rest.push(subs.last().conn)
        } else {
            rest
        }
    }
}

/// The subscribers of a topic, each with its connection, in the order in
/// which they subscribed.
pub open spec fn spec_topic_list(subs: Seq<SubscriptionView>, topic: Seq<u8>) -> Seq<
    (Seq<u8>, u64),
>
    decreases subs.len(),
{
    if subs.len() == 0 {
        Seq::empty()
    } else {
        let rest = spec_topic_list(subs.drop_last(), topic);
        if subs.last().topic == topic {
            rest.push((subs.last().client_id, subs.last().conn))
        } else {
            rest
        }
    }
}

impl RegistryView {
    /// Whether the users hold a user with this client identifier.
    pub open spec fn spec_has_user(self, client_id: Seq<u8>) -> bool {
        exists|i: int| 0 <= i < self.users.len() && (#[trigger] self.users[i]).client_id == client_id
    }

    /// Where the users hold the user with this client identifier.
    pub open spec fn spec_user_index(self, client_id: Seq<u8>) -> int {
        choose|i: int| 0 <= i < self.users.len() && (#[trigger] self.users[i]).client_id == client_id
    }

    /// Whether the user `client_id` holds `topic` among its topics.
    pub open spec fn spec_in_user_subs(self, client_id: Seq<u8>, topic: Seq<u8>) -> bool {
        exists|i: int|
            0 <= i < self.users.len() && (#[trigger] self.users[i]).client_id == client_id
                && self.users[i].topics.contains(topic)
    }

    /// Whether the subscriptions by topic hold `client_id` under `topic`.
    pub open spec fn spec_in_subs_by_topic(self, client_id: Seq<u8>, topic: Seq<u8>) -> bool {
        exists|k: int|
            0 <= k < self.subs_by_topic.len() && (#[trigger] self.subs_by_topic[k]).client_id
                == client_id && self.subs_by_topic[k].topic == topic
    }

    /// No two users share a client identifier.
    pub open spec fn spec_ids_unique(self) -> bool {
        forall|i: int, j: int|
            0 <= i < self.users.len() && 0 <= j < self.users.len() && i != j ==> (
            #[trigger] self.users[i]).client_id != (#[trigger] self.users[j]).client_id
    }

    /// A client is a subscriber of a topic exactly when the topic is among
    /// the topics of the user.
    pub open spec fn spec_consistent(self) -> bool {
        forall|client_id: Seq<u8>, topic: Seq<u8>|
            #![trigger self.spec_in_subs_by_topic(client_id, topic)]
            #![trigger self.spec_in_user_subs(client_id, topic)]
            self.spec_in_subs_by_topic(client_id, topic) <==> self.spec_in_user_subs(
                client_id,
                topic,
            )
    }

    /// Every subscription names the connection of its user.
    pub open spec fn spec_conns_agree(self) -> bool {
        forall|k: int, i: int|
            0 <= k < self.subs_by_topic.len() && 0 <= i < self.users.len() && (
            #[trigger] self.subs_by_topic[k]).client_id == (#[trigger] self.users[i]).client_id
                ==> self.subs_by_topic[k].conn == self.users[i].conn
    }

    /// No user holds a topic twice.
    pub open spec fn spec_topics_unique(self) -> bool {
        forall|i: int| 0 <= i < self.users.len() ==> (#[trigger] self.users[i]).topics.no_duplicates()
    }

    /// The registries are consistent with each other, and no user holds a
    /// topic twice.
    pub open spec fn wf(self) -> bool {
        &&& self.spec_ids_unique()
        &&& self.spec_consistent()
        &&& self.spec_conns_agree()
        &&& self.spec_topics_unique()
    }

    /// The registries with one more user, connected and without
    /// subscriptions.
    pub open spec fn spec_add_user(self, client_id: Seq<u8>, conn: u64, will: Option<WillView>) -> RegistryView {
        RegistryView {
            users: self.users.push(
                UserView { client_id, conn, state: UserState::Active, will, topics: Seq::empty() },
            ),
            ..self
        }
    }

    /// The registries after a user came back on a new connection: the
    /// user is connected again, every subscription of it names the new
    /// connection, and a will that came with it replaces the old one.
    pub open spec fn spec_take_over(self, client_id: Seq<u8>, conn: u64, will: Option<WillView>) -> RegistryView {
        let i = self.spec_user_index(client_id);
        RegistryView {
            users: self.users.update(
                i,
                UserView {
                    conn,
                    state: UserState::Active,
                    will: if will is Some {
                        will
                    } else {
                        self.users[i].will
                    },
                    ..self.users[i]
                },
            ),
            subs_by_topic: Seq::new(
                self.subs_by_topic.len(),
                |k: int|
                    if self.subs_by_topic[k].client_id == client_id {
                        SubscriptionView { conn, ..self.subs_by_topic[k] }
                    } else {
                        self.subs_by_topic[k]
                    },
            ),
        }
    }

    /// The registries without a user and without its subscriptions.
    pub open spec fn spec_remove_user(self, client_id: Seq<u8>) -> RegistryView {
        if self.spec_has_user(client_id) {
            RegistryView {
                users: self.users.remove(self.spec_user_index(client_id)),
                subs_by_topic: spec_without_client(self.subs_by_topic, client_id),
            }
        } else {
            self
        }
    }

    /// The registries after a CONNECT was accepted. A user that was gone
    /// without a DISCONNECT is taken over. Any other user with the same
    /// client identifier gives way to a fresh one.
    pub open spec fn spec_connect(self, client_id: Seq<u8>, conn: u64, will: Option<WillView>) -> RegistryView {
        if self.spec_has_user(client_id) && self.users[self.spec_user_index(client_id)].state
            == UserState::TemporallyDisconnected {
            self.spec_take_over(client_id, conn, will)
        } else {
            self.spec_remove_user(client_id).spec_add_user(client_id, conn, will)
        }
    }

    /// The registries after a user went away without a DISCONNECT: its
    /// subscriptions stay.
    pub open spec fn spec_set_temporally_disconnected(self, client_id: Seq<u8>) -> RegistryView {
        if self.spec_has_user(client_id) {
            let i = self.spec_user_index(client_id);
            RegistryView {
                users: self.users.update(
                    i,
                    UserView { state: UserState::TemporallyDisconnected, ..self.users[i] },
                ),
                ..self
            }
        } else {
            self
        }
    }

    /// The registries after a user subscribed to a topic: the user is
    /// added at the end of the subscribers of the topic, also when it is
    /// among them already, and the topic comes to be among the topics of
    /// the user unless it is. Without the user nothing changes.
    pub open spec fn spec_subscribe(self, client_id: Seq<u8>, topic: Seq<u8>) -> RegistryView {
        if self.spec_has_user(client_id) {
            let i = self.spec_user_index(client_id);
            RegistryView {
                users: self.users.update(
                    i,
                    UserView {
                        topics: if self.users[i].topics.contains(topic) {
                            self.users[i].topics
                        } else {
                            self.users[i].topics.push(topic)
                        },
                        ..self.users[i]
                    },
                ),
                subs_by_topic: self.subs_by_topic.push(
                    SubscriptionView { topic, client_id, conn: self.users[i].conn },
                ),
            }
        } else {
            self
        }
    }

    /// The registries after a user subscribed to topics, one after the
    /// other.
    pub open spec fn spec_subscribe_all(self, client_id: Seq<u8>, topics: Seq<Seq<u8>>) -> RegistryView
        decreases topics.len(),
    {
        if topics.len() == 0 {
            self
        } else {
            self.spec_subscribe_all(client_id, topics.drop_last()).spec_subscribe(
                client_id,
                topics.last(),
            )
        }
    }
}

/// What is left of the subscriptions without a client: every subscription
/// of another client, and none of the client.
pub proof fn lemma_without_client(subs: Seq<SubscriptionView>, client_id: Seq<u8>)
    ensures
        forall|s: SubscriptionView|
            #![trigger spec_without_client(subs, client_id).contains(s)]
            spec_without_client(subs, client_id).contains(s) <==> subs.contains(s) && s.client_id
                != client_id,
        spec_without_client(subs, client_id).len() <= subs.len(),
    decreases subs.len(),
{
    let kept = spec_without_client(subs, client_id);
    if subs.len() > 0 {
        let front = subs.drop_last();
        let rest = spec_without_client(front, client_id);
        lemma_without_client(front, client_id);
        assert forall|s: SubscriptionView| #![trigger kept.contains(s)] kept.contains(s) implies
            subs.contains(s) && s.client_id != client_id by {
            let k = choose|k: int| 0 <= k < kept.len() && kept[k] == s;
            if k < rest.len() {
                assert(rest[k] == s);
                assert(rest.contains(s));
                let f = choose|f: int| 0 <= f < front.len() && front[f] == s;
                assert(subs[f] == s);
            } else {
                assert(subs[subs.len() - 1] == s);
            }
        }
        assert forall|s: SubscriptionView|
            #![trigger kept.contains(s)]
            subs.contains(s) && s.client_id != client_id implies kept.contains(s) by {
            let k = choose|k: int| 0 <= k < subs.len() && subs[k] == s;
            if k < front.len() {
                assert(front[k] == s);
                assert(front.contains(s));
                assert(rest.contains(s));
                let r = choose|r: int| 0 <= r < rest.len() && rest[r] == s;
                assert(kept[r] == s);
            } else {
                assert(kept[kept.len() - 1] == s);
            }
        }
    }
}

/// Registries whose subscriptions agree in client and topic, place by
/// place, hold the same clients under the same topics.
pub proof fn lemma_subs_agree(a: RegistryView, b: RegistryView)
    requires
        a.subs_by_topic.len() == b.subs_by_topic.len(),
        forall|k: int|
            0 <= k < a.subs_by_topic.len() ==> (#[trigger] a.subs_by_topic[k]).client_id
                == b.subs_by_topic[k].client_id && a.subs_by_topic[k].topic
                == b.subs_by_topic[k].topic,
    ensures
        forall|c: Seq<u8>, t: Seq<u8>|
            #![trigger a.spec_in_subs_by_topic(c, t)]
            #![trigger b.spec_in_subs_by_topic(c, t)]
            a.spec_in_subs_by_topic(c, t) == b.spec_in_subs_by_topic(c, t),
{
    assert forall|c: Seq<u8>, t: Seq<u8>|
        #![trigger a.spec_in_subs_by_topic(c, t)]
        #![trigger b.spec_in_subs_by_topic(c, t)]
        a.spec_in_subs_by_topic(c, t) == b.spec_in_subs_by_topic(c, t) by {
        if a.spec_in_subs_by_topic(c, t) {
            let k = choose|k: int|
                0 <= k < a.subs_by_topic.len() && (#[trigger] a.subs_by_topic[k]).client_id == c
                    && a.subs_by_topic[k].topic == t;
            assert(b.subs_by_topic[k].client_id == c);
        }
        if b.spec_in_subs_by_topic(c, t) {
            let k = choose|k: int|
                0 <= k < b.subs_by_topic.len() && (#[trigger] b.subs_by_topic[k]).client_id == c
                    && b.subs_by_topic[k].topic == t;
            assert(a.subs_by_topic[k].client_id == c);
        }
    }
}

/// Registries whose users agree in client identifier and topics, place by
/// place, hold the same topics for the same users.
pub proof fn lemma_users_agree(a: RegistryView, b: RegistryView)
    requires
        a.users.len() == b.users.len(),
        forall|i: int|
            0 <= i < a.users.len() ==> (#[trigger] a.users[i]).client_id == b.users[i].client_id
                && a.users[i].topics == b.users[i].topics,
    ensures
        forall|c: Seq<u8>, t: Seq<u8>|
            #![trigger a.spec_in_user_subs(c, t)]
            #![trigger b.spec_in_user_subs(c, t)]
            a.spec_in_user_subs(c, t) == b.spec_in_user_subs(c, t),
{
    assert forall|c: Seq<u8>, t: Seq<u8>|
        #![trigger a.spec_in_user_subs(c, t)]
        #![trigger b.spec_in_user_subs(c, t)]
        a.spec_in_user_subs(c, t) == b.spec_in_user_subs(c, t) by {
        if a.spec_in_user_subs(c, t) {
            let i = choose|i: int|
                0 <= i < a.users.len() && (#[trigger] a.users[i]).client_id == c
                    && a.users[i].topics.contains(t);
            assert(b.users[i].client_id == c);
        }
        if b.spec_in_user_subs(c, t) {
            let i = choose|i: int|
                0 <= i < b.users.len() && (#[trigger] b.users[i]).client_id == c
                    && b.users[i].topics.contains(t);
            assert(a.users[i].client_id == c);
        }
    }
}

/// Adding a user that the registries do not hold keeps them well formed.
pub proof fn lemma_add_user_keeps_wf(
    registry: RegistryView,
    client_id: Seq<u8>,
    conn: u64,
    will: Option<WillView>,
)
    requires
        registry.wf(),
        !registry.spec_has_user(client_id),
    ensures
        registry.spec_add_user(client_id, conn, will).wf(),
        registry.spec_add_user(client_id, conn, will).spec_has_user(client_id),
{
    let after = registry.spec_add_user(client_id, conn, will);
    let n = registry.users.len() as int;
    assert(after.users[n].client_id == client_id);
    assert forall|i: int| 0 <= i < n implies #[trigger] after.users[i] == registry.users[i] by {}
    assert(after.users[n].topics =~= Seq::<Seq<u8>>::empty());
    lemma_subs_agree(after, registry);
    assert(after.spec_ids_unique()) by {
        assert forall|i: int, j: int|
            0 <= i < after.users.len() && 0 <= j < after.users.len() && i != j implies (
        #[trigger] after.users[i]).client_id != (#[trigger] after.users[j]).client_id by {
            if i < n && j < n {
                assert(registry.users[i].client_id != registry.users[j].client_id);
            } else if i < n {
                assert(registry.users[i].client_id != client_id);
            } else {
                assert(registry.users[j].client_id != client_id);
            }
        }
    }
    assert(after.spec_consistent()) by {
        assert forall|c: Seq<u8>, t: Seq<u8>|
            #![trigger after.spec_in_subs_by_topic(c, t)]
            #![trigger after.spec_in_user_subs(c, t)]
            after.spec_in_subs_by_topic(c, t) <==> after.spec_in_user_subs(c, t) by {
            if after.spec_in_user_subs(c, t) {
                let i = choose|i: int|
                    0 <= i < after.users.len() && (#[trigger] after.users[i]).client_id == c
                        && after.users[i].topics.contains(t);
                assert(i < n);
                assert(registry.users[i].client_id == c);
                assert(registry.spec_in_user_subs(c, t));
            }
            if registry.spec_in_user_subs(c, t) {
                let i = choose|i: int|
                    0 <= i < registry.users.len() && (#[trigger] registry.users[i]).client_id == c
                        && registry.users[i].topics.contains(t);
                assert(after.users[i].client_id == c);
            }
            assert(after.spec_in_subs_by_topic(c, t) == registry.spec_in_subs_by_topic(c, t));
            assert(registry.spec_in_subs_by_topic(c, t) == registry.spec_in_user_subs(c, t));
        }
    }
    assert(after.spec_conns_agree()) by {
        assert forall|k: int, i: int|
            0 <= k < after.subs_by_topic.len() && 0 <= i < after.users.len() && (
            #[trigger] after.subs_by_topic[k]).client_id == (#[trigger] after.users[i]).client_id
            implies after.subs_by_topic[k].conn == after.users[i].conn by {
            if i == n {
                let sub = registry.subs_by_topic[k];
                assert(registry.spec_in_subs_by_topic(sub.client_id, sub.topic));
                assert(registry.spec_in_user_subs(client_id, sub.topic));
                let j = choose|j: int|
                    0 <= j < registry.users.len() && (#[trigger] registry.users[j]).client_id
                        == client_id && registry.users[j].topics.contains(sub.topic);
                assert(registry.spec_has_user(client_id));
            } else {
                assert(registry.users[i].client_id == registry.subs_by_topic[k].client_id);
            }
        }
    }
    assert(after.spec_topics_unique()) by {
        assert forall|i: int| 0 <= i < after.users.len() implies (
        #[trigger] after.users[i]).topics.no_duplicates() by {
            if i < n {
                assert(registry.users[i].topics.no_duplicates());
            }
        }
    }
}

/// The user with a client identifier is where it was found.
pub proof fn lemma_user_index(registry: RegistryView, client_id: Seq<u8>, i: int)
    requires
        registry.spec_ids_unique(),
        0 <= i < registry.users.len(),
        registry.users[i].client_id == client_id,
    ensures
        registry.spec_has_user(client_id),
        registry.spec_user_index(client_id) == i,
{
    let j = registry.spec_user_index(client_id);
    assert(registry.users[j].client_id == client_id);
}

/// Changing the connection, the state or the will of a user keeps the
/// registries well formed when the subscriptions of the user follow its
/// connection.
pub proof fn lemma_take_over_keeps_wf(
    registry: RegistryView,
    client_id: Seq<u8>,
    conn: u64,
    will: Option<WillView>,
)
    requires
        registry.wf(),
        registry.spec_has_user(client_id),
    ensures
        registry.spec_take_over(client_id, conn, will).wf(),
        registry.spec_take_over(client_id, conn, will).spec_has_user(client_id),
{
    let after = registry.spec_take_over(client_id, conn, will);
    let i = registry.spec_user_index(client_id);
    assert(after.users[i].client_id == client_id);
    assert forall|j: int| 0 <= j < registry.users.len() implies (
    #[trigger] after.users[j]).client_id == registry.users[j].client_id && after.users[j].topics
        == registry.users[j].topics by {}
    assert forall|k: int| 0 <= k < registry.subs_by_topic.len() implies (
    #[trigger] after.subs_by_topic[k]).client_id == registry.subs_by_topic[k].client_id
        && after.subs_by_topic[k].topic == registry.subs_by_topic[k].topic by {}
    assert(after.spec_ids_unique()) by {
        assert forall|a: int, b: int|
            0 <= a < after.users.len() && 0 <= b < after.users.len() && a != b implies (
        #[trigger] after.users[a]).client_id != (#[trigger] after.users[b]).client_id by {
            assert(registry.users[a].client_id != registry.users[b].client_id);
        }
    }
    lemma_subs_agree(after, registry);
    lemma_users_agree(after, registry);
    assert(after.spec_consistent()) by {
        assert forall|c: Seq<u8>, t: Seq<u8>|
            #![trigger after.spec_in_subs_by_topic(c, t)]
            #![trigger after.spec_in_user_subs(c, t)]
            after.spec_in_subs_by_topic(c, t) <==> after.spec_in_user_subs(c, t) by {
            assert(after.spec_in_subs_by_topic(c, t) == registry.spec_in_subs_by_topic(c, t));
            assert(after.spec_in_user_subs(c, t) == registry.spec_in_user_subs(c, t));
            assert(registry.spec_in_subs_by_topic(c, t) == registry.spec_in_user_subs(c, t));
        }
    }
    assert(after.spec_conns_agree()) by {
        assert forall|k: int, j: int|
            0 <= k < after.subs_by_topic.len() && 0 <= j < after.users.len() && (
            #[trigger] after.subs_by_topic[k]).client_id == (#[trigger] after.users[j]).client_id
            implies after.subs_by_topic[k].conn == after.users[j].conn by {
            assert(registry.subs_by_topic[k].client_id == registry.users[j].client_id);
            if j != i {
                assert(registry.users[j].client_id != registry.users[i].client_id);
            }
        }
    }
    assert(after.spec_topics_unique()) by {
        assert forall|j: int| 0 <= j < after.users.len() implies (
        #[trigger] after.users[j]).topics.no_duplicates() by {
            assert(registry.users[j].topics.no_duplicates());
        }
    }
}

/// Marking a user as gone keeps the registries well formed, and leaves
/// every subscription where it was.
pub proof fn lemma_set_temporally_disconnected_keeps_wf(
    registry: RegistryView,
    client_id: Seq<u8>,
)
    requires
        registry.wf(),
    ensures
        registry.spec_set_temporally_disconnected(client_id).wf(),
        registry.spec_set_temporally_disconnected(client_id).subs_by_topic
            == registry.subs_by_topic,
{
    if registry.spec_has_user(client_id) {
        let i = registry.spec_user_index(client_id);
        let same = registry.spec_take_over(client_id, registry.users[i].conn, None);
        lemma_take_over_keeps_wf(registry, client_id, registry.users[i].conn, None);
        let after = registry.spec_set_temporally_disconnected(client_id);
        assert(same.subs_by_topic =~= registry.subs_by_topic) by {
            assert forall|k: int| 0 <= k < registry.subs_by_topic.len() implies (
            #[trigger] same.subs_by_topic[k]) == registry.subs_by_topic[k] by {
                if registry.subs_by_topic[k].client_id == client_id {
                    assert(registry.subs_by_topic[k].client_id == registry.users[i].client_id);
                }
            }
        }
        assert forall|j: int| 0 <= j < registry.users.len() implies (
        #[trigger] after.users[j]).client_id == same.users[j].client_id && after.users[j].topics
            == same.users[j].topics && after.users[j].conn == same.users[j].conn
            && after.users[j].will == registry.users[j].will by {}
        assert(after.spec_ids_unique()) by {
            assert forall|a: int, b: int|
                0 <= a < after.users.len() && 0 <= b < after.users.len() && a != b implies (
            #[trigger] after.users[a]).client_id != (#[trigger] after.users[b]).client_id by {
                assert(same.users[a].client_id != same.users[b].client_id);
            }
        }
        lemma_subs_agree(after, same);
        lemma_users_agree(after, same);
        assert(after.spec_consistent()) by {
            assert forall|c: Seq<u8>, t: Seq<u8>|
                #![trigger after.spec_in_subs_by_topic(c, t)]
                #![trigger after.spec_in_user_subs(c, t)]
                after.spec_in_subs_by_topic(c, t) <==> after.spec_in_user_subs(c, t) by {
                assert(after.spec_in_subs_by_topic(c, t) == same.spec_in_subs_by_topic(c, t));
                assert(after.spec_in_user_subs(c, t) == same.spec_in_user_subs(c, t));
                assert(same.spec_in_subs_by_topic(c, t) == same.spec_in_user_subs(c, t));
            }
        }
        assert(after.spec_conns_agree()) by {
            assert forall|k: int, j: int|
                0 <= k < after.subs_by_topic.len() && 0 <= j < after.users.len() && (
                #[trigger] after.subs_by_topic[k]).client_id == (
                #[trigger] after.users[j]).client_id implies after.subs_by_topic[k].conn
                == after.users[j].conn by {
                assert(same.subs_by_topic[k].client_id == same.users[j].client_id);
            }
        }
        assert(after.spec_topics_unique()) by {
            assert forall|j: int| 0 <= j < after.users.len() implies (
            #[trigger] after.users[j]).topics.no_duplicates() by {
                assert(same.users[j].topics.no_duplicates());
            }
        }
    }
}

/// Removing a user together with its subscriptions keeps the registries
/// well formed, and leaves no trace of the user.
pub proof fn lemma_remove_user_keeps_wf(registry: RegistryView, client_id: Seq<u8>)
    requires
        registry.wf(),
    ensures
        registry.spec_remove_user(client_id).wf(),
        !registry.spec_remove_user(client_id).spec_has_user(client_id),
        forall|t: Seq<u8>|
            !(#[trigger] registry.spec_remove_user(client_id).spec_in_subs_by_topic(client_id, t)),
{
    let after = registry.spec_remove_user(client_id);
    if !registry.spec_has_user(client_id) {
        assert forall|t: Seq<u8>| !(#[trigger] after.spec_in_subs_by_topic(client_id, t)) by {
            if registry.spec_in_subs_by_topic(client_id, t) {
                assert(registry.spec_in_user_subs(client_id, t));
                let j = choose|j: int|
                    0 <= j < registry.users.len() && (#[trigger] registry.users[j]).client_id
                        == client_id && registry.users[j].topics.contains(t);
                assert(registry.spec_has_user(client_id));
            }
        }
    } else {
        let i = registry.spec_user_index(client_id);
        let kept = after.subs_by_topic;
        registry.users.remove_ensures(i);
        lemma_without_client(registry.subs_by_topic, client_id);
        assert forall|j: int| 0 <= j < after.users.len() implies #[trigger] after.users[j]
            == registry.users[if j < i {
            j
        } else {
            j + 1
        }] by {}
        assert(!after.spec_has_user(client_id)) by {
            if after.spec_has_user(client_id) {
                let j = choose|j: int|
                    0 <= j < after.users.len() && (#[trigger] after.users[j]).client_id
                        == client_id;
                let j0 = if j < i {
                    j
                } else {
                    j + 1
                };
                assert(registry.users[j0].client_id == registry.users[i].client_id);
            }
        }
        assert(after.spec_ids_unique()) by {
            assert forall|a: int, b: int|
                0 <= a < after.users.len() && 0 <= b < after.users.len() && a != b implies (
            #[trigger] after.users[a]).client_id != (#[trigger] after.users[b]).client_id by {
                let a0 = if a < i {
                    a
                } else {
                    a + 1
                };
                let b0 = if b < i {
                    b
                } else {
                    b + 1
                };
                assert(registry.users[a0].client_id != registry.users[b0].client_id);
            }
        }
        assert forall|c: Seq<u8>, t: Seq<u8>|
            #![trigger after.spec_in_user_subs(c, t)]
            after.spec_in_user_subs(c, t) <==> registry.spec_in_user_subs(c, t) && c
                != client_id by {
            if after.spec_in_user_subs(c, t) {
                let j = choose|j: int|
                    0 <= j < after.users.len() && (#[trigger] after.users[j]).client_id == c
                        && after.users[j].topics.contains(t);
                let j0 = if j < i {
                    j
                } else {
                    j + 1
                };
                assert(registry.users[j0].client_id == c);
                assert(registry.users[j0].client_id != registry.users[i].client_id);
            }
            if registry.spec_in_user_subs(c, t) && c != client_id {
                let j0 = choose|j: int|
                    0 <= j < registry.users.len() && (#[trigger] registry.users[j]).client_id == c
                        && registry.users[j].topics.contains(t);
                let j = if j0 < i {
                    j0
                } else {
                    j0 - 1
                };
                assert(after.users[j].client_id == c);
            }
        }
        assert forall|c: Seq<u8>, t: Seq<u8>|
            #![trigger after.spec_in_subs_by_topic(c, t)]
            after.spec_in_subs_by_topic(c, t) <==> registry.spec_in_subs_by_topic(c, t) && c
                != client_id by {
            if after.spec_in_subs_by_topic(c, t) {
                let k = choose|k: int|
                    0 <= k < kept.len() && (#[trigger] kept[k]).client_id == c && kept[k].topic
                        == t;
                assert(kept.contains(kept[k]));
                let k0 = choose|k0: int|
                    0 <= k0 < registry.subs_by_topic.len() && registry.subs_by_topic[k0]
                        == kept[k];
                assert(registry.subs_by_topic[k0].client_id == c);
            }
            if registry.spec_in_subs_by_topic(c, t) && c != client_id {
                let k0 = choose|k: int|
                    0 <= k < registry.subs_by_topic.len() && (
                    #[trigger] registry.subs_by_topic[k]).client_id == c
                        && registry.subs_by_topic[k].topic == t;
                let sub = registry.subs_by_topic[k0];
                assert(registry.subs_by_topic.contains(sub));
                assert(kept.contains(sub));
                let k = choose|k: int| 0 <= k < kept.len() && kept[k] == sub;
                assert(kept[k].client_id == c);
            }
        }
        assert(after.spec_consistent()) by {
            assert forall|c: Seq<u8>, t: Seq<u8>|
                #![trigger after.spec_in_subs_by_topic(c, t)]
                #![trigger after.spec_in_user_subs(c, t)]
                after.spec_in_subs_by_topic(c, t) <==> after.spec_in_user_subs(c, t) by {
                assert(registry.spec_in_subs_by_topic(c, t) == registry.spec_in_user_subs(c, t));
            }
        }
        assert(after.spec_conns_agree()) by {
            assert forall|k: int, j: int|
                0 <= k < kept.len() && 0 <= j < after.users.len() && (#[trigger] kept[k]).client_id
                    == (#[trigger] after.users[j]).client_id implies kept[k].conn
                == after.users[j].conn by {
                assert(kept.contains(kept[k]));
                let k0 = choose|k0: int|
                    0 <= k0 < registry.subs_by_topic.len() && registry.subs_by_topic[k0]
                        == kept[k];
                let j0 = if j < i {
                    j
                } else {
                    j + 1
                };
                assert(registry.subs_by_topic[k0].client_id == registry.users[j0].client_id);
            }
        }
        assert(after.spec_topics_unique()) by {
            assert forall|j: int| 0 <= j < after.users.len() implies (
            #[trigger] after.users[j]).topics.no_duplicates() by {
                let j0 = if j < i {
                    j
                } else {
                    j + 1
                };
                assert(registry.users[j0].topics.no_duplicates());
            }
        }
    }
}

/// Accepting a CONNECT keeps the registries well formed, and the user is
/// among the users afterwards.
pub proof fn lemma_connect_keeps_wf(
    registry: RegistryView,
    client_id: Seq<u8>,
    conn: u64,
    will: Option<WillView>,
)
    requires
        registry.wf(),
    ensures
        registry.spec_connect(client_id, conn, will).wf(),
        registry.spec_connect(client_id, conn, will).spec_has_user(client_id),
{
    if registry.spec_has_user(client_id) && registry.users[registry.spec_user_index(
        client_id,
    )].state == UserState::TemporallyDisconnected {
        lemma_take_over_keeps_wf(registry, client_id, conn, will);
    } else {
        lemma_remove_user_keeps_wf(registry, client_id);
        lemma_add_user_keeps_wf(registry.spec_remove_user(client_id), client_id, conn, will);
    }
}

/// A subscription keeps the registries well formed, and puts the client
/// under the topic and the topic among the topics of the user, if there is
/// such a user.
pub proof fn lemma_subscribe_keeps_wf(registry: RegistryView, client_id: Seq<u8>, topic: Seq<u8>)
    requires
        registry.wf(),
    ensures
        registry.spec_subscribe(client_id, topic).wf(),
        registry.spec_has_user(client_id) ==> registry.spec_subscribe(
            client_id,
            topic,
        ).spec_in_user_subs(client_id, topic) && registry.spec_subscribe(
            client_id,
            topic,
        ).spec_in_subs_by_topic(client_id, topic),
        registry.spec_subscribe(client_id, topic).spec_has_user(client_id)
            == registry.spec_has_user(client_id),
        registry.spec_subscribe(client_id, topic).users.len() == registry.users.len(),
        registry.spec_has_user(client_id) ==> registry.spec_subscribe(
            client_id,
            topic,
        ).spec_user_index(client_id) == registry.spec_user_index(client_id)
            && registry.spec_subscribe(client_id, topic).users[registry.spec_user_index(
            client_id,
        )].conn == registry.users[registry.spec_user_index(client_id)].conn,
{
    let after = registry.spec_subscribe(client_id, topic);
    if registry.spec_has_user(client_id) {
        let i = registry.spec_user_index(client_id);
        let n = registry.subs_by_topic.len() as int;
        let user = registry.users[i];
        let held = user.topics.contains(topic);
        assert(after.users[i].client_id == client_id);
        assert(after.users[i].topics.contains(topic)) by {
            if held {
                assert(after.users[i].topics == user.topics);
            } else {
                assert(after.users[i].topics[user.topics.len() as int] == topic);
            }
        }
        assert(after.subs_by_topic[n].client_id == client_id);
        assert(after.subs_by_topic[n].topic == topic);
        assert(after.spec_in_user_subs(client_id, topic));
        assert(after.spec_in_subs_by_topic(client_id, topic));
        assert(after.spec_has_user(client_id));
        assert forall|j: int| 0 <= j < registry.users.len() implies (
        #[trigger] after.users[j]).client_id == registry.users[j].client_id
            && after.users[j].conn == registry.users[j].conn && after.users[j].will
            == registry.users[j].will by {}
        assert forall|k: int| 0 <= k < n implies #[trigger] after.subs_by_topic[k]
            == registry.subs_by_topic[k] by {}
        assert(after.spec_ids_unique()) by {
            assert forall|a: int, b: int|
                0 <= a < after.users.len() && 0 <= b < after.users.len() && a != b implies (
            #[trigger] after.users[a]).client_id != (#[trigger] after.users[b]).client_id by {
                assert(registry.users[a].client_id != registry.users[b].client_id);
            }
        }
        lemma_user_index(after, client_id, i);
        assert forall|c: Seq<u8>, t: Seq<u8>|
            #![trigger after.spec_in_user_subs(c, t)]
            after.spec_in_user_subs(c, t) <==> registry.spec_in_user_subs(c, t) || (c == client_id
                && t == topic) by {
            if after.spec_in_user_subs(c, t) {
                let j = choose|j: int|
                    0 <= j < after.users.len() && (#[trigger] after.users[j]).client_id == c
                        && after.users[j].topics.contains(t);
                if j == i {
                    let p = choose|p: int|
                        0 <= p < after.users[i].topics.len() && after.users[i].topics[p] == t;
                    if p < user.topics.len() {
                        assert(user.topics[p] == t);
                        assert(registry.users[i].topics.contains(t));
                    }
                } else {
                    assert(after.users[j] == registry.users[j]);
                    assert(registry.users[j].client_id == c);
                }
            }
            if registry.spec_in_user_subs(c, t) {
                let j = choose|j: int|
                    0 <= j < registry.users.len() && (#[trigger] registry.users[j]).client_id == c
                        && registry.users[j].topics.contains(t);
                let p = choose|p: int|
                    0 <= p < registry.users[j].topics.len() && registry.users[j].topics[p] == t;
                if j == i {
                    assert(after.users[i].topics[p] == t);
                } else {
                    assert(after.users[j] == registry.users[j]);
                }
                assert(after.users[j].client_id == c);
                assert(after.users[j].topics.contains(t));
            }
        }
        assert forall|c: Seq<u8>, t: Seq<u8>|
            #![trigger after.spec_in_subs_by_topic(c, t)]
            after.spec_in_subs_by_topic(c, t) <==> registry.spec_in_subs_by_topic(c, t) || (c
                == client_id && t == topic) by {
            if after.spec_in_subs_by_topic(c, t) {
                let k = choose|k: int|
                    0 <= k < after.subs_by_topic.len() && (
                    #[trigger] after.subs_by_topic[k]).client_id == c
                        && after.subs_by_topic[k].topic == t;
                if k < n {
                    assert(registry.subs_by_topic[k].client_id == c);
                }
            }
            if registry.spec_in_subs_by_topic(c, t) {
                let k = choose|k: int|
                    0 <= k < registry.subs_by_topic.len() && (
                    #[trigger] registry.subs_by_topic[k]).client_id == c
                        && registry.subs_by_topic[k].topic == t;
                assert(after.subs_by_topic[k].client_id == c);
            }
        }
        assert(after.spec_consistent()) by {
            assert forall|c: Seq<u8>, t: Seq<u8>|
                #![trigger after.spec_in_subs_by_topic(c, t)]
                #![trigger after.spec_in_user_subs(c, t)]
                after.spec_in_subs_by_topic(c, t) <==> after.spec_in_user_subs(c, t) by {
                assert(registry.spec_in_subs_by_topic(c, t) == registry.spec_in_user_subs(c, t));
            }
        }
        assert(after.spec_conns_agree()) by {
            assert forall|k: int, j: int|
                0 <= k < after.subs_by_topic.len() && 0 <= j < after.users.len() && (
                #[trigger] after.subs_by_topic[k]).client_id == (
                #[trigger] after.users[j]).client_id implies after.subs_by_topic[k].conn
                == after.users[j].conn by {
                if k < n {
                    assert(registry.subs_by_topic[k].client_id == registry.users[j].client_id);
                } else if j != i {
                    assert(registry.users[j].client_id != registry.users[i].client_id);
                }
            }
        }
        assert(after.spec_topics_unique()) by {
            assert forall|j: int| 0 <= j < after.users.len() implies (
            #[trigger] after.users[j]).topics.no_duplicates() by {
                assert(registry.users[j].topics.no_duplicates());
                if j == i && !held {
                    let topics = after.users[i].topics;
                    assert forall|a: int, b: int|
                        0 <= a < topics.len() && 0 <= b < topics.len() && a != b implies topics[a]
                        != topics[b] by {
                        if a < user.topics.len() && b < user.topics.len() {
                            assert(user.topics[a] != user.topics[b]);
                        } else if a < user.topics.len() {
                            assert(user.topics[a] != topic);
                        } else {
                            assert(user.topics[b] != topic);
                        }
                    }
                }
            }
        }
    }
}

/// Subscriptions one after the other keep the registries well formed, and
/// leave the user and its connection where they were.
pub proof fn lemma_subscribe_all_keeps_wf(
    registry: RegistryView,
    client_id: Seq<u8>,
    topics: Seq<Seq<u8>>,
)
    requires
        registry.wf(),
    ensures
        registry.spec_subscribe_all(client_id, topics).wf(),
        registry.spec_subscribe_all(client_id, topics).spec_has_user(client_id)
            == registry.spec_has_user(client_id),
        registry.spec_subscribe_all(client_id, topics).users.len() == registry.users.len(),
        registry.spec_has_user(client_id) ==> registry.spec_subscribe_all(
            client_id,
            topics,
        ).spec_user_index(client_id) == registry.spec_user_index(client_id)
            && registry.spec_subscribe_all(client_id, topics).users[registry.spec_user_index(
            client_id,
        )].conn == registry.users[registry.spec_user_index(client_id)].conn,
    decreases topics.len(),
{
    if topics.len() > 0 {
        lemma_subscribe_all_keeps_wf(registry, client_id, topics.drop_last());
        lemma_subscribe_keeps_wf(
            registry.spec_subscribe_all(client_id, topics.drop_last()),
            client_id,
            topics.last(),
        );
    }
}

/// A subscription adds the user, with its connection, at the end of the
/// subscribers of the topic, and leaves the subscribers of every other
/// topic as they were.
pub proof fn lemma_subscribe_appends(
    registry: RegistryView,
    client_id: Seq<u8>,
    topic: Seq<u8>,
    other: Seq<u8>,
)
    requires
        registry.spec_has_user(client_id),
    ensures
        spec_topic_list(registry.spec_subscribe(client_id, topic).subs_by_topic, topic)
            == spec_topic_list(registry.subs_by_topic, topic).push(
            (client_id, registry.users[registry.spec_user_index(client_id)].conn),
        ),
        other != topic ==> spec_topic_list(
            registry.spec_subscribe(client_id, topic).subs_by_topic,
            other,
        ) == spec_topic_list(registry.subs_by_topic, other),
{
    let after = registry.spec_subscribe(client_id, topic).subs_by_topic;
    assert(after.drop_last() =~= registry.subs_by_topic);
}

/// What a SUBSCRIBE does to the subscribers of each topic, for a user of
/// the broker: nobody is taken out or moved, the subscribers of a topic
/// that the SUBSCRIBE does not name stay as they were, and the subscribers
/// of every topic that it names end with the user and its connection.
pub proof fn lemma_subscribe_all_lists(
    registry: RegistryView,
    client_id: Seq<u8>,
    topics: Seq<Seq<u8>>,
    topic: Seq<u8>,
)
    requires
        registry.wf(),
        registry.spec_has_user(client_id),
    ensures
        spec_topic_list(registry.subs_by_topic, topic).is_prefix_of(
            spec_topic_list(registry.spec_subscribe_all(client_id, topics).subs_by_topic, topic),
        ),
        !topics.contains(topic) ==> spec_topic_list(
            registry.spec_subscribe_all(client_id, topics).subs_by_topic,
            topic,
        ) == spec_topic_list(registry.subs_by_topic, topic),
        topics.contains(topic) ==> spec_topic_list(
            registry.spec_subscribe_all(client_id, topics).subs_by_topic,
            topic,
        ).len() > 0 && spec_topic_list(
            registry.spec_subscribe_all(client_id, topics).subs_by_topic,
            topic,
        ).last() == (client_id, registry.users[registry.spec_user_index(client_id)].conn),
    decreases topics.len(),
{
    let before = spec_topic_list(registry.subs_by_topic, topic);
    if topics.len() > 0 {
        let front = topics.drop_last();
        let middle = registry.spec_subscribe_all(client_id, front);
        let list = spec_topic_list(middle.subs_by_topic, topic);
        lemma_subscribe_all_lists(registry, client_id, front, topic);
        lemma_subscribe_all_keeps_wf(registry, client_id, front);
        lemma_subscribe_appends(middle, client_id, topics.last(), topic);
        let after = spec_topic_list(
            registry.spec_subscribe_all(client_id, topics).subs_by_topic,
            topic,
        );
        if topics.last() == topic {
            assert(after == list.push((client_id, middle.users[middle.spec_user_index(client_id)].conn)));
            assert(topics[topics.len() - 1] == topic);
        } else {
            assert(after == list);
            if topics.contains(topic) {
                let k = choose|k: int| 0 <= k < topics.len() && topics[k] == topic;
                assert(front[k] == topic);
            }
            if front.contains(topic) {
                let k = choose|k: int| 0 <= k < front.len() && front[k] == topic;
                assert(topics[k] == topic);
            }
        }
        assert(before.is_prefix_of(after)) by {
            assert(before.is_prefix_of(list));
            assert(before =~= after.subrange(0, before.len() as int)) by {
                assert(before =~= list.subrange(0, before.len() as int));
            }
        }
    } else {
        assert(!topics.contains(topic));
        assert(before =~= before.subrange(0, before.len() as int));
    }
}

} // verus!
