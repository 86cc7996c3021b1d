//! What the broker holds of each client.

use vstd::prelude::*;
use crate::mqtt::messages::publish_message::TIMESTAMP_LEN;
use crate::mqtt::mqtt_utils::fixed_header::REMAINING_LENGTH_LIMIT;
use crate::mqtt::mqtt_utils::utils::spec_byte_seqs;
use crate::mqtt::server::registry::{SubscriptionView, UserState, UserView, WillView};

verus! {

/// What the broker publishes on behalf of a user that disconnects.
#[derive(Debug, PartialEq, Eq)]
pub struct WillMessage {
    pub topic: Vec<u8>,
    pub message: Vec<u8>,
    pub qos: u8,
}

impl View for WillMessage {
    type V = WillView;

    open spec fn view(&self) -> WillView {
        WillView { topic: self.topic@, message: self.message@, qos: self.qos }
    }
}

impl WillMessage {
    /// Whether the will can be published: its quality of service is 0 or
    /// 1, and topic and message fit a PUBLISH.
    pub fn is_publishable(&self) -> (yes: bool)
        ensures
            yes == self@.wf(),
    {
        if self.qos > 1 || self.topic.len() >= REMAINING_LENGTH_LIMIT || self.message.len()
            >= REMAINING_LENGTH_LIMIT {
            return false;
        }
        let id_len: usize = if self.qos == 1 {
            2
        } else {
            0
        };
        2 + self.topic.len() + id_len + self.message.len() + TIMESTAMP_LEN
            < REMAINING_LENGTH_LIMIT
    }
}

/// The will of a user, if it has one.
pub open spec fn spec_optional_will(will: Option<WillMessage>) -> Option<WillView> {
    match will {
        Some(will) => Some(will@),
        None => None,
    }
}

/// A user of the broker.
#[derive(Debug, PartialEq, Eq)]
pub struct User {
    pub client_id: Vec<u8>,
    pub conn: u64,
    pub state: UserState,
    pub will: Option<WillMessage>,
    pub topics: Vec<Vec<u8>>,
}

impl View for User {
    type V = UserView;

    open spec fn view(&self) -> UserView {
        UserView {
            client_id: self.client_id@,
            conn: self.conn,
            state: self.state,
            will: spec_optional_will(self.will),
            topics: spec_byte_seqs(self.topics@),
        }
    }
}

/// One subscription: a client, the topic it subscribed to and the
/// connection on which it receives.
#[derive(Debug, PartialEq, Eq)]
pub struct Subscription {
    pub topic: Vec<u8>,
    pub client_id: Vec<u8>,
    pub conn: u64,
}

impl View for Subscription {
    type V = SubscriptionView;

    open spec fn view(&self) -> SubscriptionView {
        SubscriptionView { topic: self.topic@, client_id: self.client_id@, conn: self.conn }
    }
}

/// What each user of a vector holds.
pub open spec fn spec_user_views(users: Seq<User>) -> Seq<UserView> {
    Seq::new(users.len(), |i: int| users[i]@)
}

/// What each subscription of a vector holds.
pub open spec fn spec_subscription_views(subs: Seq<Subscription>) -> Seq<SubscriptionView> {
    Seq::new(subs.len(), |k: int| subs[k]@)
}

} // verus!
