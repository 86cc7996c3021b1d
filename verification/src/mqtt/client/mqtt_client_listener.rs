//! What a client makes of the messages that arrive from the broker.

use vstd::prelude::*;
use crate::mqtt::client::mqtt_client_retransmitter::AckWait;
use crate::mqtt::messages::message::{Message, MessageView};
use crate::mqtt::messages::publish_message::{PublishMessage, PublishMessageView};

verus! {

/// Where an incoming message goes.
#[derive(Debug, PartialEq, Eq)]
pub enum ListenerAction {
    /// To the retransmitter, as the acknowledgement it may be waiting for.
    NotifyAck(AckWait),
    /// To the application, as one more message of the receive stream.
    Deliver(PublishMessage),
    /// Nowhere: the broker has no business sending it.
    Discard,
}

/// Where a message goes, over what the message says.
pub enum ListenerActionView {
    NotifyAck(AckWait),
    Deliver(PublishMessageView),
    Discard,
}

impl View for ListenerAction {
    type V = ListenerActionView;

    open spec fn view(&self) -> ListenerActionView {
        match self {
            ListenerAction::NotifyAck(ack) => ListenerActionView::NotifyAck(*ack),
            ListenerAction::Deliver(msg) => ListenerActionView::Deliver(msg@),
            ListenerAction::Discard => ListenerActionView::Discard,
        }
    }
}

/// Where a message goes: a CONNACK, a PUBACK and a SUBACK to the
/// retransmitter, the last two with their packet identifier; a PUBLISH to
/// the application; anything else nowhere.
pub open spec fn spec_dispatch(msg: MessageView) -> ListenerActionView {
    match msg {
        MessageView::Connack(_) => ListenerActionView::NotifyAck(AckWait::Ack(None)),
        MessageView::Puback(ack) => ListenerActionView::NotifyAck(
            AckWait::Ack(Some(ack.packet_id)),
        ),
        MessageView::Suback(ack) => ListenerActionView::NotifyAck(
            AckWait::Ack(Some(ack.packet_id)),
        ),
        MessageView::Publish(publish) => ListenerActionView::Deliver(publish),
        _ => ListenerActionView::Discard,
    }
}

/// Decides where an incoming message goes.
pub fn dispatch(msg: Message) -> (action: ListenerAction)
    ensures
        action@ == spec_dispatch(msg@),
{
    match msg {
        Message::Connack(_) => ListenerAction::NotifyAck(AckWait::Ack(None)),
        Message::Puback(ack) => ListenerAction::NotifyAck(AckWait::Ack(Some(ack.get_packet_id()))),
        Message::Suback(ack) => ListenerAction::NotifyAck(AckWait::Ack(Some(ack.get_packet_id()))),
        Message::Publish(publish) => ListenerAction::Deliver(publish),
        _ => ListenerAction::Discard,
    }
}

} // verus!
