//! Sending a message and sending it again until its acknowledgement
//! arrives or the retries are spent.
//!
//! The retransmitter decides; whoever owns the connection writes the bytes
//! and waits on the acknowledgement channel, then reports what the wait
//! brought.

use vstd::prelude::*;
use crate::mqtt::messages::message::Message;
use crate::mqtt::mqtt_error::MqttError;

verus! {

/// How often a message is sent again before the sender gives up.
pub const AMOUNT_OF_RETRIES: u8 = 5;

/// How long one wait for an acknowledgement lasts, in milliseconds.
pub const ACK_WAITING_INTERVAL: u64 = 1000;

/// What a wait on the acknowledgement channel brought.
#[derive(Debug, Clone, Copy, PartialEq, Eq)]
pub enum AckWait {
    /// An acknowledgement arrived, with the packet identifier it carries,
    /// if it carries one.
    Ack(Option<u16>),
    /// The waiting interval went by.
    Timeout,
    /// The other end of the channel is gone.
    Disconnected,
}

/// What the owner of the connection does next.
#[derive(Debug, Clone, Copy, PartialEq, Eq)]
pub enum RetransmitAction {
    /// Write the pending bytes, then wait for an acknowledgement and report
    /// what the wait brought.
    WriteAndWait,
    /// Write the pending bytes; the message is then sent.
    WriteAndReturn,
    /// Nothing more to write: the message was acknowledged.
    ReturnOk,
    /// Nothing more to write: the retries are spent.
    ReturnMaxRetriesExceeded,
}

/// Whether a wait brought the acknowledgement of `packet_id`.
pub open spec fn spec_ack_arrived(packet_id: u16, outcome: AckWait) -> bool {
    outcome == AckWait::Ack(Some(packet_id))
}

/// What a retransmitter holds.
pub struct RetransmitterView {
    /// The bytes of the message being sent.
    pub pending: Seq<u8>,
    /// The packet identifier whose acknowledgement is awaited, if one is.
    pub awaited: Option<u16>,
    /// How often the owner was told to write the message being sent.
    pub writes: int,
    /// How often the message may still be sent again.
    pub remaining_retries: int,
}

impl RetransmitterView {
    /// A message is written once and at most five times again.
    pub open spec fn wf(self) -> bool {
        &&& 0 <= self.writes
        &&& 0 <= self.remaining_retries
        &&& self.writes + self.remaining_retries <= 1 + AMOUNT_OF_RETRIES
    }

    /// The retransmitter after a wait, and what the owner does next. On the
    /// awaited acknowledgement the message is done. On anything else the
    /// owner writes the same bytes again while retries are left, and is
    /// told that the retries are spent once none is. With nothing awaited
    /// there is nothing to do.
    pub open spec fn spec_step(self, outcome: AckWait) -> (RetransmitterView, RetransmitAction) {
        match self.awaited {
            None => (self, RetransmitAction::ReturnOk),
            Some(packet_id) => if spec_ack_arrived(packet_id, outcome) {
                (RetransmitterView { awaited: None, ..self }, RetransmitAction::ReturnOk)
            } else if self.remaining_retries > 0 {
                (
                    RetransmitterView {
                        writes: self.writes + 1,
                        remaining_retries: self.remaining_retries - 1,
                        ..self
                    },
                    RetransmitAction::WriteAndWait,
                )
            } else {
                (
                    RetransmitterView { awaited: None, ..self },
                    RetransmitAction::ReturnMaxRetriesExceeded,
                )
            },
        }
    }

    /// The retransmitter after the waits of one send, in order, and what
    /// the owner was told last: waits are taken as long as the owner is
    /// told to write again.
    pub open spec fn spec_run(self, outcomes: Seq<AckWait>) -> (
        RetransmitterView,
        RetransmitAction,
    )
        decreases outcomes.len(),
    {
        if outcomes.len() == 0 {
            (self, RetransmitAction::WriteAndWait)
        } else {
            let (next, action) = self.spec_step(outcomes[0]);
            if action == RetransmitAction::WriteAndWait {
                next.spec_run(outcomes.drop_first())
            } else {
                (next, action)
            }
        }
    }
}

/// The sender's side of the acknowledgement protocol for one message at a
/// time.
#[derive(Debug)]
pub struct Retransmitter {
    pending: Vec<u8>,
    awaited: Option<u16>,
    writes: u8,
    remaining_retries: u8,
}

impl View for Retransmitter {
    type V = RetransmitterView;

    closed spec fn view(&self) -> RetransmitterView {
        RetransmitterView {
            pending: self.pending@,
            awaited: self.awaited,
            writes: self.writes as int,
            remaining_retries: self.remaining_retries as int,
        }
    }
}

impl Retransmitter {
    #[verifier::type_invariant]
    spec fn inv(&self) -> bool {
        self@.wf()
    }

    /// A retransmitter with nothing to send.
    pub fn new() -> (out: Retransmitter)
        ensures
            out@ == (RetransmitterView {
                pending: Seq::empty(),
                awaited: None,
                writes: 0,
                remaining_retries: 0,
            }),
    {
        Retransmitter { pending: Vec::new(), awaited: None, writes: 0, remaining_retries: 0 }
    }

    /// Starts sending `msg`: its bytes become the pending bytes and the
    /// owner is told to write them, once for a message that is not
    /// acknowledged, and with a wait behind the write for one that is.
    pub fn send_and_retransmit(&mut self, msg: &Message) -> (action: RetransmitAction)
        ensures
            final(self)@ == (RetransmitterView {
                pending: msg@.spec_to_bytes(),
                awaited: Self::spec_awaited_ack(msg@),
                writes: 1,
                remaining_retries: if Self::spec_awaited_ack(msg@) is Some {
                    AMOUNT_OF_RETRIES as int
                } else {
                    0
                },
            }),
            action == (if Self::spec_awaited_ack(msg@) is Some {
                RetransmitAction::WriteAndWait
            } else {
                RetransmitAction::WriteAndReturn
            }),
    {
        let pending = msg.to_bytes();
        let awaited = Self::wait_for_ack_and_retransmit(msg);
        match awaited {
            Some(_) => {
                *self = Retransmitter {
                    pending,
                    awaited,
                    writes: 1,
                    remaining_retries: AMOUNT_OF_RETRIES,
                };
                RetransmitAction::WriteAndWait
            },
            None => {
                *self = Retransmitter { pending, awaited: None, writes: 1, remaining_retries: 0 };
                RetransmitAction::WriteAndReturn
            },
        }
    }

    /// The packet identifier whose acknowledgement the sender of `msg`
    /// waits for: that of a PUBLISH with quality of service 1 and that of a
    /// SUBSCRIBE. No other message is acknowledged.
    pub open spec fn spec_awaited_ack(msg: crate::mqtt::messages::message::MessageView) -> Option<
        u16,
    > {
        if msg.spec_needs_ack() {
            msg.spec_packet_id()
        } else {
            None
        }
    }

    /// The packet identifier whose acknowledgement the sender of `msg`
    /// waits for, if it waits for one.
    pub fn wait_for_ack_and_retransmit(msg: &Message) -> (awaited: Option<u16>)
        ensures
            awaited == Self::spec_awaited_ack(msg@),
            msg@.spec_needs_ack() ==> awaited is Some,
    {
        match msg {
            Message::Publish(pub_msg) => {
                let qos: u8 = pub_msg.get_qos();
                if qos == 1 {
                    pub_msg.get_packet_id()
                } else {
                    None
                }
            },
            Message::Subscribe(sub_msg) => Some(sub_msg.get_packet_id()),
            _ => None,
        }
    }

    /// Takes what the wait behind the last write brought. On the awaited
    /// acknowledgement the message is done. On anything else, an
    /// acknowledgement of another packet included, the owner is told to
    /// write the same bytes again while retries are left, and that the
    /// retries are spent once none is. With nothing awaited there is
    /// nothing to do.
    pub fn wait_and_retransmit(&mut self, outcome: AckWait) -> (action: RetransmitAction)
        ensures
            (final(self)@, action) == old(self)@.spec_step(outcome),
            final(self)@.pending == old(self)@.pending,
            final(self)@.writes <= 1 + AMOUNT_OF_RETRIES,
            action == RetransmitAction::WriteAndWait ==> final(self)@.writes == old(self)@.writes
                + 1,
            action != RetransmitAction::WriteAndWait ==> final(self)@.writes == old(
                self,
            )@.writes,
            old(self)@.awaited is Some && action == RetransmitAction::ReturnOk ==> outcome
                == AckWait::Ack(old(self)@.awaited),
    {
        proof {
            use_type_invariant(&*self);
        }
        let packet_id: u16 = match self.awaited {
            Some(id) => id,
            None => {
                return RetransmitAction::ReturnOk;
            },
        };
        let received_ack: bool = Self::start_waiting_and_check_for_ack(packet_id, outcome);
        if received_ack {
            self.awaited = None;
            RetransmitAction::ReturnOk
        } else if self.remaining_retries > 0 {
            self.remaining_retries = self.remaining_retries - 1;
            self.writes = self.writes + 1;
            RetransmitAction::WriteAndWait
        } else {
            self.awaited = None;
            RetransmitAction::ReturnMaxRetriesExceeded
        }
    }

    /// Whether a wait brought the acknowledgement of a message with this
    /// packet identifier. A message without packet identifier cannot be
    /// waited for.
    pub fn has_ack_arrived(packet_id: Option<u16>, outcome: AckWait) -> (out: Result<
        bool,
        MqttError,
    >)
        ensures
            match packet_id {
                Some(id) => out == Ok::<bool, MqttError>(spec_ack_arrived(id, outcome)),
                None => out == Err::<bool, MqttError>(MqttError::ProtocolViolation),
            },
    {
        match packet_id {
            Some(id) => Ok(Self::start_waiting_and_check_for_ack(id, outcome)),
            None => Err(MqttError::ProtocolViolation),
        }
    }

    /// Whether a wait brought the acknowledgement of `packet_id`: an
    /// acknowledgement of another packet, a timeout and a closed channel
    /// did not.
    pub fn start_waiting_and_check_for_ack(packet_id: u16, outcome: AckWait) -> (arrived: bool)
        ensures
            arrived == spec_ack_arrived(packet_id, outcome),
    {
        match outcome {
            AckWait::Ack(Some(packet_identifier)) => packet_id == packet_identifier,
            AckWait::Ack(None) => false,
            AckWait::Timeout => false,
            AckWait::Disconnected => false,
        }
    }

    /// What an action means to the caller of a send once nothing is left to
    /// write: nothing yet while a write is due.
    pub fn result_of(action: RetransmitAction) -> (out: Option<Result<(), MqttError>>)
        ensures
            out == (match action {
                RetransmitAction::WriteAndWait => None::<Result<(), MqttError>>,
                RetransmitAction::WriteAndReturn => Some(Ok::<(), MqttError>(())),
                RetransmitAction::ReturnOk => Some(Ok::<(), MqttError>(())),
                RetransmitAction::ReturnMaxRetriesExceeded => Some(
                    Err::<(), MqttError>(MqttError::MaxRetriesExceeded),
                ),
            }),
    {
        match action {
            RetransmitAction::WriteAndWait => None,
            RetransmitAction::WriteAndReturn => Some(Ok(())),
            RetransmitAction::ReturnOk => Some(Ok(())),
            RetransmitAction::ReturnMaxRetriesExceeded => Some(Err(MqttError::MaxRetriesExceeded)),
        }
    }

    /// The bytes to write: those of the message being sent, the same at
    /// every write.
    pub fn pending_bytes(&self) -> (bytes: &Vec<u8>)
        ensures
            bytes@ == self@.pending,
    {
        &self.pending
    }

    /// How often the owner was told to write the message being sent: never
    /// more than once and five times again.
    pub fn writes(&self) -> (writes: u8)
        ensures
            writes == self@.writes,
            writes <= 1 + AMOUNT_OF_RETRIES,
    {
        proof {
            use_type_invariant(self);
        }
        self.writes
    }

    /// Whether an acknowledgement is awaited.
    pub fn is_waiting(&self) -> (waiting: bool)
        ensures
            waiting == (self@.awaited is Some),
    {
        self.awaited.is_some()
    }
}

/// However the waits of one send turn out, the owner is never told to
/// write the message more than six times: once, and five times again.
pub proof fn lemma_never_more_than_six_writes(start: RetransmitterView, outcomes: Seq<AckWait>)
    requires
        start.wf(),
    ensures
        start.spec_run(outcomes).0.wf(),
        start.spec_run(outcomes).0.writes <= start.writes + start.remaining_retries,
        start.spec_run(outcomes).0.writes <= 1 + AMOUNT_OF_RETRIES,
        start.spec_run(outcomes).0.pending == start.pending,
    decreases outcomes.len(),
{
    if outcomes.len() > 0 {
        let (next, action) = start.spec_step(outcomes[0]);
        if action == RetransmitAction::WriteAndWait {
            lemma_never_more_than_six_writes(next, outcomes.drop_first());
        }
    }
}

/// A send that awaits an acknowledgement ends well only if a wait brought
/// the acknowledgement with the awaited packet identifier.
pub proof fn lemma_ok_means_ack_observed(
    start: RetransmitterView,
    packet_id: u16,
    outcomes: Seq<AckWait>,
)
    requires
        start.awaited == Some(packet_id),
        start.spec_run(outcomes).1 == RetransmitAction::ReturnOk,
    ensures
        exists|i: int|
            0 <= i < outcomes.len() && #[trigger] outcomes[i] == AckWait::Ack(Some(packet_id)),
    decreases outcomes.len(),
{
    if outcomes.len() > 0 {
        let (next, action) = start.spec_step(outcomes[0]);
        if action == RetransmitAction::WriteAndWait {
            let rest = outcomes.drop_first();
            lemma_ok_means_ack_observed(next, packet_id, rest);
            let i = choose|i: int|
                0 <= i < rest.len() && #[trigger] rest[i] == AckWait::Ack(Some(packet_id));
            assert(outcomes[i + 1] == rest[i]);
        } else {
            assert(outcomes[0] == AckWait::Ack(Some(packet_id)));
        }
    }
}

/// A send gives up only after six writes went unanswered.
pub proof fn lemma_gives_up_after_six_writes(start: RetransmitterView, outcomes: Seq<AckWait>)
    requires
        start.wf(),
        start.awaited is Some,
        start.spec_run(outcomes).1 == RetransmitAction::ReturnMaxRetriesExceeded,
    ensures
        start.spec_run(outcomes).0.writes == start.writes + start.remaining_retries,
        outcomes.len() > start.remaining_retries,
        forall|i: int|
            0 <= i <= start.remaining_retries ==> #[trigger] outcomes[i] != AckWait::Ack(
                start.awaited,
            ),
    decreases outcomes.len(),
{
    if outcomes.len() > 0 {
        let (next, action) = start.spec_step(outcomes[0]);
        if action == RetransmitAction::WriteAndWait {
            let rest = outcomes.drop_first();
            lemma_gives_up_after_six_writes(next, rest);
            assert forall|i: int| 0 <= i <= start.remaining_retries implies #[trigger] outcomes[i]
                != AckWait::Ack(start.awaited) by {
                if i > 0 {
                    assert(outcomes[i] == rest[i - 1]);
                }
            }
        }
    }
}

} // verus!
