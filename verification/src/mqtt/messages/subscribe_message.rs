//! SUBSCRIBE: the request of a client to receive what is published to
//! some topics.

use vstd::prelude::*;
use crate::mqtt::mqtt_error::MqttError;
use crate::mqtt::mqtt_utils::fixed_header::REMAINING_LENGTH_LIMIT;
use crate::mqtt::mqtt_utils::utils::{
    lemma_string_round_trip,
    push_string_field,
    push_u16_be,
    read_string_field,
    spec_read_string,
    spec_string_field,
    spec_u16_from_be_bytes,
    spec_u16_to_be_bytes,
};

verus! {

/// The first byte of every SUBSCRIBE.
pub const SUBSCRIBE_FIRST_BYTE: u8 = 0x82;

/// The bytes in front of the topic filters: the fixed header and the packet
/// identifier.
pub const SUBSCRIBE_PREAMBLE_LEN: usize = 4;

/// A topic filter with the quality of service asked for it.
pub type TopicFilterView = (Seq<u8>, u8);

/// One topic filter as it travels: the filter as a length-prefixed string,
/// then the quality of service.
pub open spec fn spec_filter_to_bytes(filter: TopicFilterView) -> Seq<u8> {
    spec_string_field(filter.0) + seq![filter.1]
}

/// Topic filters as they travel, one after the other.
pub open spec fn spec_filters_to_bytes(filters: Seq<TopicFilterView>) -> Seq<u8>
    decreases filters.len(),
{
    if filters.len() == 0 {
        Seq::empty()
    } else {
        spec_filter_to_bytes(filters[0]) + spec_filters_to_bytes(filters.drop_first())
    }
}

/// The topic filters that fill `bytes` from `pos` to the end, if filters
/// with a quality of service of 0 or 1 fill it exactly.
pub open spec fn spec_read_filters(bytes: Seq<u8>, pos: int) -> Option<Seq<TopicFilterView>>
    decreases bytes.len() - pos,
{
    if pos >= bytes.len() {
        if pos == bytes.len() {
            Some(Seq::empty())
        } else {
            None
        }
    } else {
        match spec_read_string(bytes, pos) {
            None => None,
            Some((topic, next)) => if pos < next < bytes.len() && bytes[next] <= 1 {
                match spec_read_filters(bytes, next + 1) {
                    Some(rest) => Some(seq![(topic, bytes[next])] + rest),
                    None => None,
                }
            } else {
                None
            },
        }
    }
}

/// No filter asks for a quality of service above 1.
pub open spec fn spec_filters_qos_ok(filters: Seq<TopicFilterView>) -> bool {
    forall|i: int| 0 <= i < filters.len() ==> (#[trigger] filters[i]).1 <= 1
}

/// The filters of a vector, each with its topic as a byte sequence.
pub open spec fn spec_filters(filters: Seq<(Vec<u8>, u8)>) -> Seq<TopicFilterView> {
    Seq::new(filters.len(), |i: int| (filters[i].0@, filters[i].1))
}

/// What a SUBSCRIBE says.
pub struct SubscribeMessageView {
    pub packet_id: u16,
    /// The topic filters in the order of the message, each with the quality
    /// of service asked for it.
    pub topic_filters: Seq<TopicFilterView>,
}

impl SubscribeMessageView {
    /// The number of bytes behind the fixed header.
    pub open spec fn spec_remaining_length(self) -> int {
        (2 + spec_filters_to_bytes(self.topic_filters).len()) as int
    }

    /// No filter asks for a quality of service above 1, and the message
    /// fits the one-byte remaining length.
    pub open spec fn wf(self) -> bool {
        &&& spec_filters_qos_ok(self.topic_filters)
        &&& self.spec_remaining_length() < REMAINING_LENGTH_LIMIT
    }

    /// The four bytes in front of the topic filters.
    pub open spec fn spec_preamble(self) -> Seq<u8> {
        seq![SUBSCRIBE_FIRST_BYTE, self.spec_remaining_length() as u8] + spec_u16_to_be_bytes(
            self.packet_id,
        )
    }

    /// The message as it travels.
    pub open spec fn spec_to_bytes(self) -> Seq<u8> {
        self.spec_preamble() + spec_filters_to_bytes(self.topic_filters)
    }

    /// Whether `bytes` starts like a SUBSCRIBE whose announced length is
    /// the length it has.
    pub open spec fn spec_preamble_ok(bytes: Seq<u8>) -> bool {
        &&& bytes.len() >= SUBSCRIBE_PREAMBLE_LEN
        &&& bytes[0] == SUBSCRIBE_FIRST_BYTE
        &&& bytes[1] < REMAINING_LENGTH_LIMIT
        &&& bytes.len() == 2 + bytes[1]
    }

    /// The message that `bytes` spells, if they spell a SUBSCRIBE and
    /// nothing more.
    pub open spec fn spec_from_bytes(bytes: Seq<u8>) -> Option<SubscribeMessageView> {
        if !Self::spec_preamble_ok(bytes) {
            None
        } else {
            match spec_read_filters(bytes, SUBSCRIBE_PREAMBLE_LEN as int) {
                Some(topic_filters) => Some(
                    SubscribeMessageView {
                        packet_id: spec_u16_from_be_bytes(bytes[2], bytes[3]),
                        topic_filters,
                    },
                ),
                None => None,
            }
        }
    }
}

/// A SUBSCRIBE message.
#[derive(Debug, PartialEq, Eq)]
pub struct SubscribeMessage {
    packet_id: u16,
    topic_filters: Vec<(Vec<u8>, u8)>,
}

impl View for SubscribeMessage {
    type V = SubscribeMessageView;

    closed spec fn view(&self) -> SubscribeMessageView {
        SubscribeMessageView {
            packet_id: self.packet_id,
            topic_filters: spec_filters(self.topic_filters@),
        }
    }
}

/// The filters from `from` on travel as the filter at `from` followed by
/// the filters behind it.
proof fn lemma_filters_unfold(filters: Seq<TopicFilterView>, from: int)
    requires
        0 <= from < filters.len(),
    ensures
        spec_filters_to_bytes(filters.subrange(from, filters.len() as int))
            == spec_filter_to_bytes(filters[from]) + spec_filters_to_bytes(
            filters.subrange(from + 1, filters.len() as int),
        ),
{
    let tail = filters.subrange(from, filters.len() as int);
    assert(tail.drop_first() =~= filters.subrange(from + 1, filters.len() as int));
    assert(tail[0] == filters[from]);
}

impl SubscribeMessage {
    #[verifier::type_invariant]
    spec fn inv(&self) -> bool {
        self@.wf()
    }

    /// A SUBSCRIBE to `topic_filters`, each with the quality of service
    /// asked for it. A quality of service above 1 and a message too long
    /// for the one-byte remaining length are refused.
    pub fn new(packet_id: u16, topic_filters: Vec<(Vec<u8>, u8)>) -> (out: Result<
        SubscribeMessage,
        MqttError,
    >)
        ensures
            match out {
                Ok(msg) => msg@ == (SubscribeMessageView {
                    packet_id,
                    topic_filters: spec_filters(topic_filters@),
                }) && msg@.wf(),
                Err(e) => e == MqttError::ProtocolViolation && !(SubscribeMessageView {
                    packet_id,
                    topic_filters: spec_filters(topic_filters@),
                }).wf(),
            },
    {
        let ghost filters = spec_filters(topic_filters@);
        let count: usize = topic_filters.len();
        let mut length: usize = 2;
        let mut i: usize = 0;
        assert(filters.subrange(0, filters.len() as int) =~= filters);
        while i < count
            invariant
                i <= count,
                count == topic_filters.len(),
                filters == spec_filters(topic_filters@),
                length < REMAINING_LENGTH_LIMIT,
                length + spec_filters_to_bytes(filters.subrange(i as int, filters.len() as int)).len()
                    == 2 + spec_filters_to_bytes(filters).len(),
                forall|k: int| 0 <= k < i ==> (#[trigger] filters[k]).1 <= 1,
            decreases count - i,
        {
            proof {
                lemma_filters_unfold(filters, i as int);
            }
            let topic_len: usize = topic_filters[i].0.len();
            if topic_filters[i].1 > 1 {
                assert(filters[i as int].1 > 1);
                return Err(MqttError::ProtocolViolation);
            }
            if topic_len >= REMAINING_LENGTH_LIMIT || length + topic_len + 3
                >= REMAINING_LENGTH_LIMIT {
                return Err(MqttError::ProtocolViolation);
            }
            length = length + topic_len + 3;
            i += 1;
        }
        Ok(SubscribeMessage { packet_id, topic_filters })
    }

    /// The message as it travels.
    pub fn to_bytes(&self) -> (bytes: Vec<u8>)
        ensures
            bytes@ == self@.spec_to_bytes(),
            bytes@.len() == 2 + self@.spec_remaining_length(),
            self@.wf(),
    {
        proof {
            use_type_invariant(self);
        }
        let ghost filters = self@.topic_filters;
        let count: usize = self.topic_filters.len();
        let mut tail: Vec<u8> = Vec::new();
        let mut i: usize = 0;
        assert(filters.subrange(0, filters.len() as int) =~= filters);
        while i < count
            invariant
                i <= count,
                count == self.topic_filters.len(),
                filters == spec_filters(self.topic_filters@),
                spec_filters_to_bytes(filters).len() < REMAINING_LENGTH_LIMIT,
                tail@ + spec_filters_to_bytes(filters.subrange(i as int, filters.len() as int))
                    == spec_filters_to_bytes(filters),
            decreases count - i,
        {
            proof {
                lemma_filters_unfold(filters, i as int);
            }
            let ghost before = tail@;
            let ghost rest = spec_filters_to_bytes(
                filters.subrange(i + 1, filters.len() as int),
            );
            assert(before + spec_filter_to_bytes(filters[i as int]) + rest =~= before + (
            spec_filter_to_bytes(filters[i as int]) + rest));
            push_string_field(&mut tail, &self.topic_filters[i].0);
            tail.push(self.topic_filters[i].1);
            assert(tail@ =~= before + spec_filter_to_bytes(filters[i as int]));
            i += 1;
        }
        assert(tail@ =~= spec_filters_to_bytes(filters));
        let mut bytes: Vec<u8> = Vec::new();
        bytes.push(SUBSCRIBE_FIRST_BYTE);
        bytes.push((2 + tail.len()) as u8);
        push_u16_be(&mut bytes, self.packet_id);
        assert(bytes@ =~= self@.spec_preamble());
        let mut k: usize = 0;
        while k < tail.len()
            invariant
                k <= tail.len(),
                bytes@ == self@.spec_preamble() + tail@.subrange(0, k as int),
            decreases tail.len() - k,
        {
            bytes.push(tail[k]);
            k += 1;
            assert(bytes@ =~= self@.spec_preamble() + tail@.subrange(0, k as int));
        }
        assert(tail@.subrange(0, k as int) =~= tail@);
        bytes
    }

    /// Reads a SUBSCRIBE from the whole of `bytes`. Anything that is not
    /// the encoding of one is a protocol violation: another first byte, a
    /// length that the bytes do not have, a topic filter cut short or
    /// without its quality of service, a quality of service above 1.
    pub fn from_bytes(bytes: &Vec<u8>) -> (out: Result<SubscribeMessage, MqttError>)
        ensures
            match out {
                Ok(msg) => SubscribeMessageView::spec_from_bytes(bytes@) == Some(msg@)
                    && msg@.wf(),
                Err(e) => e == MqttError::ProtocolViolation
                    && SubscribeMessageView::spec_from_bytes(bytes@) is None,
            },
    {
        let total: usize = bytes.len();
        if total < SUBSCRIBE_PREAMBLE_LEN {
            return Err(MqttError::ProtocolViolation);
        }
        if bytes[0] != SUBSCRIBE_FIRST_BYTE || bytes[1] >= 128 || total != 2 + bytes[1] as usize {
            return Err(MqttError::ProtocolViolation);
        }
        let packet_id: u16 = (bytes[2] as u16) * 256 + bytes[3] as u16;
        let mut topic_filters: Vec<(Vec<u8>, u8)> = Vec::new();
        let mut pos: usize = SUBSCRIBE_PREAMBLE_LEN;
        assert(spec_filters(topic_filters@) =~= Seq::empty());
        assert(forall|rest: Seq<TopicFilterView>| Seq::<TopicFilterView>::empty() + rest =~= rest);
        while pos < total
            invariant
                SUBSCRIBE_PREAMBLE_LEN <= pos <= total,
                total == bytes.len(),
                spec_filters_qos_ok(spec_filters(topic_filters@)),
                spec_read_filters(bytes@, SUBSCRIBE_PREAMBLE_LEN as int) == (match spec_read_filters(
                    bytes@,
                    pos as int,
                ) {
                    Some(rest) => Some(spec_filters(topic_filters@) + rest),
                    None => None,
                }),
            decreases total - pos,
        {
            let read_topic = read_string_field(bytes, pos);
            let (topic, next) = match read_topic {
                Some(found) => found,
                None => {
                    return Err(MqttError::ProtocolViolation);
                },
            };
            if next >= total || bytes[next] > 1 {
                return Err(MqttError::ProtocolViolation);
            }
            let qos: u8 = bytes[next];
            let ghost before = spec_filters(topic_filters@);
            let ghost topic_view = topic@;
            topic_filters.push((topic, qos));
            assert(spec_filters(topic_filters@) =~= before + seq![(topic_view, qos)]);
            assert(forall|rest: Seq<TopicFilterView>|
                before + (seq![(topic_view, qos)] + rest) =~= (before + seq![(topic_view, qos)])
                    + rest);
            pos = next + 1;
        }
        assert(spec_filters(topic_filters@) + Seq::<TopicFilterView>::empty() =~= spec_filters(
            topic_filters@,
        ));
        proof {
            lemma_read_filters_len(bytes@, SUBSCRIBE_PREAMBLE_LEN as int);
        }
        Ok(SubscribeMessage { packet_id, topic_filters })
    }

    /// The packet identifier of the message.
    pub fn get_packet_id(&self) -> (packet_id: u16)
        ensures
            packet_id == self@.packet_id,
    {
        self.packet_id
    }

    /// The topic filters of the message, each with the quality of service
    /// asked for it: 0 or 1.
    pub fn get_topic_filters(&self) -> (filters: &Vec<(Vec<u8>, u8)>)
        ensures
            spec_filters(filters@) == self@.topic_filters,
            spec_filters_qos_ok(self@.topic_filters),
            filters@.len() < REMAINING_LENGTH_LIMIT,
    {
        proof {
            use_type_invariant(self);
            lemma_filters_count(self@.topic_filters);
        }
        &self.topic_filters
    }
}

/// Filters take at least three bytes each on the wire.
pub proof fn lemma_filters_count(filters: Seq<TopicFilterView>)
    ensures
        3 * filters.len() <= spec_filters_to_bytes(filters).len(),
    decreases filters.len(),
{
    if filters.len() > 0 {
        lemma_filters_count(filters.drop_first());
    }
}

/// Filters that were read take exactly the bytes from where the reader
/// started to the end.
pub proof fn lemma_read_filters_len(bytes: Seq<u8>, pos: int)
    requires
        spec_read_filters(bytes, pos) is Some,
    ensures
        spec_filters_to_bytes(spec_read_filters(bytes, pos)->0).len() == bytes.len() - pos,
        spec_filters_qos_ok(spec_read_filters(bytes, pos)->0),
    decreases bytes.len() - pos,
{
    if pos < bytes.len() {
        let (topic, next) = spec_read_string(bytes, pos)->0;
        lemma_read_filters_len(bytes, next + 1);
        let rest = spec_read_filters(bytes, next + 1)->0;
        let all = seq![(topic, bytes[next])] + rest;
        assert(all.drop_first() =~= rest);
        assert(all[0] == (topic, bytes[next]));
    }
}

/// A prefix, a string field, one more byte and a rest, laid end to end.
proof fn lemma_regroup(prefix: Seq<u8>, field: Seq<u8>, qos: u8, rest: Seq<u8>)
    ensures
        prefix + (field + seq![qos] + rest) == prefix + field + (seq![qos] + rest),
        prefix + (field + seq![qos] + rest) == (prefix + field + seq![qos]) + rest,
        (prefix + (field + seq![qos] + rest))[(prefix.len() + field.len()) as int] == qos,
        (prefix + (field + seq![qos] + rest)).len() == prefix.len() + field.len() + 1
            + rest.len(),
        (prefix + field + seq![qos]).len() == prefix.len() + field.len() + 1,
{
    let all = prefix + (field + seq![qos] + rest);
    assert(all =~= prefix + field + (seq![qos] + rest));
    assert(all =~= (prefix + field + seq![qos]) + rest);
}

/// One filter in front of filters that are read is read with them.
proof fn lemma_read_filters_step(
    bytes: Seq<u8>,
    pos: int,
    topic: Seq<u8>,
    next: int,
    rest: Seq<TopicFilterView>,
)
    requires
        0 <= pos < next < bytes.len(),
        spec_read_string(bytes, pos) == Some((topic, next)),
        bytes[next] <= 1,
        spec_read_filters(bytes, next + 1) == Some(rest),
    ensures
        spec_read_filters(bytes, pos) == Some(seq![(topic, bytes[next])] + rest),
{
}

/// Filters travel as the first of them followed by the others.
proof fn lemma_filters_first(filters: Seq<TopicFilterView>)
    requires
        filters.len() > 0,
    ensures
        spec_filters_to_bytes(filters) == spec_string_field(filters[0].0) + seq![filters[0].1]
            + spec_filters_to_bytes(filters.drop_first()),
        seq![filters[0]] + filters.drop_first() == filters,
        spec_filters_qos_ok(filters) ==> spec_filters_qos_ok(filters.drop_first())
            && filters[0].1 <= 1,
{
    assert(seq![filters[0]] + filters.drop_first() =~= filters);
    if spec_filters_qos_ok(filters) {
        let rest = filters.drop_first();
        assert forall|i: int| 0 <= i < rest.len() implies (#[trigger] rest[i]).1 <= 1 by {
            assert(rest[i] == filters[i + 1]);
        }
    }
}

/// One filter is read back in front of the filters that follow it.
#[verifier::rlimit(40)]
proof fn lemma_one_filter(
    prefix: Seq<u8>,
    topic: Seq<u8>,
    qos: u8,
    rest_bytes: Seq<u8>,
    rest: Seq<TopicFilterView>,
)
    requires
        topic.len() <= crate::mqtt::mqtt_utils::utils::MAX_STRING_LEN,
        qos <= 1,
        spec_read_filters(
            (prefix + spec_string_field(topic) + seq![qos]) + rest_bytes,
            (prefix + spec_string_field(topic) + seq![qos]).len() as int,
        ) == Some(rest),
    ensures
        spec_read_filters(
            prefix + (spec_string_field(topic) + seq![qos] + rest_bytes),
            prefix.len() as int,
        ) == Some(seq![(topic, qos)] + rest),
{
    let field = spec_string_field(topic);
    let bytes = prefix + (field + seq![qos] + rest_bytes);
    let next = (prefix.len() + field.len()) as int;
    lemma_regroup(prefix, field, qos, rest_bytes);
    lemma_string_round_trip(prefix, topic, seq![qos] + rest_bytes);
    assert(spec_read_string(bytes, prefix.len() as int) == Some((topic, next)));
    assert(bytes[next] == qos);
    assert(spec_read_filters(bytes, next + 1) == Some(rest));
    lemma_read_filters_step(bytes, prefix.len() as int, topic, next, rest);
}

/// Filters are read back from their bytes, wherever these end a message.
#[verifier::rlimit(40)]
pub proof fn lemma_filters_round_trip(prefix: Seq<u8>, filters: Seq<TopicFilterView>)
    requires
        spec_filters_qos_ok(filters),
        spec_filters_to_bytes(filters).len() < REMAINING_LENGTH_LIMIT,
    ensures
        spec_read_filters(prefix + spec_filters_to_bytes(filters), prefix.len() as int) == Some(
            filters,
        ),
    decreases filters.len(),
{
    if filters.len() == 0 {
        assert(filters =~= Seq::empty());
    } else {
        let topic = filters[0].0;
        let qos = filters[0].1;
        let rest = filters.drop_first();
        let rest_bytes = spec_filters_to_bytes(rest);
        lemma_filters_first(filters);
        assert(spec_filters_to_bytes(filters).len() == spec_string_field(topic).len() + 1
            + rest_bytes.len());
        lemma_filters_round_trip(prefix + spec_string_field(topic) + seq![qos], rest);
        lemma_one_filter(prefix, topic, qos, rest_bytes, rest);
        assert(filters[0] == (topic, qos));
    }
}

/// A SUBSCRIBE is read back from its bytes.
pub proof fn lemma_subscribe_round_trip(msg: SubscribeMessageView)
    requires
        msg.wf(),
    ensures
        SubscribeMessageView::spec_from_bytes(msg.spec_to_bytes()) == Some(msg),
        msg.spec_to_bytes().len() == 2 + msg.spec_remaining_length(),
{
    let bytes = msg.spec_to_bytes();
    let pre = msg.spec_preamble();
    lemma_filters_round_trip(pre, msg.topic_filters);
    assert(bytes[0] == pre[0] && bytes[1] == pre[1] && bytes[2] == pre[2] && bytes[3] == pre[3]);
    assert(pre[2] == (msg.packet_id / 256) as u8);
    assert(pre[3] == (msg.packet_id % 256) as u8);
}

} // verus!
