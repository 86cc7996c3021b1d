//! The quality of service that an application is configured with: what
//! stands behind the label `qos=` in the text of its properties.

use vstd::prelude::*;
use crate::mqtt::mqtt_error::MqttError;

verus! {

/// The number of bytes of the label `qos=`.
pub const QOS_LABEL_LEN: usize = 4;

/// The label `qos=`.
pub open spec fn spec_qos_label() -> Seq<u8> {
    seq![113u8, 111u8, 115u8, 61u8]
}

/// Whether the label stands at place `i` of a text.
pub open spec fn spec_label_at(content: Seq<u8>, i: int) -> bool {
    0 <= i && i + QOS_LABEL_LEN <= content.len() && content.subrange(i, i + QOS_LABEL_LEN)
        == spec_qos_label()
}

/// Whether a byte is white space: a space, a tab, a line feed, a vertical
/// tab, a form feed or a carriage return.
pub open spec fn spec_is_blank(byte: u8) -> bool {
    byte == 32 || (9 <= byte && byte <= 13)
}

/// Whether two bytes are the UTF-8 form of a white-space character: of
/// U+0085 or of U+00A0.
pub open spec fn spec_is_blank_pair(a: u8, b: u8) -> bool {
    a == 0xC2 && (b == 0x85 || b == 0xA0)
}

/// Whether three bytes are the UTF-8 form of a white-space character: of
/// U+1680, of one of U+2000 to U+200A, of U+2028, U+2029, U+202F, U+205F or
/// of U+3000.
pub open spec fn spec_is_blank_triple(a: u8, b: u8, c: u8) -> bool {
    ||| a == 0xE1 && b == 0x9A && c == 0x80
    ||| a == 0xE2 && b == 0x80 && ((0x80 <= c && c <= 0x8A) || c == 0xA8 || c == 0xA9 || c
        == 0xAF)
    ||| a == 0xE2 && b == 0x81 && c == 0x9F
    ||| a == 0xE3 && b == 0x80 && c == 0x80
}

/// How many bytes the white-space character takes that opens a text; none
/// where no such character opens it.
pub open spec fn spec_blank_in_front(text: Seq<u8>) -> int {
    if text.len() >= 1 && spec_is_blank(text[0]) {
        1
    } else if text.len() >= 2 && spec_is_blank_pair(text[0], text[1]) {
        2
    } else if text.len() >= 3 && spec_is_blank_triple(text[0], text[1], text[2]) {
        3
    } else {
        0
    }
}

/// How many bytes the white-space character takes that closes a text; none
/// where no such character closes it.
pub open spec fn spec_blank_behind(text: Seq<u8>) -> int {
    let n = text.len() as int;
    if n >= 1 && spec_is_blank(text[n - 1]) {
        1
    } else if n >= 2 && spec_is_blank_pair(text[n - 2], text[n - 1]) {
        2
    } else if n >= 3 && spec_is_blank_triple(text[n - 3], text[n - 2], text[n - 1]) {
        3
    } else {
        0
    }
}

/// A text without the white space that opens it.
pub open spec fn spec_trim_start(text: Seq<u8>) -> Seq<u8>
    decreases text.len(),
{
    if spec_blank_in_front(text) == 0 {
        text
    } else {
        spec_trim_start(text.subrange(spec_blank_in_front(text), text.len() as int))
    }
}

/// A text without the white space that closes it.
pub open spec fn spec_trim_end(text: Seq<u8>) -> Seq<u8>
    decreases text.len(),
{
    if spec_blank_behind(text) == 0 {
        text
    } else {
        spec_trim_end(text.subrange(0, text.len() - spec_blank_behind(text)))
    }
}

/// A text without the white space that opens and closes it.
pub open spec fn spec_trim(text: Seq<u8>) -> Seq<u8> {
    spec_trim_end(spec_trim_start(text))
}

/// The number that decimal digits spell, if every byte is a digit and the
/// number is at most 255. No digits spell zero.
pub open spec fn spec_digits_value(digits: Seq<u8>) -> Option<int>
    decreases digits.len(),
{
    if digits.len() == 0 {
        Some(0)
    } else {
        match spec_digits_value(digits.drop_last()) {
            None => None,
            Some(value) => if 48 <= digits.last() <= 57 && value * 10 + (digits.last() - 48)
                <= 255 {
                Some(value * 10 + (digits.last() - 48))
            } else {
                None
            },
        }
    }
}

/// The number up to 255 that a text spells: at least one decimal digit,
/// with or without a plus sign in front, and nothing else.
pub open spec fn spec_parse_u8(text: Seq<u8>) -> Option<u8> {
    let digits = if text.len() > 0 && text[0] == 43 {
        text.drop_first()
    } else {
        text
    };
    if digits.len() == 0 {
        None
    } else {
        match spec_digits_value(digits) {
            Some(value) => Some(value as u8),
            None => None,
        }
    }
}

/// The quality of service that a text configures: the number that stands
/// behind the first label `qos=`, white space around it aside, up to the
/// end of the text. None where the text has no label or where something
/// else than a number up to 255 follows it.
pub open spec fn spec_parse_qos(content: Seq<u8>) -> Option<u8> {
    if exists|i: int| spec_label_at(content, i) {
        let first = choose|i: int|
            spec_label_at(content, i) && forall|j: int| 0 <= j < i ==> !spec_label_at(content, j);
        spec_parse_u8(spec_trim(content.subrange(first + QOS_LABEL_LEN, content.len() as int)))
    } else {
        None
    }
}

/// Digits that spell no number up to 255 spell none with more bytes behind
/// them.
proof fn lemma_digits_stay_refused(digits: Seq<u8>, k: int)
    requires
        0 <= k <= digits.len(),
        spec_digits_value(digits.subrange(0, k)) is None,
    ensures
        spec_digits_value(digits) is None,
    decreases digits.len() - k,
{
    if k < digits.len() {
        let next = digits.subrange(0, k + 1);
        assert(next.drop_last() =~= digits.subrange(0, k));
        lemma_digits_stay_refused(digits, k + 1);
    } else {
        assert(digits.subrange(0, k) =~= digits);
    }
}

/// Where the label `qos=` first stands in a text, if it stands anywhere.
pub fn find_qos_label(content: &Vec<u8>) -> (out: Option<usize>)
    ensures
        match out {
            Some(i) => spec_label_at(content@, i as int) && forall|j: int|
                0 <= j < i ==> !spec_label_at(content@, j),
            None => forall|j: int| !spec_label_at(content@, j),
        },
{
    let total: usize = content.len();
    if total < QOS_LABEL_LEN {
        return None;
    }
    let mut i: usize = 0;
    while i <= total - QOS_LABEL_LEN
        invariant
            total == content.len(),
            total >= QOS_LABEL_LEN,
            i <= total - QOS_LABEL_LEN + 1,
            forall|j: int| 0 <= j < i ==> !spec_label_at(content@, j),
        decreases total - i,
    {
        if content[i] == 113 && content[i + 1] == 111 && content[i + 2] == 115 && content[i + 3]
            == 61 {
            assert(content@.subrange(i as int, i + QOS_LABEL_LEN) =~= spec_qos_label());
            return Some(i);
        }
        proof {
            if spec_label_at(content@, i as int) {
                let found = content@.subrange(i as int, i + QOS_LABEL_LEN);
                assert(found[0] == content@[i as int]);
                assert(found[1] == content@[i + 1]);
                assert(found[2] == content@[i + 2]);
                assert(found[3] == content@[i + 3]);
            }
        }
        i += 1;
    }
    None
}

/// Reads a number up to 255 from the bytes of `text` from `from` up to,
/// not including, `to`: at least one decimal digit, with or without a plus
/// sign in front, and nothing else.
fn parse_u8(text: &Vec<u8>, from: usize, to: usize) -> (out: Option<u8>)
    requires
        from <= to <= text.len(),
    ensures
        out == spec_parse_u8(text@.subrange(from as int, to as int)),
{
    let ghost all = text@.subrange(from as int, to as int);
    let mut start: usize = from;
    if from < to && text[from] == 43 {
        start = from + 1;
    }
    let ghost digits = text@.subrange(start as int, to as int);
    assert(all.len() > 0 ==> all[0] == text@[from as int]);
    assert(start > from ==> digits =~= all.drop_first());
    if start >= to {
        return None;
    }
    assert(start == from ==> digits =~= all);
    let mut value: u16 = 0;
    let mut k: usize = start;
    assert(digits.subrange(0, 0) =~= Seq::empty());
    while k < to
        invariant
            start <= k <= to <= text.len(),
            digits == text@.subrange(start as int, to as int),
            all == text@.subrange(from as int, to as int),
            spec_parse_u8(all) == (match spec_digits_value(digits) {
                Some(value) => Some(value as u8),
                None => None,
            }),
            value <= 255,
            spec_digits_value(digits.subrange(0, k - start)) == Some(value as int),
        decreases to - k,
    {
        let byte: u8 = text[k];
        proof {
            let next = digits.subrange(0, k - start + 1);
            assert(next.drop_last() =~= digits.subrange(0, k - start));
            assert(next.last() == byte);
        }
        if byte < 48 || byte > 57 || value * 10 + (byte - 48) as u16 > 255 {
            proof {
                lemma_digits_stay_refused(digits, k - start + 1);
            }
            return None;
        }
        value = value * 10 + (byte - 48) as u16;
        k += 1;
    }
    assert(digits.subrange(0, k - start) =~= digits);
    Some(value as u8)
}

/// How many bytes the white-space character takes that opens the bytes of
/// `text` from `from` up to, not including, `to`.
fn blank_in_front(text: &Vec<u8>, from: usize, to: usize) -> (n: usize)
    requires
        from <= to <= text.len(),
    ensures
        n == spec_blank_in_front(text@.subrange(from as int, to as int)),
        n <= to - from,
{
    let ghost part = text@.subrange(from as int, to as int);
    let left: usize = to - from;
    if left >= 1 {
        assert(part[0] == text@[from as int]);
        if is_blank(text[from]) {
            return 1;
        }
    }
    if left >= 2 {
        assert(part[1] == text@[from + 1]);
        if text[from] == 0xC2 && (text[from + 1] == 0x85 || text[from + 1] == 0xA0) {
            return 2;
        }
    }
    if left >= 3 {
        assert(part[2] == text@[from + 2]);
        if is_blank_triple(text[from], text[from + 1], text[from + 2]) {
            return 3;
        }
    }
    0
}

/// How many bytes the white-space character takes that closes the bytes of
/// `text` from `from` up to, not including, `to`.
fn blank_behind(text: &Vec<u8>, from: usize, to: usize) -> (n: usize)
    requires
        from <= to <= text.len(),
    ensures
        n == spec_blank_behind(text@.subrange(from as int, to as int)),
        n <= to - from,
{
    let ghost part = text@.subrange(from as int, to as int);
    let left: usize = to - from;
    if left >= 1 {
        assert(part[left - 1] == text@[to - 1]);
        if is_blank(text[to - 1]) {
            return 1;
        }
    }
    if left >= 2 {
        assert(part[left - 2] == text@[to - 2]);
        if text[to - 2] == 0xC2 && (text[to - 1] == 0x85 || text[to - 1] == 0xA0) {
            return 2;
        }
    }
    if left >= 3 {
        assert(part[left - 3] == text@[to - 3]);
        if is_blank_triple(text[to - 3], text[to - 2], text[to - 1]) {
            return 3;
        }
    }
    0
}

/// Reads the quality of service that a text configures: the number that
/// stands behind the first label `qos=`, white space around it aside, up
/// to the end of the text. A text without the label, and one in which
/// something else than a number up to 255 follows it, is a malformed
/// configuration.
pub fn parse_qos(content: &Vec<u8>) -> (out: Result<u8, MqttError>)
    ensures
        match out {
            Ok(qos) => spec_parse_qos(content@) == Some(qos),
            Err(e) => e == MqttError::Config && spec_parse_qos(content@) is None,
        },
{
    let found = find_qos_label(content);
    let first: usize = match found {
        Some(first) => first,
        None => {
            return Err(MqttError::Config);
        },
    };
    proof {
        let chosen = choose|i: int|
            spec_label_at(content@, i) && forall|j: int| 0 <= j < i ==> !spec_label_at(
                content@,
                j,
            );
        assert(chosen == first);
    }
    let total: usize = content.len();
    let begin: usize = first + QOS_LABEL_LEN;
    let ghost rest = content@.subrange(begin as int, total as int);
    let mut from: usize = begin;
    loop
        invariant
            begin <= from <= total,
            total == content.len(),
            spec_trim_start(rest) == spec_trim_start(
                content@.subrange(from as int, total as int),
            ),
        ensures
            spec_trim_start(rest) == content@.subrange(from as int, total as int),
        decreases total - from,
    {
        let n: usize = blank_in_front(content, from, total);
        if n == 0 {
            break ;
        }
        proof {
            let part = content@.subrange(from as int, total as int);
            assert(part.subrange(n as int, part.len() as int) =~= content@.subrange(
                from + n,
                total as int,
            ));
        }
        from += n;
    }
    let mut to: usize = total;
    loop
        invariant
            from <= to <= total,
            total == content.len(),
            spec_trim(rest) == spec_trim_end(content@.subrange(from as int, to as int)),
        ensures
            spec_trim(rest) == content@.subrange(from as int, to as int),
        decreases to - from,
    {
        let n: usize = blank_behind(content, from, to);
        if n == 0 {
            break ;
        }
        proof {
            let part = content@.subrange(from as int, to as int);
            assert(part.subrange(0, part.len() - n) =~= content@.subrange(from as int, to - n));
        }
        to -= n;
    }
    let parsed = parse_u8(content, from, to);
    match parsed {
        Some(qos) => Ok(qos),
        None => Err(MqttError::Config),
    }
}

/// Whether a byte is white space.
fn is_blank(byte: u8) -> (blank: bool)
    ensures
        blank == spec_is_blank(byte),
{
    byte == 32 || (9 <= byte && byte <= 13)
}

/// Whether three bytes are the UTF-8 form of a white-space character.
fn is_blank_triple(a: u8, b: u8, c: u8) -> (blank: bool)
    ensures
        blank == spec_is_blank_triple(a, b, c),
{
    (a == 0xE1 && b == 0x9A && c == 0x80) || (a == 0xE2 && b == 0x80 && ((0x80 <= c && c <= 0x8A)
        || c == 0xA8 || c == 0xA9 || c == 0xAF)) || (a == 0xE2 && b == 0x81 && c == 0x9F) || (a
        == 0xE3 && b == 0x80 && c == 0x80)
}

} // verus!
