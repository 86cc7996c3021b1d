//! Byte-level building blocks of the wire format: big-endian 16-bit
//! integers and length-prefixed strings.

use vstd::prelude::*;

verus! {

/// The largest number of bytes a length-prefixed string can hold.
pub const MAX_STRING_LEN: usize = 65535;

/// The two bytes of a 16-bit integer, most significant first.
pub open spec fn spec_u16_to_be_bytes(v: u16) -> Seq<u8> {
    seq![(v / 256) as u8, (v % 256) as u8]
}

/// The 16-bit integer whose big-endian bytes are `hi`, `lo`.
pub open spec fn spec_u16_from_be_bytes(hi: u8, lo: u8) -> u16 {
    (hi * 256 + lo) as u16
}

/// A string as it travels: its length on two bytes, then its bytes.
pub open spec fn spec_string_field(s: Seq<u8>) -> Seq<u8>
    recommends
        s.len() <= MAX_STRING_LEN,
{
    spec_u16_to_be_bytes(s.len() as u16) + s
}

/// The 16-bit integer found at `pos`, when two bytes are left there.
pub open spec fn spec_read_u16(bytes: Seq<u8>, pos: int) -> Option<u16> {
    if 0 <= pos && pos + 2 <= bytes.len() {
        Some(spec_u16_from_be_bytes(bytes[pos], bytes[pos + 1]))
    } else {
        None
    }
}

/// The length-prefixed string found at `pos` together with the position
/// just behind it, when the prefix and the announced bytes are all there.
pub open spec fn spec_read_string(bytes: Seq<u8>, pos: int) -> Option<(Seq<u8>, int)> {
    match spec_read_u16(bytes, pos) {
        Some(n) => if pos + 2 + n <= bytes.len() {
            Some((bytes.subrange(pos + 2, pos + 2 + n), pos + 2 + n))
        } else {
            None
        },
        None => None,
    }
}

/// A string that is only sent when a flag announces it.
pub open spec fn spec_optional_field(field: Option<Seq<u8>>) -> Seq<u8> {
    match field {
        Some(s) => spec_string_field(s),
        None => Seq::empty(),
    }
}

/// The optional string found at `pos` when `present` announces one, and
/// the position behind it.
pub open spec fn spec_read_optional(bytes: Seq<u8>, pos: int, present: bool) -> Option<
    (Option<Seq<u8>>, int),
> {
    if present {
        match spec_read_string(bytes, pos) {
            Some((s, next)) => Some((Some(s), next)),
            None => None,
        }
    } else {
        Some((None, pos))
    }
}

/// The bytes of an optional byte string.
pub open spec fn spec_optional_bytes(field: Option<Vec<u8>>) -> Option<Seq<u8>> {
    match field {
        Some(s) => Some(s@),
        None => None,
    }
}

/// The byte sequences of a vector of byte strings.
pub open spec fn spec_byte_seqs(items: Seq<Vec<u8>>) -> Seq<Seq<u8>> {
    Seq::new(items.len(), |i: int| items[i]@)
}

/// Reading back a 16-bit integer gives the integer that was written.
pub proof fn lemma_u16_round_trip(prefix: Seq<u8>, v: u16, suffix: Seq<u8>)
    ensures
        spec_read_u16(prefix + spec_u16_to_be_bytes(v) + suffix, prefix.len() as int) == Some(v),
{
    let all = prefix + spec_u16_to_be_bytes(v) + suffix;
    let p = prefix.len() as int;
    assert(all[p] == (v / 256) as u8);
    assert(all[p + 1] == (v % 256) as u8);
}

/// Reading back a length-prefixed string gives the string that was written
/// and stops right behind it.
pub proof fn lemma_string_round_trip(prefix: Seq<u8>, s: Seq<u8>, suffix: Seq<u8>)
    requires
        s.len() <= MAX_STRING_LEN,
    ensures
        spec_read_string(prefix + spec_string_field(s) + suffix, prefix.len() as int) == Some(
            (s, (prefix.len() + 2 + s.len()) as int),
        ),
{
    let all = prefix + spec_string_field(s) + suffix;
    let p = prefix.len() as int;
    let n = s.len() as u16;
    assert(all =~= prefix + spec_u16_to_be_bytes(n) + (s + suffix));
    lemma_u16_round_trip(prefix, n, s + suffix);
    assert(all.subrange(p + 2, p + 2 + n) =~= s);
}

/// Reading back an optional string gives what was written and stops right
/// behind it.
pub proof fn lemma_optional_round_trip(prefix: Seq<u8>, field: Option<Seq<u8>>, suffix: Seq<u8>)
    requires
        field is Some ==> field->0.len() <= MAX_STRING_LEN,
    ensures
        spec_read_optional(
            prefix + spec_optional_field(field) + suffix,
            prefix.len() as int,
            field is Some,
        ) == Some((field, (prefix.len() + spec_optional_field(field).len()) as int)),
{
    match field {
        Some(s) => {
            lemma_string_round_trip(prefix, s, suffix);
        },
        None => {},
    }
}

/// Appends the big-endian bytes of `v` to `bytes`.
pub fn push_u16_be(bytes: &mut Vec<u8>, v: u16)
    ensures
        final(bytes)@ == old(bytes)@ + spec_u16_to_be_bytes(v),
{
    let hi: u8 = (v / 256) as u8;
    let lo: u8 = (v % 256) as u8;
    bytes.push(hi);
    bytes.push(lo);
    assert(bytes@ =~= old(bytes)@ + spec_u16_to_be_bytes(v));
}

/// Appends a copy of `other` to `bytes`.
pub fn push_bytes(bytes: &mut Vec<u8>, other: &Vec<u8>)
    ensures
        final(bytes)@ == old(bytes)@ + other@,
{
    let mut i: usize = 0;
    while i < other.len()
        invariant
            i <= other.len(),
            bytes@ == old(bytes)@ + other@.subrange(0, i as int),
        decreases other.len() - i,
    {
        bytes.push(other[i]);
        i += 1;
        assert(bytes@ =~= old(bytes)@ + other@.subrange(0, i as int));
    }
    assert(other@.subrange(0, i as int) =~= other@);
}

/// Appends `s` as a length-prefixed string.
pub fn push_string_field(bytes: &mut Vec<u8>, s: &Vec<u8>)
    requires
        s.len() <= MAX_STRING_LEN,
    ensures
        final(bytes)@ == old(bytes)@ + spec_string_field(s@),
{
    push_u16_be(bytes, s.len() as u16);
    push_bytes(bytes, s);
    assert(bytes@ =~= old(bytes)@ + spec_string_field(s@));
}

/// A copy of the bytes of `bytes` from `from` up to, not including, `to`.
pub fn copy_range(bytes: &Vec<u8>, from: usize, to: usize) -> (out: Vec<u8>)
    requires
        from <= to <= bytes.len(),
    ensures
        out@ == bytes@.subrange(from as int, to as int),
{
    let mut out: Vec<u8> = Vec::new();
    let mut i: usize = from;
    while i < to
        invariant
            from <= i <= to <= bytes.len(),
            out@ == bytes@.subrange(from as int, i as int),
        decreases to - i,
    {
        out.push(bytes[i]);
        i += 1;
        assert(out@ =~= bytes@.subrange(from as int, i as int));
    }
    out
}

/// A copy of `bytes`.
pub fn copy_bytes(bytes: &Vec<u8>) -> (out: Vec<u8>)
    ensures
        out@ == bytes@,
{
    let out = copy_range(bytes, 0, bytes.len());
    assert(bytes@.subrange(0, bytes@.len() as int) =~= bytes@);
    out
}

/// Whether two byte strings hold the same bytes.
pub fn bytes_eq(a: &Vec<u8>, b: &Vec<u8>) -> (same: bool)
    ensures
        same == (a@ == b@),
{
    if a.len() != b.len() {
        return false;
    }
    let mut i: usize = 0;
    while i < a.len()
        invariant
            i <= a.len(),
            a.len() == b.len(),
            a@.subrange(0, i as int) == b@.subrange(0, i as int),
        decreases a.len() - i,
    {
        if a[i] != b[i] {
            return false;
        }
        i += 1;
        assert(a@.subrange(0, i as int) =~= a@.subrange(0, i - 1).push(a@[i - 1]));
        assert(b@.subrange(0, i as int) =~= b@.subrange(0, i - 1).push(b@[i - 1]));
    }
    assert(a@ =~= a@.subrange(0, i as int));
    assert(b@ =~= b@.subrange(0, i as int));
    true
}

/// Reads the 16-bit integer at `pos`, or nothing when fewer than two bytes
/// are left there.
pub fn read_u16_be(bytes: &Vec<u8>, pos: usize) -> (out: Option<u16>)
    ensures
        out == spec_read_u16(bytes@, pos as int),
{
    if bytes.len() < 2 || pos > bytes.len() - 2 {
        return None;
    }
    let hi: u16 = bytes[pos] as u16;
    let lo: u16 = bytes[pos + 1] as u16;
    Some(hi * 256 + lo)
}

/// Reads the length-prefixed string at `pos` and says where the next field
/// starts, or nothing when the bytes run out first.
pub fn read_string_field(bytes: &Vec<u8>, pos: usize) -> (out: Option<(Vec<u8>, usize)>)
    ensures
        match out {
            Some((s, next)) => spec_read_string(bytes@, pos as int) == Some((s@, next as int)),
            None => spec_read_string(bytes@, pos as int) is None,
        },
{
    let len = read_u16_be(bytes, pos);
    match len {
        Some(n) => {
            let total: usize = bytes.len();
            let start: usize = pos + 2;
            if n as usize > total - start {
                return None;
            }
            let end: usize = start + n as usize;
            let s = copy_range(bytes, start, end);
            Some((s, end))
        },
        None => None,
    }
}

/// Appends `field` as a length-prefixed string when there is one.
pub fn push_optional_field(bytes: &mut Vec<u8>, field: &Option<Vec<u8>>)
    requires
        field is Some ==> field->0.len() <= MAX_STRING_LEN,
    ensures
        final(bytes)@ == old(bytes)@ + spec_optional_field(spec_optional_bytes(*field)),
{
    match field {
        Some(s) => {
            push_string_field(bytes, s);
        },
        None => {
            assert(bytes@ =~= old(bytes)@ + Seq::<u8>::empty());
        },
    }
}

/// Reads the optional string at `pos` when `present` announces one.
pub fn read_optional_field(bytes: &Vec<u8>, pos: usize, present: bool) -> (out: Option<
    (Option<Vec<u8>>, usize),
>)
    ensures
        match out {
            Some((field, next)) => spec_read_optional(bytes@, pos as int, present) == Some(
                (spec_optional_bytes(field), next as int),
            ),
            None => spec_read_optional(bytes@, pos as int, present) is None,
        },
{
    if present {
        let read = read_string_field(bytes, pos);
        match read {
            Some((s, next)) => Some((Some(s), next)),
            None => None,
        }
    } else {
        Some((None, pos))
    }
}

} // verus!
