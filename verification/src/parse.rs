//! Reading the wire format back: from bytes to the fields they encode.
//!
//! The reader accepts integers in their shortest base-128 form and fields of
//! the two kinds the messages are made of. Anything else is refused.

use vstd::prelude::*;
use vstd::slice::{slice_subrange, slice_to_vec};
use crate::wire::{
    field_bytes, fields_bytes, key_value, lemma_fields_bytes_concat,
    lemma_fields_bytes_single, valid_tag, varint_bytes, WireField, WireValue,
    MAX_TAG, WIRE_BYTES, WIRE_VARINT,
};

verus! {

/// The longest base-128 form of a 64-bit integer, in bytes.
pub const VARINT_MAX_BYTES: u32 = 10;

/// The integer at the front of `bytes`, in its shortest base-128 form of at
/// most `budget` bytes, and the number of bytes it takes.
pub open spec fn parse_varint_within(bytes: Seq<u8>, budget: nat) -> Option<(u64, nat)>
    decreases budget,
{
    if budget == 0 || bytes.len() == 0 {
        None
    } else if bytes[0] < 128 {
        Some((bytes[0] as u64, 1nat))
    } else {
        match parse_varint_within(bytes.drop_first(), (budget - 1) as nat) {
            Some((high, n)) => if 1 <= high < 0x200_0000_0000_0000 {
                Some(((high * 128 + (bytes[0] - 128)) as u64, n + 1))
            } else {
                None
            },
            None => None,
        }
    }
}

/// The integer at the front of `bytes` and the number of bytes it takes.
pub open spec fn parse_varint(bytes: Seq<u8>) -> Option<(u64, nat)> {
    parse_varint_within(bytes, VARINT_MAX_BYTES as nat)
}

/// The field at the front of `bytes` and the number of bytes it takes.
pub open spec fn parse_field(bytes: Seq<u8>) -> Option<(WireField, nat)> {
    match parse_varint(bytes) {
        None => None,
        Some((key, n)) => {
            let tag = key / 8;
            let wire_type = key % 8;
            if tag < 1 || tag > MAX_TAG || n > bytes.len() {
                None
            } else {
                match parse_varint(bytes.skip(n as int)) {
                    None => None,
                    Some((v, m)) => if wire_type == WIRE_VARINT {
                        Some((WireField { tag: tag as u32, value: WireValue::Varint(v) }, n + m))
                    } else if wire_type == WIRE_BYTES && n + m + v <= bytes.len() {
                        Some(
                            (
                                WireField {
                                    tag: tag as u32,
                                    value: WireValue::Bytes(
                                        bytes.subrange((n + m) as int, (n + m + v) as int),
                                    ),
                                },
                                (n + m + v) as nat,
                            ),
                        )
                    } else {
                        None
                    },
                }
            }
        },
    }
}

/// The fields that `bytes` encode, if they encode fields from end to end.
pub open spec fn parse_fields(bytes: Seq<u8>) -> Option<Seq<WireField>>
    decreases bytes.len(),
{
    if bytes.len() == 0 {
        Some(Seq::empty())
    } else {
        match parse_field(bytes) {
            Some((f, n)) => if 0 < n <= bytes.len() {
                match parse_fields(bytes.skip(n as int)) {
                    Some(rest) => Some(seq![f] + rest),
                    None => None,
                }
            } else {
                None
            },
            None => None,
        }
    }
}

/// The number of bytes of the base-128 form of an integer.
pub open spec fn varint_len(v: u64) -> nat
    decreases v,
{
    if v < 128 {
        1
    } else {
        1 + varint_len(v / 128)
    }
}

/// The base-128 form of an integer has as many bytes as `varint_len` says,
/// and never more than ten.
pub proof fn lemma_varint_len(v: u64)
    ensures
        varint_bytes(v).len() == varint_len(v),
        1 <= varint_len(v) <= VARINT_MAX_BYTES,
{
    lemma_varint_bytes_len(v);
    reveal_with_fuel(varint_len, 11);
}

proof fn lemma_varint_bytes_len(v: u64)
    ensures
        varint_bytes(v).len() == varint_len(v),
    decreases v,
{
    if v >= 128 {
        lemma_varint_bytes_len(v / 128);
    }
}

/// Reading an integer that was written gives the integer back, whatever
/// follows it.
pub proof fn lemma_parse_varint_written(v: u64, rest: Seq<u8>, budget: nat)
    requires
        budget >= varint_len(v),
    ensures
        parse_varint_within(varint_bytes(v) + rest, budget) == Some((v, varint_len(v))),
    decreases v,
{
    let bytes = varint_bytes(v) + rest;
    lemma_varint_bytes_len(v);
    if v < 128 {
        assert(bytes[0] == v as u8);
    } else {
        assert(bytes[0] == (v % 128 + 128) as u8);
        assert(bytes.drop_first() =~= varint_bytes(v / 128) + rest);
        lemma_parse_varint_written(v / 128, rest, (budget - 1) as nat);
    }
}

/// Reading a field that was written gives the field back, whatever follows it.
pub proof fn lemma_parse_field_written(f: WireField, rest: Seq<u8>)
    requires
        valid_tag(f.tag),
        f.value matches WireValue::Bytes(b) ==> b.len() <= u64::MAX,
    ensures
        parse_field(field_bytes(f) + rest) == Some((f, field_bytes(f).len())),
{
    let bytes = field_bytes(f) + rest;
    match f.value {
        WireValue::Varint(v) => {
            let key = key_value(f.tag, WIRE_VARINT);
            lemma_varint_len(key);
            lemma_varint_len(v);
            assert(bytes =~= varint_bytes(key) + (varint_bytes(v) + rest));
            lemma_parse_varint_written(key, varint_bytes(v) + rest, VARINT_MAX_BYTES as nat);
            let n = varint_len(key);
            assert(bytes.skip(n as int) =~= varint_bytes(v) + rest);
            lemma_parse_varint_written(v, rest, VARINT_MAX_BYTES as nat);
        },
        WireValue::Bytes(b) => {
            let key = key_value(f.tag, WIRE_BYTES);
            let len = b.len() as u64;
            lemma_varint_len(key);
            lemma_varint_len(len);
            assert(bytes =~= varint_bytes(key) + (varint_bytes(len) + b + rest));
            lemma_parse_varint_written(key, varint_bytes(len) + b + rest, VARINT_MAX_BYTES as nat);
            let n = varint_len(key);
            assert(bytes.skip(n as int) =~= varint_bytes(len) + (b + rest));
            lemma_parse_varint_written(len, b + rest, VARINT_MAX_BYTES as nat);
            let m = varint_len(len);
            assert(bytes.subrange((n + m) as int, (n + m + len) as int) =~= b);
        },
    }
}

/// The encoding of a run of fields starts with the encoding of the first.
pub proof fn lemma_fields_bytes_front(fs: Seq<WireField>)
    requires
        fs.len() > 0,
    ensures
        fields_bytes(fs) == field_bytes(fs[0]) + fields_bytes(fs.drop_first()),
{
    assert(fs =~= seq![fs[0]] + fs.drop_first());
    lemma_fields_bytes_concat(seq![fs[0]], fs.drop_first());
    lemma_fields_bytes_single(fs[0]);
}

/// The fields can be written and read back: none has a number that no key
/// can carry, and the whole fits the longest length the format can state.
pub open spec fn writable(fs: Seq<WireField>) -> bool {
    &&& forall|i: int| 0 <= i < fs.len() ==> valid_tag(#[trigger] fs[i].tag)
    &&& fields_bytes(fs).len() <= u64::MAX
}

/// A field's bytes are no longer than the encoding of the field.
pub proof fn lemma_field_bytes_len(f: WireField)
    ensures
        field_bytes(f).len() >= 2,
        f.value matches WireValue::Bytes(b) ==> b.len() <= field_bytes(f).len(),
{
    match f.value {
        WireValue::Varint(v) => {
            lemma_varint_len(key_value(f.tag, WIRE_VARINT));
            lemma_varint_len(v);
        },
        WireValue::Bytes(b) => {
            lemma_varint_len(key_value(f.tag, WIRE_BYTES));
            lemma_varint_len(b.len() as u64);
        },
    }
}

/// Reading fields that were written gives the fields back.
pub proof fn lemma_parse_fields_written(fs: Seq<WireField>)
    requires
        writable(fs),
    ensures
        parse_fields(fields_bytes(fs)) == Some(fs),
    decreases fs.len(),
{
    if fs.len() == 0 {
    } else {
        let f = fs[0];
        let rest = fs.drop_first();
        lemma_fields_bytes_front(fs);
        lemma_field_bytes_len(f);
        let bytes = fields_bytes(fs);
        assert(valid_tag(fs[0].tag));
        assert forall|i: int| 0 <= i < rest.len() implies valid_tag(#[trigger] rest[i].tag) by {
            assert(rest[i] == fs[i + 1]);
        }
        lemma_parse_field_written(f, fields_bytes(rest));
        let n = field_bytes(f).len();
        assert(bytes.skip(n as int) =~= fields_bytes(rest));
        lemma_parse_fields_written(rest);
        assert(seq![f] + rest =~= fs);
    }
}

/// What a field that was read holds.
#[derive(Debug, PartialEq, Eq)]
pub enum Value {
    Varint(u64),
    Bytes(Vec<u8>),
}

/// A field that was read.
#[derive(Debug, PartialEq, Eq)]
pub struct Field {
    pub tag: u32,
    pub value: Value,
}

impl View for Field {
    type V = WireField;

    open spec fn view(&self) -> WireField {
        WireField {
            tag: self.tag,
            value: match self.value {
                Value::Varint(v) => WireValue::Varint(v),
                Value::Bytes(b) => WireValue::Bytes(b@),
            },
        }
    }
}

/// The views of a run of fields, in order.
pub open spec fn field_views(fields: Seq<Field>) -> Seq<WireField> {
    Seq::new(fields.len(), |i: int| fields[i]@)
}

/// Reads the integer that starts at `pos`, in at most `budget` bytes.
fn read_varint(bytes: &[u8], pos: usize, budget: u32) -> (out: Option<(u64, usize)>)
    requires
        pos <= bytes@.len(),
    ensures
        match parse_varint_within(bytes@.skip(pos as int), budget as nat) {
            Some((v, n)) => {
                &&& out matches Some((value, next))
                &&& value == v
                &&& next == pos + n
                &&& pos + n <= bytes@.len()
            },
            None => out is None,
        },
    decreases budget,
{
    if budget == 0 || pos >= bytes.len() {
        return None;
    }
    let b = bytes[pos];
    assert(bytes@.skip(pos as int)[0] == b);
    if b < 128 {
        Some((b as u64, pos + 1))
    } else {
        assert(bytes@.skip(pos as int).drop_first() =~= bytes@.skip(pos + 1));
        match read_varint(bytes, pos + 1, budget - 1) {
            Some((high, next)) => {
                if high >= 1 && high < 0x200_0000_0000_0000 {
                    Some((high * 128 + (b - 128) as u64, next))
                } else {
                    None
                }
            },
            None => None,
        }
    }
}

/// Reads the field that starts at `pos`.
fn read_field(bytes: &[u8], pos: usize) -> (out: Option<(Field, usize)>)
    requires
        pos <= bytes@.len(),
    ensures
        match parse_field(bytes@.skip(pos as int)) {
            Some((f, n)) => {
                &&& out matches Some((field, next))
                &&& field@ == f
                &&& next == pos + n
                &&& pos + n <= bytes@.len()
            },
            None => out is None,
        },
{
    let ghost tail = bytes@.skip(pos as int);
    let (key, after_key) = match read_varint(bytes, pos, VARINT_MAX_BYTES) {
        Some(read) => read,
        None => {
            return None;
        },
    };
    let tag = key / 8;
    let wire_type = key % 8;
    if tag < 1 || tag > MAX_TAG as u64 {
        return None;
    }
    assert(tail.skip(after_key - pos) =~= bytes@.skip(after_key as int));
    let (v, after_value) = match read_varint(bytes, after_key, VARINT_MAX_BYTES) {
        Some(read) => read,
        None => {
            return None;
        },
    };
    if wire_type == WIRE_VARINT as u64 {
        Some((Field { tag: tag as u32, value: Value::Varint(v) }, after_value))
    } else if wire_type == WIRE_BYTES as u64 && v <= (bytes.len() - after_value) as u64 {
        let end = after_value + v as usize;
        let payload = slice_to_vec(slice_subrange(bytes, after_value, end));
        assert(payload@ =~= tail.subrange(after_value - pos, end - pos));
        Some((Field { tag: tag as u32, value: Value::Bytes(payload) }, end))
    } else {
        None
    }
}

/// Joining a field in front of the fields read from the rest.
proof fn lemma_parse_fields_step(bytes: Seq<u8>, pos: int, n: nat, f: WireField)
    requires
        0 <= pos < bytes.len(),
        parse_field(bytes.skip(pos)) == Some((f, n)),
        0 < n,
        pos + n <= bytes.len(),
    ensures
        parse_fields(bytes.skip(pos)) == match parse_fields(bytes.skip(pos + n)) {
            Some(rest) => Some(seq![f] + rest),
            None => None,
        },
{
    assert(bytes.skip(pos).skip(n as int) =~= bytes.skip(pos + n));
}

/// The fields that `bytes` encode, if they encode fields from end to end.
pub fn read_fields(bytes: &[u8]) -> (out: Option<Vec<Field>>)
    ensures
        match parse_fields(bytes@) {
            Some(fs) => out matches Some(fields) && field_views(fields@) == fs,
            None => out is None,
        },
{
    let mut fields: Vec<Field> = Vec::new();
    let mut pos: usize = 0;
    assert(bytes@.skip(0) =~= bytes@);
    assert(field_views(fields@) =~= Seq::<WireField>::empty());
    while pos < bytes.len()
        invariant
            pos <= bytes@.len(),
            parse_fields(bytes@) == match parse_fields(bytes@.skip(pos as int)) {
                Some(rest) => Some(field_views(fields@) + rest),
                None => None,
            },
        decreases bytes@.len() - pos,
    {
        let ghost before = field_views(fields@);
        match read_field(bytes, pos) {
            Some((field, next)) => {
                if next <= pos {
                    proof {
                        lemma_parse_nonempty(bytes@.skip(pos as int));
                    }
                    return None;
                }
                proof {
                    lemma_parse_fields_step(bytes@, pos as int, (next - pos) as nat, field@);
                    assert forall|rest: Seq<WireField>|
                        before + (seq![field@] + rest) == #[trigger] (before.push(field@) + rest) by {
                        assert(before + (seq![field@] + rest) =~= before.push(field@) + rest);
                    }
                }
                fields.push(field);
                assert(field_views(fields@) =~= before.push(field@));
                pos = next;
            },
            None => {
                return None;
            },
        }
    }
    assert(bytes@.skip(pos as int) =~= Seq::<u8>::empty());
    assert(field_views(fields@) + Seq::<WireField>::empty() =~= field_views(fields@));
    Some(fields)
}

/// A field takes at least one byte.
proof fn lemma_parse_nonempty(bytes: Seq<u8>)
    ensures
        parse_field(bytes) matches Some((f, n)) ==> n > 0,
{
}

} // verus!
