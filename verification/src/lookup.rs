//! Finding fields among those that were read.
//!
//! A field is looked up by its number and its kind; fields of other numbers
//! or of the other kind are passed over. Where a number occurs more than
//! once the last occurrence counts, except for repeated fields, of which
//! every occurrence counts, in order.

use vstd::prelude::*;
use crate::parse::{field_views, Field, Value};
use crate::wire::{
    blob, fields_bytes, lemma_fields_bytes_concat, lemma_fields_bytes_single, nested, nested_opt,
    repeated, scalar, scalar_always, twos_complement, valid_tag, WireField, WireValue,
};

verus! {

/// The field is the integer field `tag`.
pub open spec fn is_varint(f: WireField, tag: u32) -> bool {
    f.tag == tag && f.value is Varint
}

/// The field is the bytes field `tag`.
pub open spec fn is_bytes(f: WireField, tag: u32) -> bool {
    f.tag == tag && f.value is Bytes
}

/// The integer of the last integer field `tag`.
pub open spec fn last_varint(fs: Seq<WireField>, tag: u32) -> Option<u64>
    decreases fs.len(),
{
    if fs.len() == 0 {
        None
    } else if is_varint(fs.last(), tag) {
        Some(fs.last().value->Varint_0)
    } else {
        last_varint(fs.drop_last(), tag)
    }
}

/// The bytes of the last bytes field `tag`.
pub open spec fn last_bytes(fs: Seq<WireField>, tag: u32) -> Option<Seq<u8>>
    decreases fs.len(),
{
    if fs.len() == 0 {
        None
    } else if is_bytes(fs.last(), tag) {
        Some(fs.last().value->Bytes_0)
    } else {
        last_bytes(fs.drop_last(), tag)
    }
}

/// The bytes of every bytes field `tag`, in order.
pub open spec fn all_bytes(fs: Seq<WireField>, tag: u32) -> Seq<Seq<u8>>
    decreases fs.len(),
{
    if fs.len() == 0 {
        Seq::empty()
    } else if is_bytes(fs.last(), tag) {
        all_bytes(fs.drop_last(), tag).push(fs.last().value->Bytes_0)
    } else {
        all_bytes(fs.drop_last(), tag)
    }
}

/// The integer of field `tag`; zero where the field is absent.
pub open spec fn varint_or_zero(fs: Seq<WireField>, tag: u32) -> u64 {
    match last_varint(fs, tag) {
        Some(v) => v,
        None => 0,
    }
}

/// The bytes of field `tag`; none where the field is absent.
pub open spec fn bytes_or_none(fs: Seq<WireField>, tag: u32) -> Seq<u8> {
    match last_bytes(fs, tag) {
        Some(b) => b,
        None => Seq::empty(),
    }
}

/// The signed integer that a 64-bit pattern stands for.
pub open spec fn as_i64(v: u64) -> i64 {
    if v < 0x8000_0000_0000_0000 {
        v as i64
    } else {
        (v - 0x1_0000_0000_0000_0000) as i64
    }
}

/// The signed integer that the low 32 bits of a pattern stand for.
pub open spec fn as_i32(v: u64) -> i32 {
    let low = v % 0x1_0000_0000;
    if low < 0x8000_0000 {
        low as i32
    } else {
        (low - 0x1_0000_0000) as i32
    }
}

/// The low 32 bits of a pattern.
pub open spec fn as_u32(v: u64) -> u32 {
    (v % 0x1_0000_0000) as u32
}

/// The signed integer that a 64-bit pattern stands for.
pub fn to_i64(v: u64) -> (out: i64)
    ensures
        out == as_i64(v),
{
    if v < 0x8000_0000_0000_0000 {
        v as i64
    } else {
        let below: u64 = v - 0x8000_0000_0000_0000;
        (below as i64) - 0x4000_0000_0000_0000 - 0x4000_0000_0000_0000
    }
}

/// The signed integer that the low 32 bits of a pattern stand for.
pub fn to_i32(v: u64) -> (out: i32)
    ensures
        out == as_i32(v),
{
    let low: u64 = v % 0x1_0000_0000;
    if low < 0x8000_0000 {
        low as i32
    } else {
        let below: u64 = low - 0x8000_0000;
        (below as i32) - 0x4000_0000 - 0x4000_0000
    }
}

/// The low 32 bits of a pattern.
pub fn to_u32(v: u64) -> (out: u32)
    ensures
        out == as_u32(v),
{
    (v % 0x1_0000_0000) as u32
}

/// A signed integer comes back from its pattern.
pub broadcast proof fn lemma_i64_back(x: i64)
    ensures
        #[trigger] as_i64(twos_complement(x as int)) == x,
{
}

/// A signed 32-bit integer comes back from its pattern.
pub broadcast proof fn lemma_i32_back(x: i32)
    ensures
        #[trigger] as_i32(twos_complement(x as int)) == x,
{
}

/// Looking up among two runs of fields: the later run first.
pub broadcast proof fn lemma_last_varint_concat(a: Seq<WireField>, b: Seq<WireField>, tag: u32)
    ensures
        #[trigger] last_varint(a + b, tag) == match last_varint(b, tag) {
            Some(v) => Some(v),
            None => last_varint(a, tag),
        },
    decreases b.len(),
{
    if b.len() == 0 {
        assert(a + b =~= a);
    } else {
        assert((a + b).drop_last() =~= a + b.drop_last());
        assert((a + b).last() == b.last());
        lemma_last_varint_concat(a, b.drop_last(), tag);
    }
}

/// Looking up among two runs of fields: the later run first.
pub broadcast proof fn lemma_last_bytes_concat(a: Seq<WireField>, b: Seq<WireField>, tag: u32)
    ensures
        #[trigger] last_bytes(a + b, tag) == match last_bytes(b, tag) {
            Some(v) => Some(v),
            None => last_bytes(a, tag),
        },
    decreases b.len(),
{
    if b.len() == 0 {
        assert(a + b =~= a);
    } else {
        assert((a + b).drop_last() =~= a + b.drop_last());
        assert((a + b).last() == b.last());
        lemma_last_bytes_concat(a, b.drop_last(), tag);
    }
}

/// Collecting among two runs of fields: one after the other.
pub broadcast proof fn lemma_all_bytes_concat(a: Seq<WireField>, b: Seq<WireField>, tag: u32)
    ensures
        #[trigger] all_bytes(a + b, tag) == all_bytes(a, tag) + all_bytes(b, tag),
    decreases b.len(),
{
    if b.len() == 0 {
        assert(a + b =~= a);
        assert(all_bytes(a, tag) + all_bytes(b, tag) =~= all_bytes(a, tag));
    } else {
        assert((a + b).drop_last() =~= a + b.drop_last());
        assert((a + b).last() == b.last());
        lemma_all_bytes_concat(a, b.drop_last(), tag);
        assert(all_bytes(a + b, tag) =~= all_bytes(a, tag) + all_bytes(b, tag));
    }
}

/// Looking up an integer in a single field.
pub broadcast proof fn lemma_last_varint_single(f: WireField, tag: u32)
    ensures
        #[trigger] last_varint(seq![f], tag) == if is_varint(f, tag) {
            Some(f.value->Varint_0)
        } else {
            None
        },
{
    let empty = Seq::<WireField>::empty();
    assert(seq![f].drop_last() =~= empty);
    assert(last_varint(empty, tag) is None);
}

/// Looking up bytes in a single field.
pub broadcast proof fn lemma_last_bytes_single(f: WireField, tag: u32)
    ensures
        #[trigger] last_bytes(seq![f], tag) == if is_bytes(f, tag) {
            Some(f.value->Bytes_0)
        } else {
            None
        },
{
    let empty = Seq::<WireField>::empty();
    assert(seq![f].drop_last() =~= empty);
    assert(last_bytes(empty, tag) is None);
}

/// Collecting bytes in a single field.
pub broadcast proof fn lemma_all_bytes_single(f: WireField, tag: u32)
    ensures
        #[trigger] all_bytes(seq![f], tag) == if is_bytes(f, tag) {
            seq![f.value->Bytes_0]
        } else {
            Seq::<Seq<u8>>::empty()
        },
{
    let empty = Seq::<WireField>::empty();
    assert(seq![f].drop_last() =~= empty);
    assert(all_bytes(empty, tag) =~= Seq::<Seq<u8>>::empty());
    if is_bytes(f, tag) {
        assert(all_bytes(seq![f], tag) =~= seq![f.value->Bytes_0]);
    }
}

/// Looking up among no fields.
pub broadcast proof fn lemma_lookup_empty(tag: u32)
    ensures
        #![trigger last_varint(Seq::<WireField>::empty(), tag)]
        #![trigger last_bytes(Seq::<WireField>::empty(), tag)]
        #![trigger all_bytes(Seq::<WireField>::empty(), tag)]
        last_varint(Seq::<WireField>::empty(), tag) is None,
        last_bytes(Seq::<WireField>::empty(), tag) is None,
        all_bytes(Seq::<WireField>::empty(), tag) == Seq::<Seq<u8>>::empty(),
{
}

/// A repeated field holds no integer.
pub broadcast proof fn lemma_last_varint_repeated(field: u32, payloads: Seq<Seq<u8>>, tag: u32)
    ensures
        #[trigger] last_varint(repeated(field, payloads), tag) is None,
    decreases payloads.len(),
{
    let fs = repeated(field, payloads);
    if payloads.len() > 0 {
        assert(fs.drop_last() =~= repeated(field, payloads.drop_last()));
        lemma_last_varint_repeated(field, payloads.drop_last(), tag);
    }
}

/// A repeated field holds no bytes of another number.
pub broadcast proof fn lemma_last_bytes_repeated(field: u32, payloads: Seq<Seq<u8>>, tag: u32)
    requires
        field != tag,
    ensures
        #[trigger] last_bytes(repeated(field, payloads), tag) is None,
    decreases payloads.len(),
{
    let fs = repeated(field, payloads);
    if payloads.len() > 0 {
        assert(fs.drop_last() =~= repeated(field, payloads.drop_last()));
        lemma_last_bytes_repeated(field, payloads.drop_last(), tag);
    }
}

/// Collecting a repeated field gives its elements.
pub broadcast proof fn lemma_all_bytes_repeated(field: u32, payloads: Seq<Seq<u8>>, tag: u32)
    ensures
        #[trigger] all_bytes(repeated(field, payloads), tag) == if field == tag {
            payloads
        } else {
            Seq::<Seq<u8>>::empty()
        },
    decreases payloads.len(),
{
    let fs = repeated(field, payloads);
    if payloads.len() > 0 {
        assert(fs.drop_last() =~= repeated(field, payloads.drop_last()));
        lemma_all_bytes_repeated(field, payloads.drop_last(), tag);
    }
    if field == tag {
        assert(all_bytes(fs, tag) =~= payloads);
    }
}

/// Every field has a number that a key can carry.
pub open spec fn tags_valid(fs: Seq<WireField>) -> bool {
    forall|i: int| 0 <= i < fs.len() ==> valid_tag(#[trigger] fs[i].tag)
}

/// The fields of two runs are valid when those of each are.
pub broadcast proof fn lemma_tags_valid_concat(a: Seq<WireField>, b: Seq<WireField>)
    requires
        tags_valid(a),
        tags_valid(b),
    ensures
        #[trigger] tags_valid(a + b),
{
    assert forall|i: int| 0 <= i < (a + b).len() implies valid_tag(#[trigger] (a + b)[i].tag) by {
        if i < a.len() {
            assert((a + b)[i] == a[i]);
        } else {
            assert((a + b)[i] == b[i - a.len()]);
        }
    }
}

/// A run of one field is valid when the field's number is.
pub broadcast proof fn lemma_tags_valid_single(f: WireField)
    requires
        valid_tag(f.tag),
    ensures
        #[trigger] tags_valid(seq![f]),
{
}

/// No fields are valid fields.
pub broadcast proof fn lemma_tags_valid_empty()
    ensures
        #[trigger] tags_valid(Seq::<WireField>::empty()),
{
}

/// A repeated field is valid when its number is.
pub broadcast proof fn lemma_tags_valid_repeated(tag: u32, payloads: Seq<Seq<u8>>)
    requires
        valid_tag(tag),
    ensures
        #[trigger] tags_valid(repeated(tag, payloads)),
{
}

pub broadcast group group_lookup {
    lemma_i64_back,
    lemma_i32_back,
    lemma_last_varint_concat,
    lemma_last_bytes_concat,
    lemma_all_bytes_concat,
    lemma_last_varint_single,
    lemma_last_bytes_single,
    lemma_all_bytes_single,
    lemma_lookup_empty,
    lemma_last_varint_repeated,
    lemma_last_bytes_repeated,
    lemma_all_bytes_repeated,
    lemma_tags_valid_concat,
    lemma_tags_valid_single,
    lemma_tags_valid_empty,
    lemma_tags_valid_repeated,
}

/// What an integer field, left out when zero, adds to a run of fields.
pub proof fn lemma_append_scalar(fs: Seq<WireField>, tag: u32, v: u64)
    requires
        valid_tag(tag),
    ensures
        forall|t: u32| #[trigger]
            last_varint(fs + scalar(tag, v), t) == if t == tag && v != 0 {
                Some(v)
            } else {
                last_varint(fs, t)
            },
        forall|t: u32| #[trigger] last_bytes(fs + scalar(tag, v), t) == last_bytes(fs, t),
        forall|t: u32| #[trigger] all_bytes(fs + scalar(tag, v), t) == all_bytes(fs, t),
        tags_valid(fs) ==> tags_valid(fs + scalar(tag, v)),
        fields_bytes(fs + scalar(tag, v)).len() >= fields_bytes(fs).len(),
{
    broadcast use group_lookup;

    lemma_fields_bytes_concat(fs, scalar(tag, v));
    assert forall|t: u32| #[trigger]
        all_bytes(fs + scalar(tag, v), t) == all_bytes(fs, t) by {
        assert(all_bytes(fs, t) + Seq::<Seq<u8>>::empty() =~= all_bytes(fs, t));
    }
}

/// What an integer field that is always written adds to a run of fields.
pub proof fn lemma_append_scalar_always(fs: Seq<WireField>, tag: u32, v: u64)
    requires
        valid_tag(tag),
    ensures
        forall|t: u32| #[trigger]
            last_varint(fs + scalar_always(tag, v), t) == if t == tag {
                Some(v)
            } else {
                last_varint(fs, t)
            },
        forall|t: u32| #[trigger] last_bytes(fs + scalar_always(tag, v), t) == last_bytes(fs, t),
        forall|t: u32| #[trigger] all_bytes(fs + scalar_always(tag, v), t) == all_bytes(fs, t),
        tags_valid(fs) ==> tags_valid(fs + scalar_always(tag, v)),
        fields_bytes(fs + scalar_always(tag, v)).len() >= fields_bytes(fs).len(),
{
    broadcast use group_lookup;

    lemma_fields_bytes_concat(fs, scalar_always(tag, v));
    assert forall|t: u32| #[trigger]
        all_bytes(fs + scalar_always(tag, v), t) == all_bytes(fs, t) by {
        assert(all_bytes(fs, t) + Seq::<Seq<u8>>::empty() =~= all_bytes(fs, t));
    }
}

/// What a bytes field, left out when empty, adds to a run of fields.
pub proof fn lemma_append_blob(fs: Seq<WireField>, tag: u32, b: Seq<u8>)
    requires
        valid_tag(tag),
    ensures
        forall|t: u32| #[trigger] last_varint(fs + blob(tag, b), t) == last_varint(fs, t),
        forall|t: u32| #[trigger]
            last_bytes(fs + blob(tag, b), t) == if t == tag && b.len() != 0 {
                Some(b)
            } else {
                last_bytes(fs, t)
            },
        forall|t: u32|
            t != tag ==> #[trigger] all_bytes(fs + blob(tag, b), t) == all_bytes(fs, t),
        tags_valid(fs) ==> tags_valid(fs + blob(tag, b)),
        fields_bytes(fs + blob(tag, b)).len() >= fields_bytes(fs).len(),
{
    broadcast use group_lookup;

    lemma_fields_bytes_concat(fs, blob(tag, b));
    assert forall|t: u32| t != tag implies #[trigger] all_bytes(fs + blob(tag, b), t)
        == all_bytes(fs, t) by {
        assert(all_bytes(fs, t) + Seq::<Seq<u8>>::empty() =~= all_bytes(fs, t));
    }
}

/// What a nested message adds to a run of fields.
pub proof fn lemma_append_nested(fs: Seq<WireField>, tag: u32, payload: Seq<u8>)
    requires
        valid_tag(tag),
    ensures
        forall|t: u32| #[trigger] last_varint(fs + nested(tag, payload), t) == last_varint(fs, t),
        forall|t: u32| #[trigger]
            last_bytes(fs + nested(tag, payload), t) == if t == tag {
                Some(payload)
            } else {
                last_bytes(fs, t)
            },
        forall|t: u32|
            t != tag ==> #[trigger] all_bytes(fs + nested(tag, payload), t) == all_bytes(fs, t),
        tags_valid(fs) ==> tags_valid(fs + nested(tag, payload)),
        fields_bytes(fs + nested(tag, payload)).len() >= fields_bytes(fs).len() + payload.len(),
{
    broadcast use group_lookup;

    lemma_fields_bytes_concat(fs, nested(tag, payload));
    let f = WireField { tag, value: WireValue::Bytes(payload) };
    lemma_fields_bytes_single(f);
    crate::parse::lemma_field_bytes_len(f);
    assert forall|t: u32| t != tag implies #[trigger] all_bytes(fs + nested(tag, payload), t)
        == all_bytes(fs, t) by {
        assert(all_bytes(fs, t) + Seq::<Seq<u8>>::empty() =~= all_bytes(fs, t));
    }
}

/// What a nested message that may be absent adds to a run of fields.
pub proof fn lemma_append_nested_opt(fs: Seq<WireField>, tag: u32, payload: Option<Seq<u8>>)
    requires
        valid_tag(tag),
    ensures
        forall|t: u32| #[trigger]
            last_varint(fs + nested_opt(tag, payload), t) == last_varint(fs, t),
        forall|t: u32| #[trigger]
            last_bytes(fs + nested_opt(tag, payload), t) == if t == tag && payload is Some {
                payload
            } else {
                last_bytes(fs, t)
            },
        forall|t: u32|
            t != tag ==> #[trigger] all_bytes(fs + nested_opt(tag, payload), t) == all_bytes(
                fs,
                t,
            ),
        tags_valid(fs) ==> tags_valid(fs + nested_opt(tag, payload)),
        fields_bytes(fs + nested_opt(tag, payload)).len() >= fields_bytes(fs).len(),
        payload matches Some(p) ==> fields_bytes(fs + nested_opt(tag, payload)).len()
            >= fields_bytes(fs).len() + p.len(),
{
    match payload {
        Some(p) => {
            lemma_append_nested(fs, tag, p);
        },
        None => {
            assert(fs + nested_opt(tag, payload) =~= fs);
        },
    }
}

/// What a repeated nested message adds to a run of fields.
pub proof fn lemma_append_repeated(fs: Seq<WireField>, tag: u32, payloads: Seq<Seq<u8>>)
    requires
        valid_tag(tag),
    ensures
        forall|t: u32| #[trigger]
            last_varint(fs + repeated(tag, payloads), t) == last_varint(fs, t),
        forall|t: u32|
            t != tag ==> #[trigger] last_bytes(fs + repeated(tag, payloads), t) == last_bytes(
                fs,
                t,
            ),
        forall|t: u32| #[trigger]
            all_bytes(fs + repeated(tag, payloads), t) == if t == tag {
                all_bytes(fs, t) + payloads
            } else {
                all_bytes(fs, t)
            },
        tags_valid(fs) ==> tags_valid(fs + repeated(tag, payloads)),
        fields_bytes(fs + repeated(tag, payloads)).len() >= fields_bytes(fs).len(),
        fields_bytes(fs + repeated(tag, payloads)).len() >= fields_bytes(
            repeated(tag, payloads),
        ).len(),
{
    broadcast use group_lookup;

    lemma_fields_bytes_concat(fs, repeated(tag, payloads));
    assert forall|t: u32| #[trigger]
        all_bytes(fs + repeated(tag, payloads), t) == if t == tag {
            all_bytes(fs, t) + payloads
        } else {
            all_bytes(fs, t)
        } by {
        assert(all_bytes(fs, t) + Seq::<Seq<u8>>::empty() =~= all_bytes(fs, t));
    }
}

/// What holds of no fields at all.
pub proof fn lemma_no_fields(piece: Seq<WireField>)
    ensures
        forall|t: u32| #[trigger] last_varint(Seq::<WireField>::empty(), t) is None,
        forall|t: u32| #[trigger] last_bytes(Seq::<WireField>::empty(), t) is None,
        forall|t: u32| #[trigger]
            all_bytes(Seq::<WireField>::empty(), t) == Seq::<Seq<u8>>::empty(),
        tags_valid(Seq::<WireField>::empty()),
        Seq::<WireField>::empty() + piece == piece,
        fields_bytes(Seq::<WireField>::empty()).len() == 0,
{
    assert(Seq::<WireField>::empty() + piece =~= piece);
}

/// The integer of the last integer field `tag` among the fields.
pub fn find_varint(fields: &Vec<Field>, tag: u32) -> (out: Option<u64>)
    ensures
        out == last_varint(field_views(fields@), tag),
{
    let ghost views = field_views(fields@);
    let mut i: usize = fields.len();
    assert(views.take(i as int) =~= views);
    while i > 0
        invariant
            i <= fields.len(),
            views == field_views(fields@),
            last_varint(views, tag) == last_varint(views.take(i as int), tag),
        decreases i,
    {
        i -= 1;
        assert(views.take(i + 1).drop_last() =~= views.take(i as int));
        assert(views.take(i + 1).last() == fields@[i as int]@);
        if fields[i].tag == tag {
            match &fields[i].value {
                Value::Varint(v) => {
                    return Some(*v);
                },
                Value::Bytes(_) => {},
            }
        }
    }
    None
}

/// The bytes of the last bytes field `tag` among the fields.
pub fn find_bytes(fields: &Vec<Field>, tag: u32) -> (out: Option<&Vec<u8>>)
    ensures
        match out {
            Some(b) => last_bytes(field_views(fields@), tag) == Some(b@),
            None => last_bytes(field_views(fields@), tag) is None,
        },
{
    let ghost views = field_views(fields@);
    let mut i: usize = fields.len();
    assert(views.take(i as int) =~= views);
    while i > 0
        invariant
            i <= fields.len(),
            views == field_views(fields@),
            last_bytes(views, tag) == last_bytes(views.take(i as int), tag),
        decreases i,
    {
        i -= 1;
        assert(views.take(i + 1).drop_last() =~= views.take(i as int));
        assert(views.take(i + 1).last() == fields@[i as int]@);
        if fields[i].tag == tag {
            match &fields[i].value {
                Value::Bytes(b) => {
                    return Some(b);
                },
                Value::Varint(_) => {},
            }
        }
    }
    None
}

} // verus!
