//! The binary wire format: base-128 integers, field keys, and fields that are
//! either an integer or a run of bytes prefixed by its length.
//!
//! A message is a sequence of fields. Its encoding is the concatenation of the
//! encodings of its fields, in order.

use vstd::prelude::*;

verus! {

/// The largest field number a key can carry.
pub const MAX_TAG: u32 = 0x1fff_ffff;

/// Wire type of a field that holds one base-128 integer.
pub const WIRE_VARINT: u8 = 0;

/// Wire type of a field that holds a length and that many bytes.
pub const WIRE_BYTES: u8 = 2;

/// The base-128 encoding of an integer: seven bits per byte, least
/// significant group first, the high bit set on every byte but the last.
pub open spec fn varint_bytes(v: u64) -> Seq<u8>
    decreases v,
{
    if v < 128 {
        seq![v as u8]
    } else {
        seq![(v % 128 + 128) as u8] + varint_bytes(v / 128)
    }
}

/// The integer that a field key encodes: the field number above three bits
/// of wire type.
pub open spec fn key_value(tag: u32, wire_type: u8) -> u64 {
    (tag as u64 * 8 + wire_type as u64) as u64
}

/// A field number that a key can carry.
pub open spec fn valid_tag(tag: u32) -> bool {
    1 <= tag <= MAX_TAG
}

/// A signed integer as the 64-bit pattern of its two's complement.
pub open spec fn twos_complement(v: int) -> u64 {
    if v >= 0 {
        v as u64
    } else {
        (v + 0x1_0000_0000_0000_0000) as u64
    }
}

/// What a field holds.
pub enum WireValue {
    Varint(u64),
    Bytes(Seq<u8>),
}

/// One field of a message: its number and what it holds.
pub struct WireField {
    pub tag: u32,
    pub value: WireValue,
}

/// An integer field on the wire: key, then the integer.
pub open spec fn varint_field_bytes(tag: u32, v: u64) -> Seq<u8> {
    varint_bytes(key_value(tag, WIRE_VARINT)) + varint_bytes(v)
}

/// A bytes field on the wire: key, then the length, then the bytes.
pub open spec fn len_field_bytes(tag: u32, payload: Seq<u8>) -> Seq<u8> {
    varint_bytes(key_value(tag, WIRE_BYTES)) + varint_bytes(payload.len() as u64) + payload
}

pub open spec fn field_bytes(f: WireField) -> Seq<u8> {
    match f.value {
        WireValue::Varint(v) => varint_field_bytes(f.tag, v),
        WireValue::Bytes(b) => len_field_bytes(f.tag, b),
    }
}

/// The encoding of a sequence of fields: each field's encoding, in order.
pub open spec fn fields_bytes(fs: Seq<WireField>) -> Seq<u8>
    decreases fs.len(),
{
    if fs.len() == 0 {
        Seq::empty()
    } else {
        fields_bytes(fs.drop_last()) + field_bytes(fs.last())
    }
}

/// An integer field, left out when the integer is zero.
pub open spec fn scalar(tag: u32, v: u64) -> Seq<WireField> {
    if v == 0 {
        Seq::empty()
    } else {
        seq![WireField { tag, value: WireValue::Varint(v) }]
    }
}

/// An integer field that is written whatever the integer.
pub open spec fn scalar_always(tag: u32, v: u64) -> Seq<WireField> {
    seq![WireField { tag, value: WireValue::Varint(v) }]
}

/// A bytes field, left out when there are no bytes.
pub open spec fn blob(tag: u32, b: Seq<u8>) -> Seq<WireField> {
    if b.len() == 0 {
        Seq::empty()
    } else {
        seq![WireField { tag, value: WireValue::Bytes(b) }]
    }
}

/// A nested message, written even when it is empty.
pub open spec fn nested(tag: u32, payload: Seq<u8>) -> Seq<WireField> {
    seq![WireField { tag, value: WireValue::Bytes(payload) }]
}

/// A nested message that may be absent.
pub open spec fn nested_opt(tag: u32, payload: Option<Seq<u8>>) -> Seq<WireField> {
    match payload {
        Some(p) => nested(tag, p),
        None => Seq::empty(),
    }
}

/// A repeated nested message: one field per element, in order.
pub open spec fn repeated(tag: u32, payloads: Seq<Seq<u8>>) -> Seq<WireField> {
    Seq::new(payloads.len(), |i: int| WireField { tag, value: WireValue::Bytes(payloads[i]) })
}

/// The encoding of two runs of fields one after the other is the two
/// encodings one after the other.
pub proof fn lemma_fields_bytes_concat(a: Seq<WireField>, b: Seq<WireField>)
    ensures
        fields_bytes(a + b) == fields_bytes(a) + fields_bytes(b),
    decreases b.len(),
{
    if b.len() == 0 {
        assert(a + b =~= a);
        assert(fields_bytes(a) + fields_bytes(b) =~= fields_bytes(a));
    } else {
        lemma_fields_bytes_concat(a, b.drop_last());
        assert((a + b).drop_last() =~= a + b.drop_last());
        assert((a + b).last() == b.last());
        assert(fields_bytes(a + b) =~= fields_bytes(a) + fields_bytes(b));
    }
}

/// The encoding of a single field.
pub proof fn lemma_fields_bytes_single(f: WireField)
    ensures
        fields_bytes(seq![f]) == field_bytes(f),
{
    assert(seq![f].drop_last() =~= Seq::<WireField>::empty());
    assert(fields_bytes(Seq::<WireField>::empty()) =~= Seq::<u8>::empty());
    assert(fields_bytes(seq![f]) =~= field_bytes(f));
}

/// Writes `value` as field `tag`, through `prost::encoding::uint64::encode`:
/// the key for an integer field, then the integer in base 128, appended to
/// what the buffer holds.
#[verifier::external_body]
fn put_uint64(tag: u32, value: u64, buf: &mut Vec<u8>)
    requires
        valid_tag(tag),
    ensures
        final(buf)@ == old(buf)@ + varint_field_bytes(tag, value),
{
    prost::encoding::uint64::encode(tag, &value, buf)
}

/// Writes `value` as field `tag`, through `prost::encoding::uint32::encode`:
/// as `put_uint64` does for the same number.
#[verifier::external_body]
fn put_uint32(tag: u32, value: u32, buf: &mut Vec<u8>)
    requires
        valid_tag(tag),
    ensures
        final(buf)@ == old(buf)@ + varint_field_bytes(tag, value as u64),
{
    prost::encoding::uint32::encode(tag, &value, buf)
}

/// Writes `value` as field `tag`, through `prost::encoding::int64::encode`:
/// the integer goes out as the 64-bit pattern of its two's complement.
#[verifier::external_body]
fn put_int64(tag: u32, value: i64, buf: &mut Vec<u8>)
    requires
        valid_tag(tag),
    ensures
        final(buf)@ == old(buf)@ + varint_field_bytes(tag, twos_complement(value as int)),
{
    prost::encoding::int64::encode(tag, &value, buf)
}

/// Writes `value` as field `tag`, through `prost::encoding::int32::encode`:
/// the integer is widened to 64 bits with its sign and goes out as that
/// pattern.
#[verifier::external_body]
fn put_int32(tag: u32, value: i32, buf: &mut Vec<u8>)
    requires
        valid_tag(tag),
    ensures
        final(buf)@ == old(buf)@ + varint_field_bytes(tag, twos_complement(value as int)),
{
    prost::encoding::int32::encode(tag, &value, buf)
}

/// Writes `value` as field `tag`, through `prost::encoding::bool::encode`:
/// one for true, zero for false.
#[verifier::external_body]
fn put_bool(tag: u32, value: bool, buf: &mut Vec<u8>)
    requires
        valid_tag(tag),
    ensures
        final(buf)@ == old(buf)@ + varint_field_bytes(
            tag,
            if value {
                1u64
            } else {
                0u64
            },
        ),
{
    prost::encoding::bool::encode(tag, &value, buf)
}

/// Writes `value` as field `tag`, through `prost::encoding::string::encode`:
/// the key for a bytes field, the length of the text in bytes, then the text
/// in UTF-8.
#[verifier::external_body]
fn put_string(tag: u32, value: &String, buf: &mut Vec<u8>)
    requires
        valid_tag(tag),
    ensures
        final(buf)@ == old(buf)@ + len_field_bytes(tag, vstd::utf8::encode_utf8(value@)),
{
    prost::encoding::string::encode(tag, value, buf)
}

/// Writes `value` as field `tag`, through `prost::encoding::bytes::encode`:
/// the key for a bytes field, the number of bytes, then the bytes.
#[verifier::external_body]
fn put_bytes(tag: u32, value: &Vec<u8>, buf: &mut Vec<u8>)
    requires
        valid_tag(tag),
    ensures
        final(buf)@ == old(buf)@ + len_field_bytes(tag, value@),
{
    prost::encoding::bytes::encode(tag, value, buf)
}

/// A message under construction: the bytes written so far, and the fields
/// they encode.
pub struct Writer {
    buf: Vec<u8>,
    fields: Ghost<Seq<WireField>>,
}

impl Writer {
    /// The fields written so far.
    pub closed spec fn fields(&self) -> Seq<WireField> {
        self.fields@
    }

    /// The bytes written so far.
    pub closed spec fn bytes(&self) -> Seq<u8> {
        self.buf@
    }

    /// The bytes are the encoding of the fields.
    pub closed spec fn wf(&self) -> bool {
        self.buf@ == fields_bytes(self.fields@)
    }

    /// A message without fields.
    pub fn new() -> (w: Writer)
        ensures
            w.wf(),
            w.fields() == Seq::<WireField>::empty(),
    {
        Writer { buf: Vec::new(), fields: Ghost(Seq::empty()) }
    }

    /// The encoding of the fields written.
    pub fn finish(self) -> (out: Vec<u8>)
        requires
            self.wf(),
        ensures
            out@ == fields_bytes(self.fields()),
    {
        self.buf
    }

    proof fn lemma_appended(before: Seq<WireField>, f: WireField)
        ensures
            fields_bytes(before + seq![f]) == fields_bytes(before) + field_bytes(f),
    {
        lemma_fields_bytes_concat(before, seq![f]);
        lemma_fields_bytes_single(f);
    }

    /// An unsigned integer field, left out when zero.
    pub fn uint64(&mut self, tag: u32, value: u64)
        requires
            old(self).wf(),
            valid_tag(tag),
        ensures
            final(self).wf(),
            final(self).fields() == old(self).fields() + scalar(tag, value),
    {
        if value != 0 {
            proof {
                Self::lemma_appended(self.fields@, WireField { tag, value: WireValue::Varint(value) });
            }
            put_uint64(tag, value, &mut self.buf);
            self.fields = Ghost(self.fields@ + scalar(tag, value));
        } else {
            assert(self.fields@ + scalar(tag, value) =~= self.fields@);
            self.fields = Ghost(self.fields@ + scalar(tag, value));
        }
    }

    /// An unsigned 32-bit integer field, left out when zero.
    pub fn uint32(&mut self, tag: u32, value: u32)
        requires
            old(self).wf(),
            valid_tag(tag),
        ensures
            final(self).wf(),
            final(self).fields() == old(self).fields() + scalar(tag, value as u64),
    {
        if value != 0 {
            proof {
                Self::lemma_appended(
                    self.fields@,
                    WireField { tag, value: WireValue::Varint(value as u64) },
                );
            }
            put_uint32(tag, value, &mut self.buf);
            self.fields = Ghost(self.fields@ + scalar(tag, value as u64));
        } else {
            assert(self.fields@ + scalar(tag, value as u64) =~= self.fields@);
            self.fields = Ghost(self.fields@ + scalar(tag, value as u64));
        }
    }

    /// A signed integer field, left out when zero.
    pub fn int64(&mut self, tag: u32, value: i64)
        requires
            old(self).wf(),
            valid_tag(tag),
        ensures
            final(self).wf(),
            final(self).fields() == old(self).fields() + scalar(tag, twos_complement(value as int)),
    {
        if value != 0 {
            proof {
                Self::lemma_appended(
                    self.fields@,
                    WireField { tag, value: WireValue::Varint(twos_complement(value as int)) },
                );
            }
            put_int64(tag, value, &mut self.buf);
            self.fields = Ghost(self.fields@ + scalar(tag, twos_complement(value as int)));
        } else {
            assert(self.fields@ + scalar(tag, twos_complement(value as int)) =~= self.fields@);
            self.fields = Ghost(self.fields@ + scalar(tag, twos_complement(value as int)));
        }
    }

    /// A signed integer field that is written even when zero.
    pub fn int64_always(&mut self, tag: u32, value: i64)
        requires
            old(self).wf(),
            valid_tag(tag),
        ensures
            final(self).wf(),
            final(self).fields() == old(self).fields() + scalar_always(
                tag,
                twos_complement(value as int),
            ),
    {
        proof {
            Self::lemma_appended(
                self.fields@,
                WireField { tag, value: WireValue::Varint(twos_complement(value as int)) },
            );
        }
        put_int64(tag, value, &mut self.buf);
        self.fields = Ghost(self.fields@ + scalar_always(tag, twos_complement(value as int)));
    }

    /// A signed 32-bit integer field, left out when zero.
    pub fn int32(&mut self, tag: u32, value: i32)
        requires
            old(self).wf(),
            valid_tag(tag),
        ensures
            final(self).wf(),
            final(self).fields() == old(self).fields() + scalar(tag, twos_complement(value as int)),
    {
        if value != 0 {
            proof {
                Self::lemma_appended(
                    self.fields@,
                    WireField { tag, value: WireValue::Varint(twos_complement(value as int)) },
                );
            }
            put_int32(tag, value, &mut self.buf);
            self.fields = Ghost(self.fields@ + scalar(tag, twos_complement(value as int)));
        } else {
            assert(self.fields@ + scalar(tag, twos_complement(value as int)) =~= self.fields@);
            self.fields = Ghost(self.fields@ + scalar(tag, twos_complement(value as int)));
        }
    }

    /// A truth value, left out when false.
    pub fn boolean(&mut self, tag: u32, value: bool)
        requires
            old(self).wf(),
            valid_tag(tag),
        ensures
            final(self).wf(),
            final(self).fields() == old(self).fields() + scalar(
                tag,
                if value {
                    1u64
                } else {
                    0u64
                },
            ),
    {
        if value {
            proof {
                Self::lemma_appended(self.fields@, WireField { tag, value: WireValue::Varint(1) });
            }
            put_bool(tag, value, &mut self.buf);
            self.fields = Ghost(self.fields@ + scalar(tag, 1));
        } else {
            assert(self.fields@ + scalar(tag, 0) =~= self.fields@);
            self.fields = Ghost(self.fields@ + scalar(tag, 0));
        }
    }

    /// A text field in UTF-8, left out when the text is empty.
    pub fn string(&mut self, tag: u32, value: &String)
        requires
            old(self).wf(),
            valid_tag(tag),
        ensures
            final(self).wf(),
            final(self).fields() == old(self).fields() + blob(tag, vstd::utf8::encode_utf8(value@)),
    {
        let ghost utf8 = vstd::utf8::encode_utf8(value@);
        if !value.as_str().is_empty() {
            proof {
                Self::lemma_appended(self.fields@, WireField { tag, value: WireValue::Bytes(utf8) });
            }
            put_string(tag, value, &mut self.buf);
            self.fields = Ghost(self.fields@ + blob(tag, utf8));
        } else {
            assert(self.fields@ + blob(tag, utf8) =~= self.fields@);
            self.fields = Ghost(self.fields@ + blob(tag, utf8));
        }
    }

    /// A bytes field, left out when there are no bytes.
    pub fn bytes_field(&mut self, tag: u32, value: &Vec<u8>)
        requires
            old(self).wf(),
            valid_tag(tag),
        ensures
            final(self).wf(),
            final(self).fields() == old(self).fields() + blob(tag, value@),
    {
        if value.len() != 0 {
            proof {
                Self::lemma_appended(self.fields@, WireField { tag, value: WireValue::Bytes(value@) });
            }
            put_bytes(tag, value, &mut self.buf);
            self.fields = Ghost(self.fields@ + blob(tag, value@));
        } else {
            assert(self.fields@ + blob(tag, value@) =~= self.fields@);
            self.fields = Ghost(self.fields@ + blob(tag, value@));
        }
    }

    /// A nested message, given by its encoding; written even when empty.
    pub fn message(&mut self, tag: u32, payload: &Vec<u8>)
        requires
            old(self).wf(),
            valid_tag(tag),
        ensures
            final(self).wf(),
            final(self).fields() == old(self).fields() + nested(tag, payload@),
    {
        proof {
            Self::lemma_appended(self.fields@, WireField { tag, value: WireValue::Bytes(payload@) });
        }
        put_bytes(tag, payload, &mut self.buf);
        self.fields = Ghost(self.fields@ + nested(tag, payload@));
    }
}

} // verus!
