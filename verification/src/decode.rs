//! Reading canonical messages back from their wire form.
//!
//! A message is read field by field: a field that is absent leaves its
//! default, a number that occurs twice counts where it occurs last, and
//! fields of unknown numbers are passed over. What was written by the
//! encoder is read back as it was.

use vstd::prelude::*;
use vstd::utf8::{decode_utf8, encode_utf8, valid_utf8};
use crate::bytes::copy_bytes;
use crate::canonical::{
    commit_sig_views, validator_views, BlockIdFlag, CanonicalBlockId, CanonicalBlockIdView,
    CanonicalPartSetHeader, CanonicalPartSetHeaderView, ClientState, ClientStateView, Commit,
    CommitSig, CommitSigView, CommitView, Consensus, ConsensusState, ConsensusStateView, Duration,
    Fraction, LightHeader, LightHeaderView, MerkleRoot, MerkleRootView, SignedHeader,
    SignedHeaderView, Timestamp, TmHeader, TmHeaderView, Validator, ValidatorSet,
    ValidatorSetView, ValidatorView,
};
use crate::lookup::{
    all_bytes, as_i32, as_i64, as_u32, bytes_or_none, find_bytes, find_varint, group_lookup,
    last_bytes, last_varint, lemma_append_blob, lemma_append_nested,
    lemma_append_nested_opt, lemma_append_repeated, lemma_append_scalar,
    lemma_append_scalar_always, lemma_no_fields, tags_valid, to_i32, to_i64, to_u32,
    varint_or_zero,
};
use crate::parse::{
    field_views, lemma_field_bytes_len, lemma_parse_fields_written, parse_fields, read_fields,
    Field, Value,
};
use crate::proto::{
    any_bytes, any_fields, block_id_fields, bool_value, client_state_fields, commit_fields,
    commit_sig_fields, commit_sig_payloads, consensus_fields, consensus_state_fields,
    duration_fields, fraction_fields, light_header_fields, merkle_root_fields, optional_block_id,
    optional_priority, optional_validator_set, part_set_header_fields,
    signed_header_fields, timestamp_fields, tm_header_fields, validator_fields,
    validator_payloads, validator_set_fields,
};
use crate::source::SourceSignedHeader;
use crate::types::{canonical_signed_header, signed_header_defect};
use crate::wire::{
    blob, fields_bytes, lemma_fields_bytes_concat, lemma_fields_bytes_single, nested,
    nested_opt, repeated, scalar, WireField, WireValue,
};

verus! {

/// The encoding of two runs of fields is as long as the two encodings together.
pub broadcast proof fn lemma_len_concat(a: Seq<WireField>, b: Seq<WireField>)
    ensures
        #[trigger] fields_bytes(a + b).len() == fields_bytes(a).len() + fields_bytes(b).len(),
{
    lemma_fields_bytes_concat(a, b);
}

/// A nested message is no longer than the field that holds it.
pub broadcast proof fn lemma_len_nested(tag: u32, payload: Seq<u8>)
    ensures
        payload.len() <= #[trigger] fields_bytes(nested(tag, payload)).len(),
{
    let f = WireField { tag, value: WireValue::Bytes(payload) };
    lemma_fields_bytes_single(f);
    lemma_field_bytes_len(f);
}

/// No element of a repeated field is longer than the field as a whole.
pub proof fn lemma_len_repeated(tag: u32, payloads: Seq<Seq<u8>>, i: int)
    requires
        0 <= i < payloads.len(),
    ensures
        payloads[i].len() <= fields_bytes(repeated(tag, payloads)).len(),
    decreases payloads.len(),
{
    let fs = repeated(tag, payloads);
    assert(fs.drop_last() =~= repeated(tag, payloads.drop_last()));
    lemma_field_bytes_len(fs.last());
    if i < payloads.len() - 1 {
        lemma_len_repeated(tag, payloads.drop_last(), i);
    }
}

/// Text from bytes, through `String::from_utf8`: the text that the bytes
/// encode in UTF-8, and none where they encode none.
#[verifier::external_body]
fn text_from_utf8(bytes: Vec<u8>) -> (out: Option<String>)
    ensures
        match out {
            Some(text) => valid_utf8(bytes@) && text@ == decode_utf8(bytes@),
            None => !valid_utf8(bytes@),
        },
{
    String::from_utf8(bytes).ok()
}

/// The bytes of field `tag` among the fields; none where the field is absent.
fn bytes_of(fields: &Vec<Field>, tag: u32) -> (out: Vec<u8>)
    ensures
        out@ == bytes_or_none(field_views(fields@), tag),
{
    match find_bytes(fields, tag) {
        Some(b) => copy_bytes(b),
        None => Vec::new(),
    }
}

/// The integer of field `tag` among the fields; zero where the field is absent.
fn varint_of(fields: &Vec<Field>, tag: u32) -> (out: u64)
    ensures
        out == varint_or_zero(field_views(fields@), tag),
{
    match find_varint(fields, tag) {
        Some(v) => v,
        None => 0,
    }
}

pub open spec fn timestamp_of(fs: Seq<WireField>) -> Timestamp {
    Timestamp { seconds: as_i64(varint_or_zero(fs, 1)), nanos: as_i32(varint_or_zero(fs, 2)) }
}

/// The time that the bytes are the wire form of.
pub open spec fn parse_timestamp(bytes: Seq<u8>) -> Option<Timestamp> {
    match parse_fields(bytes) {
        Some(fs) => Some(timestamp_of(fs)),
        None => None,
    }
}

/// Reads a time.
pub fn decode_timestamp(bytes: &[u8]) -> (out: Option<Timestamp>)
    ensures
        out == parse_timestamp(bytes@),
{
    match read_fields(bytes) {
        Some(fields) => Some(
            Timestamp { seconds: to_i64(varint_of(&fields, 1)), nanos: to_i32(varint_of(&fields, 2)) },
        ),
        None => None,
    }
}

/// A time that was written is read back as it was.
pub proof fn lemma_timestamp_back(t: Timestamp)
    requires
        fields_bytes(timestamp_fields(t)).len() <= u64::MAX,
    ensures
        parse_timestamp(fields_bytes(timestamp_fields(t))) == Some(t),
{
    broadcast use group_lookup;

    let fs = timestamp_fields(t);
    assert(tags_valid(fs));
    lemma_parse_fields_written(fs);
}

pub open spec fn consensus_of(fs: Seq<WireField>) -> Consensus {
    Consensus { block: varint_or_zero(fs, 1), app: varint_or_zero(fs, 2) }
}

/// The versions that the bytes are the wire form of.
pub open spec fn parse_consensus(bytes: Seq<u8>) -> Option<Consensus> {
    match parse_fields(bytes) {
        Some(fs) => Some(consensus_of(fs)),
        None => None,
    }
}

/// Reads a pair of versions.
pub fn decode_consensus(bytes: &[u8]) -> (out: Option<Consensus>)
    ensures
        out == parse_consensus(bytes@),
{
    match read_fields(bytes) {
        Some(fields) => Some(
            Consensus { block: varint_of(&fields, 1), app: varint_of(&fields, 2) },
        ),
        None => None,
    }
}

/// Versions that were written are read back as they were.
pub proof fn lemma_consensus_back(c: Consensus)
    requires
        fields_bytes(consensus_fields(c)).len() <= u64::MAX,
    ensures
        parse_consensus(fields_bytes(consensus_fields(c))) == Some(c),
{
    broadcast use group_lookup;

    let fs = consensus_fields(c);
    assert(tags_valid(fs));
    lemma_parse_fields_written(fs);
}

pub open spec fn part_set_header_of(fs: Seq<WireField>) -> CanonicalPartSetHeaderView {
    CanonicalPartSetHeaderView { total: as_u32(varint_or_zero(fs, 1)), hash: bytes_or_none(fs, 2) }
}

/// The part set header that the bytes are the wire form of.
pub open spec fn parse_part_set_header(bytes: Seq<u8>) -> Option<CanonicalPartSetHeaderView> {
    match parse_fields(bytes) {
        Some(fs) => Some(part_set_header_of(fs)),
        None => None,
    }
}

/// Reads a part set header.
pub fn decode_part_set_header(bytes: &[u8]) -> (out: Option<CanonicalPartSetHeader>)
    ensures
        match out {
            Some(p) => parse_part_set_header(bytes@) == Some(p@),
            None => parse_part_set_header(bytes@) is None,
        },
{
    match read_fields(bytes) {
        Some(fields) => Some(
            CanonicalPartSetHeader {
                total: to_u32(varint_of(&fields, 1)),
                hash: bytes_of(&fields, 2),
            },
        ),
        None => None,
    }
}

/// A part set header that was written is read back as it was.
pub proof fn lemma_part_set_header_back(p: CanonicalPartSetHeaderView)
    requires
        fields_bytes(part_set_header_fields(p)).len() <= u64::MAX,
    ensures
        parse_part_set_header(fields_bytes(part_set_header_fields(p))) == Some(p),
{
    broadcast use group_lookup;

    let fs = part_set_header_fields(p);
    assert(tags_valid(fs));
    lemma_parse_fields_written(fs);
    assert(part_set_header_of(fs).hash =~= p.hash);
}

pub open spec fn block_id_of(fs: Seq<WireField>) -> Option<CanonicalBlockIdView> {
    match parse_part_set_header(bytes_or_none(fs, 2)) {
        Some(part_set_header) => Some(
            CanonicalBlockIdView { hash: bytes_or_none(fs, 1), part_set_header },
        ),
        None => None,
    }
}

/// The block identity that the bytes are the wire form of.
pub open spec fn parse_block_id(bytes: Seq<u8>) -> Option<CanonicalBlockIdView> {
    match parse_fields(bytes) {
        Some(fs) => block_id_of(fs),
        None => None,
    }
}

/// Reads a block identity.
pub fn decode_block_id(bytes: &[u8]) -> (out: Option<CanonicalBlockId>)
    ensures
        match out {
            Some(id) => parse_block_id(bytes@) == Some(id@),
            None => parse_block_id(bytes@) is None,
        },
{
    let fields = match read_fields(bytes) {
        Some(fields) => fields,
        None => {
            return None;
        },
    };
    let parts = bytes_of(&fields, 2);
    match decode_part_set_header(parts.as_slice()) {
        Some(part_set_header) => Some(
            CanonicalBlockId { hash: bytes_of(&fields, 1), part_set_header },
        ),
        None => None,
    }
}

/// A block identity that was written is read back as it was.
pub proof fn lemma_block_id_back(id: CanonicalBlockIdView)
    requires
        fields_bytes(block_id_fields(id)).len() <= u64::MAX,
    ensures
        parse_block_id(fields_bytes(block_id_fields(id))) == Some(id),
{
    broadcast use group_lookup;
    broadcast use lemma_len_concat;
    broadcast use lemma_len_nested;

    let fs = block_id_fields(id);
    assert(tags_valid(fs));
    lemma_parse_fields_written(fs);
    lemma_part_set_header_back(id.part_set_header);
    assert(block_id_of(fs)->0.hash =~= id.hash);
}

/// The timestamp of an optional field: none where the field is absent.
pub open spec fn optional_timestamp_of(field: Option<Seq<u8>>) -> Option<Option<Timestamp>> {
    match field {
        None => Some(None),
        Some(b) => match parse_timestamp(b) {
            Some(t) => Some(Some(t)),
            None => None,
        },
    }
}

pub open spec fn commit_sig_of(fs: Seq<WireField>) -> Option<CommitSigView> {
    match (
        BlockIdFlag::spec_from_code(as_i32(varint_or_zero(fs, 1)) as int),
        optional_timestamp_of(last_bytes(fs, 3)),
    ) {
        (Some(block_id_flag), Some(timestamp)) => Some(
            CommitSigView {
                block_id_flag,
                validator_address: bytes_or_none(fs, 2),
                timestamp,
                signature: bytes_or_none(fs, 4),
            },
        ),
        _ => None,
    }
}

/// The commit entry that the bytes are the wire form of.
pub open spec fn parse_commit_sig(bytes: Seq<u8>) -> Option<CommitSigView> {
    match parse_fields(bytes) {
        Some(fs) => commit_sig_of(fs),
        None => None,
    }
}

/// Reads a commit entry.
pub fn decode_commit_sig(bytes: &[u8]) -> (out: Option<CommitSig>)
    ensures
        match out {
            Some(sig) => parse_commit_sig(bytes@) == Some(sig@),
            None => parse_commit_sig(bytes@) is None,
        },
{
    let fields = match read_fields(bytes) {
        Some(fields) => fields,
        None => {
            return None;
        },
    };
    let block_id_flag = match BlockIdFlag::from_code(to_i32(varint_of(&fields, 1))) {
        Some(flag) => flag,
        None => {
            return None;
        },
    };
    let timestamp = match find_bytes(&fields, 3) {
        Some(b) => match decode_timestamp(b.as_slice()) {
            Some(t) => Some(t),
            None => {
                return None;
            },
        },
        None => None,
    };
    Some(
        CommitSig {
            block_id_flag,
            validator_address: bytes_of(&fields, 2),
            timestamp,
            signature: bytes_of(&fields, 4),
        },
    )
}

/// A commit entry that was written is read back as it was.
pub proof fn lemma_commit_sig_back(sig: CommitSigView)
    requires
        fields_bytes(commit_sig_fields(sig)).len() <= u64::MAX,
    ensures
        parse_commit_sig(fields_bytes(commit_sig_fields(sig))) == Some(sig),
{
    broadcast use group_lookup;
    broadcast use lemma_len_concat;
    broadcast use lemma_len_nested;

    let fs = commit_sig_fields(sig);
    assert(tags_valid(fs));
    lemma_parse_fields_written(fs);
    match sig.timestamp {
        Some(t) => {
            lemma_timestamp_back(t);
        },
        None => {},
    }
    let back = commit_sig_of(fs);
    assert(back is Some);
    assert(back->0.validator_address =~= sig.validator_address);
    assert(back->0.signature =~= sig.signature);
}

/// The block identity of an optional field: none where the field is absent.
pub open spec fn optional_block_id_of(field: Option<Seq<u8>>) -> Option<
    Option<CanonicalBlockIdView>,
> {
    match field {
        None => Some(None),
        Some(b) => match parse_block_id(b) {
            Some(id) => Some(Some(id)),
            None => None,
        },
    }
}

pub open spec fn light_header_of(fs: Seq<WireField>) -> Option<LightHeaderView> {
    if !valid_utf8(bytes_or_none(fs, 2)) {
        None
    } else {
        match (
            parse_consensus(bytes_or_none(fs, 1)),
            parse_timestamp(bytes_or_none(fs, 4)),
            optional_block_id_of(last_bytes(fs, 5)),
        ) {
            (Some(version), Some(time), Some(last_block_id)) => Some(
                LightHeaderView {
                    version,
                    chain_id: decode_utf8(bytes_or_none(fs, 2)),
                    height: varint_or_zero(fs, 3),
                    time,
                    last_block_id,
                    last_commit_hash: bytes_or_none(fs, 6),
                    data_hash: bytes_or_none(fs, 7),
                    validators_hash: bytes_or_none(fs, 8),
                    next_validators_hash: bytes_or_none(fs, 9),
                    consensus_hash: bytes_or_none(fs, 10),
                    app_hash: bytes_or_none(fs, 11),
                    last_results_hash: bytes_or_none(fs, 12),
                    evidence_hash: bytes_or_none(fs, 13),
                    proposer_address: bytes_or_none(fs, 14),
                },
            ),
            _ => None,
        }
    }
}

/// The header that the bytes are the wire form of.
pub open spec fn parse_light_header(bytes: Seq<u8>) -> Option<LightHeaderView> {
    match parse_fields(bytes) {
        Some(fs) => light_header_of(fs),
        None => None,
    }
}

/// Reads a header.
pub fn decode_light_header(bytes: &[u8]) -> (out: Option<LightHeader>)
    ensures
        match out {
            Some(h) => parse_light_header(bytes@) == Some(h@),
            None => parse_light_header(bytes@) is None,
        },
{
    let fields = match read_fields(bytes) {
        Some(fields) => fields,
        None => {
            return None;
        },
    };
    let chain_id = match text_from_utf8(bytes_of(&fields, 2)) {
        Some(text) => text,
        None => {
            return None;
        },
    };
    let version = match decode_consensus(bytes_of(&fields, 1).as_slice()) {
        Some(version) => version,
        None => {
            return None;
        },
    };
    let time = match decode_timestamp(bytes_of(&fields, 4).as_slice()) {
        Some(time) => time,
        None => {
            return None;
        },
    };
    let last_block_id = match find_bytes(&fields, 5) {
        Some(b) => match decode_block_id(b.as_slice()) {
            Some(id) => Some(id),
            None => {
                return None;
            },
        },
        None => None,
    };
    Some(
        LightHeader {
            version,
            chain_id,
            height: varint_of(&fields, 3),
            time,
            last_block_id,
            last_commit_hash: bytes_of(&fields, 6),
            data_hash: bytes_of(&fields, 7),
            validators_hash: bytes_of(&fields, 8),
            next_validators_hash: bytes_of(&fields, 9),
            consensus_hash: bytes_of(&fields, 10),
            app_hash: bytes_of(&fields, 11),
            last_results_hash: bytes_of(&fields, 12),
            evidence_hash: bytes_of(&fields, 13),
            proposer_address: bytes_of(&fields, 14),
        },
    )
}

/// Text comes back from its UTF-8 form, and no text has the form of none.
pub proof fn lemma_text_back(text: Seq<char>)
    ensures
        valid_utf8(encode_utf8(text)),
        decode_utf8(encode_utf8(text)) == text,
        encode_utf8(text).len() == 0 ==> text.len() == 0,
        valid_utf8(Seq::<u8>::empty()),
        decode_utf8(Seq::<u8>::empty()) == Seq::<char>::empty(),
{
    vstd::utf8::encode_utf8_valid_utf8(text);
    vstd::utf8::encode_utf8_decode_utf8(text);
    let none = Seq::<char>::empty();
    vstd::utf8::encode_utf8_valid_utf8(none);
    vstd::utf8::encode_utf8_decode_utf8(none);
    assert(encode_utf8(none) =~= Seq::<u8>::empty());
}

/// A header that was written is read back as it was.
pub proof fn lemma_light_header_back(h: LightHeaderView)
    requires
        fields_bytes(light_header_fields(h)).len() <= u64::MAX,
    ensures
        parse_light_header(fields_bytes(light_header_fields(h))) == Some(h),
{
    let version = fields_bytes(consensus_fields(h.version));
    let time = fields_bytes(timestamp_fields(h.time));
    let last = optional_block_id(h.last_block_id);
    let none = Seq::<WireField>::empty();
    let upto1 = nested(1, version);
    let upto2 = upto1 + blob(2, encode_utf8(h.chain_id));
    let upto3 = upto2 + scalar(3, h.height);
    let upto4 = upto3 + nested(4, time);
    let upto5 = upto4 + nested_opt(5, last);
    let upto6 = upto5 + blob(6, h.last_commit_hash);
    let upto7 = upto6 + blob(7, h.data_hash);
    let upto8 = upto7 + blob(8, h.validators_hash);
    let upto9 = upto8 + blob(9, h.next_validators_hash);
    let upto10 = upto9 + blob(10, h.consensus_hash);
    let upto11 = upto10 + blob(11, h.app_hash);
    let upto12 = upto11 + blob(12, h.last_results_hash);
    let upto13 = upto12 + blob(13, h.evidence_hash);
    let fs = upto13 + blob(14, h.proposer_address);
    assert(fs == light_header_fields(h));
    lemma_no_fields(upto1);
    lemma_append_nested(none, 1, version);
    lemma_append_blob(upto1, 2, encode_utf8(h.chain_id));
    lemma_append_scalar(upto2, 3, h.height);
    lemma_append_nested(upto3, 4, time);
    lemma_append_nested_opt(upto4, 5, last);
    lemma_append_blob(upto5, 6, h.last_commit_hash);
    lemma_append_blob(upto6, 7, h.data_hash);
    lemma_append_blob(upto7, 8, h.validators_hash);
    lemma_append_blob(upto8, 9, h.next_validators_hash);
    lemma_append_blob(upto9, 10, h.consensus_hash);
    lemma_append_blob(upto10, 11, h.app_hash);
    lemma_append_blob(upto11, 12, h.last_results_hash);
    lemma_append_blob(upto12, 13, h.evidence_hash);
    lemma_append_blob(upto13, 14, h.proposer_address);
    assert(tags_valid(fs));
    lemma_parse_fields_written(fs);
    lemma_consensus_back(h.version);
    lemma_timestamp_back(h.time);
    lemma_text_back(h.chain_id);
    match h.last_block_id {
        Some(id) => {
            lemma_block_id_back(id);
        },
        None => {},
    }
    assert(bytes_or_none(fs, 1) == version);
    assert(bytes_or_none(fs, 4) == time);
    assert(last_bytes(fs, 5) == last);
    assert(bytes_or_none(fs, 2) =~= encode_utf8(h.chain_id));
    assert(varint_or_zero(fs, 3) == h.height);
    let back = light_header_of(fs);
    assert(back is Some);
    let got = back->0;
    assert(got.chain_id =~= h.chain_id);
    assert(got.last_commit_hash =~= h.last_commit_hash);
    assert(got.data_hash =~= h.data_hash);
    assert(got.validators_hash =~= h.validators_hash);
    assert(got.next_validators_hash =~= h.next_validators_hash);
    assert(got.consensus_hash =~= h.consensus_hash);
    assert(got.app_hash =~= h.app_hash);
    assert(got.last_results_hash =~= h.last_results_hash);
    assert(got.evidence_hash =~= h.evidence_hash);
    assert(got.proposer_address =~= h.proposer_address);
}

/// The commit entries that a run of wire forms stands for, in order; none
/// where one of them stands for none.
pub open spec fn parse_commit_sigs(payloads: Seq<Seq<u8>>) -> Option<Seq<CommitSigView>>
    decreases payloads.len(),
{
    if payloads.len() == 0 {
        Some(Seq::empty())
    } else {
        match (parse_commit_sigs(payloads.drop_last()), parse_commit_sig(payloads.last())) {
            (Some(rest), Some(sig)) => Some(rest.push(sig)),
            _ => None,
        }
    }
}

/// Where the first of two runs stands for no entries, neither do both together.
proof fn lemma_commit_sigs_prefix(a: Seq<Seq<u8>>, b: Seq<Seq<u8>>)
    requires
        parse_commit_sigs(a) is None,
    ensures
        parse_commit_sigs(a + b) is None,
    decreases b.len(),
{
    if b.len() == 0 {
        assert(a + b =~= a);
    } else {
        assert((a + b).drop_last() =~= a + b.drop_last());
        lemma_commit_sigs_prefix(a, b.drop_last());
    }
}

/// Commit entries that were written are read back as they were.
pub proof fn lemma_commit_sigs_back(sigs: Seq<CommitSigView>)
    requires
        forall|i: int| 0 <= i < sigs.len() ==> (#[trigger] commit_sig_payloads(sigs)[i]).len()
            <= u64::MAX,
    ensures
        parse_commit_sigs(commit_sig_payloads(sigs)) == Some(sigs),
    decreases sigs.len(),
{
    let payloads = commit_sig_payloads(sigs);
    if sigs.len() > 0 {
        let rest = sigs.drop_last();
        assert(payloads.drop_last() =~= commit_sig_payloads(rest));
        assert forall|i: int| 0 <= i < rest.len() implies (#[trigger] commit_sig_payloads(
            rest,
        )[i]).len() <= u64::MAX by {
            assert(commit_sig_payloads(rest)[i] == payloads[i]);
        }
        lemma_commit_sigs_back(rest);
        assert(payloads[sigs.len() - 1].len() <= u64::MAX);
        lemma_commit_sig_back(sigs.last());
        assert(rest.push(sigs.last()) =~= sigs);
    } else {
        assert(sigs =~= Seq::<CommitSigView>::empty());
    }
}

/// Reads the commit entries among the fields: every bytes field `tag`, in order.
fn decode_commit_sigs(fields: &Vec<Field>, tag: u32) -> (out: Option<Vec<CommitSig>>)
    ensures
        match out {
            Some(sigs) => parse_commit_sigs(all_bytes(field_views(fields@), tag)) == Some(
                commit_sig_views(sigs@),
            ),
            None => parse_commit_sigs(all_bytes(field_views(fields@), tag)) is None,
        },
{
    let ghost views = field_views(fields@);
    let mut sigs: Vec<CommitSig> = Vec::new();
    let mut i: usize = 0;
    assert(views.take(0) =~= Seq::<WireField>::empty());
    assert(commit_sig_views(sigs@) =~= Seq::<CommitSigView>::empty());
    while i < fields.len()
        invariant
            i <= fields.len(),
            views == field_views(fields@),
            parse_commit_sigs(all_bytes(views.take(i as int), tag)) == Some(
                commit_sig_views(sigs@),
            ),
        decreases fields.len() - i,
    {
        let ghost before = commit_sig_views(sigs@);
        let ghost seen = all_bytes(views.take(i as int), tag);
        assert(views.take(i + 1).drop_last() =~= views.take(i as int));
        assert(views.take(i + 1).last() == fields@[i as int]@);
        if fields[i].tag == tag {
            match &fields[i].value {
                Value::Bytes(b) => {
                    assert(all_bytes(views.take(i + 1), tag) == seen.push(b@));
                    assert(seen.push(b@).drop_last() =~= seen);
                    assert(seen.push(b@).last() == b@);
                    match decode_commit_sig(b.as_slice()) {
                        Some(sig) => {
                            sigs.push(sig);
                            assert(commit_sig_views(sigs@) =~= before.push(sig@));
                        },
                        None => {
                            proof {
                                assert(views =~= views.take(i + 1) + views.skip(i + 1));
                                crate::lookup::lemma_all_bytes_concat(
                                    views.take(i + 1),
                                    views.skip(i + 1),
                                    tag,
                                );
                                lemma_commit_sigs_prefix(
                                    all_bytes(views.take(i + 1), tag),
                                    all_bytes(views.skip(i + 1), tag),
                                );
                            }
                            return None;
                        },
                    }
                },
                Value::Varint(_) => {},
            }
        }
        i += 1;
    }
    assert(views.take(i as int) =~= views);
    Some(sigs)
}

pub open spec fn commit_of(fs: Seq<WireField>) -> Option<CommitView> {
    match (parse_block_id(bytes_or_none(fs, 3)), parse_commit_sigs(all_bytes(fs, 4))) {
        (Some(block_id), Some(signatures)) => Some(
            CommitView {
                height: varint_or_zero(fs, 1),
                round: as_i32(varint_or_zero(fs, 2)),
                block_id,
                signatures,
            },
        ),
        _ => None,
    }
}

/// The commit that the bytes are the wire form of.
pub open spec fn parse_commit(bytes: Seq<u8>) -> Option<CommitView> {
    match parse_fields(bytes) {
        Some(fs) => commit_of(fs),
        None => None,
    }
}

/// Reads a commit.
pub fn decode_commit(bytes: &[u8]) -> (out: Option<Commit>)
    ensures
        match out {
            Some(c) => parse_commit(bytes@) == Some(c@),
            None => parse_commit(bytes@) is None,
        },
{
    let fields = match read_fields(bytes) {
        Some(fields) => fields,
        None => {
            return None;
        },
    };
    let block_id = match decode_block_id(bytes_of(&fields, 3).as_slice()) {
        Some(id) => id,
        None => {
            return None;
        },
    };
    let signatures = match decode_commit_sigs(&fields, 4) {
        Some(sigs) => sigs,
        None => {
            return None;
        },
    };
    Some(
        Commit {
            height: varint_of(&fields, 1),
            round: to_i32(varint_of(&fields, 2)),
            block_id,
            signatures,
        },
    )
}

/// A commit that was written is read back as it was.
pub proof fn lemma_commit_back(c: CommitView)
    requires
        fields_bytes(commit_fields(c)).len() <= u64::MAX,
    ensures
        parse_commit(fields_bytes(commit_fields(c))) == Some(c),
{
    broadcast use crate::lookup::lemma_i32_back;

    let id = fields_bytes(block_id_fields(c.block_id));
    let payloads = commit_sig_payloads(c.signatures);
    let none = Seq::<WireField>::empty();
    let upto1 = scalar(1, c.height);
    let upto2 = upto1 + scalar(2, crate::wire::twos_complement(c.round as int));
    let upto3 = upto2 + nested(3, id);
    let fs = upto3 + repeated(4, payloads);
    assert(fs == commit_fields(c));
    lemma_no_fields(upto1);
    lemma_append_scalar(none, 1, c.height);
    lemma_append_scalar(upto1, 2, crate::wire::twos_complement(c.round as int));
    lemma_append_nested(upto2, 3, id);
    lemma_append_repeated(upto3, 4, payloads);
    assert(tags_valid(fs));
    lemma_parse_fields_written(fs);
    lemma_block_id_back(c.block_id);
    assert forall|i: int| 0 <= i < c.signatures.len() implies (#[trigger] payloads[i]).len()
        <= u64::MAX by {
        lemma_len_repeated(4, payloads, i);
    }
    lemma_commit_sigs_back(c.signatures);
    assert(all_bytes(fs, 4) =~= payloads);
    assert(bytes_or_none(fs, 3) == id);
}

pub open spec fn signed_header_of(fs: Seq<WireField>) -> Option<SignedHeaderView> {
    match (parse_light_header(bytes_or_none(fs, 1)), parse_commit(bytes_or_none(fs, 2))) {
        (Some(header), Some(commit)) => Some(SignedHeaderView { header, commit }),
        _ => None,
    }
}

/// The signed header that the bytes are the wire form of.
pub open spec fn parse_signed_header(bytes: Seq<u8>) -> Option<SignedHeaderView> {
    match parse_fields(bytes) {
        Some(fs) => signed_header_of(fs),
        None => None,
    }
}

/// Reads a signed header.
pub fn decode_signed_header(bytes: &[u8]) -> (out: Option<SignedHeader>)
    ensures
        match out {
            Some(sh) => parse_signed_header(bytes@) == Some(sh@),
            None => parse_signed_header(bytes@) is None,
        },
{
    let fields = match read_fields(bytes) {
        Some(fields) => fields,
        None => {
            return None;
        },
    };
    let header = match decode_light_header(bytes_of(&fields, 1).as_slice()) {
        Some(header) => header,
        None => {
            return None;
        },
    };
    let commit = match decode_commit(bytes_of(&fields, 2).as_slice()) {
        Some(commit) => commit,
        None => {
            return None;
        },
    };
    Some(SignedHeader { header, commit })
}

/// A signed header that was written is read back as it was.
pub proof fn lemma_signed_header_back(sh: SignedHeaderView)
    requires
        fields_bytes(signed_header_fields(sh)).len() <= u64::MAX,
    ensures
        parse_signed_header(fields_bytes(signed_header_fields(sh))) == Some(sh),
{
    let header = fields_bytes(light_header_fields(sh.header));
    let commit = fields_bytes(commit_fields(sh.commit));
    let none = Seq::<WireField>::empty();
    let upto1 = nested(1, header);
    let fs = upto1 + nested(2, commit);
    assert(fs == signed_header_fields(sh));
    lemma_no_fields(upto1);
    lemma_append_nested(none, 1, header);
    lemma_append_nested(upto1, 2, commit);
    assert(tags_valid(fs));
    lemma_parse_fields_written(fs);
    lemma_light_header_back(sh.header);
    lemma_commit_back(sh.commit);
}

pub open spec fn validator_of(fs: Seq<WireField>) -> ValidatorView {
    ValidatorView {
        address: bytes_or_none(fs, 1),
        pub_key: bytes_or_none(fs, 2),
        voting_power: varint_or_zero(fs, 3),
        proposer_priority: match last_varint(fs, 4) {
            Some(v) => Some(as_i64(v)),
            None => None,
        },
    }
}

/// The validator that the bytes are the wire form of.
pub open spec fn parse_validator(bytes: Seq<u8>) -> Option<ValidatorView> {
    match parse_fields(bytes) {
        Some(fs) => Some(validator_of(fs)),
        None => None,
    }
}

/// Reads a validator.
pub fn decode_validator(bytes: &[u8]) -> (out: Option<Validator>)
    ensures
        match out {
            Some(v) => parse_validator(bytes@) == Some(v@),
            None => parse_validator(bytes@) is None,
        },
{
    match read_fields(bytes) {
        Some(fields) => Some(
            Validator {
                address: bytes_of(&fields, 1),
                pub_key: bytes_of(&fields, 2),
                voting_power: varint_of(&fields, 3),
                proposer_priority: match find_varint(&fields, 4) {
                    Some(v) => Some(to_i64(v)),
                    None => None,
                },
            },
        ),
        None => None,
    }
}

/// A validator that was written is read back as it was.
pub proof fn lemma_validator_back(v: ValidatorView)
    requires
        fields_bytes(validator_fields(v)).len() <= u64::MAX,
    ensures
        parse_validator(fields_bytes(validator_fields(v))) == Some(v),
{
    broadcast use crate::lookup::lemma_i64_back;

    let none = Seq::<WireField>::empty();
    let upto1 = blob(1, v.address);
    let upto2 = upto1 + blob(2, v.pub_key);
    let upto3 = upto2 + scalar(3, v.voting_power);
    let fs = upto3 + optional_priority(v.proposer_priority);
    assert(fs == validator_fields(v));
    lemma_no_fields(upto1);
    lemma_append_blob(none, 1, v.address);
    lemma_append_blob(upto1, 2, v.pub_key);
    lemma_append_scalar(upto2, 3, v.voting_power);
    match v.proposer_priority {
        Some(p) => {
            lemma_append_scalar_always(upto3, 4, crate::wire::twos_complement(p as int));
        },
        None => {
            assert(fs =~= upto3);
        },
    }
    assert(tags_valid(fs));
    lemma_parse_fields_written(fs);
    let got = validator_of(fs);
    assert(got.address =~= v.address);
    assert(got.pub_key =~= v.pub_key);
}

/// The validators that a run of wire forms stands for, in order; none where
/// one of them stands for none.
pub open spec fn parse_validators(payloads: Seq<Seq<u8>>) -> Option<Seq<ValidatorView>>
    decreases payloads.len(),
{
    if payloads.len() == 0 {
        Some(Seq::empty())
    } else {
        match (parse_validators(payloads.drop_last()), parse_validator(payloads.last())) {
            (Some(rest), Some(v)) => Some(rest.push(v)),
            _ => None,
        }
    }
}

/// Where the first of two runs stands for no validators, neither do both together.
proof fn lemma_validators_prefix(a: Seq<Seq<u8>>, b: Seq<Seq<u8>>)
    requires
        parse_validators(a) is None,
    ensures
        parse_validators(a + b) is None,
    decreases b.len(),
{
    if b.len() == 0 {
        assert(a + b =~= a);
    } else {
        assert((a + b).drop_last() =~= a + b.drop_last());
        lemma_validators_prefix(a, b.drop_last());
    }
}

/// Validators that were written are read back as they were.
pub proof fn lemma_validators_back(vs: Seq<ValidatorView>)
    requires
        forall|i: int| 0 <= i < vs.len() ==> (#[trigger] validator_payloads(vs)[i]).len()
            <= u64::MAX,
    ensures
        parse_validators(validator_payloads(vs)) == Some(vs),
    decreases vs.len(),
{
    let payloads = validator_payloads(vs);
    if vs.len() > 0 {
        let rest = vs.drop_last();
        assert(payloads.drop_last() =~= validator_payloads(rest));
        assert forall|i: int| 0 <= i < rest.len() implies (#[trigger] validator_payloads(
            rest,
        )[i]).len() <= u64::MAX by {
            assert(validator_payloads(rest)[i] == payloads[i]);
        }
        lemma_validators_back(rest);
        assert(payloads[vs.len() - 1].len() <= u64::MAX);
        lemma_validator_back(vs.last());
        assert(rest.push(vs.last()) =~= vs);
    } else {
        assert(vs =~= Seq::<ValidatorView>::empty());
    }
}

/// Reads the validators among the fields: every bytes field `tag`, in order.
fn decode_validators(fields: &Vec<Field>, tag: u32) -> (out: Option<Vec<Validator>>)
    ensures
        match out {
            Some(vs) => parse_validators(all_bytes(field_views(fields@), tag)) == Some(
                validator_views(vs@),
            ),
            None => parse_validators(all_bytes(field_views(fields@), tag)) is None,
        },
{
    let ghost views = field_views(fields@);
    let mut members: Vec<Validator> = Vec::new();
    let mut i: usize = 0;
    assert(views.take(0) =~= Seq::<WireField>::empty());
    assert(validator_views(members@) =~= Seq::<ValidatorView>::empty());
    while i < fields.len()
        invariant
            i <= fields.len(),
            views == field_views(fields@),
            parse_validators(all_bytes(views.take(i as int), tag)) == Some(
                validator_views(members@),
            ),
        decreases fields.len() - i,
    {
        let ghost before = validator_views(members@);
        let ghost seen = all_bytes(views.take(i as int), tag);
        assert(views.take(i + 1).drop_last() =~= views.take(i as int));
        assert(views.take(i + 1).last() == fields@[i as int]@);
        if fields[i].tag == tag {
            match &fields[i].value {
                Value::Bytes(b) => {
                    assert(all_bytes(views.take(i + 1), tag) == seen.push(b@));
                    assert(seen.push(b@).drop_last() =~= seen);
                    assert(seen.push(b@).last() == b@);
                    match decode_validator(b.as_slice()) {
                        Some(member) => {
                            members.push(member);
                            assert(validator_views(members@) =~= before.push(member@));
                        },
                        None => {
                            proof {
                                assert(views =~= views.take(i + 1) + views.skip(i + 1));
                                crate::lookup::lemma_all_bytes_concat(
                                    views.take(i + 1),
                                    views.skip(i + 1),
                                    tag,
                                );
                                lemma_validators_prefix(
                                    all_bytes(views.take(i + 1), tag),
                                    all_bytes(views.skip(i + 1), tag),
                                );
                            }
                            return None;
                        },
                    }
                },
                Value::Varint(_) => {},
            }
        }
        i += 1;
    }
    assert(views.take(i as int) =~= views);
    Some(members)
}

pub open spec fn validator_set_of(fs: Seq<WireField>) -> Option<ValidatorSetView> {
    match parse_validators(all_bytes(fs, 1)) {
        Some(validators) => Some(
            ValidatorSetView { validators, total_voting_power: varint_or_zero(fs, 3) },
        ),
        None => None,
    }
}

/// The validator set that the bytes are the wire form of.
pub open spec fn parse_validator_set(bytes: Seq<u8>) -> Option<ValidatorSetView> {
    match parse_fields(bytes) {
        Some(fs) => validator_set_of(fs),
        None => None,
    }
}

/// Reads a validator set. The total is read as it was written; it is not
/// summed anew.
pub fn decode_validator_set(bytes: &[u8]) -> (out: Option<ValidatorSet>)
    ensures
        match out {
            Some(set) => parse_validator_set(bytes@) == Some(set@),
            None => parse_validator_set(bytes@) is None,
        },
{
    let fields = match read_fields(bytes) {
        Some(fields) => fields,
        None => {
            return None;
        },
    };
    match decode_validators(&fields, 1) {
        Some(validators) => Some(
            ValidatorSet { validators, total_voting_power: varint_of(&fields, 3) },
        ),
        None => None,
    }
}

/// A validator set that was written is read back as it was.
pub proof fn lemma_validator_set_back(set: ValidatorSetView)
    requires
        fields_bytes(validator_set_fields(set)).len() <= u64::MAX,
    ensures
        parse_validator_set(fields_bytes(validator_set_fields(set))) == Some(set),
{
    let payloads = validator_payloads(set.validators);
    let none = Seq::<WireField>::empty();
    let upto1 = repeated(1, payloads);
    let fs = upto1 + scalar(3, set.total_voting_power);
    assert(fs == validator_set_fields(set));
    lemma_no_fields(upto1);
    lemma_append_repeated(none, 1, payloads);
    lemma_append_scalar(upto1, 3, set.total_voting_power);
    assert(tags_valid(fs));
    lemma_parse_fields_written(fs);
    assert forall|i: int| 0 <= i < set.validators.len() implies (#[trigger] payloads[i]).len()
        <= u64::MAX by {
        lemma_len_repeated(1, payloads, i);
    }
    lemma_validators_back(set.validators);
    assert(all_bytes(fs, 1) =~= payloads);
}

/// The validator set of an optional field: none where the field is absent.
pub open spec fn optional_validator_set_of(field: Option<Seq<u8>>) -> Option<
    Option<ValidatorSetView>,
> {
    match field {
        None => Some(None),
        Some(b) => match parse_validator_set(b) {
            Some(set) => Some(Some(set)),
            None => None,
        },
    }
}

pub open spec fn tm_header_of(fs: Seq<WireField>) -> Option<TmHeaderView> {
    match (
        parse_signed_header(bytes_or_none(fs, 1)),
        parse_validator_set(bytes_or_none(fs, 2)),
        optional_validator_set_of(last_bytes(fs, 4)),
    ) {
        (Some(signed_header), Some(validator_set), Some(trusted_validators)) => Some(
            TmHeaderView {
                signed_header,
                validator_set,
                trusted_height: varint_or_zero(fs, 3),
                trusted_validators,
            },
        ),
        _ => None,
    }
}

/// The update message that the bytes are the wire form of.
pub open spec fn parse_tm_header(bytes: Seq<u8>) -> Option<TmHeaderView> {
    match parse_fields(bytes) {
        Some(fs) => tm_header_of(fs),
        None => None,
    }
}

/// Reads an update message.
pub fn decode_tm_header(bytes: &[u8]) -> (out: Option<TmHeader>)
    ensures
        match out {
            Some(h) => parse_tm_header(bytes@) == Some(h@),
            None => parse_tm_header(bytes@) is None,
        },
{
    let fields = match read_fields(bytes) {
        Some(fields) => fields,
        None => {
            return None;
        },
    };
    let signed_header = match decode_signed_header(bytes_of(&fields, 1).as_slice()) {
        Some(sh) => sh,
        None => {
            return None;
        },
    };
    let validator_set = match decode_validator_set(bytes_of(&fields, 2).as_slice()) {
        Some(set) => set,
        None => {
            return None;
        },
    };
    let trusted_validators = match find_bytes(&fields, 4) {
        Some(b) => match decode_validator_set(b.as_slice()) {
            Some(set) => Some(set),
            None => {
                return None;
            },
        },
        None => None,
    };
    Some(
        TmHeader {
            signed_header,
            validator_set,
            trusted_height: varint_of(&fields, 3),
            trusted_validators,
        },
    )
}

/// An update message that was written is read back as it was.
pub proof fn theorem_tm_header_round_trip(h: TmHeaderView)
    requires
        fields_bytes(tm_header_fields(h)).len() <= u64::MAX,
    ensures
        parse_tm_header(fields_bytes(tm_header_fields(h))) == Some(h),
{
    let signed = fields_bytes(signed_header_fields(h.signed_header));
    let set = fields_bytes(validator_set_fields(h.validator_set));
    let trusted = optional_validator_set(h.trusted_validators);
    let none = Seq::<WireField>::empty();
    let upto1 = nested(1, signed);
    let upto2 = upto1 + nested(2, set);
    let upto3 = upto2 + scalar(3, h.trusted_height);
    let fs = upto3 + nested_opt(4, trusted);
    assert(fs == tm_header_fields(h));
    lemma_no_fields(upto1);
    lemma_append_nested(none, 1, signed);
    lemma_append_nested(upto1, 2, set);
    lemma_append_scalar(upto2, 3, h.trusted_height);
    lemma_append_nested_opt(upto3, 4, trusted);
    assert(tags_valid(fs));
    lemma_parse_fields_written(fs);
    lemma_signed_header_back(h.signed_header);
    lemma_validator_set_back(h.validator_set);
    match h.trusted_validators {
        Some(t) => {
            lemma_validator_set_back(t);
        },
        None => {},
    }
}

pub open spec fn fraction_of(fs: Seq<WireField>) -> Fraction {
    Fraction { numerator: varint_or_zero(fs, 1), denominator: varint_or_zero(fs, 2) }
}

/// The fraction that the bytes are the wire form of.
pub open spec fn parse_fraction(bytes: Seq<u8>) -> Option<Fraction> {
    match parse_fields(bytes) {
        Some(fs) => Some(fraction_of(fs)),
        None => None,
    }
}

/// Reads a fraction.
pub fn decode_fraction(bytes: &[u8]) -> (out: Option<Fraction>)
    ensures
        out == parse_fraction(bytes@),
{
    match read_fields(bytes) {
        Some(fields) => Some(
            Fraction { numerator: varint_of(&fields, 1), denominator: varint_of(&fields, 2) },
        ),
        None => None,
    }
}

/// A fraction that was written is read back as it was.
pub proof fn lemma_fraction_back(f: Fraction)
    requires
        fields_bytes(fraction_fields(f)).len() <= u64::MAX,
    ensures
        parse_fraction(fields_bytes(fraction_fields(f))) == Some(f),
{
    broadcast use group_lookup;

    let fs = fraction_fields(f);
    assert(tags_valid(fs));
    lemma_parse_fields_written(fs);
}

pub open spec fn duration_of(fs: Seq<WireField>) -> Duration {
    Duration { seconds: as_i64(varint_or_zero(fs, 1)), nanos: as_i32(varint_or_zero(fs, 2)) }
}

/// The span of time that the bytes are the wire form of.
pub open spec fn parse_duration(bytes: Seq<u8>) -> Option<Duration> {
    match parse_fields(bytes) {
        Some(fs) => Some(duration_of(fs)),
        None => None,
    }
}

/// Reads a span of time.
pub fn decode_duration(bytes: &[u8]) -> (out: Option<Duration>)
    ensures
        out == parse_duration(bytes@),
{
    match read_fields(bytes) {
        Some(fields) => Some(
            Duration { seconds: to_i64(varint_of(&fields, 1)), nanos: to_i32(varint_of(&fields, 2)) },
        ),
        None => None,
    }
}

/// A span of time that was written is read back as it was.
pub proof fn lemma_duration_back(d: Duration)
    requires
        fields_bytes(duration_fields(d)).len() <= u64::MAX,
    ensures
        parse_duration(fields_bytes(duration_fields(d))) == Some(d),
{
    broadcast use group_lookup;

    let fs = duration_fields(d);
    assert(tags_valid(fs));
    lemma_parse_fields_written(fs);
}

pub open spec fn merkle_root_of(fs: Seq<WireField>) -> MerkleRootView {
    MerkleRootView { hash: bytes_or_none(fs, 1) }
}

/// The state root that the bytes are the wire form of.
pub open spec fn parse_merkle_root(bytes: Seq<u8>) -> Option<MerkleRootView> {
    match parse_fields(bytes) {
        Some(fs) => Some(merkle_root_of(fs)),
        None => None,
    }
}

/// Reads a state root.
pub fn decode_merkle_root(bytes: &[u8]) -> (out: Option<MerkleRoot>)
    ensures
        match out {
            Some(r) => parse_merkle_root(bytes@) == Some(r@),
            None => parse_merkle_root(bytes@) is None,
        },
{
    match read_fields(bytes) {
        Some(fields) => Some(MerkleRoot { hash: bytes_of(&fields, 1) }),
        None => None,
    }
}

/// A state root that was written is read back as it was.
pub proof fn lemma_merkle_root_back(r: MerkleRootView)
    requires
        fields_bytes(merkle_root_fields(r)).len() <= u64::MAX,
    ensures
        parse_merkle_root(fields_bytes(merkle_root_fields(r))) == Some(r),
{
    broadcast use group_lookup;

    let fs = merkle_root_fields(r);
    assert(tags_valid(fs));
    lemma_parse_fields_written(fs);
    assert(merkle_root_of(fs).hash =~= r.hash);
}

pub open spec fn client_state_of(fs: Seq<WireField>) -> Option<ClientStateView> {
    if !valid_utf8(bytes_or_none(fs, 1)) {
        None
    } else {
        match (
            parse_fraction(bytes_or_none(fs, 2)),
            parse_duration(bytes_or_none(fs, 3)),
            parse_duration(bytes_or_none(fs, 4)),
            parse_duration(bytes_or_none(fs, 5)),
        ) {
            (
                Some(trust_level),
                Some(trusting_period),
                Some(unbonding_period),
                Some(max_clock_drift),
            ) => Some(
                ClientStateView {
                    chain_id: decode_utf8(bytes_or_none(fs, 1)),
                    trust_level,
                    trusting_period,
                    unbonding_period,
                    max_clock_drift,
                    frozen_height: varint_or_zero(fs, 6),
                    latest_height: varint_or_zero(fs, 7),
                    allow_update_after_expiry: varint_or_zero(fs, 8) != 0,
                    allow_update_after_misbehaviour: varint_or_zero(fs, 9) != 0,
                },
            ),
            _ => None,
        }
    }
}

/// The client state that the bytes are the wire form of.
pub open spec fn parse_client_state(bytes: Seq<u8>) -> Option<ClientStateView> {
    match parse_fields(bytes) {
        Some(fs) => client_state_of(fs),
        None => None,
    }
}

/// Reads a client state.
pub fn decode_client_state(bytes: &[u8]) -> (out: Option<ClientState>)
    ensures
        match out {
            Some(c) => parse_client_state(bytes@) == Some(c@),
            None => parse_client_state(bytes@) is None,
        },
{
    let fields = match read_fields(bytes) {
        Some(fields) => fields,
        None => {
            return None;
        },
    };
    let chain_id = match text_from_utf8(bytes_of(&fields, 1)) {
        Some(text) => text,
        None => {
            return None;
        },
    };
    let trust_level = match decode_fraction(bytes_of(&fields, 2).as_slice()) {
        Some(f) => f,
        None => {
            return None;
        },
    };
    let trusting_period = match decode_duration(bytes_of(&fields, 3).as_slice()) {
        Some(d) => d,
        None => {
            return None;
        },
    };
    let unbonding_period = match decode_duration(bytes_of(&fields, 4).as_slice()) {
        Some(d) => d,
        None => {
            return None;
        },
    };
    let max_clock_drift = match decode_duration(bytes_of(&fields, 5).as_slice()) {
        Some(d) => d,
        None => {
            return None;
        },
    };
    Some(
        ClientState {
            chain_id,
            trust_level,
            trusting_period,
            unbonding_period,
            max_clock_drift,
            frozen_height: varint_of(&fields, 6),
            latest_height: varint_of(&fields, 7),
            allow_update_after_expiry: varint_of(&fields, 8) != 0,
            allow_update_after_misbehaviour: varint_of(&fields, 9) != 0,
        },
    )
}

/// A client state that was written is read back as it was.
pub proof fn theorem_client_state_round_trip(c: ClientStateView)
    requires
        fields_bytes(client_state_fields(c)).len() <= u64::MAX,
    ensures
        parse_client_state(fields_bytes(client_state_fields(c))) == Some(c),
{
    let level = fields_bytes(fraction_fields(c.trust_level));
    let trusting = fields_bytes(duration_fields(c.trusting_period));
    let unbonding = fields_bytes(duration_fields(c.unbonding_period));
    let drift = fields_bytes(duration_fields(c.max_clock_drift));
    let none = Seq::<WireField>::empty();
    let upto1 = blob(1, encode_utf8(c.chain_id));
    let upto2 = upto1 + nested(2, level);
    let upto3 = upto2 + nested(3, trusting);
    let upto4 = upto3 + nested(4, unbonding);
    let upto5 = upto4 + nested(5, drift);
    let upto6 = upto5 + scalar(6, c.frozen_height);
    let upto7 = upto6 + scalar(7, c.latest_height);
    let upto8 = upto7 + scalar(8, bool_value(c.allow_update_after_expiry));
    let fs = upto8 + scalar(9, bool_value(c.allow_update_after_misbehaviour));
    assert(fs == client_state_fields(c));
    lemma_no_fields(upto1);
    lemma_append_blob(none, 1, encode_utf8(c.chain_id));
    lemma_append_nested(upto1, 2, level);
    lemma_append_nested(upto2, 3, trusting);
    lemma_append_nested(upto3, 4, unbonding);
    lemma_append_nested(upto4, 5, drift);
    lemma_append_scalar(upto5, 6, c.frozen_height);
    lemma_append_scalar(upto6, 7, c.latest_height);
    lemma_append_scalar(upto7, 8, bool_value(c.allow_update_after_expiry));
    lemma_append_scalar(upto8, 9, bool_value(c.allow_update_after_misbehaviour));
    assert(tags_valid(fs));
    lemma_parse_fields_written(fs);
    lemma_text_back(c.chain_id);
    lemma_fraction_back(c.trust_level);
    lemma_duration_back(c.trusting_period);
    lemma_duration_back(c.unbonding_period);
    lemma_duration_back(c.max_clock_drift);
    assert(bytes_or_none(fs, 1) =~= encode_utf8(c.chain_id));
    let back = client_state_of(fs);
    assert(back is Some);
    assert(back->0.chain_id =~= c.chain_id);
}

pub open spec fn consensus_state_of(fs: Seq<WireField>) -> Option<ConsensusStateView> {
    match (parse_timestamp(bytes_or_none(fs, 1)), parse_merkle_root(bytes_or_none(fs, 2))) {
        (Some(timestamp), Some(root)) => Some(
            ConsensusStateView { root, timestamp, next_validators_hash: bytes_or_none(fs, 3) },
        ),
        _ => None,
    }
}

/// The consensus state that the bytes are the wire form of.
pub open spec fn parse_consensus_state(bytes: Seq<u8>) -> Option<ConsensusStateView> {
    match parse_fields(bytes) {
        Some(fs) => consensus_state_of(fs),
        None => None,
    }
}

/// Reads a consensus state.
pub fn decode_consensus_state(bytes: &[u8]) -> (out: Option<ConsensusState>)
    ensures
        match out {
            Some(c) => parse_consensus_state(bytes@) == Some(c@),
            None => parse_consensus_state(bytes@) is None,
        },
{
    let fields = match read_fields(bytes) {
        Some(fields) => fields,
        None => {
            return None;
        },
    };
    let timestamp = match decode_timestamp(bytes_of(&fields, 1).as_slice()) {
        Some(t) => t,
        None => {
            return None;
        },
    };
    let root = match decode_merkle_root(bytes_of(&fields, 2).as_slice()) {
        Some(r) => r,
        None => {
            return None;
        },
    };
    Some(ConsensusState { root, timestamp, next_validators_hash: bytes_of(&fields, 3) })
}

/// A consensus state that was written is read back as it was.
pub proof fn theorem_consensus_state_round_trip(c: ConsensusStateView)
    requires
        fields_bytes(consensus_state_fields(c)).len() <= u64::MAX,
    ensures
        parse_consensus_state(fields_bytes(consensus_state_fields(c))) == Some(c),
{
    let time = fields_bytes(timestamp_fields(c.timestamp));
    let root = fields_bytes(merkle_root_fields(c.root));
    let none = Seq::<WireField>::empty();
    let upto1 = nested(1, time);
    let upto2 = upto1 + nested(2, root);
    let fs = upto2 + blob(3, c.next_validators_hash);
    assert(fs == consensus_state_fields(c));
    lemma_no_fields(upto1);
    lemma_append_nested(none, 1, time);
    lemma_append_nested(upto1, 2, root);
    lemma_append_blob(upto2, 3, c.next_validators_hash);
    assert(tags_valid(fs));
    lemma_parse_fields_written(fs);
    lemma_timestamp_back(c.timestamp);
    lemma_merkle_root_back(c.root);
    let back = consensus_state_of(fs);
    assert(back is Some);
    assert(back->0.next_validators_hash =~= c.next_validators_hash);
}

/// What an envelope holds: the name of a type and the wire form of a message.
pub open spec fn any_of(fs: Seq<WireField>) -> Option<(Seq<char>, Seq<u8>)> {
    if !valid_utf8(bytes_or_none(fs, 1)) {
        None
    } else {
        Some((decode_utf8(bytes_or_none(fs, 1)), bytes_or_none(fs, 2)))
    }
}

/// What the envelope holds that the bytes are the wire form of.
pub open spec fn parse_any(bytes: Seq<u8>) -> Option<(Seq<char>, Seq<u8>)> {
    match parse_fields(bytes) {
        Some(fs) => any_of(fs),
        None => None,
    }
}

/// Opens an envelope: the name of the type and the wire form of the message.
pub fn decode_any(bytes: &[u8]) -> (out: Option<(String, Vec<u8>)>)
    ensures
        match out {
            Some((type_url, value)) => parse_any(bytes@) == Some((type_url@, value@)),
            None => parse_any(bytes@) is None,
        },
{
    let fields = match read_fields(bytes) {
        Some(fields) => fields,
        None => {
            return None;
        },
    };
    match text_from_utf8(bytes_of(&fields, 1)) {
        Some(type_url) => Some((type_url, bytes_of(&fields, 2))),
        None => None,
    }
}

/// An envelope that was written gives back what was put into it.
pub proof fn theorem_envelope_round_trip(type_url: Seq<char>, value: Seq<u8>)
    requires
        any_bytes(type_url, value).len() <= u64::MAX,
    ensures
        parse_any(any_bytes(type_url, value)) == Some((type_url, value)),
{
    let none = Seq::<WireField>::empty();
    let upto1 = blob(1, encode_utf8(type_url));
    let fs = upto1 + blob(2, value);
    assert(fs == any_fields(type_url, value));
    lemma_no_fields(upto1);
    lemma_append_blob(none, 1, encode_utf8(type_url));
    lemma_append_blob(upto1, 2, value);
    assert(tags_valid(fs));
    lemma_parse_fields_written(fs);
    lemma_text_back(type_url);
    assert(bytes_or_none(fs, 1) =~= encode_utf8(type_url));
    assert(bytes_or_none(fs, 2) =~= value);
}

/// A signed header of the source survives the whole way: converted, written
/// and read back, it is the canonical form it was converted to.
pub proof fn theorem_signed_header_round_trip(signed_header: SourceSignedHeader)
    requires
        signed_header_defect(signed_header) is None,
        fields_bytes(signed_header_fields(canonical_signed_header(signed_header))).len()
            <= u64::MAX,
    ensures
        parse_signed_header(
            fields_bytes(signed_header_fields(canonical_signed_header(signed_header))),
        ) == Some(canonical_signed_header(signed_header)),
{
    lemma_signed_header_back(canonical_signed_header(signed_header));
}

} // verus!
