//! The wire form of the canonical messages, and the type-tagged envelope that
//! the destination decodes them from.
//!
//! Each message is laid out as numbered fields. Numbers, truth values, text
//! and bytes are left out when zero, false or empty; a nested message is
//! always written, unless the message makes it optional.

use vstd::prelude::*;
use vstd::utf8::encode_utf8;
use crate::canonical::{
    CanonicalBlockId, CanonicalBlockIdView, CanonicalPartSetHeader,
    CanonicalPartSetHeaderView, ClientState, ClientStateView, Commit, CommitSig, CommitSigView,
    CommitView, Consensus, ConsensusState, ConsensusStateView, Duration, Fraction, LightHeader,
    LightHeaderView, MerkleRoot, MerkleRootView, SignedHeader, SignedHeaderView, Timestamp,
    TmHeader, TmHeaderView, Validator, ValidatorSet, ValidatorSetView, ValidatorView,
};
use crate::wire::{
    blob, fields_bytes, nested, nested_opt, repeated, scalar, scalar_always, twos_complement,
    WireField, Writer,
};

verus! {

/// Something with a wire form.
pub trait Message {
    /// The bytes that stand for the value on the wire.
    spec fn wire(&self) -> Seq<u8>;

    /// Writes the value out.
    fn encode(&self) -> (out: Vec<u8>)
        ensures
            out@ == self.wire(),
    ;
}

pub open spec fn bool_value(b: bool) -> u64 {
    if b {
        1
    } else {
        0
    }
}

pub open spec fn timestamp_fields(t: Timestamp) -> Seq<WireField> {
    scalar(1, twos_complement(t.seconds as int)) + scalar(2, twos_complement(t.nanos as int))
}

pub open spec fn duration_fields(d: Duration) -> Seq<WireField> {
    scalar(1, twos_complement(d.seconds as int)) + scalar(2, twos_complement(d.nanos as int))
}

pub open spec fn consensus_fields(c: Consensus) -> Seq<WireField> {
    scalar(1, c.block) + scalar(2, c.app)
}

pub open spec fn fraction_fields(f: Fraction) -> Seq<WireField> {
    scalar(1, f.numerator) + scalar(2, f.denominator)
}

pub open spec fn part_set_header_fields(p: CanonicalPartSetHeaderView) -> Seq<WireField> {
    scalar(1, p.total as u64) + blob(2, p.hash)
}

pub open spec fn block_id_fields(id: CanonicalBlockIdView) -> Seq<WireField> {
    blob(1, id.hash) + nested(2, fields_bytes(part_set_header_fields(id.part_set_header)))
}

pub open spec fn optional_timestamp(t: Option<Timestamp>) -> Option<Seq<u8>> {
    match t {
        Some(t) => Some(fields_bytes(timestamp_fields(t))),
        None => None,
    }
}

pub open spec fn commit_sig_fields(s: CommitSigView) -> Seq<WireField> {
    scalar(1, twos_complement(s.block_id_flag.spec_code() as int)) + blob(2, s.validator_address)
        + nested_opt(3, optional_timestamp(s.timestamp)) + blob(4, s.signature)
}

pub open spec fn optional_block_id(id: Option<CanonicalBlockIdView>) -> Option<Seq<u8>> {
    match id {
        Some(id) => Some(fields_bytes(block_id_fields(id))),
        None => None,
    }
}

pub open spec fn light_header_fields(h: LightHeaderView) -> Seq<WireField> {
    nested(1, fields_bytes(consensus_fields(h.version))) + blob(2, encode_utf8(h.chain_id))
        + scalar(3, h.height) + nested(4, fields_bytes(timestamp_fields(h.time))) + nested_opt(
        5,
        optional_block_id(h.last_block_id),
    ) + blob(6, h.last_commit_hash) + blob(7, h.data_hash) + blob(8, h.validators_hash) + blob(
        9,
        h.next_validators_hash,
    ) + blob(10, h.consensus_hash) + blob(11, h.app_hash) + blob(12, h.last_results_hash) + blob(
        13,
        h.evidence_hash,
    ) + blob(14, h.proposer_address)
}

/// The wire forms of a run of commit entries, one for one and in order.
pub open spec fn commit_sig_payloads(sigs: Seq<CommitSigView>) -> Seq<Seq<u8>> {
    Seq::new(sigs.len(), |i: int| fields_bytes(commit_sig_fields(sigs[i])))
}

pub open spec fn commit_fields(c: CommitView) -> Seq<WireField> {
    scalar(1, c.height) + scalar(2, twos_complement(c.round as int)) + nested(
        3,
        fields_bytes(block_id_fields(c.block_id)),
    ) + repeated(4, commit_sig_payloads(c.signatures))
}

pub open spec fn signed_header_fields(sh: SignedHeaderView) -> Seq<WireField> {
    nested(1, fields_bytes(light_header_fields(sh.header))) + nested(
        2,
        fields_bytes(commit_fields(sh.commit)),
    )
}

pub open spec fn optional_priority(p: Option<i64>) -> Seq<WireField> {
    match p {
        Some(p) => scalar_always(4, twos_complement(p as int)),
        None => Seq::empty(),
    }
}

pub open spec fn validator_fields(v: ValidatorView) -> Seq<WireField> {
    blob(1, v.address) + blob(2, v.pub_key) + scalar(3, v.voting_power) + optional_priority(
        v.proposer_priority,
    )
}

/// The wire forms of a run of validators, one for one and in order.
pub open spec fn validator_payloads(vs: Seq<ValidatorView>) -> Seq<Seq<u8>> {
    Seq::new(vs.len(), |i: int| fields_bytes(validator_fields(vs[i])))
}

pub open spec fn validator_set_fields(set: ValidatorSetView) -> Seq<WireField> {
    repeated(1, validator_payloads(set.validators)) + scalar(3, set.total_voting_power)
}

pub open spec fn optional_validator_set(set: Option<ValidatorSetView>) -> Option<Seq<u8>> {
    match set {
        Some(set) => Some(fields_bytes(validator_set_fields(set))),
        None => None,
    }
}

pub open spec fn tm_header_fields(h: TmHeaderView) -> Seq<WireField> {
    nested(1, fields_bytes(signed_header_fields(h.signed_header))) + nested(
        2,
        fields_bytes(validator_set_fields(h.validator_set)),
    ) + scalar(3, h.trusted_height) + nested_opt(4, optional_validator_set(h.trusted_validators))
}

pub open spec fn merkle_root_fields(r: MerkleRootView) -> Seq<WireField> {
    blob(1, r.hash)
}

pub open spec fn client_state_fields(c: ClientStateView) -> Seq<WireField> {
    blob(1, encode_utf8(c.chain_id)) + nested(2, fields_bytes(fraction_fields(c.trust_level)))
        + nested(3, fields_bytes(duration_fields(c.trusting_period))) + nested(
        4,
        fields_bytes(duration_fields(c.unbonding_period)),
    ) + nested(5, fields_bytes(duration_fields(c.max_clock_drift))) + scalar(6, c.frozen_height)
        + scalar(7, c.latest_height) + scalar(8, bool_value(c.allow_update_after_expiry)) + scalar(
        9,
        bool_value(c.allow_update_after_misbehaviour),
    )
}

pub open spec fn consensus_state_fields(c: ConsensusStateView) -> Seq<WireField> {
    nested(1, fields_bytes(timestamp_fields(c.timestamp))) + nested(
        2,
        fields_bytes(merkle_root_fields(c.root)),
    ) + blob(3, c.next_validators_hash)
}

/// The envelope: the type's name, then the message's wire form.
pub open spec fn any_fields(type_url: Seq<char>, value: Seq<u8>) -> Seq<WireField> {
    blob(1, encode_utf8(type_url)) + blob(2, value)
}

impl Message for Timestamp {
    open spec fn wire(&self) -> Seq<u8> {
        fields_bytes(timestamp_fields(*self))
    }

    fn encode(&self) -> (out: Vec<u8>) {
        let mut w = Writer::new();
        w.int64(1, self.seconds);
        w.int32(2, self.nanos);
        assert(w.fields() =~= timestamp_fields(*self));
        w.finish()
    }
}

impl Message for Duration {
    open spec fn wire(&self) -> Seq<u8> {
        fields_bytes(duration_fields(*self))
    }

    fn encode(&self) -> (out: Vec<u8>) {
        let mut w = Writer::new();
        w.int64(1, self.seconds);
        w.int32(2, self.nanos);
        assert(w.fields() =~= duration_fields(*self));
        w.finish()
    }
}

impl Message for Consensus {
    open spec fn wire(&self) -> Seq<u8> {
        fields_bytes(consensus_fields(*self))
    }

    fn encode(&self) -> (out: Vec<u8>) {
        let mut w = Writer::new();
        w.uint64(1, self.block);
        w.uint64(2, self.app);
        assert(w.fields() =~= consensus_fields(*self));
        w.finish()
    }
}

impl Message for Fraction {
    open spec fn wire(&self) -> Seq<u8> {
        fields_bytes(fraction_fields(*self))
    }

    fn encode(&self) -> (out: Vec<u8>) {
        let mut w = Writer::new();
        w.uint64(1, self.numerator);
        w.uint64(2, self.denominator);
        assert(w.fields() =~= fraction_fields(*self));
        w.finish()
    }
}

impl Message for CanonicalPartSetHeader {
    open spec fn wire(&self) -> Seq<u8> {
        fields_bytes(part_set_header_fields(self@))
    }

    fn encode(&self) -> (out: Vec<u8>) {
        let mut w = Writer::new();
        w.uint32(1, self.total);
        w.bytes_field(2, &self.hash);
        assert(w.fields() =~= part_set_header_fields(self@));
        w.finish()
    }
}

impl Message for CanonicalBlockId {
    open spec fn wire(&self) -> Seq<u8> {
        fields_bytes(block_id_fields(self@))
    }

    fn encode(&self) -> (out: Vec<u8>) {
        let mut w = Writer::new();
        w.bytes_field(1, &self.hash);
        let parts = self.part_set_header.encode();
        w.message(2, &parts);
        assert(w.fields() =~= block_id_fields(self@));
        w.finish()
    }
}

impl Message for CommitSig {
    open spec fn wire(&self) -> Seq<u8> {
        fields_bytes(commit_sig_fields(self@))
    }

    fn encode(&self) -> (out: Vec<u8>) {
        let mut w = Writer::new();
        w.int32(1, self.block_id_flag.code());
        w.bytes_field(2, &self.validator_address);
        let ghost before = w.fields();
        match &self.timestamp {
            Some(t) => {
                let time = t.encode();
                w.message(3, &time);
            },
            None => {
                assert(before + nested_opt(3, optional_timestamp(self.timestamp)) =~= before);
            },
        }
        assert(w.fields() == before + nested_opt(3, optional_timestamp(self.timestamp)));
        w.bytes_field(4, &self.signature);
        assert(w.fields() =~= commit_sig_fields(self@));
        w.finish()
    }
}

impl Message for LightHeader {
    open spec fn wire(&self) -> Seq<u8> {
        fields_bytes(light_header_fields(self@))
    }

    fn encode(&self) -> (out: Vec<u8>) {
        let mut w = Writer::new();
        let version = self.version.encode();
        w.message(1, &version);
        w.string(2, &self.chain_id);
        w.uint64(3, self.height);
        let time = self.time.encode();
        w.message(4, &time);
        let ghost before = w.fields();
        match &self.last_block_id {
            Some(id) => {
                let last = id.encode();
                w.message(5, &last);
            },
            None => {
                assert(before + nested_opt(5, optional_block_id(self@.last_block_id)) =~= before);
            },
        }
        assert(w.fields() == before + nested_opt(5, optional_block_id(self@.last_block_id)));
        w.bytes_field(6, &self.last_commit_hash);
        w.bytes_field(7, &self.data_hash);
        w.bytes_field(8, &self.validators_hash);
        w.bytes_field(9, &self.next_validators_hash);
        w.bytes_field(10, &self.consensus_hash);
        w.bytes_field(11, &self.app_hash);
        w.bytes_field(12, &self.last_results_hash);
        w.bytes_field(13, &self.evidence_hash);
        w.bytes_field(14, &self.proposer_address);
        assert(w.fields() =~= light_header_fields(self@));
        w.finish()
    }
}

impl Message for Commit {
    open spec fn wire(&self) -> Seq<u8> {
        fields_bytes(commit_fields(self@))
    }

    fn encode(&self) -> (out: Vec<u8>) {
        let mut w = Writer::new();
        w.uint64(1, self.height);
        w.int32(2, self.round);
        let id = self.block_id.encode();
        w.message(3, &id);
        let ghost before = w.fields();
        let ghost payloads = commit_sig_payloads(self@.signatures);
        let mut i: usize = 0;
        assert(before + repeated(4, payloads.take(0)) =~= before);
        while i < self.signatures.len()
            invariant
                i <= self.signatures.len(),
                payloads == commit_sig_payloads(self@.signatures),
                payloads.len() == self.signatures.len(),
                w.wf(),
                w.fields() == before + repeated(4, payloads.take(i as int)),
            decreases self.signatures.len() - i,
        {
            let entry = self.signatures[i].encode();
            assert(entry@ == payloads[i as int]);
            w.message(4, &entry);
            assert(repeated(4, payloads.take(i as int)) + nested(4, entry@) =~= repeated(
                4,
                payloads.take(i + 1),
            ));
            assert(before + repeated(4, payloads.take(i as int)) + nested(4, entry@) =~= before
                + repeated(4, payloads.take(i + 1)));
            i += 1;
        }
        assert(payloads.take(i as int) =~= payloads);
        assert(w.fields() =~= commit_fields(self@));
        w.finish()
    }
}

impl Message for SignedHeader {
    open spec fn wire(&self) -> Seq<u8> {
        fields_bytes(signed_header_fields(self@))
    }

    fn encode(&self) -> (out: Vec<u8>) {
        let mut w = Writer::new();
        let header = self.header.encode();
        w.message(1, &header);
        let commit = self.commit.encode();
        w.message(2, &commit);
        assert(w.fields() =~= signed_header_fields(self@));
        w.finish()
    }
}

impl Message for Validator {
    open spec fn wire(&self) -> Seq<u8> {
        fields_bytes(validator_fields(self@))
    }

    fn encode(&self) -> (out: Vec<u8>) {
        let mut w = Writer::new();
        w.bytes_field(1, &self.address);
        w.bytes_field(2, &self.pub_key);
        w.uint64(3, self.voting_power);
        let ghost before = w.fields();
        match self.proposer_priority {
            Some(p) => {
                w.int64_always(4, p);
            },
            None => {
                assert(before + optional_priority(self.proposer_priority) =~= before);
            },
        }
        assert(w.fields() =~= validator_fields(self@));
        w.finish()
    }
}

impl Message for ValidatorSet {
    open spec fn wire(&self) -> Seq<u8> {
        fields_bytes(validator_set_fields(self@))
    }

    fn encode(&self) -> (out: Vec<u8>) {
        let mut w = Writer::new();
        let ghost payloads = validator_payloads(self@.validators);
        let mut i: usize = 0;
        assert(repeated(1, payloads.take(0)) =~= Seq::<WireField>::empty());
        while i < self.validators.len()
            invariant
                i <= self.validators.len(),
                payloads == validator_payloads(self@.validators),
                payloads.len() == self.validators.len(),
                w.wf(),
                w.fields() == repeated(1, payloads.take(i as int)),
            decreases self.validators.len() - i,
        {
            let member = self.validators[i].encode();
            assert(member@ == payloads[i as int]);
            w.message(1, &member);
            assert(repeated(1, payloads.take(i as int)) + nested(1, member@) =~= repeated(
                1,
                payloads.take(i + 1),
            ));
            i += 1;
        }
        assert(payloads.take(i as int) =~= payloads);
        w.uint64(3, self.total_voting_power);
        assert(w.fields() =~= validator_set_fields(self@));
        w.finish()
    }
}

impl Message for TmHeader {
    open spec fn wire(&self) -> Seq<u8> {
        fields_bytes(tm_header_fields(self@))
    }

    fn encode(&self) -> (out: Vec<u8>) {
        let mut w = Writer::new();
        let signed = self.signed_header.encode();
        w.message(1, &signed);
        let set = self.validator_set.encode();
        w.message(2, &set);
        w.uint64(3, self.trusted_height);
        let ghost before = w.fields();
        match &self.trusted_validators {
            Some(trusted) => {
                let bytes = trusted.encode();
                w.message(4, &bytes);
            },
            None => {
                assert(before + nested_opt(4, optional_validator_set(self@.trusted_validators))
                    =~= before);
            },
        }
        assert(w.fields() =~= tm_header_fields(self@));
        w.finish()
    }
}

impl Message for MerkleRoot {
    open spec fn wire(&self) -> Seq<u8> {
        fields_bytes(merkle_root_fields(self@))
    }

    fn encode(&self) -> (out: Vec<u8>) {
        let mut w = Writer::new();
        w.bytes_field(1, &self.hash);
        assert(w.fields() =~= merkle_root_fields(self@));
        w.finish()
    }
}

impl Message for ClientState {
    open spec fn wire(&self) -> Seq<u8> {
        fields_bytes(client_state_fields(self@))
    }

    fn encode(&self) -> (out: Vec<u8>) {
        let mut w = Writer::new();
        w.string(1, &self.chain_id);
        let level = self.trust_level.encode();
        w.message(2, &level);
        let trusting = self.trusting_period.encode();
        w.message(3, &trusting);
        let unbonding = self.unbonding_period.encode();
        w.message(4, &unbonding);
        let drift = self.max_clock_drift.encode();
        w.message(5, &drift);
        w.uint64(6, self.frozen_height);
        w.uint64(7, self.latest_height);
        w.boolean(8, self.allow_update_after_expiry);
        w.boolean(9, self.allow_update_after_misbehaviour);
        assert(w.fields() =~= client_state_fields(self@));
        w.finish()
    }
}

impl Message for ConsensusState {
    open spec fn wire(&self) -> Seq<u8> {
        fields_bytes(consensus_state_fields(self@))
    }

    fn encode(&self) -> (out: Vec<u8>) {
        let mut w = Writer::new();
        let time = self.timestamp.encode();
        w.message(1, &time);
        let root = self.root.encode();
        w.message(2, &root);
        w.bytes_field(3, &self.next_validators_hash);
        assert(w.fields() =~= consensus_state_fields(self@));
        w.finish()
    }
}

/// The wire form of a message.
pub fn prost_serialize<T: Message>(msg: &T) -> (out: Vec<u8>)
    ensures
        out@ == msg.wire(),
{
    msg.encode()
}

/// `prost::EncodeError`, the error of a buffer too short for a message. It is
/// carried from the call to where it is turned into an error of this crate;
/// nothing is read from it.
#[verifier::external_type_specification]
#[verifier::external_body]
pub struct ExEncodeError(prost::EncodeError);

/// Why an envelope could not be written.
#[derive(Clone, Copy, Debug, PartialEq, Eq, Structural)]
pub enum EnvelopeError {
    /// The envelope would be longer than a buffer can be.
    TooLarge,
}

/// The wire form of an envelope.
pub open spec fn any_bytes(type_url: Seq<char>, value: Seq<u8>) -> Seq<u8> {
    fields_bytes(any_fields(type_url, value))
}

/// Writes an envelope through `prost_types::Any` and `prost::Message::encode`:
/// the type's name as field one, the payload as field two, each left out when
/// empty. The call fails exactly when the envelope would not fit a buffer,
/// whose length is bounded by `isize::MAX`.
#[verifier::external_body]
fn encode_any(type_url: &str, value: Vec<u8>) -> (out: Result<Vec<u8>, prost::EncodeError>)
    ensures
        match out {
            Ok(bytes) => {
                &&& bytes@ == any_bytes(type_url@, value@)
                &&& any_bytes(type_url@, value@).len() <= isize::MAX
            },
            Err(_) => any_bytes(type_url@, value@).len() > isize::MAX,
        },
{
    let any = prost_types::Any { type_url: type_url.to_string(), value };
    let mut buf = Vec::new();
    prost::Message::encode(&any, &mut buf).map(|_| buf)
}

/// The wire form of a message inside an envelope that names its type.
///
/// The result is the envelope's encoding, byte for byte. It fails only where
/// that encoding is longer than a buffer can be.
pub fn prost_serialize_any<T: Message>(msg: &T, type_url: &str) -> (out: Result<
    Vec<u8>,
    EnvelopeError,
>)
    ensures
        match out {
            Ok(bytes) => {
                &&& bytes@ == any_bytes(type_url@, msg.wire())
                &&& any_bytes(type_url@, msg.wire()).len() <= isize::MAX
            },
            Err(e) => {
                &&& e == EnvelopeError::TooLarge
                &&& any_bytes(type_url@, msg.wire()).len() > isize::MAX
            },
        },
{
    let value = prost_serialize(msg);
    match encode_any(type_url, value) {
        Ok(bytes) => Ok(bytes),
        Err(_) => Err(EnvelopeError::TooLarge),
    }
}

} // verus!
