//! Conversion of source-chain structures into canonical ones.
//!
//! The conversion is total on well-formed input. It refuses a header that
//! lacks a field every non-genesis header must carry, a vote without its
//! signature, and a validator set whose powers do not add up within `u64`.

use vstd::prelude::*;
use crate::bytes::{copy_bytes, copy_text};
use crate::canonical::{
    power_sum, BlockIdFlag, CanonicalBlockId, CanonicalBlockIdView, CanonicalPartSetHeader,
    CanonicalPartSetHeaderView, Commit, CommitSig, CommitSigView, CommitView, Consensus,
    Duration, LightHeader, LightHeaderView, SignedHeader, SignedHeaderView, Timestamp, TmHeader,
    Validator, ValidatorSet, ValidatorView,
};
use crate::source::{
    SourceBlockId, SourceCommit, SourceCommitSig, SourceHeader, SourcePartSetHeader,
    SourceSignedHeader, SourceTime, SourceValidator, SourceVersion,
};

verus! {

/// Why a source structure has no canonical form.
#[derive(Clone, Copy, Debug, PartialEq, Eq, Structural)]
pub enum ConversionError {
    /// The header carries no data hash.
    MissingDataHash,
    /// The header carries no evidence hash.
    MissingEvidenceHash,
    /// A header above the first height names no previous block.
    MissingLastBlockId,
    /// The header carries no hash of the previous commit.
    MissingLastCommitHash,
    /// The header carries no hash of the previous results.
    MissingLastResultsHash,
    /// A vote that was cast carries no signature.
    MissingSignature,
    /// The voting powers of a validator set exceed `u64` in sum.
    VotingPowerOverflow,
}

impl ConversionError {
    /// A short description for an operator.
    pub fn message(&self) -> (text: String)
        ensures
            text@ == self.spec_message()@,
    {
        match self {
            ConversionError::MissingDataHash => "header has no data hash".to_string(),
            ConversionError::MissingEvidenceHash => "header has no evidence hash".to_string(),
            ConversionError::MissingLastBlockId => "header has no last block id".to_string(),
            ConversionError::MissingLastCommitHash => "header has no last commit hash".to_string(),
            ConversionError::MissingLastResultsHash => "header has no last results hash".to_string(),
            ConversionError::MissingSignature => "vote has no signature".to_string(),
            ConversionError::VotingPowerOverflow => "total voting power exceeds 64 bits".to_string(),
        }
    }

    pub open spec fn spec_message(&self) -> &'static str {
        match self {
            ConversionError::MissingDataHash => "header has no data hash",
            ConversionError::MissingEvidenceHash => "header has no evidence hash",
            ConversionError::MissingLastBlockId => "header has no last block id",
            ConversionError::MissingLastCommitHash => "header has no last commit hash",
            ConversionError::MissingLastResultsHash => "header has no last results hash",
            ConversionError::MissingSignature => "vote has no signature",
            ConversionError::VotingPowerOverflow => "total voting power exceeds 64 bits",
        }
    }
}

/// The bytes of an optional field; none where the field is absent.
pub open spec fn bytes_or_empty(field: Option<Vec<u8>>) -> Seq<u8> {
    match field {
        Some(bytes) => bytes@,
        None => Seq::empty(),
    }
}

pub open spec fn canonical_part_set_header(p: SourcePartSetHeader) -> CanonicalPartSetHeaderView {
    CanonicalPartSetHeaderView { total: p.total, hash: p.hash@ }
}

pub open spec fn canonical_block_id(id: SourceBlockId) -> CanonicalBlockIdView {
    CanonicalBlockIdView {
        hash: id.hash@,
        part_set_header: canonical_part_set_header(id.part_set_header),
    }
}

/// Seconds are kept; the nanoseconds too, unless they do not fit the
/// canonical field, in which case they are dropped.
pub open spec fn canonical_timestamp(t: SourceTime) -> Timestamp {
    Timestamp {
        seconds: t.seconds,
        nanos: if t.subsec_nanos <= i32::MAX {
            t.subsec_nanos as i32
        } else {
            0
        },
    }
}

pub open spec fn canonical_version(v: SourceVersion) -> Consensus {
    Consensus { block: v.block, app: v.app }
}

/// A vote that was cast but comes without a signature.
pub open spec fn lacks_signature(sig: SourceCommitSig) -> bool {
    match sig {
        SourceCommitSig::Absent => false,
        SourceCommitSig::Nil { signature, .. } => signature is None,
        SourceCommitSig::Commit { signature, .. } => signature is None,
    }
}

pub open spec fn canonical_sig(sig: SourceCommitSig) -> CommitSigView {
    match sig {
        SourceCommitSig::Absent => CommitSigView {
            block_id_flag: BlockIdFlag::Absent,
            validator_address: Seq::empty(),
            timestamp: None,
            signature: Seq::empty(),
        },
        SourceCommitSig::Nil { validator_address, timestamp, signature } => CommitSigView {
            block_id_flag: BlockIdFlag::Nil,
            validator_address: validator_address@,
            timestamp: Some(canonical_timestamp(timestamp)),
            signature: bytes_or_empty(signature),
        },
        SourceCommitSig::Commit { validator_address, timestamp, signature } => CommitSigView {
            block_id_flag: BlockIdFlag::Commit,
            validator_address: validator_address@,
            timestamp: Some(canonical_timestamp(timestamp)),
            signature: bytes_or_empty(signature),
        },
    }
}

/// The canonical entries of a run of votes, one for one and in order.
pub open spec fn canonical_sigs(sigs: Seq<SourceCommitSig>) -> Seq<CommitSigView> {
    Seq::new(sigs.len(), |i: int| canonical_sig(sigs[i]))
}

/// The first mandatory field that a header lacks. The previous block's
/// identity is mandatory from the second height on.
pub open spec fn header_defect(h: SourceHeader) -> Option<ConversionError> {
    if h.data_hash is None {
        Some(ConversionError::MissingDataHash)
    } else if h.evidence_hash is None {
        Some(ConversionError::MissingEvidenceHash)
    } else if h.last_block_id is None && h.height >= 2 {
        Some(ConversionError::MissingLastBlockId)
    } else if h.last_commit_hash is None {
        Some(ConversionError::MissingLastCommitHash)
    } else if h.last_results_hash is None {
        Some(ConversionError::MissingLastResultsHash)
    } else {
        None
    }
}

pub open spec fn canonical_header(h: SourceHeader) -> LightHeaderView {
    LightHeaderView {
        version: canonical_version(h.version),
        chain_id: h.chain_id@,
        height: h.height,
        time: canonical_timestamp(h.time),
        last_block_id: match h.last_block_id {
            Some(id) => Some(canonical_block_id(id)),
            None => None,
        },
        last_commit_hash: bytes_or_empty(h.last_commit_hash),
        data_hash: bytes_or_empty(h.data_hash),
        validators_hash: h.validators_hash@,
        next_validators_hash: h.next_validators_hash@,
        consensus_hash: h.consensus_hash@,
        app_hash: h.app_hash@,
        last_results_hash: bytes_or_empty(h.last_results_hash),
        evidence_hash: bytes_or_empty(h.evidence_hash),
        proposer_address: h.proposer_address@,
    }
}

/// Some vote of the commit was cast without a signature.
pub open spec fn commit_defect(c: SourceCommit) -> Option<ConversionError> {
    if exists|i: int| 0 <= i < c.signatures@.len() && lacks_signature(#[trigger] c.signatures@[i]) {
        Some(ConversionError::MissingSignature)
    } else {
        None
    }
}

pub open spec fn canonical_commit(c: SourceCommit) -> CommitView {
    CommitView {
        height: c.height,
        round: c.round,
        block_id: canonical_block_id(c.block_id),
        signatures: canonical_sigs(c.signatures@),
    }
}

/// What stands in the way of converting a signed header: a defect of the
/// header first, else one of the commit.
pub open spec fn signed_header_defect(sh: SourceSignedHeader) -> Option<ConversionError> {
    match header_defect(sh.header) {
        Some(e) => Some(e),
        None => commit_defect(sh.commit),
    }
}

pub open spec fn canonical_signed_header(sh: SourceSignedHeader) -> SignedHeaderView {
    SignedHeaderView { header: canonical_header(sh.header), commit: canonical_commit(sh.commit) }
}

pub open spec fn canonical_validator(v: SourceValidator) -> ValidatorView {
    ValidatorView {
        address: v.address@,
        pub_key: v.pub_key@,
        voting_power: v.power,
        proposer_priority: v.proposer_priority,
    }
}

/// The canonical members of a run of validators, one for one and in order.
pub open spec fn canonical_validators(vs: Seq<SourceValidator>) -> Seq<ValidatorView> {
    Seq::new(vs.len(), |i: int| canonical_validator(vs[i]))
}

pub fn to_part_set_header(part_set_header: &SourcePartSetHeader) -> (out: CanonicalPartSetHeader)
    ensures
        out@ == canonical_part_set_header(*part_set_header),
{
    CanonicalPartSetHeader {
        total: part_set_header.total,
        hash: copy_bytes(&part_set_header.hash),
    }
}

pub fn to_block_id(last_block_id: &SourceBlockId) -> (out: CanonicalBlockId)
    ensures
        out@ == canonical_block_id(*last_block_id),
{
    CanonicalBlockId {
        hash: copy_bytes(&last_block_id.hash),
        part_set_header: to_part_set_header(&last_block_id.part_set_header),
    }
}

pub fn to_timestamp(timestamp: &SourceTime) -> (out: Timestamp)
    ensures
        out == canonical_timestamp(*timestamp),
        out.seconds == timestamp.seconds,
        timestamp.subsec_nanos <= i32::MAX ==> out.nanos == timestamp.subsec_nanos,
{
    let nanos: i32 = if timestamp.subsec_nanos <= 0x7fff_ffff {
        timestamp.subsec_nanos as i32
    } else {
        0
    };
    Timestamp { seconds: timestamp.seconds, nanos }
}

pub fn to_version(version: &SourceVersion) -> (out: Consensus)
    ensures
        out == canonical_version(*version),
{
    Consensus { block: version.block, app: version.app }
}

/// The canonical entry of one vote. A vote that was cast must carry its
/// signature.
pub fn to_sig(sig: &SourceCommitSig) -> (out: Result<CommitSig, ConversionError>)
    ensures
        match out {
            Ok(entry) => !lacks_signature(*sig) && entry@ == canonical_sig(*sig),
            Err(e) => lacks_signature(*sig) && e == ConversionError::MissingSignature,
        },
{
    match sig {
        SourceCommitSig::Absent => Ok(
            CommitSig {
                block_id_flag: BlockIdFlag::Absent,
                validator_address: Vec::new(),
                timestamp: None,
                signature: Vec::new(),
            },
        ),
        SourceCommitSig::Nil { validator_address, timestamp, signature } => match signature {
            Some(bytes) => Ok(
                CommitSig {
                    block_id_flag: BlockIdFlag::Nil,
                    validator_address: copy_bytes(validator_address),
                    timestamp: Some(to_timestamp(timestamp)),
                    signature: copy_bytes(bytes),
                },
            ),
            None => Err(ConversionError::MissingSignature),
        },
        SourceCommitSig::Commit { validator_address, timestamp, signature } => match signature {
            Some(bytes) => Ok(
                CommitSig {
                    block_id_flag: BlockIdFlag::Commit,
                    validator_address: copy_bytes(validator_address),
                    timestamp: Some(to_timestamp(timestamp)),
                    signature: copy_bytes(bytes),
                },
            ),
            None => Err(ConversionError::MissingSignature),
        },
    }
}

/// The canonical form of a signed header.
///
/// It exists exactly when the header carries every mandatory field and every
/// vote that was cast carries its signature. The votes keep their number and
/// their order.
pub fn to_signed_header(signed_header: &SourceSignedHeader) -> (out: Result<
    SignedHeader,
    ConversionError,
>)
    ensures
        match out {
            Ok(sh) => {
                &&& signed_header_defect(*signed_header) is None
                &&& sh@ == canonical_signed_header(*signed_header)
                &&& sh@.commit.signatures.len() == signed_header.commit.signatures@.len()
            },
            Err(e) => signed_header_defect(*signed_header) == Some(e),
        },
{
    let header = &signed_header.header;
    let commit = &signed_header.commit;
    let data_hash = match &header.data_hash {
        Some(hash) => copy_bytes(hash),
        None => {
            return Err(ConversionError::MissingDataHash);
        },
    };
    let evidence_hash = match &header.evidence_hash {
        Some(hash) => copy_bytes(hash),
        None => {
            return Err(ConversionError::MissingEvidenceHash);
        },
    };
    let last_block_id = match &header.last_block_id {
        Some(id) => Some(to_block_id(id)),
        None => {
            if header.height >= 2 {
                return Err(ConversionError::MissingLastBlockId);
            }
            None
        },
    };
    let last_commit_hash = match &header.last_commit_hash {
        Some(hash) => copy_bytes(hash),
        None => {
            return Err(ConversionError::MissingLastCommitHash);
        },
    };
    let last_results_hash = match &header.last_results_hash {
        Some(hash) => copy_bytes(hash),
        None => {
            return Err(ConversionError::MissingLastResultsHash);
        },
    };
    let mut signatures: Vec<CommitSig> = Vec::new();
    let mut i: usize = 0;
    while i < commit.signatures.len()
        invariant
            *commit == signed_header.commit,
            header_defect(signed_header.header) is None,
            i <= commit.signatures.len(),
            signatures.len() == i,
            forall|j: int| 0 <= j < i ==> !lacks_signature(#[trigger] commit.signatures@[j]),
            forall|j: int|
                0 <= j < i ==> (#[trigger] signatures@[j])@ == canonical_sig(commit.signatures@[j]),
        decreases commit.signatures.len() - i,
    {
        match to_sig(&commit.signatures[i]) {
            Ok(entry) => {
                signatures.push(entry);
            },
            Err(e) => {
                assert(lacks_signature(commit.signatures@[i as int]));
                return Err(e);
            },
        }
        i += 1;
    }
    let out = SignedHeader {
        header: LightHeader {
            version: to_version(&header.version),
            chain_id: copy_text(&header.chain_id),
            height: header.height,
            time: to_timestamp(&header.time),
            last_block_id,
            last_commit_hash,
            data_hash,
            validators_hash: copy_bytes(&header.validators_hash),
            next_validators_hash: copy_bytes(&header.next_validators_hash),
            consensus_hash: copy_bytes(&header.consensus_hash),
            app_hash: copy_bytes(&header.app_hash),
            last_results_hash,
            evidence_hash,
            proposer_address: copy_bytes(&header.proposer_address),
        },
        commit: Commit {
            height: commit.height,
            round: commit.round,
            block_id: to_block_id(&commit.block_id),
            signatures,
        },
    };
    assert(out@.commit.signatures =~= canonical_sigs(commit.signatures@));
    Ok(out)
}

/// The sum of a prefix of the powers is at most the sum of all of them.
proof fn lemma_power_sum_prefix(vs: Seq<ValidatorView>, n: int)
    requires
        0 <= n <= vs.len(),
    ensures
        power_sum(vs.take(n)) <= power_sum(vs),
    decreases vs.len() - n,
{
    if n == vs.len() {
        assert(vs.take(n) =~= vs);
    } else {
        lemma_power_sum_prefix(vs, n + 1);
        assert(vs.take(n + 1).drop_last() =~= vs.take(n));
    }
}

/// The canonical form of a validator set: the members one for one and in
/// order, and as total the sum of their powers, computed here and taken from
/// nowhere else. There is none where that sum exceeds `u64`.
pub fn to_validator_set(validators: &[SourceValidator]) -> (out: Result<
    ValidatorSet,
    ConversionError,
>)
    ensures
        match out {
            Ok(set) => {
                &&& set@.validators == canonical_validators(validators@)
                &&& set@.total_voting_power as nat == power_sum(canonical_validators(validators@))
                &&& set@.total_is_sum()
            },
            Err(e) => {
                &&& e == ConversionError::VotingPowerOverflow
                &&& power_sum(canonical_validators(validators@)) > u64::MAX
            },
        },
{
    let ghost all = canonical_validators(validators@);
    let mut members: Vec<Validator> = Vec::new();
    let mut total: u64 = 0;
    let mut i: usize = 0;
    assert(all.take(0) =~= Seq::<ValidatorView>::empty());
    while i < validators.len()
        invariant
            i <= validators.len(),
            all == canonical_validators(validators@),
            members.len() == i,
            forall|j: int|
                0 <= j < i ==> (#[trigger] members@[j])@ == canonical_validator(validators@[j]),
            total as nat == power_sum(all.take(i as int)),
        decreases validators.len() - i,
    {
        let v = &validators[i];
        proof {
            assert(all.take(i + 1).drop_last() =~= all.take(i as int));
            assert(all.take(i + 1).last() == canonical_validator(validators@[i as int]));
            lemma_power_sum_prefix(all, i + 1);
        }
        match total.checked_add(v.power) {
            Some(sum) => {
                total = sum;
            },
            None => {
                return Err(ConversionError::VotingPowerOverflow);
            },
        }
        members.push(
            Validator {
                address: copy_bytes(&v.address),
                pub_key: copy_bytes(&v.pub_key),
                voting_power: v.power,
                proposer_priority: v.proposer_priority,
            },
        );
        i += 1;
    }
    assert(all.take(i as int) =~= all);
    let out = ValidatorSet { validators: members, total_voting_power: total };
    assert(out@.validators =~= all);
    Ok(out)
}

/// A signed header paired with the validator set that signed it. No height
/// is trusted yet and no trusted validators are named.
pub fn to_light_block(signed_header: &SignedHeader, validator_set: &ValidatorSet) -> (out: TmHeader)
    ensures
        out@.signed_header == signed_header@,
        out@.validator_set == validator_set@,
        out@.trusted_height == 0,
        out@.trusted_validators is None,
{
    TmHeader {
        trusted_validators: None,
        trusted_height: 0,
        signed_header: signed_header.clone(),
        validator_set: validator_set.clone(),
    }
}

pub fn to_duration(seconds: i64, nanos: i32) -> (out: Duration)
    ensures
        out == (Duration { seconds, nanos }),
{
    Duration { seconds, nanos }
}

/// Conversion keeps the votes' number and order: where a commit has as many
/// votes as the validator set that signed has members, so has its canonical
/// form against the canonical set, and each canonical vote stands where its
/// source stood.
pub proof fn theorem_votes_match_validators(
    signed_header: SourceSignedHeader,
    validators: Seq<SourceValidator>,
)
    requires
        signed_header.commit.signatures@.len() == validators.len(),
    ensures
        canonical_signed_header(signed_header).commit.signatures.len() == canonical_validators(
            validators,
        ).len(),
        forall|i: int|
            0 <= i < validators.len() ==> {
                &&& #[trigger] canonical_signed_header(signed_header).commit.signatures[i]
                    == canonical_sig(signed_header.commit.signatures@[i])
                &&& canonical_validators(validators)[i] == canonical_validator(validators[i])
            },
{
}

/// The total of a canonical validator set is the same for every order in
/// which the source hands out the members.
pub proof fn theorem_total_ignores_order(a: Seq<SourceValidator>, b: Seq<SourceValidator>)
    requires
        canonical_validators(a).to_multiset() == canonical_validators(b).to_multiset(),
    ensures
        power_sum(canonical_validators(a)) == power_sum(canonical_validators(b)),
{
    crate::canonical::theorem_power_sum_ignores_order(
        canonical_validators(a),
        canonical_validators(b),
    );
}

} // verus!
