//! Canonical, chain-agnostic structures that the destination light client reads.
//!
//! Every structure that owns bytes or text has a mathematical view in which
//! those are sequences; contracts across the crate speak of the views.

use vstd::prelude::*;
use crate::bytes::{copy_bytes, copy_text};

verus! {

/// A point in time: whole seconds since the Unix epoch and the nanoseconds past them.
#[derive(Clone, Copy, Debug, PartialEq, Eq, Structural)]
pub struct Timestamp {
    pub seconds: i64,
    pub nanos: i32,
}

/// A span of time: whole seconds and nanoseconds.
#[derive(Clone, Copy, Debug, PartialEq, Eq, Structural)]
pub struct Duration {
    pub seconds: i64,
    pub nanos: i32,
}

/// Block and application protocol versions of a header.
#[derive(Clone, Copy, Debug, PartialEq, Eq, Structural)]
pub struct Consensus {
    pub block: u64,
    pub app: u64,
}

/// The trust level of a client, as a fraction of the voting power.
#[derive(Clone, Copy, Debug, PartialEq, Eq, Structural)]
pub struct Fraction {
    pub numerator: u64,
    pub denominator: u64,
}

/// How a validator took part in a commit.
#[derive(Clone, Copy, Debug, PartialEq, Eq, Structural)]
pub enum BlockIdFlag {
    Unknown,
    Absent,
    Commit,
    Nil,
}

impl BlockIdFlag {
    /// The number that stands for the flag on the wire.
    pub open spec fn spec_code(self) -> i32 {
        match self {
            BlockIdFlag::Unknown => 0,
            BlockIdFlag::Absent => 1,
            BlockIdFlag::Commit => 2,
            BlockIdFlag::Nil => 3,
        }
    }

    /// The number that stands for the flag on the wire.
    #[verifier::when_used_as_spec(spec_code)]
    pub fn code(self) -> (c: i32)
        ensures
            c == self.spec_code(),
    {
        match self {
            BlockIdFlag::Unknown => 0,
            BlockIdFlag::Absent => 1,
            BlockIdFlag::Commit => 2,
            BlockIdFlag::Nil => 3,
        }
    }

    /// The flag that a wire number stands for, if any.
    pub open spec fn spec_from_code(c: int) -> Option<BlockIdFlag> {
        if c == 0 {
            Some(BlockIdFlag::Unknown)
        } else if c == 1 {
            Some(BlockIdFlag::Absent)
        } else if c == 2 {
            Some(BlockIdFlag::Commit)
        } else if c == 3 {
            Some(BlockIdFlag::Nil)
        } else {
            None
        }
    }

    /// The flag that a wire number stands for, if any.
    pub fn from_code(c: i32) -> (flag: Option<BlockIdFlag>)
        ensures
            flag == Self::spec_from_code(c as int),
    {
        if c == 0 {
            Some(BlockIdFlag::Unknown)
        } else if c == 1 {
            Some(BlockIdFlag::Absent)
        } else if c == 2 {
            Some(BlockIdFlag::Commit)
        } else if c == 3 {
            Some(BlockIdFlag::Nil)
        } else {
            None
        }
    }
}

/// Header of the set of parts a block was split into.
#[derive(Debug, PartialEq, Eq)]
pub struct CanonicalPartSetHeader {
    pub total: u32,
    pub hash: Vec<u8>,
}

/// The mathematical view of [`CanonicalPartSetHeader`]: bytes and text as sequences.
pub struct CanonicalPartSetHeaderView {
    pub total: u32,
    pub hash: Seq<u8>,
}

impl View for CanonicalPartSetHeader {
    type V = CanonicalPartSetHeaderView;

    open spec fn view(&self) -> CanonicalPartSetHeaderView {
        CanonicalPartSetHeaderView { total: self.total, hash: self.hash@ }
    }
}

impl Clone for CanonicalPartSetHeader {
    fn clone(&self) -> (out: Self)
        ensures
            out@ == self@,
    {
        CanonicalPartSetHeader { total: self.total, hash: copy_bytes(&self.hash) }
    }
}

/// Identity of a block: its hash and the header of its part set.
#[derive(Debug, PartialEq, Eq)]
pub struct CanonicalBlockId {
    pub hash: Vec<u8>,
    pub part_set_header: CanonicalPartSetHeader,
}

/// The mathematical view of [`CanonicalBlockId`]: bytes and text as sequences.
pub struct CanonicalBlockIdView {
    pub hash: Seq<u8>,
    pub part_set_header: CanonicalPartSetHeaderView,
}

impl View for CanonicalBlockId {
    type V = CanonicalBlockIdView;

    open spec fn view(&self) -> CanonicalBlockIdView {
        CanonicalBlockIdView { hash: self.hash@, part_set_header: self.part_set_header@ }
    }
}

impl Clone for CanonicalBlockId {
    fn clone(&self) -> (out: Self)
        ensures
            out@ == self@,
    {
        CanonicalBlockId {
            hash: copy_bytes(&self.hash),
            part_set_header: self.part_set_header.clone(),
        }
    }
}

/// One validator's entry in a commit. An absent entry carries no address, no
/// time and no signature.
#[derive(Debug, PartialEq, Eq)]
pub struct CommitSig {
    pub block_id_flag: BlockIdFlag,
    pub validator_address: Vec<u8>,
    pub timestamp: Option<Timestamp>,
    pub signature: Vec<u8>,
}

/// The mathematical view of [`CommitSig`]: bytes and text as sequences.
pub struct CommitSigView {
    pub block_id_flag: BlockIdFlag,
    pub validator_address: Seq<u8>,
    pub timestamp: Option<Timestamp>,
    pub signature: Seq<u8>,
}

impl View for CommitSig {
    type V = CommitSigView;

    open spec fn view(&self) -> CommitSigView {
        CommitSigView {
            block_id_flag: self.block_id_flag,
            validator_address: self.validator_address@,
            timestamp: self.timestamp,
            signature: self.signature@,
        }
    }
}

impl Clone for CommitSig {
    fn clone(&self) -> (out: Self)
        ensures
            out@ == self@,
    {
        CommitSig {
            block_id_flag: self.block_id_flag,
            validator_address: copy_bytes(&self.validator_address),
            timestamp: self.timestamp,
            signature: copy_bytes(&self.signature),
        }
    }
}

/// The views of a run of commit entries, in order.
pub open spec fn commit_sig_views(sigs: Seq<CommitSig>) -> Seq<CommitSigView> {
    Seq::new(sigs.len(), |i: int| sigs[i]@)
}

/// The part of a block header that a light client needs.
#[derive(Debug, PartialEq, Eq)]
pub struct LightHeader {
    pub version: Consensus,
    pub chain_id: String,
    pub height: u64,
    pub time: Timestamp,
    pub last_block_id: Option<CanonicalBlockId>,
    pub last_commit_hash: Vec<u8>,
    pub data_hash: Vec<u8>,
    pub validators_hash: Vec<u8>,
    pub next_validators_hash: Vec<u8>,
    pub consensus_hash: Vec<u8>,
    pub app_hash: Vec<u8>,
    pub last_results_hash: Vec<u8>,
    pub evidence_hash: Vec<u8>,
    pub proposer_address: Vec<u8>,
}

/// The mathematical view of [`LightHeader`]: bytes and text as sequences.
pub struct LightHeaderView {
    pub version: Consensus,
    pub chain_id: Seq<char>,
    pub height: u64,
    pub time: Timestamp,
    pub last_block_id: Option<CanonicalBlockIdView>,
    pub last_commit_hash: Seq<u8>,
    pub data_hash: Seq<u8>,
    pub validators_hash: Seq<u8>,
    pub next_validators_hash: Seq<u8>,
    pub consensus_hash: Seq<u8>,
    pub app_hash: Seq<u8>,
    pub last_results_hash: Seq<u8>,
    pub evidence_hash: Seq<u8>,
    pub proposer_address: Seq<u8>,
}

impl View for LightHeader {
    type V = LightHeaderView;

    open spec fn view(&self) -> LightHeaderView {
        LightHeaderView {
            version: self.version,
            chain_id: self.chain_id@,
            height: self.height,
            time: self.time,
            last_block_id: match self.last_block_id {
                Some(id) => Some(id@),
                None => None,
            },
            last_commit_hash: self.last_commit_hash@,
            data_hash: self.data_hash@,
            validators_hash: self.validators_hash@,
            next_validators_hash: self.next_validators_hash@,
            consensus_hash: self.consensus_hash@,
            app_hash: self.app_hash@,
            last_results_hash: self.last_results_hash@,
            evidence_hash: self.evidence_hash@,
            proposer_address: self.proposer_address@,
        }
    }
}

impl Clone for LightHeader {
    fn clone(&self) -> (out: Self)
        ensures
            out@ == self@,
    {
        LightHeader {
            version: self.version,
            chain_id: copy_text(&self.chain_id),
            height: self.height,
            time: self.time,
            last_block_id: match &self.last_block_id {
                Some(id) => Some(id.clone()),
                None => None,
            },
            last_commit_hash: copy_bytes(&self.last_commit_hash),
            data_hash: copy_bytes(&self.data_hash),
            validators_hash: copy_bytes(&self.validators_hash),
            next_validators_hash: copy_bytes(&self.next_validators_hash),
            consensus_hash: copy_bytes(&self.consensus_hash),
            app_hash: copy_bytes(&self.app_hash),
            last_results_hash: copy_bytes(&self.last_results_hash),
            evidence_hash: copy_bytes(&self.evidence_hash),
            proposer_address: copy_bytes(&self.proposer_address),
        }
    }
}

/// The votes that committed a block. The entries stand in the order of the
/// validator set that signed.
#[derive(Debug, PartialEq, Eq)]
pub struct Commit {
    pub height: u64,
    pub round: i32,
    pub block_id: CanonicalBlockId,
    pub signatures: Vec<CommitSig>,
}

/// The mathematical view of [`Commit`]: bytes and text as sequences.
pub struct CommitView {
    pub height: u64,
    pub round: i32,
    pub block_id: CanonicalBlockIdView,
    pub signatures: Seq<CommitSigView>,
}

impl View for Commit {
    type V = CommitView;

    open spec fn view(&self) -> CommitView {
        CommitView {
            height: self.height,
            round: self.round,
            block_id: self.block_id@,
            signatures: commit_sig_views(self.signatures@),
        }
    }
}

impl Clone for Commit {
    fn clone(&self) -> (out: Self)
        ensures
            out@ == self@,
    {
        let mut signatures: Vec<CommitSig> = Vec::new();
        let mut i: usize = 0;
        while i < self.signatures.len()
            invariant
                i <= self.signatures.len(),
                signatures.len() == i,
                forall|j: int| 0 <= j < i ==> signatures[j]@ == self.signatures[j]@,
            decreases self.signatures.len() - i,
        {
            signatures.push(self.signatures[i].clone());
            i += 1;
        }
        assert(commit_sig_views(signatures@) =~= commit_sig_views(self.signatures@));
        Commit {
            height: self.height,
            round: self.round,
            block_id: self.block_id.clone(),
            signatures,
        }
    }
}

/// A header together with the commit that signed it.
#[derive(Debug, PartialEq, Eq)]
pub struct SignedHeader {
    pub header: LightHeader,
    pub commit: Commit,
}

/// The mathematical view of [`SignedHeader`]: bytes and text as sequences.
pub struct SignedHeaderView {
    pub header: LightHeaderView,
    pub commit: CommitView,
}

impl View for SignedHeader {
    type V = SignedHeaderView;

    open spec fn view(&self) -> SignedHeaderView {
        SignedHeaderView { header: self.header@, commit: self.commit@ }
    }
}

impl Clone for SignedHeader {
    fn clone(&self) -> (out: Self)
        ensures
            out@ == self@,
    {
        SignedHeader { header: self.header.clone(), commit: self.commit.clone() }
    }
}

impl SignedHeaderView {
    /// The commit speaks of the height of the header it signs.
    pub open spec fn heights_agree(self) -> bool {
        self.commit.height == self.header.height
    }
}

/// A member of a validator set.
#[derive(Debug, PartialEq, Eq)]
pub struct Validator {
    pub address: Vec<u8>,
    pub pub_key: Vec<u8>,
    pub voting_power: u64,
    pub proposer_priority: Option<i64>,
}

/// The mathematical view of [`Validator`]: bytes and text as sequences.
pub struct ValidatorView {
    pub address: Seq<u8>,
    pub pub_key: Seq<u8>,
    pub voting_power: u64,
    pub proposer_priority: Option<i64>,
}

impl View for Validator {
    type V = ValidatorView;

    open spec fn view(&self) -> ValidatorView {
        ValidatorView {
            address: self.address@,
            pub_key: self.pub_key@,
            voting_power: self.voting_power,
            proposer_priority: self.proposer_priority,
        }
    }
}

impl Clone for Validator {
    fn clone(&self) -> (out: Self)
        ensures
            out@ == self@,
    {
        Validator {
            address: copy_bytes(&self.address),
            pub_key: copy_bytes(&self.pub_key),
            voting_power: self.voting_power,
            proposer_priority: self.proposer_priority,
        }
    }
}

/// The views of a run of validators, in order.
pub open spec fn validator_views(validators: Seq<Validator>) -> Seq<ValidatorView> {
    Seq::new(validators.len(), |i: int| validators[i]@)
}

/// The sum of the voting powers of a run of validators.
pub open spec fn power_sum(validators: Seq<ValidatorView>) -> nat
    decreases validators.len(),
{
    if validators.len() == 0 {
        0
    } else {
        power_sum(validators.drop_last()) + validators.last().voting_power as nat
    }
}

/// Validators in their canonical order, with the sum of their voting powers.
#[derive(Debug, PartialEq, Eq)]
pub struct ValidatorSet {
    pub validators: Vec<Validator>,
    pub total_voting_power: u64,
}

/// The mathematical view of [`ValidatorSet`]: bytes and text as sequences.
pub struct ValidatorSetView {
    pub validators: Seq<ValidatorView>,
    pub total_voting_power: u64,
}

impl View for ValidatorSet {
    type V = ValidatorSetView;

    open spec fn view(&self) -> ValidatorSetView {
        ValidatorSetView {
            validators: validator_views(self.validators@),
            total_voting_power: self.total_voting_power,
        }
    }
}

impl Clone for ValidatorSet {
    fn clone(&self) -> (out: Self)
        ensures
            out@ == self@,
    {
        let mut validators: Vec<Validator> = Vec::new();
        let mut i: usize = 0;
        while i < self.validators.len()
            invariant
                i <= self.validators.len(),
                validators.len() == i,
                forall|j: int| 0 <= j < i ==> validators[j]@ == self.validators[j]@,
            decreases self.validators.len() - i,
        {
            validators.push(self.validators[i].clone());
            i += 1;
        }
        assert(validator_views(validators@) =~= validator_views(self.validators@));
        ValidatorSet { validators, total_voting_power: self.total_voting_power }
    }
}

impl ValidatorSetView {
    /// The recorded total is the sum of the members' powers.
    pub open spec fn total_is_sum(self) -> bool {
        self.total_voting_power as nat == power_sum(self.validators)
    }
}

/// The message that moves a light client forward: a signed header, the
/// validator set that signed it, and the height the client already trusts.
/// `trusted_validators` is set only when the update skips heights.
#[derive(Debug, PartialEq, Eq)]
pub struct TmHeader {
    pub signed_header: SignedHeader,
    pub validator_set: ValidatorSet,
    pub trusted_height: u64,
    pub trusted_validators: Option<ValidatorSet>,
}

/// The mathematical view of [`TmHeader`]: bytes and text as sequences.
pub struct TmHeaderView {
    pub signed_header: SignedHeaderView,
    pub validator_set: ValidatorSetView,
    pub trusted_height: u64,
    pub trusted_validators: Option<ValidatorSetView>,
}

impl View for TmHeader {
    type V = TmHeaderView;

    open spec fn view(&self) -> TmHeaderView {
        TmHeaderView {
            signed_header: self.signed_header@,
            validator_set: self.validator_set@,
            trusted_height: self.trusted_height,
            trusted_validators: match self.trusted_validators {
                Some(set) => Some(set@),
                None => None,
            },
        }
    }
}

impl Clone for TmHeader {
    fn clone(&self) -> (out: Self)
        ensures
            out@ == self@,
    {
        TmHeader {
            signed_header: self.signed_header.clone(),
            validator_set: self.validator_set.clone(),
            trusted_height: self.trusted_height,
            trusted_validators: match &self.trusted_validators {
                Some(set) => Some(set.clone()),
                None => None,
            },
        }
    }
}

/// Root of the application state.
#[derive(Debug, PartialEq, Eq)]
pub struct MerkleRoot {
    pub hash: Vec<u8>,
}

/// The mathematical view of [`MerkleRoot`]: bytes and text as sequences.
pub struct MerkleRootView {
    pub hash: Seq<u8>,
}

impl View for MerkleRoot {
    type V = MerkleRootView;

    open spec fn view(&self) -> MerkleRootView {
        MerkleRootView { hash: self.hash@ }
    }
}

impl Clone for MerkleRoot {
    fn clone(&self) -> (out: Self)
        ensures
            out@ == self@,
    {
        MerkleRoot { hash: copy_bytes(&self.hash) }
    }
}

/// Parameters of a light client, fixed when it is created; only
/// `latest_height` moves afterwards. A `frozen_height` of zero means the
/// client is not frozen.
#[derive(Debug, PartialEq, Eq)]
pub struct ClientState {
    pub chain_id: String,
    pub trust_level: Fraction,
    pub trusting_period: Duration,
    pub unbonding_period: Duration,
    pub max_clock_drift: Duration,
    pub frozen_height: u64,
    pub latest_height: u64,
    pub allow_update_after_expiry: bool,
    pub allow_update_after_misbehaviour: bool,
}

/// The mathematical view of [`ClientState`]: bytes and text as sequences.
pub struct ClientStateView {
    pub chain_id: Seq<char>,
    pub trust_level: Fraction,
    pub trusting_period: Duration,
    pub unbonding_period: Duration,
    pub max_clock_drift: Duration,
    pub frozen_height: u64,
    pub latest_height: u64,
    pub allow_update_after_expiry: bool,
    pub allow_update_after_misbehaviour: bool,
}

impl View for ClientState {
    type V = ClientStateView;

    open spec fn view(&self) -> ClientStateView {
        ClientStateView {
            chain_id: self.chain_id@,
            trust_level: self.trust_level,
            trusting_period: self.trusting_period,
            unbonding_period: self.unbonding_period,
            max_clock_drift: self.max_clock_drift,
            frozen_height: self.frozen_height,
            latest_height: self.latest_height,
            allow_update_after_expiry: self.allow_update_after_expiry,
            allow_update_after_misbehaviour: self.allow_update_after_misbehaviour,
        }
    }
}

impl Clone for ClientState {
    fn clone(&self) -> (out: Self)
        ensures
            out@ == self@,
    {
        ClientState {
            chain_id: copy_text(&self.chain_id),
            trust_level: self.trust_level,
            trusting_period: self.trusting_period,
            unbonding_period: self.unbonding_period,
            max_clock_drift: self.max_clock_drift,
            frozen_height: self.frozen_height,
            latest_height: self.latest_height,
            allow_update_after_expiry: self.allow_update_after_expiry,
            allow_update_after_misbehaviour: self.allow_update_after_misbehaviour,
        }
    }
}

/// What a light client keeps of one trusted height.
#[derive(Debug, PartialEq, Eq)]
pub struct ConsensusState {
    pub root: MerkleRoot,
    pub timestamp: Timestamp,
    pub next_validators_hash: Vec<u8>,
}

/// The mathematical view of [`ConsensusState`]: bytes and text as sequences.
pub struct ConsensusStateView {
    pub root: MerkleRootView,
    pub timestamp: Timestamp,
    pub next_validators_hash: Seq<u8>,
}

impl View for ConsensusState {
    type V = ConsensusStateView;

    open spec fn view(&self) -> ConsensusStateView {
        ConsensusStateView {
            root: self.root@,
            timestamp: self.timestamp,
            next_validators_hash: self.next_validators_hash@,
        }
    }
}

impl Clone for ConsensusState {
    fn clone(&self) -> (out: Self)
        ensures
            out@ == self@,
    {
        ConsensusState {
            root: self.root.clone(),
            timestamp: self.timestamp,
            next_validators_hash: copy_bytes(&self.next_validators_hash),
        }
    }
}

/// Taking one member out lowers the sum of the powers by that member's power.
proof fn lemma_power_sum_remove(validators: Seq<ValidatorView>, i: int)
    requires
        0 <= i < validators.len(),
    ensures
        power_sum(validators) == power_sum(validators.remove(i)) + validators[i].voting_power,
    decreases validators.len(),
{
    if i == validators.len() - 1 {
        assert(validators.remove(i) =~= validators.drop_last());
    } else {
        lemma_power_sum_remove(validators.drop_last(), i);
        assert(validators.remove(i).drop_last() =~= validators.drop_last().remove(i));
        assert(validators.remove(i).last() == validators.last());
    }
}

/// The sum of the powers does not depend on the order of the members: two
/// runs of validators with the same members, each as often in one as in the
/// other, have the same sum.
pub proof fn theorem_power_sum_ignores_order(a: Seq<ValidatorView>, b: Seq<ValidatorView>)
    requires
        a.to_multiset() == b.to_multiset(),
    ensures
        power_sum(a) == power_sum(b),
    decreases a.len(),
{
    a.to_multiset_ensures();
    b.to_multiset_ensures();
    if a.len() == 0 {
        assert(b.len() == 0);
    } else {
        let x = a.last();
        let rest = a.drop_last();
        rest.to_multiset_ensures();
        assert(rest.push(x) =~= a);
        assert(a.to_multiset() =~= rest.to_multiset().insert(x));
        assert(b.to_multiset().count(x) > 0);
        assert(b.contains(x));
        let j = choose|j: int| 0 <= j < b.len() && b[j] == x;
        assert(b.remove(j).to_multiset() =~= b.to_multiset().remove(x));
        assert(rest.to_multiset() =~= b.remove(j).to_multiset());
        theorem_power_sum_ignores_order(rest, b.remove(j));
        lemma_power_sum_remove(b, j);
    }
}

} // verus!
