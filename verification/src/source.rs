//! Structures as the source chain hands them out, reduced to plain values.
//!
//! Optional fields are optional here too: whether an absent one is tolerated
//! is decided by the conversion, not by the caller.

use vstd::prelude::*;

verus! {

/// Header of a block's part set.
#[derive(Clone, Debug, PartialEq, Eq)]
pub struct SourcePartSetHeader {
    pub total: u32,
    pub hash: Vec<u8>,
}

/// Identity of a block.
#[derive(Clone, Debug, PartialEq, Eq)]
pub struct SourceBlockId {
    pub hash: Vec<u8>,
    pub part_set_header: SourcePartSetHeader,
}

/// A point in time: whole seconds since the Unix epoch and the nanoseconds
/// past them. During a leap second the nanoseconds may exceed one second.
#[derive(Clone, Copy, Debug, PartialEq, Eq, Structural)]
pub struct SourceTime {
    pub seconds: i64,
    pub subsec_nanos: u32,
}

/// Block and application protocol versions.
#[derive(Clone, Copy, Debug, PartialEq, Eq, Structural)]
pub struct SourceVersion {
    pub block: u64,
    pub app: u64,
}

/// One validator's entry in a commit.
#[derive(Clone, Debug, PartialEq, Eq)]
pub enum SourceCommitSig {
    /// No vote was received.
    Absent,
    /// The validator voted for nil.
    Nil { validator_address: Vec<u8>, timestamp: SourceTime, signature: Option<Vec<u8>> },
    /// The validator voted for the block.
    Commit { validator_address: Vec<u8>, timestamp: SourceTime, signature: Option<Vec<u8>> },
}

/// A block header.
#[derive(Clone, Debug, PartialEq, Eq)]
pub struct SourceHeader {
    pub version: SourceVersion,
    pub chain_id: String,
    pub height: u64,
    pub time: SourceTime,
    pub last_block_id: Option<SourceBlockId>,
    pub last_commit_hash: Option<Vec<u8>>,
    pub data_hash: Option<Vec<u8>>,
    pub validators_hash: Vec<u8>,
    pub next_validators_hash: Vec<u8>,
    pub consensus_hash: Vec<u8>,
    pub app_hash: Vec<u8>,
    pub last_results_hash: Option<Vec<u8>>,
    pub evidence_hash: Option<Vec<u8>>,
    pub proposer_address: Vec<u8>,
}

/// The votes that committed a block.
#[derive(Clone, Debug, PartialEq, Eq)]
pub struct SourceCommit {
    pub height: u64,
    pub round: i32,
    pub block_id: SourceBlockId,
    pub signatures: Vec<SourceCommitSig>,
}

/// A header and its commit.
#[derive(Clone, Debug, PartialEq, Eq)]
pub struct SourceSignedHeader {
    pub header: SourceHeader,
    pub commit: SourceCommit,
}

/// A member of a validator set.
#[derive(Clone, Debug, PartialEq, Eq)]
pub struct SourceValidator {
    pub address: Vec<u8>,
    pub pub_key: Vec<u8>,
    pub power: u64,
    pub proposer_priority: Option<i64>,
}

} // verus!
