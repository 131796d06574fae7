use light_relay::canonical::{
    BlockIdFlag, CanonicalBlockId, CanonicalPartSetHeader, CommitSig, Consensus, Duration,
    Timestamp, Validator,
};
use light_relay::source::{
    SourceBlockId, SourceCommit, SourceCommitSig, SourceHeader, SourcePartSetHeader,
    SourceSignedHeader, SourceTime, SourceValidator, SourceVersion,
};
use light_relay::types::{
    to_block_id, to_duration, to_light_block, to_part_set_header, to_sig, to_signed_header,
    to_timestamp, to_validator_set, to_version, ConversionError,
};

fn sample_block_id(seed: u8) -> SourceBlockId {
    SourceBlockId {
        hash: vec![seed; 32],
        part_set_header: SourcePartSetHeader { total: 1, hash: vec![seed.wrapping_add(1); 32] },
    }
}

fn sample_header(height: u64) -> SourceHeader {
    SourceHeader {
        version: SourceVersion { block: 11, app: 2 },
        chain_id: "test-chain".to_string(),
        height,
        time: SourceTime { seconds: 1_600_000_000, subsec_nanos: 123_456_789 },
        last_block_id: Some(sample_block_id(1)),
        last_commit_hash: Some(vec![2; 32]),
        data_hash: Some(vec![3; 32]),
        validators_hash: vec![4; 32],
        next_validators_hash: vec![5; 32],
        consensus_hash: vec![6; 32],
        app_hash: vec![7; 8],
        last_results_hash: Some(vec![8; 32]),
        evidence_hash: Some(vec![9; 32]),
        proposer_address: vec![10; 20],
    }
}

fn sample_votes() -> Vec<SourceCommitSig> {
    vec![
        SourceCommitSig::Commit {
            validator_address: vec![1; 20],
            timestamp: SourceTime { seconds: 10, subsec_nanos: 1 },
            signature: Some(vec![0xa1; 64]),
        },
        SourceCommitSig::Absent,
        SourceCommitSig::Nil {
            validator_address: vec![3; 20],
            timestamp: SourceTime { seconds: 12, subsec_nanos: 3 },
            signature: Some(vec![0xa3; 64]),
        },
    ]
}

fn sample_signed_header(height: u64) -> SourceSignedHeader {
    SourceSignedHeader {
        header: sample_header(height),
        commit: SourceCommit {
            height,
            round: 1,
            block_id: sample_block_id(20),
            signatures: sample_votes(),
        },
    }
}

fn sample_validator(seed: u8, power: u64) -> SourceValidator {
    SourceValidator {
        address: vec![seed; 20],
        pub_key: vec![seed.wrapping_add(100); 32],
        power,
        proposer_priority: Some(-(seed as i64)),
    }
}

#[test]
fn part_set_header_keeps_total_and_hash() {
    let source = SourcePartSetHeader { total: 7, hash: vec![1, 2, 3] };
    assert_eq!(
        to_part_set_header(&source),
        CanonicalPartSetHeader { total: 7, hash: vec![1, 2, 3] }
    );
}

#[test]
fn block_id_keeps_hash_and_parts() {
    let source = SourceBlockId {
        hash: vec![9, 8],
        part_set_header: SourcePartSetHeader { total: 2, hash: vec![7] },
    };
    assert_eq!(
        to_block_id(&source),
        CanonicalBlockId {
            hash: vec![9, 8],
            part_set_header: CanonicalPartSetHeader { total: 2, hash: vec![7] },
        }
    );
}

#[test]
fn timestamp_keeps_nanosecond_resolution() {
    let source = SourceTime { seconds: 1_600_000_000, subsec_nanos: 999_999_999 };
    assert_eq!(to_timestamp(&source), Timestamp { seconds: 1_600_000_000, nanos: 999_999_999 });
    let early = SourceTime { seconds: -62_135_596_800, subsec_nanos: 1 };
    assert_eq!(to_timestamp(&early), Timestamp { seconds: -62_135_596_800, nanos: 1 });
}

#[test]
fn timestamp_keeps_leap_second_nanos() {
    let source = SourceTime { seconds: 5, subsec_nanos: 1_999_999_999 };
    assert_eq!(to_timestamp(&source), Timestamp { seconds: 5, nanos: 1_999_999_999 });
}

#[test]
fn timestamp_drops_nanos_that_do_not_fit() {
    let source = SourceTime { seconds: 5, subsec_nanos: 2_147_483_648 };
    assert_eq!(to_timestamp(&source), Timestamp { seconds: 5, nanos: 0 });
    let edge = SourceTime { seconds: 5, subsec_nanos: 2_147_483_647 };
    assert_eq!(to_timestamp(&edge), Timestamp { seconds: 5, nanos: 2_147_483_647 });
}

#[test]
fn version_keeps_both_numbers() {
    assert_eq!(
        to_version(&SourceVersion { block: 11, app: 3 }),
        Consensus { block: 11, app: 3 }
    );
}

#[test]
fn duration_is_built_from_its_parts() {
    assert_eq!(to_duration(100_000_000_000, 0), Duration { seconds: 100_000_000_000, nanos: 0 });
    assert_eq!(to_duration(-3, -7), Duration { seconds: -3, nanos: -7 });
}

#[test]
fn absent_vote_is_empty() {
    assert_eq!(
        to_sig(&SourceCommitSig::Absent),
        Ok(CommitSig {
            block_id_flag: BlockIdFlag::Absent,
            validator_address: vec![],
            timestamp: None,
            signature: vec![],
        })
    );
}

#[test]
fn cast_votes_keep_their_fields() {
    let nil = SourceCommitSig::Nil {
        validator_address: vec![1, 2],
        timestamp: SourceTime { seconds: 3, subsec_nanos: 4 },
        signature: Some(vec![5, 6]),
    };
    assert_eq!(
        to_sig(&nil),
        Ok(CommitSig {
            block_id_flag: BlockIdFlag::Nil,
            validator_address: vec![1, 2],
            timestamp: Some(Timestamp { seconds: 3, nanos: 4 }),
            signature: vec![5, 6],
        })
    );
    let commit = SourceCommitSig::Commit {
        validator_address: vec![7],
        timestamp: SourceTime { seconds: 8, subsec_nanos: 9 },
        signature: Some(vec![]),
    };
    assert_eq!(
        to_sig(&commit),
        Ok(CommitSig {
            block_id_flag: BlockIdFlag::Commit,
            validator_address: vec![7],
            timestamp: Some(Timestamp { seconds: 8, nanos: 9 }),
            signature: vec![],
        })
    );
}

#[test]
fn cast_vote_without_signature_is_refused() {
    let nil = SourceCommitSig::Nil {
        validator_address: vec![1],
        timestamp: SourceTime { seconds: 0, subsec_nanos: 0 },
        signature: None,
    };
    assert_eq!(to_sig(&nil), Err(ConversionError::MissingSignature));
    let commit = SourceCommitSig::Commit {
        validator_address: vec![1],
        timestamp: SourceTime { seconds: 0, subsec_nanos: 0 },
        signature: None,
    };
    assert_eq!(to_sig(&commit), Err(ConversionError::MissingSignature));
}

#[test]
fn complete_signed_header_converts() {
    let source = sample_signed_header(42);
    let canonical = to_signed_header(&source).unwrap();
    assert_eq!(canonical.header.version, Consensus { block: 11, app: 2 });
    assert_eq!(canonical.header.chain_id, "test-chain");
    assert_eq!(canonical.header.height, 42);
    assert_eq!(canonical.header.time, Timestamp { seconds: 1_600_000_000, nanos: 123_456_789 });
    assert_eq!(canonical.header.last_block_id, Some(to_block_id(&sample_block_id(1))));
    assert_eq!(canonical.header.last_commit_hash, vec![2; 32]);
    assert_eq!(canonical.header.data_hash, vec![3; 32]);
    assert_eq!(canonical.header.validators_hash, vec![4; 32]);
    assert_eq!(canonical.header.next_validators_hash, vec![5; 32]);
    assert_eq!(canonical.header.consensus_hash, vec![6; 32]);
    assert_eq!(canonical.header.app_hash, vec![7; 8]);
    assert_eq!(canonical.header.last_results_hash, vec![8; 32]);
    assert_eq!(canonical.header.evidence_hash, vec![9; 32]);
    assert_eq!(canonical.header.proposer_address, vec![10; 20]);
    assert_eq!(canonical.commit.height, 42);
    assert_eq!(canonical.commit.round, 1);
    assert_eq!(canonical.commit.block_id, to_block_id(&sample_block_id(20)));
    assert_eq!(canonical.commit.height, canonical.header.height);
}

#[test]
fn votes_keep_number_and_order() {
    let source = sample_signed_header(42);
    let canonical = to_signed_header(&source).unwrap();
    assert_eq!(canonical.commit.signatures.len(), 3);
    for (i, vote) in source.commit.signatures.iter().enumerate() {
        assert_eq!(canonical.commit.signatures[i], to_sig(vote).unwrap());
    }
    assert_eq!(canonical.commit.signatures[0].block_id_flag, BlockIdFlag::Commit);
    assert_eq!(canonical.commit.signatures[1].block_id_flag, BlockIdFlag::Absent);
    assert_eq!(canonical.commit.signatures[2].block_id_flag, BlockIdFlag::Nil);
}

#[test]
fn votes_match_validators_one_for_one() {
    let source = sample_signed_header(42);
    let validators = vec![sample_validator(1, 5), sample_validator(2, 6), sample_validator(3, 7)];
    let header = to_signed_header(&source).unwrap();
    let set = to_validator_set(&validators).unwrap();
    assert_eq!(header.commit.signatures.len(), set.validators.len());
    assert_eq!(header.commit.signatures[0].validator_address, set.validators[0].address);
    assert_eq!(header.commit.signatures[2].validator_address, set.validators[2].address);
}

#[test]
fn missing_data_hash_is_refused() {
    let mut source = sample_signed_header(42);
    source.header.data_hash = None;
    assert_eq!(to_signed_header(&source), Err(ConversionError::MissingDataHash));
}

#[test]
fn missing_evidence_hash_is_refused() {
    let mut source = sample_signed_header(42);
    source.header.evidence_hash = None;
    assert_eq!(to_signed_header(&source), Err(ConversionError::MissingEvidenceHash));
}

#[test]
fn missing_last_block_id_is_refused_from_the_second_height() {
    let mut source = sample_signed_header(2);
    source.header.last_block_id = None;
    assert_eq!(to_signed_header(&source), Err(ConversionError::MissingLastBlockId));
}

#[test]
fn first_height_needs_no_last_block_id() {
    let mut source = sample_signed_header(1);
    source.header.last_block_id = None;
    let canonical = to_signed_header(&source).unwrap();
    assert_eq!(canonical.header.last_block_id, None);
    assert_eq!(canonical.header.height, 1);
}

#[test]
fn missing_last_commit_hash_is_refused() {
    let mut source = sample_signed_header(42);
    source.header.last_commit_hash = None;
    assert_eq!(to_signed_header(&source), Err(ConversionError::MissingLastCommitHash));
}

#[test]
fn missing_last_results_hash_is_refused() {
    let mut source = sample_signed_header(42);
    source.header.last_results_hash = None;
    assert_eq!(to_signed_header(&source), Err(ConversionError::MissingLastResultsHash));
}

#[test]
fn missing_signature_in_commit_is_refused() {
    let mut source = sample_signed_header(42);
    source.commit.signatures[2] = SourceCommitSig::Nil {
        validator_address: vec![3; 20],
        timestamp: SourceTime { seconds: 12, subsec_nanos: 3 },
        signature: None,
    };
    assert_eq!(to_signed_header(&source), Err(ConversionError::MissingSignature));
}

#[test]
fn header_defects_come_before_commit_defects() {
    let mut source = sample_signed_header(42);
    source.header.last_results_hash = None;
    source.header.evidence_hash = None;
    source.commit.signatures[0] = SourceCommitSig::Commit {
        validator_address: vec![1; 20],
        timestamp: SourceTime { seconds: 10, subsec_nanos: 1 },
        signature: None,
    };
    assert_eq!(to_signed_header(&source), Err(ConversionError::MissingEvidenceHash));
}

#[test]
fn validator_set_total_is_the_sum() {
    let validators = vec![sample_validator(1, 10), sample_validator(2, 20), sample_validator(3, 12)];
    let set = to_validator_set(&validators).unwrap();
    assert_eq!(set.total_voting_power, 42);
    assert_eq!(set.validators.len(), 3);
    assert_eq!(
        set.validators[1],
        Validator {
            address: vec![2; 20],
            pub_key: vec![102; 32],
            voting_power: 20,
            proposer_priority: Some(-2),
        }
    );
}

#[test]
fn validator_set_total_ignores_order() {
    let a = vec![sample_validator(1, 10), sample_validator(2, 20), sample_validator(3, 12)];
    let b = vec![sample_validator(3, 12), sample_validator(1, 10), sample_validator(2, 20)];
    let first = to_validator_set(&a).unwrap();
    let second = to_validator_set(&b).unwrap();
    assert_eq!(first.total_voting_power, second.total_voting_power);
    assert_eq!(second.validators[0].address, vec![3; 20]);
}

#[test]
fn empty_validator_set_has_no_power() {
    let set = to_validator_set(&[]).unwrap();
    assert_eq!(set.total_voting_power, 0);
    assert!(set.validators.is_empty());
}

#[test]
fn validator_set_total_may_reach_the_limit() {
    let validators = vec![sample_validator(1, u64::MAX - 1), sample_validator(2, 1)];
    assert_eq!(to_validator_set(&validators).unwrap().total_voting_power, u64::MAX);
}

#[test]
fn validator_set_beyond_the_limit_is_refused() {
    let validators = vec![sample_validator(1, u64::MAX), sample_validator(2, 1)];
    assert_eq!(to_validator_set(&validators), Err(ConversionError::VotingPowerOverflow));
}

#[test]
fn light_block_pairs_header_and_validators() {
    let header = to_signed_header(&sample_signed_header(42)).unwrap();
    let set = to_validator_set(&[sample_validator(1, 10)]).unwrap();
    let block = to_light_block(&header, &set);
    assert_eq!(block.signed_header, header);
    assert_eq!(block.validator_set, set);
    assert_eq!(block.trusted_height, 0);
    assert_eq!(block.trusted_validators, None);
}

#[test]
fn conversion_errors_describe_themselves() {
    assert_eq!(ConversionError::MissingDataHash.message(), "header has no data hash");
    assert_eq!(ConversionError::MissingSignature.message(), "vote has no signature");
    assert_eq!(
        ConversionError::VotingPowerOverflow.message(),
        "total voting power exceeds 64 bits"
    );
}
