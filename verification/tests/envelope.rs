use light_relay::canonical::{
    BlockIdFlag, CanonicalBlockId, CanonicalPartSetHeader, ClientState, Commit, CommitSig,
    Consensus, ConsensusState, Duration, Fraction, LightHeader, MerkleRoot, SignedHeader,
    Timestamp, TmHeader, Validator, ValidatorSet,
};
use light_relay::decode::{
    decode_any, decode_block_id, decode_client_state, decode_commit, decode_commit_sig,
    decode_consensus, decode_consensus_state, decode_duration, decode_fraction,
    decode_light_header, decode_merkle_root, decode_part_set_header, decode_signed_header,
    decode_timestamp, decode_tm_header, decode_validator, decode_validator_set,
};
use light_relay::parse::{read_fields, Field, Value};
use light_relay::proto::{prost_serialize, prost_serialize_any};
use light_relay::source::{
    SourceBlockId, SourceCommit, SourceCommitSig, SourceHeader, SourcePartSetHeader,
    SourceSignedHeader, SourceTime, SourceVersion,
};
use light_relay::types::to_signed_header;
use prost::Message;

fn wire_parts() -> CanonicalPartSetHeader {
    CanonicalPartSetHeader { total: 1, hash: vec![0xaa, 0xbb] }
}

fn wire_block_id() -> CanonicalBlockId {
    CanonicalBlockId { hash: vec![1, 2], part_set_header: wire_parts() }
}

fn wire_commit_sig() -> CommitSig {
    CommitSig {
        block_id_flag: BlockIdFlag::Commit,
        validator_address: vec![9],
        timestamp: Some(Timestamp { seconds: 1, nanos: 0 }),
        signature: vec![7, 7],
    }
}

fn wire_header() -> LightHeader {
    LightHeader {
        version: Consensus { block: 11, app: 0 },
        chain_id: "ab".to_string(),
        height: 300,
        time: Timestamp { seconds: 1, nanos: 300 },
        last_block_id: Some(wire_block_id()),
        last_commit_hash: vec![6],
        data_hash: vec![7],
        validators_hash: vec![8],
        next_validators_hash: vec![9],
        consensus_hash: vec![10],
        app_hash: vec![11],
        last_results_hash: vec![12],
        evidence_hash: vec![13],
        proposer_address: vec![14],
    }
}

fn wire_header_bytes() -> Vec<u8> {
    vec![
        0x0a, 0x02, 0x08, 0x0b, // version
        0x12, 0x02, 0x61, 0x62, // chain id
        0x18, 0xac, 0x02, // height
        0x22, 0x05, 0x08, 0x01, 0x10, 0xac, 0x02, // time
        0x2a, 0x0c, 0x0a, 0x02, 0x01, 0x02, 0x12, 0x06, 0x08, 0x01, 0x12, 0x02, 0xaa,
        0xbb, // last block id
        0x32, 0x01, 0x06, 0x3a, 0x01, 0x07, 0x42, 0x01, 0x08, 0x4a, 0x01, 0x09, 0x52, 0x01, 0x0a,
        0x5a, 0x01, 0x0b, 0x62, 0x01, 0x0c, 0x6a, 0x01, 0x0d, 0x72, 0x01, 0x0e,
    ]
}

fn wire_commit() -> Commit {
    Commit {
        height: 300,
        round: 2,
        block_id: wire_block_id(),
        signatures: vec![
            wire_commit_sig(),
            CommitSig {
                block_id_flag: BlockIdFlag::Absent,
                validator_address: vec![],
                timestamp: None,
                signature: vec![],
            },
        ],
    }
}

fn wire_commit_bytes() -> Vec<u8> {
    vec![
        0x08, 0xac, 0x02, // height
        0x10, 0x02, // round
        0x1a, 0x0c, 0x0a, 0x02, 0x01, 0x02, 0x12, 0x06, 0x08, 0x01, 0x12, 0x02, 0xaa,
        0xbb, // block id
        0x22, 0x0d, 0x08, 0x02, 0x12, 0x01, 0x09, 0x1a, 0x02, 0x08, 0x01, 0x22, 0x02, 0x07,
        0x07, // first vote
        0x22, 0x02, 0x08, 0x01, // second vote
    ]
}

fn wire_validator() -> Validator {
    Validator { address: vec![1], pub_key: vec![2, 3], voting_power: 10, proposer_priority: None }
}

fn wire_validator_set() -> ValidatorSet {
    ValidatorSet {
        validators: vec![
            wire_validator(),
            Validator {
                address: vec![4],
                pub_key: vec![5],
                voting_power: 0,
                proposer_priority: Some(0),
            },
        ],
        total_voting_power: 10,
    }
}

fn wire_validator_set_bytes() -> Vec<u8> {
    vec![
        0x0a, 0x09, 0x0a, 0x01, 0x01, 0x12, 0x02, 0x02, 0x03, 0x18, 0x0a, // first member
        0x0a, 0x08, 0x0a, 0x01, 0x04, 0x12, 0x01, 0x05, 0x20, 0x00, // second member
        0x18, 0x0a, // total
    ]
}

fn framed(tag_byte: u8, payload: &[u8]) -> Vec<u8> {
    assert!(payload.len() < 128);
    let mut out = vec![tag_byte, payload.len() as u8];
    out.extend_from_slice(payload);
    out
}

#[test]
fn timestamp_bytes_are_exact() {
    let t = Timestamp { seconds: 1, nanos: 300 };
    assert_eq!(prost_serialize(&t), vec![0x08, 0x01, 0x10, 0xac, 0x02]);
    assert_eq!(decode_timestamp(&[0x08, 0x01, 0x10, 0xac, 0x02]), Some(t));
}

#[test]
fn zero_timestamp_is_empty() {
    let t = Timestamp { seconds: 0, nanos: 0 };
    assert_eq!(prost_serialize(&t), Vec::<u8>::new());
    assert_eq!(decode_timestamp(&[]), Some(t));
}

#[test]
fn negative_numbers_take_ten_bytes() {
    let t = Timestamp { seconds: -1, nanos: -2 };
    let bytes = vec![
        0x08, 0xff, 0xff, 0xff, 0xff, 0xff, 0xff, 0xff, 0xff, 0xff, 0x01, 0x10, 0xfe, 0xff, 0xff,
        0xff, 0xff, 0xff, 0xff, 0xff, 0xff, 0x01,
    ];
    assert_eq!(prost_serialize(&t), bytes);
    assert_eq!(decode_timestamp(&bytes), Some(t));
}

#[test]
fn extreme_numbers_round_trip() {
    for t in [
        Timestamp { seconds: i64::MIN, nanos: i32::MIN },
        Timestamp { seconds: i64::MAX, nanos: i32::MAX },
    ] {
        assert_eq!(decode_timestamp(&prost_serialize(&t)), Some(t));
    }
    let d = Duration { seconds: i64::MIN, nanos: -1 };
    assert_eq!(decode_duration(&prost_serialize(&d)), Some(d));
    let c = Consensus { block: u64::MAX, app: 1 << 63 };
    assert_eq!(decode_consensus(&prost_serialize(&c)), Some(c));
}

#[test]
fn duration_bytes_are_exact() {
    let d = Duration { seconds: 100_000_000_000, nanos: 0 };
    let bytes = vec![0x08, 0x80, 0xd0, 0xdb, 0xc3, 0xf4, 0x02];
    assert_eq!(prost_serialize(&d), bytes);
    assert_eq!(decode_duration(&bytes), Some(d));
}

#[test]
fn consensus_bytes_are_exact() {
    let c = Consensus { block: 11, app: 0 };
    assert_eq!(prost_serialize(&c), vec![0x08, 0x0b]);
    assert_eq!(decode_consensus(&[0x08, 0x0b]), Some(c));
    let both = Consensus { block: 0, app: 128 };
    assert_eq!(prost_serialize(&both), vec![0x10, 0x80, 0x01]);
}

#[test]
fn fraction_bytes_are_exact() {
    let f = Fraction { numerator: 1, denominator: 3 };
    assert_eq!(prost_serialize(&f), vec![0x08, 0x01, 0x10, 0x03]);
    assert_eq!(decode_fraction(&[0x08, 0x01, 0x10, 0x03]), Some(f));
}

#[test]
fn part_set_header_bytes_are_exact() {
    let bytes = vec![0x08, 0x01, 0x12, 0x02, 0xaa, 0xbb];
    assert_eq!(prost_serialize(&wire_parts()), bytes);
    assert_eq!(decode_part_set_header(&bytes), Some(wire_parts()));
    let wide = CanonicalPartSetHeader { total: u32::MAX, hash: vec![] };
    assert_eq!(prost_serialize(&wide), vec![0x08, 0xff, 0xff, 0xff, 0xff, 0x0f]);
    assert_eq!(decode_part_set_header(&prost_serialize(&wide)), Some(wide));
}

#[test]
fn block_id_bytes_are_exact() {
    let bytes =
        vec![0x0a, 0x02, 0x01, 0x02, 0x12, 0x06, 0x08, 0x01, 0x12, 0x02, 0xaa, 0xbb];
    assert_eq!(prost_serialize(&wire_block_id()), bytes);
    assert_eq!(decode_block_id(&bytes), Some(wire_block_id()));
}

#[test]
fn empty_nested_message_is_still_written() {
    let id = CanonicalBlockId {
        hash: vec![],
        part_set_header: CanonicalPartSetHeader { total: 0, hash: vec![] },
    };
    assert_eq!(prost_serialize(&id), vec![0x12, 0x00]);
    assert_eq!(decode_block_id(&[0x12, 0x00]), Some(id.clone()));
    assert_eq!(decode_block_id(&[]), Some(id));
}

#[test]
fn commit_sig_bytes_are_exact() {
    let bytes =
        vec![0x08, 0x02, 0x12, 0x01, 0x09, 0x1a, 0x02, 0x08, 0x01, 0x22, 0x02, 0x07, 0x07];
    assert_eq!(prost_serialize(&wire_commit_sig()), bytes);
    assert_eq!(decode_commit_sig(&bytes), Some(wire_commit_sig()));
}

#[test]
fn block_id_flags_have_their_numbers() {
    for (flag, code) in [
        (BlockIdFlag::Unknown, 0),
        (BlockIdFlag::Absent, 1),
        (BlockIdFlag::Commit, 2),
        (BlockIdFlag::Nil, 3),
    ] {
        assert_eq!(flag.code(), code);
        assert_eq!(BlockIdFlag::from_code(code), Some(flag));
        let sig = CommitSig {
            block_id_flag: flag,
            validator_address: vec![],
            timestamp: None,
            signature: vec![],
        };
        let expected: Vec<u8> = if code == 0 { vec![] } else { vec![0x08, code as u8] };
        assert_eq!(prost_serialize(&sig), expected);
        assert_eq!(decode_commit_sig(&expected), Some(sig));
    }
    assert_eq!(BlockIdFlag::from_code(4), None);
    assert_eq!(BlockIdFlag::from_code(-1), None);
}

#[test]
fn unknown_flag_number_is_refused() {
    assert_eq!(decode_commit_sig(&[0x08, 0x04]), None);
}

#[test]
fn absent_timestamp_differs_from_zero_timestamp() {
    let zero = CommitSig {
        block_id_flag: BlockIdFlag::Nil,
        validator_address: vec![],
        timestamp: Some(Timestamp { seconds: 0, nanos: 0 }),
        signature: vec![],
    };
    assert_eq!(prost_serialize(&zero), vec![0x08, 0x03, 0x1a, 0x00]);
    assert_eq!(decode_commit_sig(&[0x08, 0x03, 0x1a, 0x00]), Some(zero));
}

#[test]
fn light_header_bytes_are_exact() {
    assert_eq!(prost_serialize(&wire_header()), wire_header_bytes());
    assert_eq!(decode_light_header(&wire_header_bytes()), Some(wire_header()));
}

#[test]
fn light_header_without_last_block_id_round_trips() {
    let mut header = wire_header();
    header.last_block_id = None;
    header.chain_id = "cosmoshub-4 \u{00e9}\u{4e16}\u{1f600}".to_string();
    let bytes = prost_serialize(&header);
    assert_eq!(decode_light_header(&bytes), Some(header));
}

#[test]
fn text_that_is_not_utf8_is_refused() {
    assert_eq!(decode_light_header(&[0x12, 0x02, 0xc3, 0x28]), None);
    assert_eq!(decode_any(&[0x0a, 0x01, 0xff]), None);
}

#[test]
fn commit_bytes_are_exact() {
    assert_eq!(prost_serialize(&wire_commit()), wire_commit_bytes());
    assert_eq!(decode_commit(&wire_commit_bytes()), Some(wire_commit()));
}

#[test]
fn commit_with_a_bad_vote_is_refused() {
    let mut bytes = wire_commit_bytes();
    bytes.extend_from_slice(&[0x22, 0x02, 0x08, 0x09]);
    assert_eq!(decode_commit(&bytes), None);
}

#[test]
fn signed_header_bytes_are_exact() {
    let sh = SignedHeader { header: wire_header(), commit: wire_commit() };
    let mut bytes = framed(0x0a, &wire_header_bytes());
    bytes.extend(framed(0x12, &wire_commit_bytes()));
    assert_eq!(prost_serialize(&sh), bytes);
    assert_eq!(decode_signed_header(&bytes), Some(sh));
}

#[test]
fn validator_bytes_are_exact() {
    let bytes = vec![0x0a, 0x01, 0x01, 0x12, 0x02, 0x02, 0x03, 0x18, 0x0a];
    assert_eq!(prost_serialize(&wire_validator()), bytes);
    assert_eq!(decode_validator(&bytes), Some(wire_validator()));
}

#[test]
fn proposer_priority_is_written_when_present() {
    let mut v = wire_validator();
    v.proposer_priority = Some(0);
    let zero = prost_serialize(&v);
    assert_eq!(zero, vec![0x0a, 0x01, 0x01, 0x12, 0x02, 0x02, 0x03, 0x18, 0x0a, 0x20, 0x00]);
    assert_eq!(decode_validator(&zero), Some(v.clone()));
    v.proposer_priority = Some(-1);
    let negative = prost_serialize(&v);
    assert_eq!(negative.len(), 9 + 11);
    assert_eq!(decode_validator(&negative), Some(v));
}

#[test]
fn validator_set_bytes_are_exact() {
    assert_eq!(prost_serialize(&wire_validator_set()), wire_validator_set_bytes());
    assert_eq!(decode_validator_set(&wire_validator_set_bytes()), Some(wire_validator_set()));
}

#[test]
fn empty_validator_set_is_empty() {
    let set = ValidatorSet { validators: vec![], total_voting_power: 0 };
    assert_eq!(prost_serialize(&set), Vec::<u8>::new());
    assert_eq!(decode_validator_set(&[]), Some(set));
}

#[test]
fn tm_header_bytes_are_exact() {
    let sh = SignedHeader { header: wire_header(), commit: wire_commit() };
    let signed = prost_serialize(&sh);
    let adjacent = TmHeader {
        signed_header: sh.clone(),
        validator_set: wire_validator_set(),
        trusted_height: 299,
        trusted_validators: None,
    };
    let mut bytes = vec![0x0a, signed.len() as u8];
    assert!(signed.len() < 128);
    bytes.extend_from_slice(&signed);
    bytes.extend(framed(0x12, &wire_validator_set_bytes()));
    bytes.extend_from_slice(&[0x18, 0xab, 0x02]);
    assert_eq!(prost_serialize(&adjacent), bytes);
    assert_eq!(decode_tm_header(&bytes), Some(adjacent));

    let skipping = TmHeader {
        signed_header: sh,
        validator_set: wire_validator_set(),
        trusted_height: 298,
        trusted_validators: Some(ValidatorSet { validators: vec![], total_voting_power: 0 }),
    };
    let mut bytes = vec![0x0a, signed.len() as u8];
    bytes.extend_from_slice(&signed);
    bytes.extend(framed(0x12, &wire_validator_set_bytes()));
    bytes.extend_from_slice(&[0x18, 0xaa, 0x02, 0x22, 0x00]);
    assert_eq!(prost_serialize(&skipping), bytes);
    assert_eq!(decode_tm_header(&bytes), Some(skipping));
}

#[test]
fn merkle_root_bytes_are_exact() {
    let root = MerkleRoot { hash: vec![1, 2, 3] };
    assert_eq!(prost_serialize(&root), vec![0x0a, 0x03, 0x01, 0x02, 0x03]);
    assert_eq!(decode_merkle_root(&[0x0a, 0x03, 0x01, 0x02, 0x03]), Some(root));
}

#[test]
fn client_state_bytes_are_exact() {
    let period = Duration { seconds: 100_000_000_000, nanos: 0 };
    let state = ClientState {
        chain_id: "ab".to_string(),
        trust_level: Fraction { numerator: 1, denominator: 3 },
        trusting_period: period,
        unbonding_period: period,
        max_clock_drift: period,
        frozen_height: 0,
        latest_height: 300,
        allow_update_after_expiry: true,
        allow_update_after_misbehaviour: true,
    };
    let p = [0x08, 0x80, 0xd0, 0xdb, 0xc3, 0xf4, 0x02];
    let mut bytes = vec![0x0a, 0x02, 0x61, 0x62, 0x12, 0x04, 0x08, 0x01, 0x10, 0x03];
    bytes.extend(framed(0x1a, &p));
    bytes.extend(framed(0x22, &p));
    bytes.extend(framed(0x2a, &p));
    bytes.extend_from_slice(&[0x38, 0xac, 0x02, 0x40, 0x01, 0x48, 0x01]);
    assert_eq!(prost_serialize(&state), bytes);
    assert_eq!(decode_client_state(&bytes), Some(state));
}

#[test]
fn client_state_flags_round_trip() {
    let state = ClientState {
        chain_id: String::new(),
        trust_level: Fraction { numerator: 0, denominator: 0 },
        trusting_period: Duration { seconds: 0, nanos: 0 },
        unbonding_period: Duration { seconds: 1, nanos: -1 },
        max_clock_drift: Duration { seconds: 0, nanos: 0 },
        frozen_height: 9,
        latest_height: 0,
        allow_update_after_expiry: false,
        allow_update_after_misbehaviour: true,
    };
    let bytes = prost_serialize(&state);
    assert_eq!(decode_client_state(&bytes), Some(state));
}

#[test]
fn consensus_state_bytes_are_exact() {
    let state = ConsensusState {
        root: MerkleRoot { hash: vec![7, 8] },
        timestamp: Timestamp { seconds: 1, nanos: 300 },
        next_validators_hash: vec![9],
    };
    let bytes = vec![
        0x0a, 0x05, 0x08, 0x01, 0x10, 0xac, 0x02, 0x12, 0x04, 0x0a, 0x02, 0x07, 0x08, 0x1a, 0x01,
        0x09,
    ];
    assert_eq!(prost_serialize(&state), bytes);
    assert_eq!(decode_consensus_state(&bytes), Some(state));
}

#[test]
fn envelope_bytes_are_exact() {
    let t = Timestamp { seconds: 1, nanos: 300 };
    let bytes = prost_serialize_any(&t, "/a.B").unwrap();
    assert_eq!(
        bytes,
        vec![0x0a, 0x04, 0x2f, 0x61, 0x2e, 0x42, 0x12, 0x05, 0x08, 0x01, 0x10, 0xac, 0x02]
    );
    assert_eq!(
        decode_any(&bytes),
        Some(("/a.B".to_string(), vec![0x08, 0x01, 0x10, 0xac, 0x02]))
    );
}

#[test]
fn envelope_leaves_out_what_is_empty() {
    let zero = Timestamp { seconds: 0, nanos: 0 };
    assert_eq!(prost_serialize_any(&zero, "/a").unwrap(), vec![0x0a, 0x02, 0x2f, 0x61]);
    assert_eq!(prost_serialize_any(&zero, "").unwrap(), Vec::<u8>::new());
    let t = Timestamp { seconds: 1, nanos: 0 };
    assert_eq!(prost_serialize_any(&t, "").unwrap(), vec![0x12, 0x02, 0x08, 0x01]);
    assert_eq!(decode_any(&[]), Some((String::new(), vec![])));
}

#[test]
fn envelope_is_what_the_wire_library_writes() {
    let state = ConsensusState {
        root: MerkleRoot { hash: vec![7; 32] },
        timestamp: Timestamp { seconds: 1_600_000_000, nanos: 5 },
        next_validators_hash: vec![9; 32],
    };
    let url = "/tendermint.types.ConsensusState";
    let any = prost_types::Any { type_url: url.to_string(), value: prost_serialize(&state) };
    let mut expected = Vec::new();
    any.encode(&mut expected).unwrap();
    assert_eq!(prost_serialize_any(&state, url).unwrap(), expected);
    let read = prost_types::Any::decode(expected.as_slice()).unwrap();
    assert_eq!(read.type_url, url);
    assert_eq!(decode_consensus_state(&read.value), Some(state));
}

#[test]
fn long_fields_have_long_lengths() {
    let root = MerkleRoot { hash: vec![5; 300] };
    let bytes = prost_serialize(&root);
    assert_eq!(&bytes[..3], &[0x0a, 0xac, 0x02]);
    assert_eq!(bytes.len(), 303);
    assert_eq!(decode_merkle_root(&bytes), Some(root));
}

#[test]
fn fields_are_read_in_order() {
    let fields = read_fields(&[0x08, 0x01, 0x12, 0x02, 0xaa, 0xbb, 0x78, 0x00]).unwrap();
    assert_eq!(
        fields,
        vec![
            Field { tag: 1, value: Value::Varint(1) },
            Field { tag: 2, value: Value::Bytes(vec![0xaa, 0xbb]) },
            Field { tag: 15, value: Value::Varint(0) },
        ]
    );
    assert_eq!(read_fields(&[]), Some(vec![]));
}

#[test]
fn malformed_bytes_are_refused() {
    // a key without a value
    assert_eq!(read_fields(&[0x08]), None);
    // an integer that never ends
    assert_eq!(read_fields(&[0x08, 0x80]), None);
    // a length beyond the end
    assert_eq!(read_fields(&[0x12, 0x03, 0x01, 0x02]), None);
    // field number zero
    assert_eq!(read_fields(&[0x00, 0x01]), None);
    // wire types other than integer and bytes
    assert_eq!(read_fields(&[0x09, 0, 0, 0, 0, 0, 0, 0, 0]), None);
    assert_eq!(read_fields(&[0x0d, 0, 0, 0, 0]), None);
    // an integer with a needless last byte
    assert_eq!(read_fields(&[0x08, 0x81, 0x00]), None);
    // an integer of eleven bytes
    assert_eq!(
        read_fields(&[0x08, 0xff, 0xff, 0xff, 0xff, 0xff, 0xff, 0xff, 0xff, 0xff, 0xff, 0x01]),
        None
    );
    // an integer beyond 64 bits
    assert_eq!(
        read_fields(&[0x08, 0xff, 0xff, 0xff, 0xff, 0xff, 0xff, 0xff, 0xff, 0xff, 0x02]),
        None
    );
    assert_eq!(decode_timestamp(&[0x08]), None);
    assert_eq!(decode_tm_header(&[0x0a, 0x01, 0x08]), None);
}

#[test]
fn largest_integer_is_read() {
    assert_eq!(
        read_fields(&[0x08, 0xff, 0xff, 0xff, 0xff, 0xff, 0xff, 0xff, 0xff, 0xff, 0x01]),
        Some(vec![Field { tag: 1, value: Value::Varint(u64::MAX) }])
    );
}

#[test]
fn unknown_fields_are_passed_over_and_the_last_value_counts() {
    let bytes = [0x08, 0x05, 0x78, 0x01, 0x08, 0x07, 0x7a, 0x01, 0x00];
    assert_eq!(decode_timestamp(&bytes), Some(Timestamp { seconds: 7, nanos: 0 }));
}

#[test]
fn a_field_of_the_other_kind_is_passed_over() {
    assert_eq!(
        decode_timestamp(&[0x0a, 0x01, 0x09, 0x10, 0x02]),
        Some(Timestamp { seconds: 0, nanos: 2 })
    );
}

#[test]
fn converted_signed_header_round_trips() {
    let id = SourceBlockId {
        hash: vec![0x11; 32],
        part_set_header: SourcePartSetHeader { total: 3, hash: vec![0x22; 32] },
    };
    let source = SourceSignedHeader {
        header: SourceHeader {
            version: SourceVersion { block: 11, app: 1 },
            chain_id: "cosmoshub-4".to_string(),
            height: 5_200_791,
            time: SourceTime { seconds: 1_613_990_401, subsec_nanos: 987_654_321 },
            last_block_id: Some(id.clone()),
            last_commit_hash: Some(vec![0x33; 32]),
            data_hash: Some(vec![0x44; 32]),
            validators_hash: vec![0x55; 32],
            next_validators_hash: vec![0x66; 32],
            consensus_hash: vec![0x77; 32],
            app_hash: vec![],
            last_results_hash: Some(vec![0x88; 32]),
            evidence_hash: Some(vec![0x99; 32]),
            proposer_address: vec![0xaa; 20],
        },
        commit: SourceCommit {
            height: 5_200_791,
            round: 0,
            block_id: id,
            signatures: vec![
                SourceCommitSig::Commit {
                    validator_address: vec![1; 20],
                    timestamp: SourceTime { seconds: 1_613_990_402, subsec_nanos: 5 },
                    signature: Some(vec![0xb1; 64]),
                },
                SourceCommitSig::Absent,
                SourceCommitSig::Nil {
                    validator_address: vec![3; 20],
                    timestamp: SourceTime { seconds: 1_613_990_403, subsec_nanos: 0 },
                    signature: Some(vec![0xb3; 64]),
                },
                SourceCommitSig::Absent,
            ],
        },
    };
    let canonical = to_signed_header(&source).unwrap();
    let bytes = prost_serialize(&canonical);
    assert_eq!(decode_signed_header(&bytes), Some(canonical.clone()));
    let (url, value) =
        decode_any(&prost_serialize_any(&canonical, "/tendermint.types.SignedHeader").unwrap())
            .unwrap();
    assert_eq!(url, "/tendermint.types.SignedHeader");
    assert_eq!(decode_signed_header(&value), Some(canonical));
}
