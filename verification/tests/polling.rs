use light_relay::address::{to_addr, AddressError};
use light_relay::canonical::ValidatorSet;
use light_relay::header_source::{HeaderSource, Poll, MAX_ATTEMPTS, RETRY_DELAY_SECONDS};
use light_relay::key::{secret_from_text, secret_to_text, KeyTextError};
use light_relay::trust::{TrustState, UpdateMode};

#[test]
fn polling_is_bounded() {
    assert_eq!(MAX_ATTEMPTS, 10);
    assert_eq!(RETRY_DELAY_SECONDS, 2);
    let mut source = HeaderSource::new(77);
    assert_eq!(source, HeaderSource { target: 77, attempts: 0 });
    for attempt in 1..=10u32 {
        let (next, poll) = source.ask();
        assert_eq!(poll, Poll::Fetch { height: 77 });
        assert_eq!(next.attempts, attempt);
        source = next;
        if attempt < 10 {
            assert_eq!(source.failed(), Poll::Backoff { seconds: 2 });
        } else {
            assert_eq!(source.failed(), Poll::Exhausted);
        }
    }
    let (same, poll) = source.ask();
    assert_eq!(poll, Poll::Exhausted);
    assert_eq!(same, source);
}

#[test]
fn found_block_names_the_target_height() {
    let (source, _) = HeaderSource::new(77).ask();
    assert_eq!(source.found(), 77);
}

#[test]
fn advancing_resets_the_attempts() {
    let (source, _) = HeaderSource::new(77).ask();
    assert_eq!(source.advance(), Some(HeaderSource { target: 78, attempts: 0 }));
    assert_eq!(HeaderSource::new(u64::MAX).advance(), None);
}

#[test]
fn trust_state_starts_empty() {
    let trust = TrustState::new(None);
    assert_eq!(trust.client_id, None);
    assert_eq!(trust.trusted_height, 0);
    assert_eq!(trust.trusted_validator_set, None);
    let seeded = TrustState::new(Some("client-7".to_string()));
    assert_eq!(seeded.client_id, Some("client-7".to_string()));
    assert_eq!(seeded.trusted_height, 0);
}

#[test]
fn update_mode_goes_by_the_gap() {
    let trust = TrustState::new(None).record_created(100);
    assert_eq!(trust.mode(101), UpdateMode::Adjacent);
    assert_eq!(trust.mode(102), UpdateMode::NonAdjacent);
    assert_eq!(trust.mode(100), UpdateMode::NonAdjacent);
    assert_eq!(trust.mode(99), UpdateMode::NonAdjacent);
    let last = TrustState::new(None).record_created(u64::MAX);
    assert_eq!(last.mode(0), UpdateMode::NonAdjacent);
    assert_eq!(last.mode(u64::MAX), UpdateMode::NonAdjacent);
}

#[test]
fn trust_state_records_what_was_accepted() {
    let set = ValidatorSet { validators: vec![], total_voting_power: 0 };
    let trust = TrustState::new(Some("c".to_string())).record_updated(5, set.clone());
    assert_eq!(trust.trusted_height, 5);
    assert_eq!(trust.trusted_validator_set, Some(set));
    assert_eq!(trust.client_id, Some("c".to_string()));
    let created = trust.record_created(9);
    assert_eq!(created.trusted_height, 9);
    assert_eq!(created.trusted_validator_set, None);
    assert_eq!(created.client_id, Some("c".to_string()));
    let named = created.identify("d".to_string());
    assert_eq!(named.client_id, Some("d".to_string()));
    assert_eq!(named.trusted_height, 9);
}

#[test]
fn address_is_read_from_hex() {
    let addr = to_addr("0x000102030405060708090a0B0c0D0e0F10111213").unwrap();
    assert_eq!(
        addr,
        [0, 1, 2, 3, 4, 5, 6, 7, 8, 9, 10, 11, 12, 13, 14, 15, 16, 17, 18, 19]
    );
    let upper = to_addr("0XFFFFFFFFFFFFFFFFFFFFFFFFFFFFFFFFFFFFFFFF").unwrap();
    assert_eq!(upper, [0xff; 20]);
}

#[test]
fn address_takes_the_first_twenty_bytes() {
    let addr = to_addr("0x000102030405060708090a0b0c0d0e0f10111213ffff").unwrap();
    assert_eq!(addr[19], 0x13);
    assert_eq!(addr[0], 0);
}

#[test]
fn address_prefix_is_passed_over_unread() {
    assert_eq!(
        to_addr("zz0101010101010101010101010101010101010101").unwrap(),
        [1; 20]
    );
}

#[test]
fn bad_addresses_are_refused() {
    assert_eq!(to_addr(""), Err(AddressError::TooShort));
    assert_eq!(to_addr("0"), Err(AddressError::TooShort));
    assert_eq!(to_addr("0x"), Err(AddressError::TooFewBytes));
    assert_eq!(to_addr("0x00"), Err(AddressError::TooFewBytes));
    assert_eq!(
        to_addr("0x000102030405060708090a0b0c0d0e0f101112"),
        Err(AddressError::TooFewBytes)
    );
    assert_eq!(to_addr("0x0"), Err(AddressError::NotHex));
    assert_eq!(
        to_addr("0x000102030405060708090a0b0c0d0e0f1011121g"),
        Err(AddressError::NotHex)
    );
    assert_eq!(
        to_addr("0x 00102030405060708090a0b0c0d0e0f10111213"),
        Err(AddressError::NotHex)
    );
}

#[test]
fn key_text_round_trips() {
    let key = vec![0x00, 0x01, 0xab, 0xff];
    let text = secret_to_text(&key);
    assert_eq!(text, "0x0001abff");
    assert_eq!(secret_from_text(&text), Ok(key));
    assert_eq!(secret_to_text(&[]), "0x");
    assert_eq!(secret_from_text("0x"), Ok(vec![]));
    assert_eq!(secret_from_text("0xABCDEF"), Ok(vec![0xab, 0xcd, 0xef]));
}

#[test]
fn bad_key_text_is_refused() {
    assert_eq!(secret_from_text(""), Err(KeyTextError::MissingPrefix));
    assert_eq!(secret_from_text("0"), Err(KeyTextError::MissingPrefix));
    assert_eq!(secret_from_text("0Xab"), Err(KeyTextError::MissingPrefix));
    assert_eq!(secret_from_text("abcd"), Err(KeyTextError::MissingPrefix));
    assert_eq!(secret_from_text("0xabc"), Err(KeyTextError::NotHex));
    assert_eq!(secret_from_text("0xab\n"), Err(KeyTextError::NotHex));
    assert_eq!(secret_from_text("0xzz"), Err(KeyTextError::NotHex));
}
