use block_attest::{
    validate_block, validate_block_hash, validate_block_structure, validate_block_timestamp,
    EthereumBlock, TimestampBounds,
};

const GENESIS: u64 = 1438269973;

fn block(hash: &str, parent_hash: &str, timestamp: u64, transactions_root: &str) -> EthereumBlock {
    EthereumBlock {
        hash: hash.to_string(),
        parent_hash: parent_hash.to_string(),
        timestamp,
        number: 22008660,
        transactions_root: transactions_root.to_string(),
    }
}

fn bounds(now: u64) -> TimestampBounds {
    TimestampBounds { lower_bound: GENESIS, now, max_skew: 15 }
}

#[test]
fn hash_with_prefix_is_valid() {
    assert!(validate_block_hash(&block("0xabc", "0xdef", GENESIS, "0x123")));
    assert!(validate_block_hash(&block("0x", "0xdef", GENESIS, "0x123")));
}

#[test]
fn hash_without_prefix_is_invalid() {
    assert!(!validate_block_hash(&block("", "0xdef", GENESIS, "0x123")));
    assert!(!validate_block_hash(&block("0", "0xdef", GENESIS, "0x123")));
    assert!(!validate_block_hash(&block("abc", "0xdef", GENESIS, "0x123")));
    assert!(!validate_block_hash(&block("x0abc", "0xdef", GENESIS, "0x123")));
}

#[test]
fn hash_with_uppercase_prefix_is_invalid() {
    assert!(!validate_block_hash(&block("0Xabc", "0xdef", GENESIS, "0x123")));
}

#[test]
fn hash_with_non_ascii_text_is_checked_by_characters() {
    assert!(validate_block_hash(&block("0xé", "0xdef", GENESIS, "0x123")));
    assert!(!validate_block_hash(&block("é0x", "0xdef", GENESIS, "0x123")));
}

#[test]
fn timestamp_window_is_inclusive() {
    let b = bounds(1_700_000_000);
    assert!(validate_block_timestamp(&block("0x1", "0x2", GENESIS, "0x3"), &b));
    assert!(!validate_block_timestamp(&block("0x1", "0x2", GENESIS - 1, "0x3"), &b));
    assert!(validate_block_timestamp(&block("0x1", "0x2", 1_700_000_015, "0x3"), &b));
    assert!(!validate_block_timestamp(&block("0x1", "0x2", 1_700_000_016, "0x3"), &b));
    assert!(validate_block_timestamp(&block("0x1", "0x2", 1_600_000_000, "0x3"), &b));
}

#[test]
fn timestamp_window_near_the_top_of_the_range() {
    let b = TimestampBounds { lower_bound: 0, now: u64::MAX - 3, max_skew: 15 };
    assert!(validate_block_timestamp(&block("0x1", "0x2", u64::MAX, "0x3"), &b));
    assert!(validate_block_timestamp(&block("0x1", "0x2", 0, "0x3"), &b));
}

#[test]
fn structure_needs_all_three_fields() {
    assert!(!validate_block_structure(&block("", "0xdef", GENESIS, "0x123")));
    assert!(!validate_block_structure(&block("0xabc", "", GENESIS, "0x123")));
    assert!(!validate_block_structure(&block("0xabc", "0xdef", GENESIS, "")));
    assert!(validate_block_structure(&block("0xabc", "0xdef", GENESIS, "0x123")));
}

#[test]
fn structure_is_independent_of_the_other_checks() {
    let b = bounds(1_700_000_000);
    let r = validate_block(block("abc", "def", 5, "123"), &b);
    assert!(!r.is_valid_hash);
    assert!(!r.is_valid_timestamp);
    assert!(r.is_valid_structure);
}

#[test]
fn validate_packages_the_block_and_three_checks() {
    let b = bounds(1_700_000_000);
    let input = block("0xabc", "0xdef", 1438300000, "0x123");
    let r = validate_block(input.clone(), &b);
    assert_eq!(r.block, input);
    assert!(r.is_valid_hash);
    assert!(r.is_valid_timestamp);
    assert!(r.is_valid_structure);
}

#[test]
fn mainnet_window_uses_genesis_and_fifteen_seconds() {
    let b = TimestampBounds::mainnet(1_700_000_000);
    assert_eq!(b, TimestampBounds { lower_bound: 1438269973, now: 1_700_000_000, max_skew: 15 });
}
