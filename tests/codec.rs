use block_attest::{
    attest, decode_block, decode_input, decode_outcome, encode_block, encode_input,
    encode_outcome, validate_block, BlockValidationResult, EthereumBlock, TimestampBounds,
};

fn sample() -> EthereumBlock {
    EthereumBlock {
        hash: "0xabc".to_string(),
        parent_hash: "0xdef".to_string(),
        timestamp: 1438300000,
        number: 22008660,
        transactions_root: "0x123".to_string(),
    }
}

#[test]
fn block_encoding_has_the_documented_layout() {
    let b = EthereumBlock {
        hash: "0x".to_string(),
        parent_hash: "".to_string(),
        timestamp: 1,
        number: 258,
        transactions_root: "é".to_string(),
    };
    let expected: Vec<u8> = vec![
        2, 0, 0, 0, 0, 0, 0, 0, b'0', b'x', //
        0, 0, 0, 0, 0, 0, 0, 0, //
        1, 0, 0, 0, 0, 0, 0, 0, //
        2, 1, 0, 0, 0, 0, 0, 0, //
        2, 0, 0, 0, 0, 0, 0, 0, 0xc3, 0xa9,
    ];
    assert_eq!(encode_block(&b), expected);
}

#[test]
fn block_round_trip() {
    let b = sample();
    assert_eq!(decode_block(&encode_block(&b)), Some(b));
}

#[test]
fn block_round_trip_with_zero_number_and_empty_fields() {
    let b = EthereumBlock {
        hash: String::new(),
        parent_hash: String::new(),
        timestamp: 0,
        number: 0,
        transactions_root: String::new(),
    };
    assert_eq!(decode_block(&encode_block(&b)), Some(b));
}

#[test]
fn block_round_trip_with_long_hashes() {
    let long = format!("0x{}", "f".repeat(100_000));
    let b = EthereumBlock {
        hash: long.clone(),
        parent_hash: long.clone(),
        timestamp: u64::MAX,
        number: u64::MAX,
        transactions_root: long,
    };
    assert_eq!(decode_block(&encode_block(&b)), Some(b));
}

#[test]
fn outcome_round_trip_for_every_flag_combination() {
    for bits in 0u8..8 {
        let o = BlockValidationResult {
            block: sample(),
            is_valid_hash: bits & 1 != 0,
            is_valid_timestamp: bits & 2 != 0,
            is_valid_structure: bits & 4 != 0,
        };
        assert_eq!(decode_outcome(&encode_outcome(&o)), Some(o));
    }
}

#[test]
fn input_round_trip() {
    let t = TimestampBounds { lower_bound: 1438269973, now: 1_700_000_000, max_skew: 15 };
    assert_eq!(decode_input(&encode_input(&sample(), &t)), Some((sample(), t)));
}

#[test]
fn decoding_rejects_trailing_bytes() {
    let mut bytes = encode_block(&sample());
    bytes.push(0);
    assert_eq!(decode_block(&bytes), None);
}

#[test]
fn decoding_rejects_truncated_input() {
    let bytes = encode_block(&sample());
    for cut in 0..bytes.len() {
        assert_eq!(decode_block(&bytes[..cut]), None);
    }
}

#[test]
fn decoding_rejects_a_flag_other_than_zero_or_one() {
    let o = validate_block(sample(), &TimestampBounds { lower_bound: 0, now: 0, max_skew: 0 });
    let mut bytes = encode_outcome(&o);
    let last = bytes.len() - 1;
    bytes[last] = 2;
    assert_eq!(decode_outcome(&bytes), None);
}

#[test]
fn decoding_rejects_invalid_utf8() {
    let mut bytes = encode_block(&sample());
    bytes[8] = 0xff;
    assert_eq!(decode_block(&bytes), None);
}

#[test]
fn decoding_rejects_a_length_past_the_end() {
    let mut bytes = encode_block(&sample());
    bytes[0] = 200;
    assert_eq!(decode_block(&bytes), None);
}

#[test]
fn attest_commits_the_validated_outcome() {
    let t = TimestampBounds { lower_bound: 1438269973, now: 1_700_000_000, max_skew: 15 };
    let journal = attest(&encode_input(&sample(), &t)).unwrap();
    assert_eq!(journal, encode_outcome(&validate_block(sample(), &t)));
}

#[test]
fn attest_refuses_malformed_input() {
    assert_eq!(attest(&encode_block(&sample())), None);
    assert_eq!(attest(&[]), None);
}

#[test]
fn decoded_bytes_are_the_encoding_of_the_result() {
    let bytes = encode_outcome(&validate_block(
        sample(),
        &TimestampBounds { lower_bound: 1, now: 2, max_skew: 3 },
    ));
    let decoded = decode_outcome(&bytes).unwrap();
    assert_eq!(encode_outcome(&decoded), bytes);
}
