use block_attest::{
    accept_commitment, attest, commitment_matches, encode_artifact, encode_input,
    encode_outcome, frame_artifact, identity_to_hex, open_artifact, open_artifact_against,
    package_proof, program_identity, unframe_artifact, validate_block, BlockValidationResult,
    EthereumBlock, ProduceError, ProofArtifact, TimestampBounds, VerifyError,
};
use risc0_zkvm::sha::Digest;
use risc0_zkvm::{FakeReceipt, InnerReceipt, Receipt, ReceiptClaim};

fn fixed_block() -> EthereumBlock {
    EthereumBlock {
        hash: "0xabc".to_string(),
        parent_hash: "0xdef".to_string(),
        timestamp: 1438300000,
        number: 22008660,
        transactions_root: "0x123".to_string(),
    }
}

fn fixed_bounds() -> TimestampBounds {
    TimestampBounds { lower_bound: 1438269973, now: 1_700_000_000, max_skew: 15 }
}

const PROGRAM: [u8; 32] = [7u8; 32];

/// A receipt whose claim covers another journal than the one it carries, so
/// it fails verification with or without dev mode.
fn unproven_receipt() -> Receipt {
    let journal = attest(&encode_input(&fixed_block(), &fixed_bounds())).unwrap();
    let mut claimed = journal.clone();
    claimed[20] ^= 1;
    let claim = ReceiptClaim::ok(Digest::from(PROGRAM), claimed);
    Receipt::new(InnerReceipt::Fake(FakeReceipt::new(claim)), journal)
}

fn unproven_artifact_bytes() -> Vec<u8> {
    let artifact =
        ProofArtifact { receipt: unproven_receipt(), program_identity: identity_to_hex(&PROGRAM) };
    encode_artifact(&artifact).unwrap()
}

/// The zkVM's part of verification: read the receipt and check it against
/// the identity; the library decides what the answer lets through.
fn check(id: &[u8], receipt_bytes: &[u8]) -> Result<BlockValidationResult, VerifyError> {
    let receipt: Receipt = match bincode::deserialize(receipt_bytes) {
        Ok(r) => r,
        Err(_) => return Err(VerifyError::MalformedArtifact),
    };
    let digest = Digest::try_from(id).unwrap();
    if receipt.verify(digest).is_ok() {
        accept_commitment(true, &receipt.journal.bytes)
    } else {
        accept_commitment(false, &[])
    }
}

#[test]
fn fixed_record_passes_all_checks_end_to_end() {
    let journal = attest(&encode_input(&fixed_block(), &fixed_bounds())).unwrap();
    let outcome = accept_commitment(true, &journal).unwrap();
    assert_eq!(outcome.block, fixed_block());
    assert!(outcome.is_valid_hash);
    assert!(outcome.is_valid_timestamp);
    assert!(outcome.is_valid_structure);
}

#[test]
fn unverified_journal_is_not_trusted() {
    let journal = attest(&encode_input(&fixed_block(), &fixed_bounds())).unwrap();
    assert_eq!(accept_commitment(false, &journal), Err(VerifyError::ProofRejected));
}

#[test]
fn verified_but_malformed_journal_is_reported() {
    assert_eq!(accept_commitment(true, &[1, 2, 3]), Err(VerifyError::MalformedCommitment));
}

#[test]
fn self_check_compares_the_whole_commitment() {
    let expected = validate_block(fixed_block(), &fixed_bounds());
    let journal = encode_outcome(&expected);
    assert!(commitment_matches(&journal, &expected));
    let mut other = journal.clone();
    other[20] ^= 1;
    assert!(!commitment_matches(&other, &expected));
    assert!(!commitment_matches(&[], &expected));
}

#[test]
fn receipt_without_a_valid_seal_is_rejected() {
    let (id, receipt_bytes) = open_artifact(&unproven_artifact_bytes()).unwrap();
    assert_eq!(id, PROGRAM.to_vec());
    assert_eq!(check(&id, &receipt_bytes), Err(VerifyError::ProofRejected));
}

#[test]
fn identity_mismatch_is_reported_distinctly() {
    let bytes = unproven_artifact_bytes();
    assert_eq!(open_artifact_against(&bytes, &[8u8; 32]), Err(VerifyError::IdentityMismatch));
    let (id, _) = open_artifact_against(&bytes, &PROGRAM).unwrap();
    assert_eq!(id, PROGRAM.to_vec());
}

#[test]
fn malformed_identity_is_reported() {
    let framed = frame_artifact(&"not hex".to_string(), &[1, 2, 3]);
    assert_eq!(open_artifact(&framed), Err(VerifyError::MalformedIdentity));
    let framed = frame_artifact(&"0707".to_string(), &[1, 2, 3]);
    assert_eq!(open_artifact(&framed), Err(VerifyError::IdentityLength));
}

#[test]
fn artifact_survives_persistence() {
    let (id, receipt_bytes) = open_artifact(&unproven_artifact_bytes()).unwrap();
    assert_eq!(id, PROGRAM.to_vec());
    let back: Receipt = bincode::deserialize(&receipt_bytes).unwrap();
    assert_eq!(back.journal.bytes, unproven_receipt().journal.bytes);
}

#[test]
fn flipping_any_proof_byte_never_yields_an_outcome() {
    let bytes = unproven_artifact_bytes();
    let (_, receipt_bytes) = unframe_artifact(&bytes).unwrap();
    let start = bytes.len() - receipt_bytes.len();
    for i in start..bytes.len() {
        let mut t = bytes.clone();
        t[i] ^= 0x01;
        let (id, rb) = open_artifact(&t).unwrap();
        assert!(check(&id, &rb).is_err());
    }
}

#[test]
fn malformed_artifact_bytes_are_reported() {
    assert_eq!(open_artifact(&[]), Err(VerifyError::MalformedArtifact));
    let mut cut = unproven_artifact_bytes();
    let (_, receipt_bytes) = unframe_artifact(&cut).unwrap();
    cut.truncate(cut.len() - receipt_bytes.len() - 1);
    assert_eq!(open_artifact(&cut), Err(VerifyError::MalformedArtifact));
    let mut longer = unproven_artifact_bytes();
    longer.push(0);
    assert_eq!(open_artifact(&longer), Err(VerifyError::MalformedArtifact));
}

#[test]
fn artifact_frame_splits_back() {
    let framed = frame_artifact(&"ab".to_string(), &[9, 8, 7]);
    assert_eq!(
        framed,
        vec![2, 0, 0, 0, 0, 0, 0, 0, b'a', b'b', 3, 0, 0, 0, 0, 0, 0, 0, 9, 8, 7]
    );
    assert_eq!(unframe_artifact(&framed), Some(("ab".to_string(), vec![9, 8, 7])));
}

#[test]
fn packaging_for_a_non_elf_image_is_refused() {
    let r = package_proof(fixed_block(), &fixed_bounds(), b"not an elf image", unproven_receipt());
    assert_eq!(r.err(), Some(ProduceError::UnsupportedImage));
}

#[test]
fn non_elf_image_has_no_identity() {
    assert_eq!(program_identity(b"not an elf image"), None);
    assert_eq!(program_identity(&[]), None);
}
