//! Attested validation of blockchain block records.
//!
//! A producer binds a block record and the timestamp bounds it was checked
//! against into the input of a zkVM program; the program validates the record
//! and commits the outcome to its journal; a verifier checks the receipt
//! against the program identity carried in the artifact and, only when that
//! check succeeds, decodes and trusts the committed outcome.

mod artifact;
mod attest;
mod block;
mod codec;
mod identity;
mod produce;
mod validate;
mod verify;
mod zkvm;

pub use artifact::{
    artifact_frame, encode_artifact, frame_artifact,
    lemma_artifact_frame_round_trip, parse_artifact, unframe_artifact, ProofArtifact,
};
pub use attest::attest;
pub use block::{
    BlockModel, BlockValidationResult, EthereumBlock, OutcomeModel, TimestampBounds,
    MAINNET_GENESIS_TIMESTAMP, MAX_CLOCK_SKEW,
};
pub use codec::{
    block_encodable, block_from_bytes, decode_block, decode_input, decode_outcome, enc_block,
    enc_bool, enc_input, enc_outcome, enc_str, enc_u64, encode_block, encode_input, encode_outcome,
    input_from_bytes, lemma_block_canonical, lemma_block_round_trip, lemma_input_canonical, lemma_input_round_trip, lemma_outcome_canonical, lemma_outcome_round_trip,
    outcome_from_bytes, parse_block, parse_bool, parse_input, parse_outcome, parse_str, parse_u64,
};
pub use identity::{
    hex_bytes, hex_value, identity_from_hex, identity_to_hex, is_hex_text, is_lower_hex_of,
    lemma_identity_hex_round_trip, lower_hex_code, IDENTITY_BYTES,
};
pub use produce::{
    commitment_matches, image_identity, package_proof, program_identity, ProduceError,
};
pub use validate::{
    hash_is_canonical, lemma_hash_check, lemma_structure_check, lemma_timestamp_window, outcome_of,
    structure_is_complete, timestamp_in_bounds, validate_block, validate_block_hash,
    validate_block_structure, validate_block_timestamp,
};
pub use verify::{
    accept_commitment, accepted, bytes_equal, identity_named, lemma_end_to_end,
    lemma_unverified_rejected, lemma_valid_record_accepted, open_artifact, open_artifact_against,
    result_matches, VerifyError,
};
pub use zkvm::image_id_of;
