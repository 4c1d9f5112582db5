use vstd::prelude::*;

use risc0_zkvm::Receipt;

use crate::artifact::ProofArtifact;
use crate::block::{BlockValidationResult, EthereumBlock, TimestampBounds};
use crate::codec::{enc_outcome, encode_outcome};
use crate::identity::{identity_to_hex, is_lower_hex_of};
use crate::validate::{outcome_of, validate_block};
use crate::verify::bytes_equal;
use crate::zkvm::{compute_image_id, image_id_of, journal_bytes};

verus! {

/// Why no artifact was produced.
#[derive(Clone, Copy, Debug, PartialEq, Eq, Structural)]
pub enum ProduceError {
    /// The program image is not one the zkVM can load.
    UnsupportedImage,
    /// The receipt's journal is not the outcome that the record must yield.
    CommitmentMismatch,
}

/// The identity of a program image the zkVM loads: images larger than a
/// 32-bit address space are refused outright.
pub open spec fn image_identity(elf: Seq<u8>) -> Option<Seq<u8>> {
    if elf.len() > u32::MAX {
        None
    } else {
        image_id_of(elf)
    }
}

/// The identity of the program image `elf`, as the hex text an artifact
/// carries, or `None` when the zkVM cannot load the image.
pub fn program_identity(elf: &[u8]) -> (r: Option<String>)
    ensures
        match image_identity(elf@) {
            Some(id) => r matches Some(s) && is_lower_hex_of(s@, id),
            None => r is None,
        },
{
    if elf.len() > u32::MAX as usize {
        return None;
    }
    match compute_image_id(elf) {
        Some(id) => Some(identity_to_hex(id.as_slice())),
        None => None,
    }
}

/// The local self-check made before an artifact is kept: the journal must be
/// exactly the encoding of the expected outcome.
pub fn commitment_matches(journal: &[u8], expected: &BlockValidationResult) -> (r: bool)
    ensures
        r == (journal@ == enc_outcome(expected@)),
{
    let bytes = encode_outcome(expected);
    bytes_equal(journal, bytes.as_slice())
}

/// Packages the receipt of a run of the program `elf` on the bound input of
/// `block` and `bounds` together with the program's identity.
///
/// The outcome the program must commit is computed locally as well; a
/// receipt whose journal differs from it is discarded rather than packaged.
pub fn package_proof(
    block: EthereumBlock,
    bounds: &TimestampBounds,
    elf: &[u8],
    receipt: Receipt,
) -> (r: Result<(ProofArtifact, BlockValidationResult), ProduceError>)
    ensures
        r == Err::<(ProofArtifact, BlockValidationResult), ProduceError>(
            ProduceError::UnsupportedImage,
        ) <==> image_identity(elf@) is None,
        r matches Ok((artifact, outcome)) ==> {
            &&& outcome@ == outcome_of(block@, *bounds)
            &&& image_identity(elf@) matches Some(id) && is_lower_hex_of(
                artifact.program_identity@,
                id,
            )
        },
{
    let program_identity = match program_identity(elf) {
        Some(text) => text,
        None => return Err(ProduceError::UnsupportedImage),
    };
    let outcome = validate_block(block, bounds);
    let journal = journal_bytes(&receipt);
    if !commitment_matches(journal.as_slice(), &outcome) {
        return Err(ProduceError::CommitmentMismatch);
    }
    Ok((ProofArtifact { receipt, program_identity }, outcome))
}

} // verus!
