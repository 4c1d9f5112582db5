use vstd::prelude::*;

use crate::artifact::{parse_artifact, unframe_artifact};
use crate::block::{BlockValidationResult, OutcomeModel};
use crate::codec::{decode_outcome, outcome_from_bytes};
use crate::identity::{hex_bytes, identity_from_hex, is_hex_text, IDENTITY_BYTES};

verus! {

/// Why an artifact was not accepted.
#[derive(Clone, Copy, Debug, PartialEq, Eq, Structural)]
pub enum VerifyError {
    /// The artifact bytes are not a well-formed artifact.
    MalformedArtifact,
    /// The program identity is not hex text.
    MalformedIdentity,
    /// The program identity does not decode to a digest of the right size.
    IdentityLength,
    /// The program identity differs from the one the caller expects.
    IdentityMismatch,
    /// The cryptographic check of the receipt failed.
    ProofRejected,
    /// The receipt verified but its journal is not a well-formed outcome.
    MalformedCommitment,
}

/// What the verifier hands out for a journal, given whether the receipt
/// verified: nothing unless it did, and then the decoded outcome.
pub open spec fn accepted(proof_verified: bool, journal: Seq<u8>) -> Result<OutcomeModel, VerifyError> {
    if !proof_verified {
        Err(VerifyError::ProofRejected)
    } else {
        match outcome_from_bytes(journal) {
            Some(o) => Ok(o),
            None => Err(VerifyError::MalformedCommitment),
        }
    }
}

/// `r` is `accepted` carried over to executable values.
pub open spec fn result_matches(
    r: Result<BlockValidationResult, VerifyError>,
    spec: Result<OutcomeModel, VerifyError>,
) -> bool {
    match r {
        Ok(x) => spec == Ok::<OutcomeModel, VerifyError>(x@),
        Err(e) => spec == Err::<OutcomeModel, VerifyError>(e),
    }
}

/// The identity an artifact's text names, when it names a well-formed one.
pub open spec fn identity_named(text: Seq<char>) -> Option<Seq<u8>> {
    if is_hex_text(text) && text.len() == 2 * IDENTITY_BYTES {
        Some(hex_bytes(text))
    } else {
        None
    }
}

/// Decides what to hand out once the cryptographic check has answered: a
/// journal is decoded and trusted only when the receipt verified.
pub fn accept_commitment(proof_verified: bool, journal: &[u8]) -> (r: Result<
    BlockValidationResult,
    VerifyError,
>)
    ensures
        result_matches(r, accepted(proof_verified, journal@)),
{
    if !proof_verified {
        return Err(VerifyError::ProofRejected);
    }
    match decode_outcome(journal) {
        Some(o) => Ok(o),
        None => Err(VerifyError::MalformedCommitment),
    }
}

/// Opens the persisted form of an artifact: splits it into the program
/// identity it names and the serialized receipt, refusing a malformed frame
/// or identity. The receipt is checked against that identity by the zkVM,
/// and its journal then goes to `accept_commitment`.
pub fn open_artifact(bytes: &[u8]) -> (r: Result<(Vec<u8>, Vec<u8>), VerifyError>)
    ensures
        match parse_artifact(bytes@) {
            None => r == Err::<(Vec<u8>, Vec<u8>), VerifyError>(VerifyError::MalformedArtifact),
            Some((text, rb)) => match identity_named(text) {
                Some(id) => r matches Ok((i, b)) && i@ == id && b@ == rb,
                None => if is_hex_text(text) {
                    r == Err::<(Vec<u8>, Vec<u8>), VerifyError>(VerifyError::IdentityLength)
                } else {
                    r == Err::<(Vec<u8>, Vec<u8>), VerifyError>(VerifyError::MalformedIdentity)
                },
            },
        },
{
    let (text, receipt_bytes) = match unframe_artifact(bytes) {
        Some(v) => v,
        None => return Err(VerifyError::MalformedArtifact),
    };
    let id = match identity_from_hex(text.as_str()) {
        Ok(id) => id,
        Err(e) => return Err(e),
    };
    Ok((id, receipt_bytes))
}

/// Whether two byte strings are equal.
pub fn bytes_equal(a: &[u8], b: &[u8]) -> (r: bool)
    ensures
        r == (a@ == b@),
{
    if a.len() != b.len() {
        return false;
    }
    let mut i: usize = 0;
    while i < a.len()
        invariant
            a@.len() == b@.len(),
            0 <= i <= a@.len(),
            forall|k: int| 0 <= k < i ==> a@[k] == b@[k],
        decreases a@.len() - i,
    {
        if a[i] != b[i] {
            return false;
        }
        i = i + 1;
    }
    assert(a@ =~= b@);
    true
}

/// Like `open_artifact`, but first requires the artifact's identity to be
/// `expected`: a different identity is reported as a mismatch, so that the
/// receipt is never checked against a program other than the expected one.
pub fn open_artifact_against(bytes: &[u8], expected: &[u8]) -> (r: Result<
    (Vec<u8>, Vec<u8>),
    VerifyError,
>)
    ensures
        match parse_artifact(bytes@) {
            None => r == Err::<(Vec<u8>, Vec<u8>), VerifyError>(VerifyError::MalformedArtifact),
            Some((text, rb)) => match identity_named(text) {
                Some(id) => if id == expected@ {
                    r matches Ok((i, b)) && i@ == id && b@ == rb
                } else {
                    r == Err::<(Vec<u8>, Vec<u8>), VerifyError>(VerifyError::IdentityMismatch)
                },
                None => if is_hex_text(text) {
                    r == Err::<(Vec<u8>, Vec<u8>), VerifyError>(VerifyError::IdentityLength)
                } else {
                    r == Err::<(Vec<u8>, Vec<u8>), VerifyError>(VerifyError::MalformedIdentity)
                },
            },
        },
{
    let (id, receipt_bytes) = match open_artifact(bytes) {
        Ok(v) => v,
        Err(e) => return Err(e),
    };
    if !bytes_equal(id.as_slice(), expected) {
        return Err(VerifyError::IdentityMismatch);
    }
    Ok((id, receipt_bytes))
}

} // verus!

verus! {

/// Producer to verifier: the bound input of a record reads back as that
/// record and window, and the journal the attested computation commits for
/// it is, once its receipt verifies, accepted as exactly the outcome of
/// validating the record.
pub proof fn lemma_end_to_end(m: crate::block::BlockModel, b: crate::block::TimestampBounds)
    requires
        crate::codec::block_encodable(m),
    ensures
        crate::codec::input_from_bytes(crate::codec::enc_input(m, b)) == Some((m, b)),
        accepted(true, crate::codec::enc_outcome(crate::validate::outcome_of(m, b))) == Ok::<
            OutcomeModel,
            VerifyError,
        >(crate::validate::outcome_of(m, b)),
{
    crate::codec::lemma_input_round_trip(m, b);
    crate::codec::lemma_outcome_round_trip(crate::validate::outcome_of(m, b));
}

/// A record whose hash is canonical, whose other hash-like fields are
/// present and whose timestamp lies in the window comes out of the attested
/// computation and the verifier with all three checks passed.
pub proof fn lemma_valid_record_accepted(m: crate::block::BlockModel, b: crate::block::TimestampBounds)
    requires
        crate::codec::block_encodable(m),
        crate::validate::hash_is_canonical(m.hash),
        m.parent_hash.len() > 0,
        m.transactions_root.len() > 0,
        crate::validate::timestamp_in_bounds(m.timestamp, b),
    ensures
        accepted(true, crate::codec::enc_outcome(crate::validate::outcome_of(m, b))) matches Ok(o)
            && o.block == m && o.is_valid_hash && o.is_valid_timestamp && o.is_valid_structure,
{
    lemma_end_to_end(m, b);
}

/// A journal whose receipt did not verify is never handed out, whatever its
/// bytes: a tampered proof or a receipt checked against another program's
/// identity yields a rejection, not an outcome.
pub proof fn lemma_unverified_rejected(journal: Seq<u8>)
    ensures
        accepted(false, journal) == Err::<OutcomeModel, VerifyError>(VerifyError::ProofRejected),
{
}

} // verus!
