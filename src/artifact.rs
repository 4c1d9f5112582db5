use vstd::prelude::*;
use vstd::slice::*;
use vstd::utf8::*;

use risc0_zkvm::Receipt;

use crate::codec::{
    enc_str, enc_u64, parse_str, parse_u64, read_str, read_u64, utf8_len, write_str, write_u64,
};
use crate::zkvm::receipt_to_bytes;

verus! {

/// A receipt packaged with the hex text of the identity of the program that
/// produced it, so that a verifier needs nothing else to check it.
pub struct ProofArtifact {
    pub receipt: Receipt,
    pub program_identity: String,
}

/// The persisted form of an artifact: its identity text as a length-prefixed
/// string, then the length of the serialized receipt, then those bytes.
pub open spec fn artifact_frame(identity: Seq<char>, receipt_bytes: Seq<u8>) -> Seq<u8> {
    enc_str(identity) + enc_u64(receipt_bytes.len() as u64) + receipt_bytes
}

/// The identity text and receipt bytes that `b` frames, with nothing left over.
pub open spec fn parse_artifact(b: Seq<u8>) -> Option<(Seq<char>, Seq<u8>)> {
    match parse_str(b, 0) {
        Some((identity, p1)) => match parse_u64(b, p1) {
            Some((n, p2)) => if p2 + n == b.len() {
                Some((identity, b.subrange(p2, p2 + n)))
            } else {
                None
            },
            None => None,
        },
        None => None,
    }
}

/// Builds the persisted form of an artifact from its identity text and the
/// serialized receipt.
pub fn frame_artifact(identity: &String, receipt_bytes: &[u8]) -> (r: Vec<u8>)
    ensures
        r@ == artifact_frame(identity@, receipt_bytes@),
{
    let mut out: Vec<u8> = Vec::new();
    write_str(&mut out, identity);
    write_u64(&mut out, receipt_bytes.len() as u64);
    let mut rest = slice_to_vec(receipt_bytes);
    out.append(&mut rest);
    assert(out@ =~= artifact_frame(identity@, receipt_bytes@));
    out
}

/// Splits the persisted form of an artifact into its identity text and the
/// serialized receipt.
pub fn unframe_artifact(bytes: &[u8]) -> (r: Option<(String, Vec<u8>)>)
    ensures
        match r {
            Some((identity, rb)) => parse_artifact(bytes@) == Some((identity@, rb@)),
            None => parse_artifact(bytes@) is None,
        },
        r matches Some((identity, rb)) ==> bytes@ == artifact_frame(identity@, rb@),
{
    let (identity, p1) = match read_str(bytes, 0) {
        Some(v) => v,
        None => return None,
    };
    let (n, p2) = match read_u64(bytes, p1) {
        Some(v) => v,
        None => return None,
    };
    if n != (bytes.len() - p2) as u64 {
        return None;
    }
    let rb = slice_to_vec(slice_subrange(bytes, p2, bytes.len()));
    proof {
        crate::codec::lemma_str_parsed(bytes@, 0);
        crate::codec::lemma_u64_parsed(bytes@, p1 as int);
        assert(bytes@ =~= bytes@.subrange(0, p1 as int) + bytes@.subrange(p1 as int, p2 as int)
            + rb@);
    }
    Some((identity, rb))
}

/// Unframing a framed artifact gives back its identity text and receipt bytes.
pub proof fn lemma_artifact_frame_round_trip(identity: Seq<char>, receipt_bytes: Seq<u8>)
    requires
        encode_utf8(identity).len() <= u64::MAX,
        receipt_bytes.len() <= u64::MAX,
    ensures
        parse_artifact(artifact_frame(identity, receipt_bytes)) == Some((identity, receipt_bytes)),
{
    vstd::bytes::lemma_auto_spec_u64_to_from_le_bytes();
    let w = artifact_frame(identity, receipt_bytes);
    let a = enc_str(identity);
    let k = a.len() as int;
    assert(w.subrange(0, k) =~= a);
    assert(w.subrange(k, k + 8) =~= enc_u64(receipt_bytes.len() as u64));
    assert(w.subrange(k + 8, w.len() as int) =~= receipt_bytes);
    crate::codec::lemma_parse_str_at(w, 0, identity);
    crate::codec::lemma_parse_u64_at(w, k, receipt_bytes.len() as u64);
}

/// Serializes an artifact for persistence.
pub fn encode_artifact(artifact: &ProofArtifact) -> (r: Option<Vec<u8>>)
    ensures
        r is Some,
        r matches Some(b) ==> (parse_artifact(b@) matches Some((identity, _))
            && identity == artifact.program_identity@),
{
    let rb = match receipt_to_bytes(&artifact.receipt) {
        Some(rb) => rb,
        None => return None,
    };
    let out = frame_artifact(&artifact.program_identity, rb.as_slice());
    // Both lengths are machine sizes, so they fit the 8-byte length prefixes.
    let _identity_len = utf8_len(&artifact.program_identity);
    let _receipt_len = rb.len();
    proof {
        lemma_artifact_frame_round_trip(artifact.program_identity@, rb@);
    }
    Some(out)
}

} // verus!
