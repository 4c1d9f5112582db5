use vstd::prelude::*;

use risc0_zkvm::Receipt;

verus! {

#[verifier::external_type_specification]
#[verifier::external_body]
pub struct ExReceipt(risc0_zkvm::Receipt);

/// The identity of a zkVM program image, the digest of its initial memory
/// image, or `None` when the zkVM cannot load the ELF bytes.
pub uninterp spec fn image_id_of(elf: Seq<u8>) -> Option<Seq<u8>>;

/// Relies on `risc0_zkvm::compute_image_id`: it loads the ELF and digests the
/// resulting memory image, so whether it succeeds and the 32-byte digest it
/// returns depend on the ELF bytes alone.
///
/// The loader adds segment offsets as 32-bit values; such a sum can only
/// overflow after a byte at index `u32::MAX` was read, which an image of at
/// most `u32::MAX` bytes does not have.
#[verifier::external_body]
pub(crate) fn compute_image_id(elf: &[u8]) -> (r: Option<Vec<u8>>)
    requires
        elf@.len() <= u32::MAX,
    ensures
        match image_id_of(elf@) {
            Some(id) => r matches Some(v) && v@ == id && id.len() == 32,
            None => r is None,
        },
{
    risc0_zkvm::compute_image_id(elf).ok().map(|d| d.as_bytes().to_vec())
}

/// Relies on the `journal` field of a receipt: the bytes the program
/// committed, whether or not the receipt verifies. Nothing is assumed of them.
#[verifier::external_body]
pub(crate) fn journal_bytes(receipt: &Receipt) -> (r: Vec<u8>) {
    receipt.journal.bytes.clone()
}

/// Relies on `bincode::serialize` of a receipt, which has no size limit and
/// reaches only derived serializers, so it succeeds.
#[verifier::external_body]
pub(crate) fn receipt_to_bytes(receipt: &Receipt) -> (r: Option<Vec<u8>>)
    ensures
        r is Some,
{
    bincode::serialize(receipt).ok()
}

} // verus!
