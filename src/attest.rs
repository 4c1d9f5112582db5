use vstd::prelude::*;

use crate::block::{BlockModel, TimestampBounds};
use crate::codec::{decode_input, enc_outcome, encode_outcome, input_from_bytes};
use crate::validate::{outcome_of, validate_block};

verus! {

/// The attested computation: reads the bound input, validates its record
/// against its timestamp window and returns the bytes to commit.
///
/// Input that is not the exact wire form of a bound input is refused, so that
/// a schema mismatch between producer and program fails rather than being
/// read loosely.
pub fn attest(input: &[u8]) -> (r: Option<Vec<u8>>)
    ensures
        match input_from_bytes(input@) {
            Some((m, b)) => r matches Some(j) && j@ == enc_outcome(outcome_of(m, b)),
            None => r is None,
        },
{
    match decode_input(input) {
        Some((block, bounds)) => {
            let outcome = validate_block(block, &bounds);
            Some(encode_outcome(&outcome))
        },
        None => None,
    }
}

} // verus!
