use vstd::prelude::*;

use crate::verify::VerifyError;

verus! {

/// Number of bytes in a program identity.
pub const IDENTITY_BYTES: usize = 32;

/// The character code of the lowercase hex digit for `v` (0 to 15).
pub open spec fn lower_hex_code(v: int) -> int {
    if v < 10 {
        48 + v
    } else {
        87 + v
    }
}

/// The value of a hex digit of either case, or -1 for any other character.
pub open spec fn hex_value(c: char) -> int {
    let u = c as u32 as int;
    if 48 <= u <= 57 {
        u - 48
    } else if 97 <= u <= 102 {
        u - 87
    } else if 65 <= u <= 70 {
        u - 55
    } else {
        -1
    }
}

/// `s` is an even number of hex digits.
pub open spec fn is_hex_text(s: Seq<char>) -> bool {
    &&& s.len() % 2 == 0
    &&& forall|i: int| 0 <= i < s.len() ==> #[trigger] hex_value(s[i]) >= 0
}

/// The bytes that the hex text `s` spells, two digits per byte, high digit first.
pub open spec fn hex_bytes(s: Seq<char>) -> Seq<u8> {
    Seq::new(s.len() / 2, |i: int| (16 * hex_value(s[2 * i]) + hex_value(s[2 * i + 1])) as u8)
}

/// `s` is the lowercase hex spelling of `b`, two digits per byte, high digit first.
pub open spec fn is_lower_hex_of(s: Seq<char>, b: Seq<u8>) -> bool {
    &&& s.len() == 2 * b.len()
    &&& forall|i: int|
        0 <= i < b.len() ==> {
            &&& (#[trigger] s[2 * i]) as u32 as int == lower_hex_code(b[i] as int / 16)
            &&& s[2 * i + 1] as u32 as int == lower_hex_code(b[i] as int % 16)
        }
}

/// Relies on `hex::encode`: two lowercase hex digits per byte, high digit first.
#[verifier::external_body]
fn hex_encode(b: &[u8]) -> (r: String)
    ensures
        is_lower_hex_of(r@, b@),
{
    hex::encode(b)
}

/// Relies on `hex::decode`: it fails on an odd length or on a character that
/// is not a hex digit of either case, and otherwise yields one byte per pair
/// of digits.
#[verifier::external_body]
fn hex_decode(s: &str) -> (r: Option<Vec<u8>>)
    ensures
        r is Some <==> is_hex_text(s@),
        r matches Some(v) ==> v@ == hex_bytes(s@),
{
    hex::decode(s).ok()
}

/// The hex text under which an identity is carried in an artifact.
pub fn identity_to_hex(id: &[u8]) -> (r: String)
    ensures
        is_lower_hex_of(r@, id@),
{
    hex_encode(id)
}

/// Reads an identity back from its hex text.
pub fn identity_from_hex(s: &str) -> (r: Result<Vec<u8>, VerifyError>)
    ensures
        !is_hex_text(s@) ==> r == Err::<Vec<u8>, VerifyError>(VerifyError::MalformedIdentity),
        is_hex_text(s@) && s@.len() != 2 * IDENTITY_BYTES ==> r == Err::<Vec<u8>, VerifyError>(
            VerifyError::IdentityLength,
        ),
        is_hex_text(s@) && s@.len() == 2 * IDENTITY_BYTES ==> (r matches Ok(v) && v@ == hex_bytes(
            s@,
        ) && v@.len() == IDENTITY_BYTES),
{
    match hex_decode(s) {
        Some(v) => {
            if v.len() == IDENTITY_BYTES {
                Ok(v)
            } else {
                Err(VerifyError::IdentityLength)
            }
        },
        None => Err(VerifyError::MalformedIdentity),
    }
}

/// Reading back the hex text of an identity gives that identity.
pub proof fn lemma_identity_hex_round_trip(s: Seq<char>, id: Seq<u8>)
    requires
        is_lower_hex_of(s, id),
    ensures
        is_hex_text(s),
        hex_bytes(s) == id,
{
    assert forall|i: int| 0 <= i < s.len() implies #[trigger] hex_value(s[i]) >= 0 by {
        let k = i / 2;
        assert(0 <= k < id.len());
        if i % 2 == 0 {
            assert(s[2 * k] == s[i]);
        } else {
            assert(s[2 * k + 1] == s[i]);
        }
    }
    assert forall|k: int| 0 <= k < id.len() implies #[trigger] hex_bytes(s)[k] == id[k] by {
        let hi = id[k] as int / 16;
        let lo = id[k] as int % 16;
        assert(s[2 * k] as u32 as int == lower_hex_code(hi));
        assert(hex_value(s[2 * k]) == hi);
        assert(hex_value(s[2 * k + 1]) == lo);
    }
    assert(hex_bytes(s) =~= id);
}

} // verus!
