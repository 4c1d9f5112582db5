use vstd::prelude::*;
use vstd::string::*;

use crate::block::{BlockModel, BlockValidationResult, EthereumBlock, OutcomeModel, TimestampBounds};

verus! {

/// A hash field is canonical when it starts with the lowercase prefix `0x`
/// (which also makes it non-empty).
pub open spec fn hash_is_canonical(s: Seq<char>) -> bool {
    s.len() >= 2 && s[0] == '0' && s[1] == 'x'
}

/// The timestamp lies in `[lower_bound, now + max_skew]`.
pub open spec fn timestamp_in_bounds(t: u64, b: TimestampBounds) -> bool {
    b.lower_bound <= t && t as int <= b.now as int + b.max_skew as int
}

/// Every required hash-like field is present.
pub open spec fn structure_is_complete(m: BlockModel) -> bool {
    m.hash.len() > 0 && m.parent_hash.len() > 0 && m.transactions_root.len() > 0
}

/// The outcome that validating `m` against `b` commits to.
pub open spec fn outcome_of(m: BlockModel, b: TimestampBounds) -> OutcomeModel {
    OutcomeModel {
        block: m,
        is_valid_hash: hash_is_canonical(m.hash),
        is_valid_timestamp: timestamp_in_bounds(m.timestamp, b),
        is_valid_structure: structure_is_complete(m),
    }
}

/// Whether the block hash is in the canonical `0x`-prefixed form.
pub fn validate_block_hash(block: &EthereumBlock) -> (r: bool)
    ensures
        r == hash_is_canonical(block.hash@),
{
    let h = block.hash.as_str();
    let n = h.unicode_len();
    if n < 2 {
        return false;
    }
    h.get_char(0) == '0' && h.get_char(1) == 'x'
}

/// Whether the block timestamp lies inside the window given by `bounds`.
pub fn validate_block_timestamp(block: &EthereumBlock, bounds: &TimestampBounds) -> (r: bool)
    ensures
        r == timestamp_in_bounds(block.timestamp, *bounds),
{
    let t = block.timestamp;
    if t < bounds.lower_bound {
        false
    } else if t <= bounds.now {
        true
    } else {
        t - bounds.now <= bounds.max_skew
    }
}

/// Whether the hash, parent hash and transactions root are all non-empty.
pub fn validate_block_structure(block: &EthereumBlock) -> (r: bool)
    ensures
        r == structure_is_complete(block@),
{
    !block.hash.as_str().is_empty() && !block.parent_hash.as_str().is_empty()
        && !block.transactions_root.as_str().is_empty()
}

/// Runs the three independent checks on `block` and packages their results
/// together with the block itself.
pub fn validate_block(block: EthereumBlock, bounds: &TimestampBounds) -> (r: BlockValidationResult)
    ensures
        r@ == outcome_of(block@, *bounds),
{
    let is_valid_hash = validate_block_hash(&block);
    let is_valid_timestamp = validate_block_timestamp(&block, bounds);
    let is_valid_structure = validate_block_structure(&block);
    BlockValidationResult { block, is_valid_hash, is_valid_timestamp, is_valid_structure }
}

} // verus!

verus! {

/// The hash check accepts exactly the hashes that begin with `0x`: an empty
/// hash, one without the prefix, and one with the uppercase prefix `0X` are
/// all rejected.
pub proof fn lemma_hash_check(m: BlockModel, b: TimestampBounds)
    ensures
        outcome_of(m, b).is_valid_hash <==> (m.hash.len() >= 2 && m.hash.subrange(0, 2) == seq![
            '0',
            'x',
        ]),
        m.hash.len() == 0 ==> !outcome_of(m, b).is_valid_hash,
        m.hash.len() > 0 && m.hash[0] != '0' ==> !outcome_of(m, b).is_valid_hash,
        m.hash.len() > 1 && m.hash[1] == 'X' ==> !outcome_of(m, b).is_valid_hash,
{
    if m.hash.len() >= 2 && m.hash.subrange(0, 2) == seq!['0', 'x'] {
        assert(m.hash[0] == m.hash.subrange(0, 2)[0]);
        assert(m.hash[1] == m.hash.subrange(0, 2)[1]);
    }
    if hash_is_canonical(m.hash) {
        assert(m.hash.subrange(0, 2) =~= seq!['0', 'x']);
    }
}

/// The timestamp window is closed at both ends: every timestamp from
/// `lower_bound` to `now + max_skew` passes, and the second just before
/// `lower_bound` or just after `now + max_skew` fails.
pub proof fn lemma_timestamp_window(m: BlockModel, b: TimestampBounds)
    ensures
        b.lower_bound <= m.timestamp && m.timestamp as int <= b.now as int + b.max_skew as int
            ==> outcome_of(m, b).is_valid_timestamp,
        m.timestamp == b.lower_bound && b.lower_bound as int <= b.now as int + b.max_skew as int
            ==> outcome_of(m, b).is_valid_timestamp,
        m.timestamp as int == b.lower_bound as int - 1 ==> !outcome_of(m, b).is_valid_timestamp,
        m.timestamp as int == b.now as int + b.max_skew as int + 1
            ==> !outcome_of(m, b).is_valid_timestamp,
{
}

/// The structure check fails as soon as one of the hash, the parent hash or
/// the transactions root is empty, passes when all three are present, and
/// does not depend on the timestamp or on the hash's prefix.
pub proof fn lemma_structure_check(m: BlockModel, b: TimestampBounds, other: BlockModel, c: TimestampBounds)
    ensures
        m.hash.len() == 0 || m.parent_hash.len() == 0 || m.transactions_root.len() == 0
            ==> !outcome_of(m, b).is_valid_structure,
        m.hash.len() > 0 && m.parent_hash.len() > 0 && m.transactions_root.len() > 0
            ==> outcome_of(m, b).is_valid_structure,
        other.hash.len() == m.hash.len() && other.parent_hash.len() == m.parent_hash.len()
            && other.transactions_root.len() == m.transactions_root.len()
            ==> outcome_of(other, c).is_valid_structure == outcome_of(m, b).is_valid_structure,
{
}

} // verus!
