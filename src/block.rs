use vstd::prelude::*;

verus! {

/// A block record as handed to the attested computation.
///
/// Hash-like fields hold `0x`-prefixed lowercase hex text; `timestamp` is in
/// seconds since the Unix epoch and `number` is the block height.
#[derive(Clone, Debug, PartialEq, Eq)]
pub struct EthereumBlock {
    pub hash: String,
    pub parent_hash: String,
    pub timestamp: u64,
    pub number: u64,
    pub transactions_root: String,
}

/// The mathematical value of a block record.
pub ghost struct BlockModel {
    pub hash: Seq<char>,
    pub parent_hash: Seq<char>,
    pub timestamp: u64,
    pub number: u64,
    pub transactions_root: Seq<char>,
}

impl View for EthereumBlock {
    type V = BlockModel;

    open spec fn view(&self) -> BlockModel {
        BlockModel {
            hash: self.hash@,
            parent_hash: self.parent_hash@,
            timestamp: self.timestamp,
            number: self.number,
            transactions_root: self.transactions_root@,
        }
    }
}

/// The public commitment of one run of the attested computation.
#[derive(Clone, Debug, PartialEq, Eq)]
pub struct BlockValidationResult {
    pub block: EthereumBlock,
    pub is_valid_hash: bool,
    pub is_valid_timestamp: bool,
    pub is_valid_structure: bool,
}

/// The mathematical value of a validation outcome.
pub ghost struct OutcomeModel {
    pub block: BlockModel,
    pub is_valid_hash: bool,
    pub is_valid_timestamp: bool,
    pub is_valid_structure: bool,
}

impl View for BlockValidationResult {
    type V = OutcomeModel;

    open spec fn view(&self) -> OutcomeModel {
        OutcomeModel {
            block: self.block@,
            is_valid_hash: self.is_valid_hash,
            is_valid_timestamp: self.is_valid_timestamp,
            is_valid_structure: self.is_valid_structure,
        }
    }
}

/// The window a block timestamp must fall in: from `lower_bound` up to
/// `now + max_skew`, both ends included.
///
/// The producer supplies `now` from its own clock, so that the attested
/// computation never reads an ambient clock.
#[derive(Clone, Copy, Debug, PartialEq, Eq, Structural)]
pub struct TimestampBounds {
    pub lower_bound: u64,
    pub now: u64,
    pub max_skew: u64,
}

/// Timestamp of the Ethereum mainnet genesis block: no block is older.
pub const MAINNET_GENESIS_TIMESTAMP: u64 = 1438269973;

/// Seconds a block may run ahead of the producer's clock.
pub const MAX_CLOCK_SKEW: u64 = 15;

impl TimestampBounds {
    /// The mainnet window for a producer whose clock reads `now`.
    pub fn mainnet(now: u64) -> (r: TimestampBounds)
        ensures
            r.lower_bound == MAINNET_GENESIS_TIMESTAMP,
            r.now == now,
            r.max_skew == MAX_CLOCK_SKEW,
    {
        TimestampBounds { lower_bound: MAINNET_GENESIS_TIMESTAMP, now, max_skew: MAX_CLOCK_SKEW }
    }
}

} // verus!
