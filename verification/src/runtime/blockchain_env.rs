use vstd::prelude::*;

use crate::types::primitives::{BlockHash, BlockNumber, BlockTimeStamp};

verus! {

/// The chain-level facts the mock host reports: a fixed block number,
/// hash, and timestamp.
#[derive(Debug, Clone)]
pub struct BlockchainEnvironment {
    block_number: BlockNumber,
    block_hash: BlockHash,
    block_timestamp: BlockTimeStamp,
}

impl Default for BlockchainEnvironment {
    fn default() -> (r: Self)
        ensures
            r.spec_block_number() == 42,
            r.spec_block_timestamp() == 0xff,
            r.spec_block_hash()@ == Seq::new(32, |i: int| (i + 1) as u8),
    {
        BlockchainEnvironment::new()
    }
}

impl BlockchainEnvironment {
    /// The reported block height.
    pub closed spec fn spec_block_number(&self) -> BlockNumber {
        self.block_number
    }

    /// The reported block hash.
    pub closed spec fn spec_block_hash(&self) -> BlockHash {
        self.block_hash
    }

    /// The reported block timestamp.
    pub closed spec fn spec_block_timestamp(&self) -> BlockTimeStamp {
        self.block_timestamp
    }

    pub fn new() -> (r: Self)
        ensures
            r.spec_block_number() == 42,
            r.spec_block_timestamp() == 0xff,
            r.spec_block_hash()@ == Seq::new(32, |i: int| (i + 1) as u8),
    {
        let block_number: BlockNumber = 42;

        let block_hash: BlockHash = [
            1u8, 2, 3, 4, 5, 6, 7, 8, 9, 10, 11, 12, 13, 14, 15, 16, 17, 18, 19, 20, 21, 22,
            23, 24, 25, 26, 27, 28, 29, 30, 31, 32,
        ];

        let block_timestamp: BlockTimeStamp = 0xff;

        let r = Self { block_number, block_hash, block_timestamp };
        proof {
            assert(r.spec_block_hash()@ =~= Seq::new(32, |i: int| (i + 1) as u8));
        }
        r
    }

    pub fn get_block_number(&self) -> (r: BlockNumber)
        ensures
            r == self.spec_block_number(),
    {
        self.block_number
    }

    pub fn get_block_hash(&self) -> (r: BlockHash)
        ensures
            r == self.spec_block_hash(),
    {
        self.block_hash
    }

    pub fn get_block_timestamp(&self) -> (r: BlockTimeStamp)
        ensures
            r == self.spec_block_timestamp(),
    {
        self.block_timestamp
    }
}

} // verus!
