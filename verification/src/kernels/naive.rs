//! The plainest way to score: hash the data as it is given.

use crate::kernels::unoptimized::{message_score, score_message};
use vstd::prelude::*;

verus! {

/// The plainest miner core: it hashes the first `len` bytes of the data.
pub struct MinerCore;

impl crate::kernels::MinerCore for MinerCore {
    /// The score of the SHA-256 digest of the first `len` bytes.
    open spec fn spec_score_hash(data: Seq<u8>, len: nat) -> nat {
        message_score(data.subrange(0, len as int))
    }

    fn score_hash(data: [u8; 64], len: usize) -> (score: u64) {
        let message = vstd::slice::slice_subrange(data.as_slice(), 0, len);
        score_message(message)
    }
}

} // verus!
