//! Scoring kernels: from a padded input block to the score of its digest.

pub mod naive;
pub mod score;
pub mod sha;
pub mod unoptimized;

use crate::input::ScalarKernelInput;
use vstd::prelude::*;

verus! {

/// A CPU mining kernel.
pub trait Kernel {
    /// The score that this kernel gives to a padded block of 64 bytes.
    spec fn spec_score(&self, block: Seq<u8>) -> nat;

    /// A score has no more than 48 bits.
    proof fn lemma_score_fits(&self, block: Seq<u8>)
        ensures
            self.spec_score(block) < 0x1_0000_0000_0000,
    ;

    /// Get the score for a hash with the given input.
    fn score(&self, input: &ScalarKernelInput) -> (score: u64)
        ensures
            input.wf(),
            score == self.spec_score(input.bytes()),
            score < 0x1_0000_0000_0000,
    ;
}

/// The core of a miner: it scores the first `len` bytes of a block of data.
pub trait MinerCore {
    /// The score that this core gives to the first `len` bytes of `data`.
    spec fn spec_score_hash(data: Seq<u8>, len: nat) -> nat;

    /// The score of the first `len` bytes of `data`.
    fn score_hash(data: [u8; 64], len: usize) -> (score: u64)
        requires
            len <= 64,
        ensures
            score == Self::spec_score_hash(data@, len as nat),
    ;
}

} // verus!
