//! What a miner works towards, and what it hands in.

use crate::address::Address;
use crate::block::ShortHash;
use crate::hexcode::hex_ascii;
use crate::input::{layout, message};
use crate::kernels::unoptimized::{message_score, score_message, Unoptimized};
use crate::kernels::Kernel;
use vstd::prelude::*;

verus! {

/// A mining target, specifying the current work and previous block.
#[derive(Debug, Clone, Copy, PartialEq, Eq)]
pub struct Target {
    pub work: u64,
    pub block: ShortHash,
}

/// A solution to be submitted to the node.
#[derive(Debug, Clone, Copy, PartialEq, Eq)]
pub struct Solution {
    pub address: Address,
    pub nonce: [u8; 11],
}

impl Solution {
    /// The message that this solution makes with a block: the address, the
    /// twelve hexadecimal digits of the block, and the nonce.
    pub open spec fn message(self, block: ShortHash) -> Seq<u8> {
        self.address@ + hex_ascii(block.0@) + self.nonce@
    }

    /// The score of this solution for a block.
    pub fn score(&self, block: &ShortHash) -> (score: u64)
        ensures
            score == message_score(self.message(*block)),
            score < 0x1_0000_0000_0000,
    {
        let mut bytes: Vec<u8> = Vec::new();
        let address = self.address.as_bytes();
        let hex = block.hex_bytes();
        let mut i: usize = 0;
        while i < 10
            invariant
                i <= 10,
                bytes@ == address@.subrange(0, i as int),
            decreases 10 - i,
        {
            bytes.push(address[i]);
            assert(bytes@ =~= address@.subrange(0, i + 1));
            i += 1;
        }
        assert(bytes@ =~= address@);
        let mut i: usize = 0;
        while i < 12
            invariant
                i <= 12,
                bytes@ == address@ + hex@.subrange(0, i as int),
            decreases 12 - i,
        {
            bytes.push(hex[i]);
            assert(bytes@ =~= address@ + hex@.subrange(0, i + 1));
            i += 1;
        }
        assert(bytes@ =~= address@ + hex@);
        let mut i: usize = 0;
        while i < 11
            invariant
                i <= 11,
                bytes@ == address@ + hex@ + self.nonce@.subrange(0, i as int),
            decreases 11 - i,
        {
            bytes.push(self.nonce[i]);
            assert(bytes@ =~= address@ + hex@ + self.nonce@.subrange(0, i + 1));
            i += 1;
        }
        assert(bytes@ =~= self.message(*block));
        score_message(bytes.as_slice())
    }
}

impl Target {
    /// Whether a nonce of the given score solves this target: the work is
    /// the largest score that does.
    pub fn accepts(&self, score: u64) -> (r: bool)
        ensures
            r == (score <= self.work),
    {
        score <= self.work
    }

    /// Whether a solution solves this target: its score for the block of
    /// the target is no more than the work.
    pub fn is_solved_by(&self, solution: &Solution) -> (r: bool)
        ensures
            r == (message_score(solution.message(self.block)) <= self.work),
    {
        let score = solution.score(&self.block);
        self.accepts(score)
    }
}

/// The score that the portable kernel gives to the block of an address, a
/// block and a counter is the score of the solution with that nonce.
pub proof fn lemma_kernel_scores_solution(solution: Solution, block: ShortHash, n: u64)
    requires
        solution.nonce@ == crate::input::nonce_bytes(n),
    ensures
        Unoptimized.spec_score(layout(solution.address@, hex_ascii(block.0@), n)) == message_score(
            solution.message(block),
        ),
{
    solution.address.lemma_view();
    assert(layout(solution.address@, hex_ascii(block.0@), n).subrange(0, 33) =~= message(
        solution.address@,
        hex_ascii(block.0@),
        n,
    ));
}

} // verus!
