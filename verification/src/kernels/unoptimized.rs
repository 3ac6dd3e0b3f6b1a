//! The portable kernel: the digest comes from `ring`.

use crate::input::ScalarKernelInput;
use crate::kernels::score::{lemma_score_of_fits, score_of, score_output};
use crate::kernels::Kernel;
use vstd::prelude::*;

verus! {

/// The SHA-256 digest of a message, as `ring` computes it: 32 bytes.
pub uninterp spec fn sha256(message: Seq<u8>) -> Seq<u8>;

/// `ring::digest::digest` with the algorithm `ring::digest::SHA256`.
/// Trusted: the digest depends on the message alone and is 32 bytes long.
#[verifier::external_body]
pub(crate) fn sha256_digest(message: &[u8]) -> (digest: [u8; 32])
    ensures
        digest@ == sha256(message@),
{
    let digest = ring::digest::digest(&ring::digest::SHA256, message);
    let mut bytes = [0u8; 32];
    bytes.copy_from_slice(digest.as_ref());
    bytes
}

/// The score of a message: the leading 48 bits of its SHA-256 digest.
pub open spec fn message_score(message: Seq<u8>) -> nat {
    score_of(sha256(message))
}

/// The score of the message `message`, of any length.
pub fn score_message(message: &[u8]) -> (score: u64)
    ensures
        score == message_score(message@),
        score < 0x1_0000_0000_0000,
{
    let digest = sha256_digest(message);
    score_output(digest.as_slice())
}

/// CPU mining kernel with no hardware-specific optimizations.
pub struct Unoptimized;

impl Kernel for Unoptimized {
    /// The score of the message that the block starts with.
    open spec fn spec_score(&self, block: Seq<u8>) -> nat {
        message_score(block.subrange(0, 33))
    }

    proof fn lemma_score_fits(&self, block: Seq<u8>) {
        lemma_score_of_fits(sha256(block.subrange(0, 33)));
    }

    fn score(&self, input: &ScalarKernelInput) -> (score: u64) {
        let data = input.data();
        assert(data@ =~= input.bytes().subrange(0, 33));
        score_message(data)
    }
}

} // verus!
