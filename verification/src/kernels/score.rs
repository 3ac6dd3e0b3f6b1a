//! The score of a digest: its leading 48 bits, read big-endian.

use vstd::prelude::*;

verus! {

/// The number that the first six bytes of `h` spell, most significant first.
pub open spec fn score_of(h: Seq<u8>) -> nat
    recommends
        h.len() >= 6,
{
    (h[0] as nat) * 0x100_0000_0000 + (h[1] as nat) * 0x1_0000_0000 + (h[2] as nat) * 0x100_0000
        + (h[3] as nat) * 0x1_0000 + (h[4] as nat) * 0x100 + (h[5] as nat)
}

/// The four bytes of a 32-bit word, most significant first.
pub open spec fn word_bytes(w: u32) -> Seq<u8> {
    seq![(w >> 24) as u8, ((w >> 16) & 0xff) as u8, ((w >> 8) & 0xff) as u8, (w & 0xff) as u8]
}

/// The score of a digest whose first two state words are `a` and `b`:
/// the bytes of `a`, then the upper two bytes of `b`.
pub open spec fn score_of_words(a: u32, b: u32) -> nat {
    score_of(word_bytes(a) + word_bytes(b))
}

/// Calculate the score from the hash output.
pub fn score_output(h: &[u8]) -> (score: u64)
    requires
        h@.len() >= 6,
    ensures
        score == score_of(h@),
        score < 0x1_0000_0000_0000,
{
    (h[0] as u64) * 0x100_0000_0000 + (h[1] as u64) * 0x1_0000_0000 + (h[2] as u64) * 0x100_0000
        + (h[3] as u64) * 0x1_0000 + (h[4] as u64) * 0x100 + (h[5] as u64)
}

/// Calculate the score from the raw a/b variables of the hash state.
pub fn score_ab(a: u32, b: u32) -> (score: u64)
    ensures
        score == score_of_words(a, b),
        score < 0x1_0000_0000_0000,
{
    let score: u64 = (a as u64) << 16 | (b as u64) >> 16;
    proof {
        lemma_score_of_words(a, b);
        assert(score == (a as u64) * 0x1_0000 + (b as u64) / 0x1_0000) by (bit_vector)
            requires
                score == (a as u64) << 16 | (b as u64) >> 16,
        ;
    }
    score
}

/// The score of two state words is the first word shifted up by sixteen bits
/// plus the upper half of the second.
pub proof fn lemma_score_of_words(a: u32, b: u32)
    ensures
        score_of_words(a, b) == (a as nat) * 0x1_0000 + (b as nat) / 0x1_0000,
        score_of_words(a, b) < 0x1_0000_0000_0000,
{
    let h = word_bytes(a) + word_bytes(b);
    assert(h[0] == (a >> 24) as u8);
    assert(h[1] == ((a >> 16) & 0xff) as u8);
    assert(h[2] == ((a >> 8) & 0xff) as u8);
    assert(h[3] == (a & 0xff) as u8);
    assert(h[4] == (b >> 24) as u8);
    assert(h[5] == ((b >> 16) & 0xff) as u8);
    assert(((a >> 24) as u8) as u64 * 0x100_0000 + (((a >> 16) & 0xff) as u8) as u64 * 0x1_0000 + (((a
        >> 8) & 0xff) as u8) as u64 * 0x100 + ((a & 0xff) as u8) as u64 == a as u64) by (bit_vector);
    assert(((b >> 24) as u8) as u64 * 0x100 + (((b >> 16) & 0xff) as u8) as u64 == (b as u64)
        / 0x1_0000) by (bit_vector);
}

/// The score of any digest has no more than 48 bits.
pub proof fn lemma_score_of_fits(h: Seq<u8>)
    ensures
        score_of(h) < 0x1_0000_0000_0000,
{
}

} // verus!
