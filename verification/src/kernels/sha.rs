//! SHA-256 of a single padded block, and the kernel that scores with it.

use crate::input::{padding, ScalarKernelInput};
use crate::kernels::score::{
    lemma_score_of_fits, lemma_score_of_words, score_ab, score_of, score_of_words, word_bytes,
};
use crate::kernels::unoptimized::{sha256, Unoptimized};
use crate::kernels::Kernel;
use vstd::prelude::*;

verus! {

/// The round constants of SHA-256.
pub const K: [u32; 64] = [
    0x428a2f98, 0x71374491, 0xb5c0fbcf, 0xe9b5dba5, 0x3956c25b, 0x59f111f1, 0x923f82a4, 0xab1c5ed5,
    0xd807aa98, 0x12835b01, 0x243185be, 0x550c7dc3, 0x72be5d74, 0x80deb1fe, 0x9bdc06a7, 0xc19bf174,
    0xe49b69c1, 0xefbe4786, 0x0fc19dc6, 0x240ca1cc, 0x2de92c6f, 0x4a7484aa, 0x5cb0a9dc, 0x76f988da,
    0x983e5152, 0xa831c66d, 0xb00327c8, 0xbf597fc7, 0xc6e00bf3, 0xd5a79147, 0x06ca6351, 0x14292967,
    0x27b70a85, 0x2e1b2138, 0x4d2c6dfc, 0x53380d13, 0x650a7354, 0x766a0abb, 0x81c2c92e, 0x92722c85,
    0xa2bfe8a1, 0xa81a664b, 0xc24b8b70, 0xc76c51a3, 0xd192e819, 0xd6990624, 0xf40e3585, 0x106aa070,
    0x19a4c116, 0x1e376c08, 0x2748774c, 0x34b0bcb5, 0x391c0cb3, 0x4ed8aa4a, 0x5b9cca4f, 0x682e6ff3,
    0x748f82ee, 0x78a5636f, 0x84c87814, 0x8cc70208, 0x90befffa, 0xa4506ceb, 0xbef9a3f7, 0xc67178f2,
];

/// The initial hash value of SHA-256.
pub const IV: [u32; 8] = [
    0x6a09e667, 0xbb67ae85, 0x3c6ef372, 0xa54ff53a, 0x510e527f, 0x9b05688c, 0x1f83d9ab, 0x5be0cd19,
];

/// Addition modulo 2^32.
pub open spec fn add32(x: u32, y: u32) -> u32 {
    if x + y >= 0x1_0000_0000 {
        (x + y - 0x1_0000_0000) as u32
    } else {
        (x + y) as u32
    }
}

/// The choice function: the bits of `y` where `x` is set, those of `z` elsewhere.
pub open spec fn ch(x: u32, y: u32, z: u32) -> u32 {
    (x & y) ^ (!x & z)
}

/// The majority function.
pub open spec fn maj(x: u32, y: u32, z: u32) -> u32 {
    (x & y) ^ (x & z) ^ (y & z)
}

/// Rotations by 2, 13 and 22 bits to the right, combined.
pub open spec fn big_sigma0(x: u32) -> u32 {
    ((x >> 2) | (x << 30)) ^ ((x >> 13) | (x << 19)) ^ ((x >> 22) | (x << 10))
}

/// Rotations by 6, 11 and 25 bits to the right, combined.
pub open spec fn big_sigma1(x: u32) -> u32 {
    ((x >> 6) | (x << 26)) ^ ((x >> 11) | (x << 21)) ^ ((x >> 25) | (x << 7))
}

/// Rotations by 7 and 18 bits and a shift by 3 bits to the right, combined.
pub open spec fn small_sigma0(x: u32) -> u32 {
    ((x >> 7) | (x << 25)) ^ ((x >> 18) | (x << 14)) ^ (x >> 3)
}

/// Rotations by 17 and 19 bits and a shift by 10 bits to the right, combined.
pub open spec fn small_sigma1(x: u32) -> u32 {
    ((x >> 17) | (x << 15)) ^ ((x >> 19) | (x << 13)) ^ (x >> 10)
}

/// The big-endian word that the four bytes of `block` from `4 * t` on spell.
pub open spec fn block_word(block: Seq<u8>, t: int) -> u32 {
    (block[4 * t] as u32) << 24 | (block[4 * t + 1] as u32) << 16 | (block[4 * t + 2] as u32) << 8
        | (block[4 * t + 3] as u32)
}

/// Word `t` of the message schedule of `block`.
pub open spec fn schedule(block: Seq<u8>, t: int) -> u32
    decreases t,
{
    if t < 16 {
        block_word(block, t)
    } else {
        add32(
            add32(
                add32(small_sigma1(schedule(block, t - 2)), schedule(block, t - 7)),
                small_sigma0(schedule(block, t - 15)),
            ),
            schedule(block, t - 16),
        )
    }
}

/// One round of the compression function on the working variables `s`,
/// with round constant `k` and schedule word `w`.
pub open spec fn round(s: Seq<u32>, k: u32, w: u32) -> Seq<u32> {
    let t1 = add32(add32(add32(add32(s[7], big_sigma1(s[4])), ch(s[4], s[5], s[6])), k), w);
    let t2 = add32(big_sigma0(s[0]), maj(s[0], s[1], s[2]));
    seq![add32(t1, t2), s[0], s[1], s[2], add32(s[3], t1), s[4], s[5], s[6]]
}

/// The working variables after the first `t` rounds over `block`, from `init`.
pub open spec fn rounds(block: Seq<u8>, init: Seq<u32>, t: nat) -> Seq<u32>
    decreases t,
{
    if t == 0 {
        init
    } else {
        round(rounds(block, init, (t - 1) as nat), K@[t - 1], schedule(block, t - 1))
    }
}

/// The hash state after compressing `block` into the state `init`.
pub open spec fn compress(init: Seq<u32>, block: Seq<u8>) -> Seq<u32> {
    let s = rounds(block, init, 64);
    Seq::new(8, |i: int| add32(init[i], s[i]))
}

/// The SHA-256 state after the single block `block`, from the initial hash value.
pub open spec fn sha256_block(block: Seq<u8>) -> Seq<u32> {
    compress(IV@, block)
}

fn wadd(x: u32, y: u32) -> (r: u32)
    ensures
        r == add32(x, y),
{
    x.wrapping_add(y)
}

fn load_word(data: &[u8; 64], t: usize) -> (w: u32)
    requires
        t < 16,
    ensures
        w == block_word(data@, t as int),
{
    (data[4 * t] as u32) << 24 | (data[4 * t + 1] as u32) << 16 | (data[4 * t + 2] as u32) << 8 | (
    data[4 * t + 3] as u32)
}

fn expand(data: &[u8; 64]) -> (w: [u32; 64])
    ensures
        forall|t: int| 0 <= t < 64 ==> w@[t] == schedule(data@, t),
{
    let mut w: [u32; 64] = [0u32; 64];
    let mut t: usize = 0;
    while t < 16
        invariant
            t <= 16,
            forall|j: int| 0 <= j < t ==> w@[j] == schedule(data@, j),
        decreases 16 - t,
    {
        w[t] = load_word(data, t);
        t += 1;
    }
    while t < 64
        invariant
            16 <= t <= 64,
            forall|j: int| 0 <= j < t ==> w@[j] == schedule(data@, j),
        decreases 64 - t,
    {
        let x: u32 = w[t - 2];
        let y: u32 = w[t - 15];
        let sig1: u32 = ((x >> 17) | (x << 15)) ^ ((x >> 19) | (x << 13)) ^ (x >> 10);
        let sig0: u32 = ((y >> 7) | (y << 25)) ^ ((y >> 18) | (y << 14)) ^ (y >> 3);
        w[t] = wadd(wadd(wadd(sig1, w[t - 7]), sig0), w[t - 16]);
        t += 1;
    }
    w
}

/// Process one block. The caller sets the initial state and pads the block.
pub fn process(state: &mut [u32; 8], data: &[u8; 64])
    ensures
        final(state)@ == compress(old(state)@, data@),
{
    let w = expand(data);
    let mut a: u32 = state[0];
    let mut b: u32 = state[1];
    let mut c: u32 = state[2];
    let mut d: u32 = state[3];
    let mut e: u32 = state[4];
    let mut f: u32 = state[5];
    let mut g: u32 = state[6];
    let mut h: u32 = state[7];
    let mut t: usize = 0;
    while t < 64
        invariant
            t <= 64,
            forall|j: int| 0 <= j < 64 ==> w@[j] == schedule(data@, j),
            seq![a, b, c, d, e, f, g, h] == rounds(data@, state@, t as nat),
        decreases 64 - t,
    {
        let sig1: u32 = ((e >> 6) | (e << 26)) ^ ((e >> 11) | (e << 21)) ^ ((e >> 25) | (e << 7));
        let choice: u32 = (e & f) ^ (!e & g);
        let t1: u32 = wadd(wadd(wadd(wadd(h, sig1), choice), K[t]), w[t]);
        let sig0: u32 = ((a >> 2) | (a << 30)) ^ ((a >> 13) | (a << 19)) ^ ((a >> 22) | (a << 10));
        let majority: u32 = (a & b) ^ (a & c) ^ (b & c);
        let t2: u32 = wadd(sig0, majority);
        proof {
            let s = seq![a, b, c, d, e, f, g, h];
            assert(round(s, K@[t as int], w@[t as int]) == seq![
                add32(t1, t2),
                a,
                b,
                c,
                add32(d, t1),
                e,
                f,
                g,
            ]);
        }
        h = g;
        g = f;
        f = e;
        e = wadd(d, t1);
        d = c;
        c = b;
        b = a;
        a = wadd(t1, t2);
        t += 1;
    }
    let ghost before = state@;
    let ghost after = seq![a, b, c, d, e, f, g, h];
    state[0] = wadd(state[0], a);
    state[1] = wadd(state[1], b);
    state[2] = wadd(state[2], c);
    state[3] = wadd(state[3], d);
    state[4] = wadd(state[4], e);
    state[5] = wadd(state[5], f);
    state[6] = wadd(state[6], g);
    state[7] = wadd(state[7], h);
    assert(state@ =~= compress(before, data@));
}

/// SHA-256 state after a single padded block of data.
pub fn digest(data: &[u8; 64]) -> (state: [u32; 8])
    ensures
        state@ == sha256_block(data@),
{
    let mut state: [u32; 8] = IV;
    process(&mut state, data);
    state
}

/// The 32 bytes of a hash state of eight words, each word big-endian.
pub open spec fn digest_bytes(state: Seq<u32>) -> Seq<u8> {
    Seq::new(32, |i: int| word_bytes(state[i / 4])[i % 4])
}

/// CPU mining kernel that compresses the padded block itself, and takes the
/// score from the first two words of the state.
pub struct SHA;

impl Kernel for SHA {
    /// The leading 48 bits of the SHA-256 state after the block.
    open spec fn spec_score(&self, block: Seq<u8>) -> nat {
        score_of(digest_bytes(sha256_block(block)))
    }

    proof fn lemma_score_fits(&self, block: Seq<u8>) {
        lemma_score_of_fits(digest_bytes(sha256_block(block)));
    }

    fn score(&self, input: &ScalarKernelInput) -> (score: u64) {
        let state = digest(input.data_block());
        proof {
            lemma_leading_words(state@);
        }
        score_ab(state[0], state[1])
    }
}

/// The score of a hash state is that of its first two words.
pub proof fn lemma_leading_words(state: Seq<u32>)
    requires
        state.len() == 8,
    ensures
        score_of(digest_bytes(state)) == score_of_words(state[0], state[1]),
{
    let d = digest_bytes(state);
    let w = word_bytes(state[0]) + word_bytes(state[1]);
    assert(d[0] == w[0]);
    assert(d[1] == w[1]);
    assert(d[2] == w[2]);
    assert(d[3] == w[3]);
    assert(d[4] == w[4]);
    assert(d[5] == w[5]);
}

/// Both kernels score a message of 33 bytes by the leading 48 bits of its
/// SHA-256 digest: the portable kernel by the digest that `ring` computes
/// of the message, the other by its own compression of the padded message
/// from the initial hash value.
pub proof fn lemma_kernel_scores(m: Seq<u8>)
    requires
        m.len() == 33,
    ensures
        Unoptimized.spec_score(m + padding()) == score_of(sha256(m)),
        SHA.spec_score(m + padding()) == score_of(digest_bytes(sha256_block(m + padding()))),
        SHA.spec_score(m + padding()) == score_of_words(
            sha256_block(m + padding())[0],
            sha256_block(m + padding())[1],
        ),
        SHA.spec_score(m + padding()) < 0x1_0000_0000_0000,
{
    assert((m + padding()).subrange(0, 33) =~= m);
    let state = sha256_block(m + padding());
    lemma_leading_words(state);
    lemma_score_of_words(state[0], state[1]);
}

/// The two kernels give one score to a message of 33 bytes wherever the
/// digest that `ring` computes of it is the state that the compression of
/// the padded message leaves, written out in bytes.
pub proof fn lemma_kernels_agree(m: Seq<u8>)
    requires
        m.len() == 33,
        sha256(m) == digest_bytes(sha256_block(m + padding())),
    ensures
        SHA.spec_score(m + padding()) == Unoptimized.spec_score(m + padding()),
{
    lemma_kernel_scores(m);
}

} // verus!
