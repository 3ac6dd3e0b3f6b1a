//! Holding a device against the host: inputs are laid out lane by lane
//! for a kernel that hashes several of them at once, and what it returns
//! is compared with the digests and scores that the host computes.

use crate::kernels::score::{score_of, score_output};
use crate::kernels::unoptimized::{sha256, sha256_digest};
use vstd::prelude::*;

verus! {

/// Why a device failed the test.
#[derive(Debug, Clone, Copy, PartialEq, Eq)]
#[allow(inconsistent_fields)]
pub enum Mismatch {
    /// The device returned another digest for the input of a lane.
    Hash { lane: usize, expected: [u8; 32], got: [u8; 32] },
    /// The device returned another score for the input of a lane.
    Score { lane: usize, expected: i64, got: i64 },
}

/// Byte `j` of lane `i` in data laid out for `lanes` lanes: the bytes of
/// one place in all lanes stand together.
pub open spec fn lane_byte(data: Seq<u8>, lanes: int, i: int, j: int) -> u8 {
    data[i + j * lanes]
}

/// The 32 bytes of lane `i` in data laid out for `lanes` lanes.
pub open spec fn lane_of(data: Seq<u8>, lanes: int, i: int) -> Seq<u8> {
    Seq::new(32, |j: int| lane_byte(data, lanes, i, j))
}

/// Lay out inputs of 32 bytes lane by lane.
pub fn interleave(inputs: &Vec<[u8; 32]>) -> (data: Vec<u8>)
    requires
        inputs@.len() * 32 <= usize::MAX,
    ensures
        data@.len() == 32 * inputs@.len(),
        forall|i: int| 0 <= i < inputs@.len() ==> lane_of(data@, inputs@.len() as int, i) == (
        #[trigger] inputs@[i])@,
{
    let n: usize = inputs.len();
    let mut data: Vec<u8> = Vec::new();
    let mut j: usize = 0;
    while j < 32
        invariant
            j <= 32,
            n == inputs@.len(),
            n * 32 <= usize::MAX,
            data@.len() == j * n,
            forall|i: int, k: int|
                0 <= i < n && 0 <= k < j ==> #[trigger] lane_byte(data@, n as int, i, k)
                    == inputs@[i]@[k],
        decreases 32 - j,
    {
        let mut i: usize = 0;
        while i < n
            invariant
                i <= n,
                j < 32,
                n == inputs@.len(),
                n * 32 <= usize::MAX,
                data@.len() == j * n + i,
                forall|a: int, k: int|
                    0 <= a < n && 0 <= k < j ==> #[trigger] lane_byte(data@, n as int, a, k)
                        == inputs@[a]@[k],
                forall|a: int| 0 <= a < i ==> #[trigger] data@[a + j * n] == inputs@[a]@[j as int],
            decreases n - i,
        {
            let ghost before = data@;
            data.push(inputs[i][j]);
            proof {
                assert forall|a: int, k: int| 0 <= a < n && 0 <= k < j implies #[trigger] lane_byte(
                    data@,
                    n as int,
                    a,
                    k,
                ) == inputs@[a]@[k] by {
                    lemma_in_data(a, k, n as int, j as int);
                    assert(lane_byte(before, n as int, a, k) == inputs@[a]@[k]);
                }
            }
            i += 1;
        }
        proof {
            assert((j + 1) * n == j * n + n) by (nonlinear_arith);
            assert forall|a: int, k: int| 0 <= a < n && 0 <= k < j + 1 implies #[trigger] lane_byte(
                data@,
                n as int,
                a,
                k,
            ) == inputs@[a]@[k] by {
                if k == j {
                    assert(data@[a + j * n] == inputs@[a]@[j as int]);
                }
            }
        }
        j += 1;
    }
    proof {
        assert forall|i: int| 0 <= i < n implies lane_of(data@, n as int, i) == (
        #[trigger] inputs@[i])@ by {
            assert forall|k: int| 0 <= k < 32 implies lane_of(data@, n as int, i)[k]
                == inputs@[i]@[k] by {
                assert(lane_byte(data@, n as int, i, k) == inputs@[i]@[k]);
            }
            assert(lane_of(data@, n as int, i) =~= inputs@[i]@);
        }
    }
    data
}

/// A place of an earlier row stands before the end of that row.
proof fn lemma_in_data(a: int, k: int, n: int, j: int)
    requires
        0 <= a < n,
        0 <= k < j,
    ensures
        0 <= a + k * n < j * n,
{
    assert(a + k * n < j * n && k * n >= 0) by (nonlinear_arith)
        requires
            0 <= a < n,
            0 <= k,
            k + 1 <= j,
    ;
}

/// The 32 bytes of lane `i` of data laid out for `lanes` lanes.
pub fn lane(data: &Vec<u8>, lanes: usize, i: usize) -> (bytes: [u8; 32])
    requires
        data@.len() == 32 * lanes,
        i < lanes,
    ensures
        bytes@ == lane_of(data@, lanes as int, i as int),
{
    let len: usize = data.len();
    let mut bytes: [u8; 32] = [0u8; 32];
    let mut j: usize = 0;
    while j < 32
        invariant
            j <= 32,
            i < lanes,
            len == 32 * lanes,
            data@.len() == len,
            forall|k: int| 0 <= k < j ==> bytes@[k] == lane_byte(data@, lanes as int, i as int, k),
        decreases 32 - j,
    {
        proof {
            lemma_in_data(i as int, j as int, lanes as int, 32);
            assert(j * lanes >= 0) by (nonlinear_arith)
                requires
                    j >= 0,
                    lanes >= 0,
            ;
        }
        bytes[j] = data[i + j * lanes];
        j += 1;
    }
    assert(bytes@ =~= lane_of(data@, lanes as int, i as int));
    bytes
}

/// The score that belongs to a digest, as the device returns it.
pub fn expected_score(hash: &[u8; 32]) -> (score: i64)
    ensures
        score == score_of(hash@),
{
    let score: u64 = score_output(hash.as_slice());
    score as i64
}

/// Whether lane `i` of what the device returned is what the host computes
/// for input `i`: the digest of the input and the score of that digest.
pub open spec fn lane_holds(
    inputs: Seq<[u8; 32]>,
    hashes: Seq<u8>,
    scores: Seq<i64>,
    i: int,
) -> bool {
    lane_of(hashes, inputs.len() as int, i) == sha256(inputs[i]@) && scores[i] == score_of(
        sha256(inputs[i]@),
    )
}

/// Hold the digests and scores that a device returned, laid out lane by
/// lane, against those that the host computes for the inputs. The result
/// names the first lane that differs, its digest before its score.
pub fn check_lanes(inputs: &Vec<[u8; 32]>, hashes: &Vec<u8>, scores: &Vec<i64>) -> (r: Result<
    (),
    Mismatch,
>)
    requires
        hashes@.len() == 32 * inputs@.len(),
        scores@.len() == inputs@.len(),
    ensures
        match r {
            Ok(()) => forall|i: int|
                0 <= i < inputs@.len() ==> lane_holds(inputs@, hashes@, scores@, i),
            Err(Mismatch::Hash { lane, expected, got }) => {
                &&& lane < inputs@.len()
                &&& forall|i: int| 0 <= i < lane ==> lane_holds(inputs@, hashes@, scores@, i)
                &&& expected@ == sha256(inputs@[lane as int]@)
                &&& got@ == lane_of(hashes@, inputs@.len() as int, lane as int)
                &&& got@ != expected@
            },
            Err(Mismatch::Score { lane, expected, got }) => {
                &&& lane < inputs@.len()
                &&& forall|i: int| 0 <= i < lane ==> lane_holds(inputs@, hashes@, scores@, i)
                &&& lane_of(hashes@, inputs@.len() as int, lane as int) == sha256(
                    inputs@[lane as int]@,
                )
                &&& expected == score_of(sha256(inputs@[lane as int]@))
                &&& got == scores@[lane as int]
                &&& got != expected
            },
        },
{
    let n: usize = inputs.len();
    let mut i: usize = 0;
    while i < n
        invariant
            i <= n,
            n == inputs@.len(),
            hashes@.len() == 32 * n,
            scores@.len() == n,
            forall|k: int| 0 <= k < i ==> lane_holds(inputs@, hashes@, scores@, k),
        decreases n - i,
    {
        let expected = sha256_digest(inputs[i].as_slice());
        let got = lane(hashes, n, i);
        if !same_digest(&expected, &got) {
            return Err(Mismatch::Hash { lane: i, expected, got });
        }
        let score = expected_score(&expected);
        if scores[i] != score {
            return Err(Mismatch::Score { lane: i, expected: score, got: scores[i] });
        }
        i += 1;
    }
    Ok(())
}

/// Whether two digests are the same.
fn same_digest(a: &[u8; 32], b: &[u8; 32]) -> (same: bool)
    ensures
        same == (a@ == b@),
{
    let mut i: usize = 0;
    while i < 32
        invariant
            i <= 32,
            forall|j: int| 0 <= j < i ==> a@[j] == b@[j],
        decreases 32 - i,
    {
        if a[i] != b[i] {
            assert(a@[i as int] != b@[i as int]);
            return false;
        }
        i += 1;
    }
    assert(a@ =~= b@);
    true
}

} // verus!
