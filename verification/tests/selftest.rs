use kristforge::selftest::{check_lanes, expected_score, interleave, lane, Mismatch};
use sha2::{Digest, Sha256};

fn inputs(n: usize) -> Vec<[u8; 32]> {
    (0..n)
        .map(|i| {
            let mut input = [0u8; 32];
            for (j, byte) in input.iter_mut().enumerate() {
                *byte = (i * 40 + j) as u8;
            }
            input
        })
        .collect()
}

fn digests(inputs: &[[u8; 32]]) -> Vec<[u8; 32]> {
    inputs.iter().map(|input| Sha256::digest(input).into()).collect()
}

fn scores(digests: &[[u8; 32]]) -> Vec<i64> {
    digests
        .iter()
        .map(|d| {
            let mut score = [0u8; 8];
            score[2..].copy_from_slice(&d[..6]);
            i64::from_be_bytes(score)
        })
        .collect()
}

#[test]
fn lanes_are_interleaved() {
    let three = inputs(3);
    let data = interleave(&three);
    assert_eq!(data.len(), 96);
    // the first bytes of all lanes, then the second bytes, and so on
    assert_eq!(&data[..6], &[0, 40, 80, 1, 41, 81]);
    assert_eq!(&data[93..], &[31, 71, 111]);
    for i in 0..3 {
        for j in 0..32 {
            assert_eq!(data[i + j * 3], three[i][j]);
        }
        assert_eq!(lane(&data, 3, i), three[i]);
    }
    assert_eq!(interleave(&vec![]), Vec::<u8>::new());
    let one = inputs(1);
    assert_eq!(interleave(&one), one[0].to_vec());
    assert_eq!(lane(&interleave(&one), 1, 0), one[0]);
}

#[test]
fn expected_scores() {
    let mut hash = [0u8; 32];
    assert_eq!(expected_score(&hash), 0);
    hash[5] = 1;
    hash[6] = 0xff;
    assert_eq!(expected_score(&hash), 1);
    hash[0] = 0x80;
    assert_eq!(expected_score(&hash), 0x8000_0000_0001);
    assert_eq!(expected_score(&[0xff; 32]), 0xffff_ffff_ffff);
}

#[test]
fn a_device_that_agrees_passes() {
    for n in [0usize, 1, 2, 4, 8, 16] {
        let inputs = inputs(n);
        let digests = digests(&inputs);
        let scores = scores(&digests);
        assert_eq!(check_lanes(&inputs, &interleave(&digests), &scores), Ok(()));
    }
}

#[test]
fn a_device_that_differs_fails() {
    let inputs = inputs(4);
    let digests = digests(&inputs);
    let scores = scores(&digests);
    // lane 2 returns a digest with one bit flipped
    let mut wrong = digests.clone();
    wrong[2][31] ^= 1;
    assert_eq!(
        check_lanes(&inputs, &interleave(&wrong), &scores),
        Err(Mismatch::Hash {
            lane: 2,
            expected: digests[2],
            got: wrong[2]
        })
    );
    // lanes 1 and 3 return another score: the first of them is named
    let mut off = scores.clone();
    off[1] += 1;
    off[3] = 0;
    assert_eq!(
        check_lanes(&inputs, &interleave(&digests), &off),
        Err(Mismatch::Score {
            lane: 1,
            expected: scores[1],
            got: scores[1] + 1
        })
    );
    // within a lane the digest is held against the host before the score
    let mut both = digests.clone();
    both[1][0] ^= 0x80;
    assert_eq!(
        check_lanes(&inputs, &interleave(&both), &off),
        Err(Mismatch::Hash {
            lane: 1,
            expected: digests[1],
            got: both[1]
        })
    );
    // the inputs laid out in the place of their digests
    assert!(check_lanes(&inputs, &interleave(&inputs), &scores).is_err());
}
