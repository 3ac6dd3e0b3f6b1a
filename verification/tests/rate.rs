use kristforge::rate::{Elapsed, HashRate};

fn rate(hashes: usize, secs: u64, nanos: u32) -> HashRate {
    HashRate {
        hashes,
        elapsed: Elapsed { secs, nanos },
    }
}

#[test]
fn test_hash_rate_formatting() {
    assert_eq!(
        HashRate {
            hashes: 1_000,
            elapsed: Elapsed::from_secs(1)
        }
        .to_string(),
        "1.00 kh/s"
    );

    assert_eq!(
        HashRate {
            hashes: 500_000_000_000,
            elapsed: Elapsed::from_secs(1)
        }
        .format(1),
        "500.0 Gh/s"
    );
}

#[test]
fn hash_rate_units_follow_the_magnitude() {
    assert_eq!(rate(1, 1, 0).to_string(), "1.00 h/s");
    assert_eq!(rate(999, 1, 0).to_string(), "999.00 h/s");
    assert_eq!(rate(1_000, 1, 0).to_string(), "1.00 kh/s");
    assert_eq!(rate(250_000, 1, 0).to_string(), "250.00 kh/s");
    assert_eq!(rate(1_000_000, 1, 0).to_string(), "1.00 Mh/s");
    assert_eq!(rate(1_500_000, 1, 0).to_string(), "1.50 Mh/s");
    assert_eq!(rate(1_000_000_000, 1, 0).to_string(), "1.00 Gh/s");
    assert_eq!(rate(1_000_000_000_000, 1, 0).to_string(), "1.00 Th/s");
    assert_eq!(rate(7_000_000_000_000, 1, 0).to_string(), "7.00 Th/s");
    // there is no unit above the fourth
    assert_eq!(rate(1_000_000_000_000_000, 1, 0).to_string(), "1000.00 Th/s");
}

#[test]
fn hash_rate_below_one() {
    assert_eq!(rate(0, 1, 0).to_string(), "0.00 h/s");
    assert_eq!(rate(1, 3, 0).to_string(), "0.33 h/s");
    assert_eq!(rate(2, 3, 0).to_string(), "0.67 h/s");
    assert_eq!(rate(1, 1000, 0).format(3), "0.001 h/s");
    assert_eq!(rate(1, 1000, 0).format(2), "0.00 h/s");
}

#[test]
fn hash_rate_divides_by_the_time() {
    assert_eq!(rate(1_000, 0, 500_000_000).to_string(), "2.00 kh/s");
    assert_eq!(rate(10_000, 4, 0).to_string(), "2.50 kh/s");
    assert_eq!(rate(10_000, 0, 1).to_string(), "10.00 Th/s");
    assert_eq!(rate(1, 0, 1).to_string(), "1.00 Gh/s");
}

#[test]
fn hash_rate_precision() {
    assert_eq!(rate(1_234_567, 1, 0).format(0), "1 Mh/s");
    assert_eq!(rate(1_234_567, 1, 0).format(1), "1.2 Mh/s");
    assert_eq!(rate(1_234_567, 1, 0).format(2), "1.23 Mh/s");
    assert_eq!(rate(1_234_567, 1, 0).format(3), "1.235 Mh/s");
    assert_eq!(rate(1_234_567, 1, 0).format(6), "1.234567 Mh/s");
    assert_eq!(rate(1_234_567, 1, 0).format(9), "1.234567000 Mh/s");
    assert_eq!(
        rate(1, 3, 0).format(40),
        "0.3333333333333333333333333333333333333333 h/s"
    );
}

#[test]
fn hash_rate_rounding() {
    // the magnitude is taken before the number is rounded
    assert_eq!(rate(999_999, 1, 0).to_string(), "1000.00 kh/s");
    assert_eq!(rate(999_994, 1, 0).to_string(), "999.99 kh/s");
    assert_eq!(rate(999, 1, 0).format(0), "999 h/s");
    assert_eq!(rate(9_999, 1, 0).format(0), "10 kh/s");
    assert_eq!(rate(9_999, 1, 0).format(2), "10.00 kh/s");
    // of two equally near, the even one
    assert_eq!(rate(1_125, 1, 0).to_string(), "1.12 kh/s");
    assert_eq!(rate(1_375, 1, 0).to_string(), "1.38 kh/s");
    assert_eq!(rate(1_500, 1, 0).format(0), "2 kh/s");
    assert_eq!(rate(2_500, 1, 0).format(0), "2 kh/s");
    assert_eq!(rate(3_500, 1, 0).format(0), "4 kh/s");
    assert_eq!(rate(1, 2, 0).format(0), "0 h/s");
    assert_eq!(rate(3, 2, 0).format(0), "2 h/s");
}

#[test]
fn hash_rate_over_no_time() {
    assert_eq!(rate(1_000, 0, 0).to_string(), "inf Th/s");
    assert_eq!(rate(0, 0, 0).to_string(), "NaN h/s");
    assert_eq!(rate(0, 0, 0).format(5), "NaN h/s");
}

#[test]
fn hash_rate_of_the_largest_inputs() {
    assert_eq!(
        rate(18_446_744_073_709_551_615, 0, 1).format(0),
        "18446744073709552 Th/s"
    );
    assert_eq!(
        rate(18_446_744_073_709_551_615, 0, 1).format(3),
        "18446744073709551.615 Th/s"
    );
    assert_eq!(rate(1, u64::MAX, u32::MAX).format(2), "0.00 h/s");
    assert_eq!(rate(usize::MAX, u64::MAX, 0).format(2), "1.00 h/s");
}

#[test]
fn hash_rate_ascii_is_the_text() {
    let r = rate(123_456, 1, 0);
    assert_eq!(r.format_ascii(2), b"123.46 kh/s".to_vec());
    assert_eq!(r.format(2).as_bytes(), &r.format_ascii(2)[..]);
}
