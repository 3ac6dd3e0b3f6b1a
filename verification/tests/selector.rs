use kristforge::selector::{InvalidSelector, Selector};
use kristforge::types::{InvalidVectorSize, VectorSize, VectorSizeError};

#[test]
fn test_parse_selectors() {
    assert_eq!(Ok(Selector::All), Selector::from_str("all"));
    assert_eq!(Ok(Selector::PlatformIndex(1)), Selector::from_str("p1"));
    assert_eq!(Ok(Selector::DeviceIndex(1, 2)), Selector::from_str("p1d2"));
    assert_eq!(
        Err(InvalidSelector("blah".into())),
        Selector::from_str("blah")
    );
}

#[test]
fn selector_numbers() {
    assert_eq!(Ok(Selector::PlatformIndex(0)), Selector::from_str("p0"));
    assert_eq!(Ok(Selector::PlatformIndex(1)), Selector::from_str("p01"));
    assert_eq!(Ok(Selector::PlatformIndex(1234567)), Selector::from_str("p1234567"));
    assert_eq!(
        Ok(Selector::DeviceIndex(10, 200)),
        Selector::from_str("p10d0200")
    );
    assert_eq!(
        Ok(Selector::PlatformIndex(usize::MAX)),
        Selector::from_str(&format!("p{}", usize::MAX))
    );
    assert_eq!(
        Ok(Selector::DeviceIndex(usize::MAX, usize::MAX)),
        Selector::from_str(&format!("p{}d{}", usize::MAX, usize::MAX))
    );
}

#[test]
fn selector_rejects() {
    for text in [
        "", "p", "d", "pd", "p1d", "pd1", "p1d2d3", "p1x", "p1 ", " p1", "P1", "ALL", "all ",
        "p-1", "p+1", "p1d+2", "al", "alll", "p1d2x", "1", "p１",
        "p99999999999999999999999999", "p1d99999999999999999999999999",
        "p18446744073709551616",
    ] {
        assert_eq!(
            Err(InvalidSelector(text.to_string())),
            Selector::from_str(text),
            "{:?}",
            text
        );
    }
}

#[test]
fn selector_matching() {
    assert!(Selector::All.matches(3, 4));
    assert!(Selector::PlatformIndex(3).matches(3, 4));
    assert!(!Selector::PlatformIndex(2).matches(3, 4));
    assert!(Selector::DeviceIndex(3, 4).matches(3, 4));
    assert!(!Selector::DeviceIndex(3, 5).matches(3, 4));
    assert!(!Selector::DeviceIndex(4, 4).matches(3, 4));
    let pool = vec![2usize, 0, 3];
    assert!(Selector::All.is_in_range(&pool));
    assert!(Selector::PlatformIndex(2).is_in_range(&pool));
    assert!(!Selector::PlatformIndex(3).is_in_range(&pool));
    assert!(Selector::DeviceIndex(2, 2).is_in_range(&pool));
    assert!(!Selector::DeviceIndex(2, 3).is_in_range(&pool));
    assert!(!Selector::DeviceIndex(1, 0).is_in_range(&pool));
    assert!(!Selector::DeviceIndex(5, 0).is_in_range(&pool));
}

#[test]
fn selector_select_all() {
    let pool = vec![2usize, 0, 3];
    assert_eq!(
        Selector::select_all(&vec![Selector::All], &pool),
        vec![(0, 0), (0, 1), (2, 0), (2, 1), (2, 2)]
    );
    assert_eq!(
        Selector::select_all(&vec![Selector::PlatformIndex(2)], &pool),
        vec![(2, 0), (2, 1), (2, 2)]
    );
    // each device once, whatever the number of selectors that match it
    assert_eq!(
        Selector::select_all(
            &vec![
                Selector::DeviceIndex(2, 1),
                Selector::PlatformIndex(0),
                Selector::DeviceIndex(0, 1),
                Selector::DeviceIndex(2, 1),
            ],
            &pool
        ),
        vec![(0, 0), (0, 1), (2, 1)]
    );
    assert_eq!(Selector::select_all(&vec![], &pool), vec![]);
    assert_eq!(
        Selector::select_all(&vec![Selector::PlatformIndex(1)], &pool),
        vec![]
    );
    assert_eq!(
        Selector::select_all(&vec![Selector::DeviceIndex(7, 0)], &pool),
        vec![]
    );
    assert!(Selector::any_matches(&vec![Selector::PlatformIndex(1), Selector::All], 0, 0));
    assert!(!Selector::any_matches(&vec![Selector::PlatformIndex(1)], 0, 0));
}

#[test]
fn vector_sizes() {
    for v in [1u8, 2, 4, 8, 16] {
        assert_eq!(VectorSize::from_str(&v.to_string()), Ok(VectorSize(v)));
        assert_eq!(VectorSize(v).value(), v);
    }
    assert_eq!(VectorSize::from_str("+8"), Ok(VectorSize(8)));
    assert_eq!(VectorSize::from_str("008"), Ok(VectorSize(8)));
    assert_eq!(
        VectorSize::from_str("3"),
        Err(VectorSizeError::Invalid(InvalidVectorSize(3)))
    );
    assert_eq!(
        VectorSize::from_str("0"),
        Err(VectorSizeError::Invalid(InvalidVectorSize(0)))
    );
    assert_eq!(
        VectorSize::from_str("255"),
        Err(VectorSizeError::Invalid(InvalidVectorSize(255)))
    );
    for text in ["", "+", "256", "-1", "8 ", " 8", "eight", "1_6", "99999999999999999999999"] {
        assert_eq!(
            VectorSize::from_str(text),
            Err(VectorSizeError::NotANumber),
            "{:?}",
            text
        );
    }
}
