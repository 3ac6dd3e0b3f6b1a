use kristforge::address::{Address, InvalidAddress, InvalidAddressLength};

#[test]
fn check_valid_addresses() {
    assert_eq!(Address::from_str("abcdef1234").unwrap().as_str(), "abcdef1234",);
    assert_eq!(Address::from_str("kabcdefghi").unwrap().as_str(), "kabcdefghi",);
    assert!(Address::from_str("abcdef1234").unwrap().eq_str("abcdef1234"));
    assert!(Address::from_str("kabcdefghi").unwrap().eq_str("kabcdefghi"));
}

#[test]
fn check_invalid_addresses() {
    assert_eq!(
        Address::from_str("abc").unwrap_err(),
        InvalidAddressLength(3)
    );
}

#[test]
fn address_check_valid_addresses() {
    assert_eq!(
        Address::from_str_checked("abcdef1234").unwrap().as_str(),
        "abcdef1234",
    );
    assert_eq!(
        Address::from_str_checked("kabcdefghi").unwrap().as_str(),
        "kabcdefghi",
    );
}

#[test]
fn address_check_invalid_addresses() {
    assert_eq!(
        Address::from_str_checked("abc").unwrap_err(),
        InvalidAddress::InvalidLength(3)
    );
    assert_eq!(
        Address::from_str_checked("abcdefghij").unwrap_err(),
        InvalidAddress::IllegalCharacter('g', 6)
    );
}

#[test]
fn address_length_is_counted_in_bytes() {
    assert_eq!(Address::from_str("").unwrap_err(), InvalidAddressLength(0));
    assert_eq!(
        Address::from_str("abcdef12345").unwrap_err(),
        InvalidAddressLength(11)
    );
    // five characters of two bytes each make ten bytes
    let a = Address::from_str("ééééé").unwrap();
    assert_eq!(a.as_str(), "ééééé");
    assert_eq!(a.as_bytes().len(), 10);
    // ten characters, eleven bytes
    assert_eq!(
        Address::from_str("kabcdefghé").unwrap_err(),
        InvalidAddressLength(11)
    );
}

#[test]
fn address_accepts_any_ten_bytes() {
    // the character classes belong to the checked form only
    assert_eq!(Address::from_str("abcdefghij").unwrap().as_str(), "abcdefghij");
    assert_eq!(Address::from_str("KABCDEFGHI").unwrap().as_str(), "KABCDEFGHI");
}

#[test]
fn address_round_trip() {
    for text in ["k5ztameslf", "abcdef1234", "kabcdefghi", "0000000000", "k123456789"] {
        let address = Address::from_str(text).unwrap();
        assert_eq!(address.as_str(), text);
        assert_eq!(address.to_string(), text.to_string());
        assert_eq!(address.as_bytes(), text.as_bytes());
        assert_eq!(Address::from_str(&address.to_string()).unwrap(), address);
    }
}

#[test]
fn address_checked_reports_first_illegal_character() {
    // characters are checked before the length
    assert_eq!(
        Address::from_str_checked("xyz").unwrap_err(),
        InvalidAddress::IllegalCharacter('x', 0)
    );
    assert_eq!(
        Address::from_str_checked("kxyz!").unwrap_err(),
        InvalidAddress::IllegalCharacter('!', 4)
    );
    assert_eq!(
        Address::from_str_checked("abcdéf").unwrap_err(),
        InvalidAddress::IllegalCharacter('é', 4)
    );
    assert_eq!(
        Address::from_str_checked("Kabcdefghi").unwrap_err(),
        InvalidAddress::IllegalCharacter('K', 0)
    );
    assert_eq!(
        Address::from_str_checked("").unwrap_err(),
        InvalidAddress::InvalidLength(0)
    );
    assert_eq!(
        Address::from_str_checked("kzzzzzzzzzz").unwrap_err(),
        InvalidAddress::InvalidLength(11)
    );
    assert_eq!(Address::from_str_checked("kzzzzzzzzz").unwrap().as_str(), "kzzzzzzzzz");
}

#[test]
fn address_comparisons() {
    let a = Address::from_str("k5ztameslf").unwrap();
    let b = Address::from_str("k5ztameslf").unwrap();
    let c = Address::from_str("k5ztameslg").unwrap();
    assert!(a.same_as(&b));
    assert!(!a.same_as(&c));
    assert!(a.eq_str("k5ztameslf"));
    assert!(!a.eq_str("k5ztameslg"));
    assert!(!a.eq_str("k5ztamesl"));
    assert_eq!(a, b);
    assert_ne!(a, c);
}
