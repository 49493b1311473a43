use ilp_node::address::{Address, AddressError, Username, UsernameError, MAX_ADDRESS_LEN};

#[test]
fn parses_valid_addresses() {
    assert_eq!(Address::parse("example.connector").unwrap().as_str(), "example.connector");
    assert_eq!(Address::parse("g").unwrap().len(), 1);
    assert!(Address::parse("a-b_c~d.E9").is_ok());
}

#[test]
fn rejects_malformed_addresses() {
    for text in ["", ".a", "a.", "a..b", "a b", "a.b/c", "é"] {
        assert_eq!(Address::parse(text).unwrap_err(), AddressError::InvalidAddress);
    }
}

#[test]
fn length_bound() {
    let longest = "a".repeat(MAX_ADDRESS_LEN);
    assert!(Address::parse(&longest).is_ok());
    let too_long = "a".repeat(MAX_ADDRESS_LEN + 1);
    assert_eq!(Address::parse(&too_long).unwrap_err(), AddressError::InvalidAddress);
}

#[test]
fn with_suffix_appends_segment() {
    let base = Address::parse("example.connector").unwrap();
    let derived = base.with_suffix("ausername").unwrap();
    assert_eq!(derived.as_str(), "example.connector.ausername");
    assert_eq!(derived, base.with_suffix("ausername").unwrap());
    assert_eq!(base.as_str(), "example.connector");
}

#[test]
fn with_suffix_rejects_bad_segments() {
    let base = Address::parse("example").unwrap();
    assert_eq!(base.with_suffix("").unwrap_err(), AddressError::InvalidAddress);
    assert_eq!(base.with_suffix("a b").unwrap_err(), AddressError::InvalidAddress);
    let near_full = Address::parse(&"a".repeat(MAX_ADDRESS_LEN - 2)).unwrap();
    assert!(near_full.with_suffix("b").is_ok());
    assert!(near_full.with_suffix("bc").is_err());
}

#[test]
fn parent_drops_last_segment() {
    let address = Address::parse("example.connector.ausername").unwrap();
    let parent = address.parent().unwrap();
    assert_eq!(parent.as_str(), "example.connector");
    assert_eq!(parent.parent().unwrap().as_str(), "example");
    assert!(Address::parse("example").unwrap().parent().is_none());
}

#[test]
fn usernames_are_single_segments() {
    assert_eq!(Username::parse("ausername").unwrap().as_str(), "ausername");
    assert_eq!(Username::parse("").unwrap_err(), UsernameError::InvalidUsername);
    assert_eq!(Username::parse("a.b").unwrap_err(), UsernameError::InvalidUsername);
    assert_eq!(Username::parse("a b").unwrap_err(), UsernameError::InvalidUsername);
}
