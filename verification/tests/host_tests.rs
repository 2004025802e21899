use thttp::host::{is_valid_host, validate_host};

#[test]
fn rejects_out_of_range_octet() {
    assert!(!is_valid_host("256.1.1.1"));
    assert_eq!(validate_host("256.1.1.1").as_str(), "0.0.0.0");
}

#[test]
fn rejects_hostname() {
    assert!(!is_valid_host("localhost"));
    assert_eq!(validate_host("localhost").as_str(), "0.0.0.0");
}

#[test]
fn rejects_plain_word() {
    assert!(!is_valid_host("abc"));
    assert_eq!(validate_host("abc").as_str(), "0.0.0.0");
}

#[test]
fn accepts_loopback_unchanged() {
    assert!(is_valid_host("127.0.0.1"));
    assert_eq!(validate_host("127.0.0.1").as_str(), "127.0.0.1");
}

#[test]
fn accepts_all_zeroes_and_all_max() {
    assert!(is_valid_host("0.0.0.0"));
    assert!(is_valid_host("255.255.255.255"));
}

#[test]
fn rejects_wrong_shape() {
    assert!(!is_valid_host(""));
    assert!(!is_valid_host("1.2.3"));
    assert!(!is_valid_host("1.2.3.4.5"));
    assert!(!is_valid_host("1..2.3"));
    assert!(!is_valid_host("1.2.3."));
    assert!(!is_valid_host(".1.2.3"));
}

#[test]
fn rejects_leading_zeros_and_junk() {
    assert!(!is_valid_host("01.2.3.4"));
    assert!(!is_valid_host("1.2.3.004"));
    assert!(!is_valid_host("1.2.3.4a"));
    assert!(!is_valid_host("1.2.3.-4"));
    assert!(!is_valid_host("999.1.1.1"));
}
