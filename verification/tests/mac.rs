use std::collections::hash_map::DefaultHasher;
use std::hash::{Hash, Hasher};

use haraltr::mac::{parse_ascii_hex, Mac, ParseMacError};

#[test]
fn parses_colon_form_uppercase() {
    let mac: Mac = "AA:BB:CC:DD:EE:FF".parse().unwrap();
    assert_eq!(mac.bytes(), [0xAA, 0xBB, 0xCC, 0xDD, 0xEE, 0xFF]);
}

#[test]
fn parses_dash_form_lowercase() {
    let mac: Mac = "aa-bb-cc-dd-ee-ff".parse().unwrap();
    assert_eq!(mac.bytes(), [0xAA, 0xBB, 0xCC, 0xDD, 0xEE, 0xFF]);
}

#[test]
fn parses_mixed_separators() {
    let mac: Mac = "Aa:Bb-Cc:Dd-Ee:Ff".parse().unwrap();
    assert_eq!(mac.bytes(), [0xAA, 0xBB, 0xCC, 0xDD, 0xEE, 0xFF]);
}

#[test]
fn display_is_uppercase_colons() {
    let mac = Mac::from([0x01, 0x23, 0x45, 0x67, 0x89, 0xAB]);
    assert_eq!(mac.to_string(), "01:23:45:67:89:AB");
}

#[test]
fn colon_and_dash_forms_are_equal() {
    let a: Mac = "aa:bb:cc:dd:ee:ff".parse().unwrap();
    let b: Mac = "AA-BB-CC-DD-EE-FF".parse().unwrap();
    assert_eq!(a, b);
    let mut ha = DefaultHasher::new();
    let mut hb = DefaultHasher::new();
    a.hash(&mut ha);
    b.hash(&mut hb);
    assert_eq!(ha.finish(), hb.finish());
}

#[test]
fn rejects_wrong_length() {
    assert!("AA:BB:CC:DD:EE".parse::<Mac>().is_err());
    assert!("AA:BB:CC:DD:EE:FF:00".parse::<Mac>().is_err());
    assert!("".parse::<Mac>().is_err());
}

#[test]
fn rejects_non_hex() {
    assert!("ZZ:BB:CC:DD:EE:FF".parse::<Mac>().is_err());
    assert!("AA:BB:CC:DD:EE:F_".parse::<Mac>().is_err());
}

#[test]
fn rejects_wrong_separator() {
    assert!("AA.BB.CC.DD.EE.FF".parse::<Mac>().is_err());
    assert!("AA,BB,CC,DD,EE,FF".parse::<Mac>().is_err());
    assert!("AA_BB_CC_DD_EE_FF".parse::<Mac>().is_err());
    assert!("AABBCCDDEEFF".parse::<Mac>().is_err());
}

#[test]
fn parse_method_agrees_with_from_str() {
    assert_eq!(Mac::parse("01:23:45:67:89:ab"), Ok(Mac::from([0x01, 0x23, 0x45, 0x67, 0x89, 0xAB])));
    assert_eq!(Mac::parse("01:23:45:67:89:a"), Err(ParseMacError));
}

#[test]
fn display_then_parse_gives_the_address_back() {
    let mac = Mac::from([0x00, 0x0F, 0xA0, 0xFF, 0x10, 0x9C]);
    let text = mac.to_string();
    assert_eq!(text, "00:0F:A0:FF:10:9C");
    assert_eq!(text.parse::<Mac>().unwrap(), mac);
}

#[test]
fn hex_digit_values() {
    assert_eq!(parse_ascii_hex(b'0'), Ok(0));
    assert_eq!(parse_ascii_hex(b'9'), Ok(9));
    assert_eq!(parse_ascii_hex(b'a'), Ok(10));
    assert_eq!(parse_ascii_hex(b'F'), Ok(15));
    assert_eq!(parse_ascii_hex(b'g'), Err(ParseMacError));
    assert_eq!(parse_ascii_hex(b':'), Err(ParseMacError));
}

#[test]
fn address_order_is_reversed() {
    let mac = Mac::from([1, 2, 3, 4, 5, 6]);
    assert_eq!(mac.address_order_bytes(), [6, 5, 4, 3, 2, 1]);
}

#[test]
fn parse_error_message() {
    assert_eq!(
        ParseMacError.to_string(),
        "invalid MAC address: expected six hex pairs separated by ':' or '-'"
    );
}

#[test]
fn bdaddr_form_prints_the_same_address() {
    let mac = Mac::from([0x01, 0x23, 0x45, 0x67, 0x89, 0xAB]);
    assert_eq!(mac.to_bdaddr().to_string(), "01:23:45:67:89:ab");
    let back: [u8; 6] = mac.to_bdaddr().into();
    assert_eq!(back, [0xAB, 0x89, 0x67, 0x45, 0x23, 0x01]);
}

#[test]
fn from_bytes_keeps_the_bytes() {
    let b = [0x10, 0x20, 0x30, 0x40, 0x50, 0x60];
    assert_eq!(Mac::from(b).bytes(), b);
}
